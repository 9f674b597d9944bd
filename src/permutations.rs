use vstd::prelude::*;
use crate::cursor::Cursor;
use crate::error::ItertoolsError;
use crate::integer::{size_arg, Integer};
use crate::pool::{drain, first_indices, pick, picks};

verus! {

/// `idx` holds each of `0..n` exactly once.
pub open spec fn perm_of(idx: Seq<usize>, n: int) -> bool {
    &&& idx.len() == n
    &&& forall|k: int| 0 <= k < n ==> idx[k] < n
    &&& forall|a: int, b: int| 0 <= a < n && 0 <= b < n && a != b ==> idx[a] != idx[b]
}

/// `idx` names distinct positions below `n`.
pub open spec fn distinct_positions(idx: Seq<usize>, n: int) -> bool {
    &&& forall|k: int| 0 <= k < idx.len() ==> idx[k] < n
    &&& forall|a: int, b: int| 0 <= a < idx.len() && 0 <= b < idx.len() && a != b ==> idx[a] != idx[b]
}

/// Every rollover counter stands at one: the enumeration is over.
pub open spec fn counters_done(c: Seq<usize>) -> bool {
    forall|q: int| 0 <= q < c.len() ==> c[q] == 1
}

/// `new` follows `old` as counters: the rightmost counter `p` above one is
/// lowered by one, every later counter (each at one) is reset to `n - q`.
pub open spec fn next_counters(old: Seq<usize>, new: Seq<usize>, n: int) -> bool {
    let r = old.len();
    new.len() == r && exists|p: int| #![trigger old[p]]
        0 <= p < r && old[p] > 1
        && (forall|q: int| p < q < r ==> old[q] == 1)
        && (forall|q: int| 0 <= q < p ==> new[q] == old[q])
        && new[p] == old[p] - 1
        && (forall|q: int| p < q < r ==> new[q] == n - q)
}

/// `idx` with the entry at `i` moved to the end, later entries shifting left.
pub open spec fn rotated(idx: Seq<usize>, i: int) -> Seq<usize> {
    idx.subrange(0, i) + idx.subrange(i + 1, idx.len() as int) + seq![idx[i]]
}

/// `idx` with the entries at `i` and `k` exchanged.
pub open spec fn swapped(idx: Seq<usize>, i: int, k: int) -> Seq<usize> {
    idx.update(i, idx[k]).update(k, idx[i])
}

/// One step of the enumeration, scanning positions `i - 1` down to `0`:
/// a counter at one rolls over (its position's entry is rotated to the end
/// and the counter reset to `n - p`); the first counter above one is
/// lowered to `c` and the entry at its position swapped with the one at
/// `n - c`. Gives the new positions, the new counters, and whether a
/// counter above one was found.
pub open spec fn perm_scan(idx: Seq<usize>, cyc: Seq<usize>, i: int, n: int)
    -> (Seq<usize>, Seq<usize>, bool)
    decreases i,
{
    if i <= 0 {
        (idx, cyc, false)
    } else if cyc[i - 1] <= 1 {
        perm_scan(rotated(idx, i - 1), cyc.update(i - 1, (n - (i - 1)) as usize), i - 1, n)
    } else {
        let c = (cyc[i - 1] - 1) as usize;
        (swapped(idx, i - 1, n - c), cyc.update(i - 1, c), true)
    }
}

/// All orderings of `r` distinct pool positions, driven by per-position
/// cycle counters.
#[derive(Debug)]
pub struct PyItertoolsPermutations<V> {
    pub pool: Vec<V>,
    /// A permutation of every pool position.
    pub indices: Vec<usize>,
    /// One rollover counter per position of the result.
    pub cycles: Vec<usize>,
    /// The positions most recently handed out.
    pub result: Option<Vec<usize>>,
    pub r: usize,
    pub exhausted: bool,
}

impl<V: Copy> PyItertoolsPermutations<V> {
    pub open spec fn wf(&self) -> bool {
        let n = self.pool.len() as int;
        !self.exhausted ==> {
            &&& self.r <= n
            &&& perm_of(self.indices@, n)
            &&& self.cycles.len() == self.r
            &&& forall|i: int| 0 <= i < self.r ==> 1 <= #[trigger] self.cycles[i] <= n - i
            &&& self.result is None ==> forall|k: int| 0 <= k < n ==> #[trigger] self.indices[k] == k
            &&& self.result is Some ==> {
                &&& self.result->Some_0.len() == self.r
                &&& forall|k: int| 0 <= k < self.r ==> #[trigger] self.result->Some_0[k] == self.indices[k]
            }
        }
    }

    /// Reads the whole source into the pool. `r` defaults to the pool's
    /// size; a negative `r`, or one above `isize::MAX`, is refused; one
    /// above the pool's size gives nothing.
    pub fn py_new<S: Cursor<V>>(iterable: S, r: Option<Integer>) -> (res: Result<Self, ItertoolsError>)
        ensures
            iterable.failure() matches Some(e) ==> res == Err::<Self, ItertoolsError>(ItertoolsError::Source(e)),
            iterable.failure() is None ==> match r {
                Some(rv) => if rv.value() < 0 {
                    res == Err::<Self, ItertoolsError>(ItertoolsError::NegativeSize)
                } else if rv.value() > isize::MAX {
                    res == Err::<Self, ItertoolsError>(ItertoolsError::Overflow)
                } else {
                    res is Ok && res->Ok_0.wf() && res->Ok_0.pool@ == iterable.rest()
                        && res->Ok_0.result is None
                        && res->Ok_0.exhausted == (rv.value() > iterable.rest().len())
                        && (!res->Ok_0.exhausted ==> res->Ok_0.r == rv.value())
                },
                None => res is Ok && res->Ok_0.wf() && res->Ok_0.pool@ == iterable.rest()
                    && res->Ok_0.result is None
                    && !res->Ok_0.exhausted && res->Ok_0.r == iterable.rest().len(),
            },
            res is Ok && !res->Ok_0.exhausted ==> (forall|i: int| 0 <= i < res->Ok_0.r
                ==> #[trigger] res->Ok_0.cycles[i] == res->Ok_0.pool.len() - i)
                && (forall|k: int| 0 <= k < res->Ok_0.pool.len() ==> #[trigger] res->Ok_0.indices[k] == k),
    {
        let mut iterable = iterable;
        let pool = match drain(&mut iterable) {
            Ok(pool) => pool,
            Err(e) => return Err(ItertoolsError::Source(e)),
        };
        let n = pool.len();
        let r = match r {
            Some(rv) => {
                let r = size_arg(&rv, ItertoolsError::NegativeSize)?;
                if r > n {
                    return Ok(PyItertoolsPermutations {
                        pool,
                        indices: first_indices(n),
                        cycles: Vec::new(),
                        result: None,
                        r: 0,
                        exhausted: true,
                    });
                }
                r
            },
            None => n,
        };
        let indices = first_indices(n);
        let mut cycles: Vec<usize> = Vec::new();
        let mut i: usize = 0;
        while i < r
            invariant
                i <= r <= n,
                cycles.len() == i,
                forall|k: int| 0 <= k < i ==> #[trigger] cycles[k] == n - k,
            decreases r - i,
        {
            cycles.push(n - i);
            i = i + 1;
        }
        proof {
            assert(forall|a: int, b: int| 0 <= a < n && 0 <= b < n && a != b ==> indices@[a] != indices@[b]);
        }
        Ok(PyItertoolsPermutations { pool, indices, cycles, result: None, r, exhausted: false })
    }

    /// The next ordering: the first is positions `0..r`; each later one
    /// comes from the cycle counters, and the enumeration ends when every
    /// counter has rolled over.
    pub fn next(&mut self) -> (res: Option<Vec<V>>)
        requires
            old(self).wf(),
        ensures
            final(self).wf(),
            final(self).pool == old(self).pool,
            final(self).r == old(self).r,
            old(self).exhausted ==> res is None && final(self).exhausted,
            !old(self).exhausted && old(self).pool.len() == 0 ==> res is Some
                && res->Some_0@.len() == 0 && final(self).exhausted,
            !old(self).exhausted && old(self).pool.len() > 0 && old(self).result is None ==> res is Some
                && res->Some_0@ == old(self).pool@.subrange(0, old(self).r as int)
                && final(self).result is Some
                && final(self).indices@ == old(self).indices@
                && final(self).cycles@ == old(self).cycles@
                && final(self).result->Some_0@ == old(self).indices@.subrange(0, old(self).r as int),
            res is None ==> final(self).exhausted,
            !old(self).exhausted && old(self).pool.len() > 0 && old(self).result is Some ==>
                (res is None <==> counters_done(old(self).cycles@))
                && (res is Some ==> next_counters(old(self).cycles@, final(self).cycles@,
                    old(self).pool.len() as int))
                && ({
                    let st = perm_scan(old(self).indices@, old(self).cycles@, old(self).r as int,
                        old(self).pool.len() as int);
                    (res is Some <==> st.2) && (st.2 ==> final(self).indices@ == st.0
                        && final(self).cycles@ == st.1
                        && final(self).result->Some_0@ == st.0.subrange(0, old(self).r as int))
                }),
            res is Some && old(self).pool.len() > 0 ==> !final(self).exhausted && final(self).result is Some
                && res->Some_0@ == picks(old(self).pool@, final(self).result->Some_0@)
                && final(self).result->Some_0.len() == old(self).r
                && distinct_positions(final(self).result->Some_0@, old(self).pool.len() as int),
    {
        if self.exhausted {
            return None;
        }
        let n = self.pool.len();
        let r = self.r;
        if n == 0 {
            self.exhausted = true;
            return Some(Vec::new());
        }
        match self.result.take() {
            None => {
                let first = first_indices(r);
                let res = pick(&self.pool, &first);
                assert(res@ =~= self.pool@.subrange(0, r as int));
                assert(first@ =~= self.indices@.subrange(0, r as int));
                self.result = Some(first);
                Some(res)
            },
            Some(prev) => {
                let mut result = prev;
                let mut sentinel = false;
                let mut i: usize = r;
                let ghost start = self.indices@;
                let ghost c0 = self.cycles@;
                let ghost st = perm_scan(start, c0, r as int, n as int);
                // Decrement the rightmost counter, moving left on each rollover.
                while i > 0
                    invariant_except_break
                        forall|q: int| 0 <= q < r ==> #[trigger] result[q] == start[q],
                        !sentinel,
                        forall|q: int| i <= q < r ==> #[trigger] c0[q] == 1,
                        forall|q: int| i <= q < r ==> #[trigger] self.cycles[q] == n - q,
                        forall|q: int| 0 <= q < i ==> #[trigger] self.cycles[q] == c0[q],
                        perm_scan(self.indices@, self.cycles@, i as int, n as int) == st,
                    invariant
                        n == self.pool.len(),
                        n > 0,
                        r == self.r,
                        r <= n,
                        i <= r,
                        !self.exhausted,
                        self.pool == old(self).pool,
                        self.r == old(self).r,
                        perm_of(self.indices@, n as int),
                        self.cycles.len() == r,
                        forall|p: int| 0 <= p < r ==> 1 <= #[trigger] self.cycles[p] <= n - p,
                        result.len() == r,
                        start.len() == n,
                        start == old(self).indices@,
                        st == perm_scan(start, c0, r as int, n as int),
                        c0 == old(self).cycles@,
                        c0.len() == r,
                        forall|q: int| 0 <= q < i ==> self.indices[q] == start[q],
                    ensures
                        sentinel ==> st.2 && self.indices@ == st.0 && self.cycles@ == st.1,
                        !sentinel ==> !st.2,
                        sentinel ==> next_counters(c0, self.cycles@, n as int),
                        !sentinel ==> counters_done(c0),
                        sentinel ==> forall|q: int| 0 <= q < r ==> #[trigger] result[q] == self.indices[q],
                    decreases i,
                {
                    i = i - 1;
                    let c = self.cycles[i] - 1;
                    let ghost idx_before = self.indices@;
                    let ghost cyc_before = self.cycles@;
                    if c == 0 {
                        assert(c0[i as int] == 1);
                        self.rotate_left_from(i);
                        self.cycles.set(i, n - i);
                        assert(self.cycles@ =~= cyc_before.update(i as int, (n - i) as usize));
                    } else {
                        let ghost before_cycles = self.cycles@;
                        self.cycles.set(i, c);
                        assert(self.cycles@ =~= cyc_before.update(i as int, c));
                        assert(next_counters(c0, self.cycles@, n as int)) by {
                            assert(c0[i as int] > 1);
                            assert(self.cycles@.len() == r);
                            assert(forall|q: int| 0 <= q < i ==> self.cycles@[q] == c0[q]);
                            assert(forall|q: int| i < q < r ==> before_cycles[q] == n - q);
                        }
                        let k = n - c;
                        let a = self.indices[i];
                        let b = self.indices[k];
                        let ghost before = self.indices@;
                        self.indices.set(i, b);
                        self.indices.set(k, a);
                        assert(self.indices@ =~= swapped(idx_before, i as int, k as int));
                        proof {
                            let after = self.indices@;
                            assert forall|x: int, y: int| 0 <= x < n && 0 <= y < n && x != y
                                implies after[x] != after[y] by {
                                let fx = if x == i { k as int } else if x == k { i as int } else { x };
                                let fy = if y == i { k as int } else if y == k { i as int } else { y };
                                assert(after[x] == before[fx]);
                                assert(after[y] == before[fy]);
                            }
                            assert forall|x: int| 0 <= x < n implies after[x] < n by {
                                let fx = if x == i { k as int } else if x == k { i as int } else { x };
                                assert(after[x] == before[fx]);
                            }
                        }
                        let mut t: usize = i;
                        while t < r
                            invariant
                                i <= t <= r,
                                r <= n,
                                result.len() == r,
                                start.len() == n,
                                self.indices.len() == n,
                                forall|q: int| 0 <= q < i ==> self.indices[q] == start[q],
                                forall|q: int| 0 <= q < i ==> #[trigger] result[q] == start[q],
                                forall|q: int| i <= q < t ==> #[trigger] result[q] == self.indices[q],
                            decreases r - t,
                        {
                            let v = self.indices[t];
                            result.set(t, v);
                            t = t + 1;
                        }
                        sentinel = true;
                        break;
                    }
                }
                if !sentinel {
                    self.exhausted = true;
                    return None;
                }
                assert(forall|q: int| 0 <= q < r ==> result[q] == self.indices[q]);
                assert(result@ =~= self.indices@.subrange(0, r as int));
                assert(distinct_positions(result@, n as int)) by {
                    assert forall|a: int, b: int| 0 <= a < r && 0 <= b < r && a != b
                        implies result@[a] != result@[b] by {
                        assert(result[a] == self.indices[a]);
                        assert(result[b] == self.indices[b]);
                    }
                }
                let res = pick(&self.pool, &result);
                self.result = Some(result);
                Some(res)
            },
        }
    }

    /// Moves `indices[i]` to the end, shifting the later entries left by one.
    fn rotate_left_from(&mut self, i: usize)
        requires
            perm_of(old(self).indices@, old(self).pool.len() as int),
            i < old(self).pool.len(),
        ensures
            perm_of(final(self).indices@, final(self).pool.len() as int),
            final(self).pool == old(self).pool,
            final(self).cycles == old(self).cycles,
            final(self).result == old(self).result,
            final(self).r == old(self).r,
            final(self).exhausted == old(self).exhausted,
            final(self).indices@ == rotated(old(self).indices@, i as int),
            forall|q: int| 0 <= q < i ==> final(self).indices[q] == old(self).indices[q],
    {
        let n = self.pool.len();
        let ghost before = self.indices@;
        let first = self.indices[i];
        let mut j: usize = i;
        while j < n - 1
            invariant
                i <= j <= n - 1,
                n == self.pool.len(),
                self.pool == old(self).pool,
                self.cycles == old(self).cycles,
                self.result == old(self).result,
                self.r == old(self).r,
                self.exhausted == old(self).exhausted,
                before == old(self).indices@,
                self.indices.len() == n,
                first == before[i as int],
                forall|q: int| 0 <= q < i ==> self.indices[q] == before[q],
                forall|q: int| i <= q < j ==> self.indices[q] == before[q + 1],
                forall|q: int| j <= q < n ==> self.indices[q] == before[q],
            decreases n - 1 - j,
        {
            let v = self.indices[j + 1];
            self.indices.set(j, v);
            j = j + 1;
        }
        self.indices.set(n - 1, first);
        let ghost after = self.indices@;
        assert(after =~= rotated(before, i as int));
        assert forall|a: int, b: int| 0 <= a < n && 0 <= b < n && a != b implies after[a] != after[b] by {
            let fa = if a < i { a } else if a < n - 1 { a + 1 } else { i as int };
            let fb = if b < i { b } else if b < n - 1 { b + 1 } else { i as int };
            assert(after[a] == before[fa]);
            assert(after[b] == before[fb]);
        }
        assert forall|k: int| 0 <= k < n implies after[k] < n by {
            let fk = if k < i { k } else if k < n - 1 { k + 1 } else { i as int };
            assert(after[k] == before[fk]);
        }
    }
}

proof fn lemma_rotated_perm(idx: Seq<usize>, i: int, n: int)
    requires
        perm_of(idx, n),
        0 <= i < n,
    ensures
        perm_of(rotated(idx, i), n),
        forall|q: int| 0 <= q < i ==> #[trigger] rotated(idx, i)[q] == idx[q],
{
    let after = rotated(idx, i);
    assert forall|q: int| 0 <= q < n implies #[trigger] after[q] == idx[if q < i { q } else if q < n - 1 { q + 1 } else { i }] by {
    }
    assert forall|a: int, b: int| 0 <= a < n && 0 <= b < n && a != b implies after[a] != after[b] by {
        let fa = if a < i { a } else if a < n - 1 { a + 1 } else { i };
        let fb = if b < i { b } else if b < n - 1 { b + 1 } else { i };
        assert(after[a] == idx[fa]);
        assert(after[b] == idx[fb]);
    }
    assert forall|k: int| 0 <= k < n implies after[k] < n by {
        let fk = if k < i { k } else if k < n - 1 { k + 1 } else { i };
        assert(after[k] == idx[fk]);
    }
}

/// A step that finds a counter above one changes the ordering: the new
/// positions agree with the old ones up to some place `p` below `i`, and
/// differ at `p`. So two successive orderings are never the same.
pub proof fn perm_scan_changes_ordering(idx: Seq<usize>, cyc: Seq<usize>, i: int, n: int)
    requires
        perm_of(idx, n),
        0 <= i <= cyc.len(),
        cyc.len() <= n <= usize::MAX,
        forall|q: int| 0 <= q < cyc.len() ==> 1 <= #[trigger] cyc[q] <= n - q,
        perm_scan(idx, cyc, i, n).2,
    ensures
        exists|p: int| #![trigger idx[p]] 0 <= p < i
            && (forall|q: int| 0 <= q < p ==> perm_scan(idx, cyc, i, n).0[q] == idx[q])
            && perm_scan(idx, cyc, i, n).0[p] != idx[p],
    decreases i,
{
    let p = i - 1;
    if cyc[p] <= 1 {
        lemma_rotated_perm(idx, p, n);
        let idx2 = rotated(idx, p);
        let cyc2 = cyc.update(p, (n - p) as usize);
        assert forall|q: int| 0 <= q < cyc2.len() implies 1 <= #[trigger] cyc2[q] <= n - q by {
            if q != p {
                assert(cyc2[q] == cyc[q]);
            }
        }
        perm_scan_changes_ordering(idx2, cyc2, p, n);
        let st = perm_scan(idx2, cyc2, p, n);
        let w = choose|w: int| #![trigger idx2[w]] 0 <= w < p
            && (forall|q: int| 0 <= q < w ==> st.0[q] == idx2[q])
            && st.0[w] != idx2[w];
        assert(idx2[w] == idx[w]);
        assert(forall|q: int| 0 <= q < w ==> idx2[q] == idx[q]);
        assert(idx[w] == idx[w]);
    } else {
        let c = (cyc[p] - 1) as usize;
        let k = n - c;
        let after = swapped(idx, p, k);
        assert(after[p] == idx[k]);
        assert(idx[k] != idx[p]);
        assert(forall|q: int| 0 <= q < p ==> after[q] == idx[q]);
        assert(idx[p] == idx[p]);
    }
}

} // verus!
