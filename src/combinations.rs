use vstd::prelude::*;
use crate::cursor::Cursor;
use crate::error::ItertoolsError;
use crate::integer::{size_arg, Integer};
use crate::pool::{drain, first_indices, filled, pick, picks};

verus! {

/// `idx` is a strictly increasing choice of `idx.len()` positions out of `n`.
pub open spec fn increasing_choice(idx: Seq<usize>, n: int) -> bool {
    &&& idx.len() <= n
    &&& forall|k: int| 0 <= k < idx.len() ==> idx[k] <= k + n - idx.len()
    &&& forall|j: int, k: int| 0 <= j < k < idx.len() ==> idx[j] < idx[k]
}

/// Every position of `idx` is at its largest value: the last choice.
pub open spec fn last_choice(idx: Seq<usize>, n: int) -> bool {
    forall|k: int| 0 <= k < idx.len() ==> idx[k] == k + n - idx.len()
}

/// `new` follows `old` among the strictly increasing choices: the rightmost
/// position `p` below its largest value is raised by one and every later
/// position is one above its left neighbour.
pub open spec fn next_choice(old: Seq<usize>, new: Seq<usize>, n: int) -> bool {
    let r = old.len();
    new.len() == r && exists|p: int| #![trigger old[p]]
        0 <= p < r && old[p] < p + n - r
        && (forall|q: int| p < q < r ==> old[q] == q + n - r)
        && (forall|q: int| 0 <= q < p ==> new[q] == old[q])
        && new[p] == old[p] + 1
        && (forall|q: int| p < q < r ==> new[q] == new[p] + (q - p))
}

/// All `r`-length selections of a pool, in lexicographic order of positions.
#[derive(Debug)]
pub struct PyItertoolsCombinations<V> {
    pub pool: Vec<V>,
    pub indices: Vec<usize>,
    pub r: usize,
    pub exhausted: bool,
}

impl<V: Copy> PyItertoolsCombinations<V> {
    pub open spec fn wf(&self) -> bool {
        !self.exhausted ==> self.indices.len() == self.r
            && increasing_choice(self.indices@, self.pool.len() as int)
    }

    /// Reads the whole source into the pool. A negative `r`, or one above
    /// `isize::MAX`, is refused; an
    /// `r` above the pool's size gives no selections.
    pub fn py_new<S: Cursor<V>>(iterable: S, r: &Integer) -> (res: Result<Self, ItertoolsError>)
        ensures
            iterable.failure() matches Some(e) ==> res == Err::<Self, ItertoolsError>(ItertoolsError::Source(e)),
            iterable.failure() is None && r.value() < 0 ==> res == Err::<Self, ItertoolsError>(ItertoolsError::NegativeSize),
            iterable.failure() is None && r.value() > isize::MAX ==> res == Err::<Self, ItertoolsError>(ItertoolsError::Overflow),
            iterable.failure() is None && 0 <= r.value() <= isize::MAX ==> res is Ok && res->Ok_0.wf()
                && res->Ok_0.pool@ == iterable.rest()
                && res->Ok_0.exhausted == (r.value() > iterable.rest().len())
                && (r.value() <= iterable.rest().len() ==> res->Ok_0.r == r.value()
                    && forall|k: int| 0 <= k < r.value() ==> res->Ok_0.indices[k] == k),
    {
        let mut iterable = iterable;
        let pool = match drain(&mut iterable) {
            Ok(pool) => pool,
            Err(e) => return Err(ItertoolsError::Source(e)),
        };
        let r = size_arg(r, ItertoolsError::NegativeSize)?;
        let n = pool.len();
        if r <= n {
            let indices = first_indices(r);
            Ok(PyItertoolsCombinations { pool, indices, r, exhausted: false })
        } else {
            Ok(PyItertoolsCombinations { pool, indices: Vec::new(), r: 0, exhausted: true })
        }
    }

    /// The next selection; the positions then move to the following choice.
    pub fn next(&mut self) -> (res: Option<Vec<V>>)
        requires
            old(self).wf(),
        ensures
            final(self).wf(),
            final(self).pool == old(self).pool,
            final(self).r == old(self).r,
            old(self).exhausted ==> res is None && final(self).exhausted,
            !old(self).exhausted && old(self).r == 0 ==> res is Some && res->Some_0@.len() == 0
                && final(self).exhausted,
            !old(self).exhausted && old(self).r > 0 ==> res is Some
                && res->Some_0@ == picks(old(self).pool@, old(self).indices@)
                && (final(self).exhausted <==> last_choice(old(self).indices@, old(self).pool.len() as int))
                && (!final(self).exhausted ==> next_choice(old(self).indices@, final(self).indices@,
                    old(self).pool.len() as int)),
    {
        if self.exhausted {
            return None;
        }
        let n = self.pool.len();
        let r = self.r;
        if r == 0 {
            self.exhausted = true;
            return Some(Vec::new());
        }
        let res = pick(&self.pool, &self.indices);
        // Scan right to left for a position below its largest value `i + n - r`.
        let mut i: usize = r;
        while i > 0 && self.indices[i - 1] == i - 1 + (n - r)
            invariant
                i <= r,
                r == self.r,
                self.r == old(self).r,
                self.pool == old(self).pool,
                n == self.pool.len(),
                self.wf(),
                !self.exhausted,
                self.indices@ == old(self).indices@,
                forall|q: int| i <= q < r ==> self.indices[q] == q + n - r,
            decreases i,
        {
            i = i - 1;
        }
        if i == 0 {
            assert(last_choice(self.indices@, n as int));
            self.exhausted = true;
        } else {
            let p = i - 1;
            let ghost old_idx = self.indices@;
            let v = self.indices[p] + 1;
            self.indices.set(p, v);
            let mut j: usize = p + 1;
            while j < r
                invariant
                    p < j <= r,
                    r == self.r,
                    self.r == old(self).r,
                    self.pool == old(self).pool,
                    !self.exhausted,
                    old_idx.len() == r,
                    n == self.pool.len(),
                    r <= n,
                    self.indices.len() == r,
                    old_idx == old(self).indices@,
                    increasing_choice(old_idx, n as int),
                    old_idx[p as int] < p + n - r,
                    forall|q: int| p < q < r ==> old_idx[q] == q + n - r,
                    forall|q: int| 0 <= q < p ==> self.indices[q] == old_idx[q],
                    self.indices[p as int] == old_idx[p as int] + 1,
                    forall|q: int| p < q < j ==> self.indices[q] == self.indices[p as int] + (q - p),
                decreases r - j,
            {
                let w = self.indices[j - 1] + 1;
                self.indices.set(j, w);
                j = j + 1;
            }
            assert(next_choice(old_idx, self.indices@, n as int));
            assert(!last_choice(old_idx, n as int)) by {
                assert(old_idx[p as int] != p + n - r);
            }
        }
        Some(res)
    }
}

/// `idx` is a non-decreasing choice of positions below `n`.
pub open spec fn nondecreasing_choice(idx: Seq<usize>, n: int) -> bool {
    &&& forall|k: int| 0 <= k < idx.len() ==> idx[k] < n
    &&& forall|j: int, k: int| 0 <= j < k < idx.len() ==> idx[j] <= idx[k]
}

/// `new` follows `old` among the non-decreasing choices: the rightmost
/// position `p` below `n - 1` is raised by one, and every later position
/// takes that same value.
pub open spec fn next_multichoice(old: Seq<usize>, new: Seq<usize>, n: int) -> bool {
    let r = old.len();
    new.len() == r && exists|p: int| #![trigger old[p]]
        0 <= p < r && old[p] < n - 1
        && (forall|q: int| p < q < r ==> old[q] == n - 1)
        && (forall|q: int| 0 <= q < p ==> new[q] == old[q])
        && (forall|q: int| p <= q < r ==> new[q] == old[p] + 1)
}

/// All `r`-length selections of a pool with repetition allowed, in
/// lexicographic order of positions.
#[derive(Debug)]
pub struct PyItertoolsCombinationsWithReplacement<V> {
    pub pool: Vec<V>,
    pub indices: Vec<usize>,
    pub r: usize,
    pub exhausted: bool,
}

impl<V: Copy> PyItertoolsCombinationsWithReplacement<V> {
    pub open spec fn wf(&self) -> bool {
        !self.exhausted ==> self.indices.len() == self.r
            && nondecreasing_choice(self.indices@, self.pool.len() as int)
    }

    /// Reads the whole source into the pool. A negative `r`, or one above
    /// `isize::MAX`, is refused; an
    /// empty pool gives no selections unless `r` is zero.
    pub fn py_new<S: Cursor<V>>(iterable: S, r: &Integer) -> (res: Result<Self, ItertoolsError>)
        ensures
            iterable.failure() matches Some(e) ==> res == Err::<Self, ItertoolsError>(ItertoolsError::Source(e)),
            iterable.failure() is None && r.value() < 0 ==> res == Err::<Self, ItertoolsError>(ItertoolsError::NegativeSize),
            iterable.failure() is None && r.value() > isize::MAX ==> res == Err::<Self, ItertoolsError>(ItertoolsError::Overflow),
            iterable.failure() is None && 0 <= r.value() <= isize::MAX ==> res is Ok && res->Ok_0.wf()
                && res->Ok_0.pool@ == iterable.rest()
                && res->Ok_0.exhausted == (r.value() > 0 && iterable.rest().len() == 0)
                && (!res->Ok_0.exhausted ==> res->Ok_0.r == r.value()
                    && forall|k: int| 0 <= k < r.value() ==> res->Ok_0.indices[k] == 0),
    {
        let mut iterable = iterable;
        let pool = match drain(&mut iterable) {
            Ok(pool) => pool,
            Err(e) => return Err(ItertoolsError::Source(e)),
        };
        let r = size_arg(r, ItertoolsError::NegativeSize)?;
        let n = pool.len();
        if n > 0 || r == 0 {
            let indices = filled(0, r);
            Ok(PyItertoolsCombinationsWithReplacement { pool, indices, r, exhausted: false })
        } else {
            Ok(PyItertoolsCombinationsWithReplacement { pool, indices: Vec::new(), r: 0, exhausted: true })
        }
    }

    /// The next selection; the positions then move to the following choice.
    pub fn next(&mut self) -> (res: Option<Vec<V>>)
        requires
            old(self).wf(),
        ensures
            final(self).wf(),
            final(self).pool == old(self).pool,
            final(self).r == old(self).r,
            old(self).exhausted ==> res is None && final(self).exhausted,
            !old(self).exhausted && old(self).r == 0 ==> res is Some && res->Some_0@.len() == 0
                && final(self).exhausted,
            !old(self).exhausted && old(self).r > 0 ==> res is Some
                && res->Some_0@ == picks(old(self).pool@, old(self).indices@)
                && (final(self).exhausted <==> forall|k: int| 0 <= k < old(self).r
                    ==> old(self).indices[k] == old(self).pool.len() - 1)
                && (!final(self).exhausted ==> next_multichoice(old(self).indices@,
                    final(self).indices@, old(self).pool.len() as int)),
    {
        if self.exhausted {
            return None;
        }
        let n = self.pool.len();
        let r = self.r;
        if r == 0 {
            self.exhausted = true;
            return Some(Vec::new());
        }
        let res = pick(&self.pool, &self.indices);
        let mut i: usize = r;
        while i > 0 && self.indices[i - 1] == n - 1
            invariant
                i <= r,
                r == self.r,
                self.r == old(self).r,
                self.pool == old(self).pool,
                n == self.pool.len(),
                self.wf(),
                !self.exhausted,
                self.indices@ == old(self).indices@,
                forall|q: int| i <= q < r ==> self.indices[q] == n - 1,
            decreases i,
        {
            i = i - 1;
        }
        if i == 0 {
            assert(forall|k: int| 0 <= k < r ==> self.indices@[k] == n - 1);
            self.exhausted = true;
        } else {
            let p = i - 1;
            let ghost old_idx = self.indices@;
            let v = self.indices[p] + 1;
            let mut j: usize = p;
            while j < r
                invariant
                    p <= j <= r,
                    r == self.r,
                    self.r == old(self).r,
                    self.pool == old(self).pool,
                    !self.exhausted,
                    old_idx.len() == r,
                    n == self.pool.len(),
                    self.indices.len() == r,
                    old_idx == old(self).indices@,
                    nondecreasing_choice(old_idx, n as int),
                    old_idx[p as int] < n - 1,
                    v == old_idx[p as int] + 1,
                    forall|q: int| p < q < r ==> old_idx[q] == n - 1,
                    forall|q: int| 0 <= q < p ==> self.indices[q] == old_idx[q],
                    forall|q: int| j <= q < r ==> self.indices[q] == old_idx[q],
                    forall|q: int| p <= q < j ==> self.indices[q] == v,
                decreases r - j,
            {
                self.indices.set(j, v);
                j = j + 1;
            }
            assert(next_multichoice(old_idx, self.indices@, n as int));
            assert(old_idx[p as int] != n - 1);
        }
        Some(res)
    }
}

/// `a` comes before `b` in lexicographic order of positions: they agree up
/// to some place, where `a` is smaller.
pub open spec fn lex_less(a: Seq<usize>, b: Seq<usize>) -> bool {
    exists|p: int| #![trigger a[p], b[p]]
        0 <= p < a.len() && p < b.len() && a[p] < b[p]
        && forall|q: int| 0 <= q < p ==> a[q] == b[q]
}

/// Each selection of `combinations` comes strictly after the one before it,
/// so the selections are in lexicographic order and none repeats.
pub proof fn combinations_ascend(old: Seq<usize>, new: Seq<usize>, n: int)
    requires
        next_choice(old, new, n),
    ensures
        lex_less(old, new),
{
    let p = choose|p: int| #![trigger old[p]]
        0 <= p < old.len() && old[p] < p + n - old.len()
        && (forall|q: int| p < q < old.len() ==> old[q] == q + n - old.len())
        && (forall|q: int| 0 <= q < p ==> new[q] == old[q])
        && new[p] == old[p] + 1
        && (forall|q: int| p < q < old.len() ==> new[q] == new[p] + (q - p));
    assert(old[p] < new[p]);
}

/// Each selection of `combinations_with_replacement` comes strictly after
/// the one before it.
pub proof fn multichoices_ascend(old: Seq<usize>, new: Seq<usize>, n: int)
    requires
        next_multichoice(old, new, n),
    ensures
        lex_less(old, new),
{
    let p = choose|p: int| #![trigger old[p]]
        0 <= p < old.len() && old[p] < n - 1
        && (forall|q: int| p < q < old.len() ==> old[q] == n - 1)
        && (forall|q: int| 0 <= q < p ==> new[q] == old[q])
        && (forall|q: int| p <= q < old.len() ==> new[q] == old[p] + 1);
    assert(old[p] < new[p]);
}

} // verus!
