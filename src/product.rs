use vstd::prelude::*;
use crate::combinations::lex_less;
use crate::chain::first_failure;
use crate::cursor::Cursor;
use crate::error::ItertoolsError;
use crate::pool::{copy_vec, drain, filled};

verus! {

/// The tuple of `pools[k][idxs[k]]` over all pools.
pub open spec fn odometer_tuple<V>(pools: Seq<Vec<V>>, idxs: Seq<usize>) -> Seq<V> {
    Seq::new(pools.len(), |k: int| pools[k]@[idxs[k] as int])
}

/// Every position of the odometer is at the last value of its pool.
pub open spec fn odometer_last<V>(pools: Seq<Vec<V>>, idxs: Seq<usize>) -> bool {
    forall|k: int| 0 <= k < pools.len() ==> idxs[k] == pools[k].len() - 1
}

/// `new` is the mixed-radix successor of `old`: the rightmost position `p`
/// not at its last value is raised by one and every later position is reset.
pub open spec fn odometer_next<V>(pools: Seq<Vec<V>>, old: Seq<usize>, new: Seq<usize>) -> bool {
    let m = pools.len();
    new.len() == m && exists|p: int| #![trigger old[p]]
        0 <= p < m && old[p] < pools[p].len() - 1
        && (forall|q: int| p < q < m ==> old[q] == pools[q].len() - 1)
        && (forall|q: int| 0 <= q < p ==> new[q] == old[q])
        && new[p] == old[p] + 1
        && (forall|q: int| p < q < m ==> new[q] == 0)
}

/// No pool is empty.
pub open spec fn all_nonempty<V>(pools: Seq<Vec<V>>) -> bool {
    forall|k: int| 0 <= k < pools.len() ==> pools[k].len() > 0
}

/// The cartesian product of pools, the rightmost pool advancing fastest.
#[derive(Debug)]
pub struct PyItertoolsProduct<V> {
    pub pools: Vec<Vec<V>>,
    pub idxs: Vec<usize>,
    /// The pool whose position is advanced next.
    pub cur: usize,
    pub stop: bool,
}

impl<V: Copy> PyItertoolsProduct<V> {
    pub open spec fn wf(&self) -> bool {
        &&& self.idxs.len() == self.pools.len()
        &&& self.pools.len() > 0 ==> self.cur == self.pools.len() - 1
        &&& all_nonempty(self.pools@) ==> forall|k: int| 0 <= k < self.idxs.len()
            ==> self.idxs[k] < self.pools[k].len()
    }

    /// Reads every source into a pool, and repeats the list of pools
    /// `repeat` times. Nothing is pulled later.
    pub fn py_new<S: Cursor<V>>(iterables: Vec<S>, repeat: usize) -> (r: Result<Self, ItertoolsError>)
        requires
            iterables.len() * repeat <= usize::MAX,
        ensures
            first_failure::<V, S>(iterables@) matches Some(e)
                ==> r == Err::<Self, ItertoolsError>(ItertoolsError::Source(e)),
            first_failure::<V, S>(iterables@) is None ==> (r matches Ok(p) && p.wf() && !p.stop
                && p.pools.len() == iterables.len() * repeat
                && (forall|k: int| 0 <= k < p.pools.len() ==> #[trigger] p.pools[k]@
                    == iterables[k % iterables.len() as int].rest())
                && (forall|k: int| 0 <= k < p.idxs.len() ==> p.idxs[k] == 0)),
    {
        let ghost orig = iterables@;
        let m = iterables.len();
        let mut rest = iterables;
        assert(orig.subrange(0, m as int) =~= orig);
        let mut pools: Vec<Vec<V>> = Vec::new();
        let mut i: usize = 0;
        while i < m
            invariant
                i <= m,
                m == orig.len(),
                rest@ == orig.subrange(i as int, m as int),
                first_failure::<V, S>(orig) == first_failure::<V, S>(orig.subrange(i as int, m as int)),
                orig == iterables@,
                pools.len() == i,
                forall|k: int| 0 <= k < i ==> #[trigger] pools[k]@ == orig[k].rest(),
            decreases m - i,
        {
            let ghost tail = rest@;
            let mut src = rest.remove(0);
            assert(tail[0] == src);
            assert(tail.drop_first() =~= orig.subrange(i + 1, m as int));
            let ghost before = src;
            match drain(&mut src) {
                Ok(pool) => pools.push(pool),
                Err(e) => {
                    assert(before.failure() == Some(e));
                    assert(first_failure::<V, S>(tail) == Some(e));
                    return Err(ItertoolsError::Source(e));
                },
            }
            i = i + 1;
            assert(rest@ =~= orig.subrange(i as int, m as int));
        }
        let mut all: Vec<Vec<V>> = Vec::new();
        let mut t: usize = 0;
        while t < repeat
            invariant
                t <= repeat,
                m * repeat <= usize::MAX,
                pools.len() == m,
                m == orig.len(),
                forall|k: int| 0 <= k < m ==> #[trigger] pools[k]@ == orig[k].rest(),
                all.len() == m * t,
                forall|k: int| 0 <= k < all.len() ==> #[trigger] all[k]@ == orig[k % m as int].rest(),
            decreases repeat - t,
        {
            let mut j: usize = 0;
            while j < m
                invariant
                    j <= m,
                    t < repeat,
                    m * repeat <= usize::MAX,
                    pools.len() == m,
                    m == orig.len(),
                    forall|k: int| 0 <= k < m ==> #[trigger] pools[k]@ == orig[k].rest(),
                    all.len() == m * t + j,
                    forall|k: int| 0 <= k < all.len() ==> #[trigger] all[k]@ == orig[k % m as int].rest(),
                decreases m - j,
            {
                assert(m * t + j < m * repeat) by (nonlinear_arith)
                    requires j < m, t < repeat;
                let ghost len0 = all.len();
                all.push(copy_vec(&pools[j]));
                assert((m * t + j) % (m as int) == j) by (nonlinear_arith)
                    requires j < m, t >= 0;
                assert(all[len0 as int]@ == orig[(len0 as int) % (m as int)].rest());
                j = j + 1;
            }
            assert(m * t + m == m * (t + 1)) by (nonlinear_arith);
            t = t + 1;
        }
        let l = all.len();
        let idxs = filled(0, l);
        Ok(PyItertoolsProduct { pools: all, idxs, cur: if l == 0 { 0 } else { l - 1 }, stop: false })
    }

    /// Advances the odometer by one step, carrying leftwards; sets the stop
    /// flag when it wraps past the first pool.
    pub fn update_idxs(&mut self)
        requires
            old(self).wf(),
            !old(self).stop,
            all_nonempty(old(self).pools@),
        ensures
            final(self).wf(),
            final(self).pools == old(self).pools,
            final(self).stop <==> odometer_last(old(self).pools@, old(self).idxs@),
            !final(self).stop ==> odometer_next(old(self).pools@, old(self).idxs@, final(self).idxs@),
    {
        let m = self.idxs.len();
        if m == 0 {
            self.stop = true;
            return;
        }
        let ghost old_idx = self.idxs@;
        loop
            invariant
                m == self.idxs.len(),
                m == self.pools.len(),
                m > 0,
                self.pools == old(self).pools,
                old_idx == old(self).idxs@,
                old_idx.len() == m,
                !self.stop,
                all_nonempty(self.pools@),
                self.cur < m,
                forall|k: int| 0 <= k < m ==> old_idx[k] < self.pools[k].len(),
                forall|q: int| self.cur < q < m ==> old_idx[q] == self.pools[q].len() - 1,
                forall|q: int| self.cur < q < m ==> self.idxs[q] == 0,
                forall|q: int| 0 <= q <= self.cur ==> self.idxs[q] == old_idx[q],
            decreases self.cur,
        {
            let cur = self.cur;
            let lst_idx = self.pools[cur].len() - 1;
            if self.idxs[cur] == lst_idx {
                if cur == 0 {
                    self.stop = true;
                    self.cur = m - 1;
                    return;
                }
                self.idxs.set(cur, 0);
                self.cur = cur - 1;
            } else {
                assert(self.idxs[cur as int] == old_idx[cur as int]);
                assert(old_idx[cur as int] < self.pools[cur as int].len());
                let v = self.idxs[cur] + 1;
                self.idxs.set(cur, v);
                self.cur = m - 1;
                assert(odometer_next(self.pools@, old_idx, self.idxs@)) by {
                    assert(old_idx[cur as int] < self.pools[cur as int].len() - 1);
                }
                assert(!odometer_last(self.pools@, old_idx)) by {
                    assert(old_idx[cur as int] != self.pools[cur as int].len() - 1);
                }
                return;
            }
        }
    }

    /// The next tuple of the product. When a pool is empty there is none.
    pub fn next(&mut self) -> (r: Option<Vec<V>>)
        requires
            old(self).wf(),
        ensures
            final(self).wf(),
            final(self).pools == old(self).pools,
            old(self).stop ==> r is None && final(self).stop,
            !old(self).stop && !all_nonempty(old(self).pools@) ==> r is None && *final(self) == *old(self),
            !old(self).stop && all_nonempty(old(self).pools@) ==> r is Some
                && r->Some_0@ == odometer_tuple(old(self).pools@, old(self).idxs@)
                && (final(self).stop <==> odometer_last(old(self).pools@, old(self).idxs@))
                && (!final(self).stop ==> odometer_next(old(self).pools@, old(self).idxs@, final(self).idxs@)),
    {
        if self.stop {
            return None;
        }
        let m = self.pools.len();
        let mut k: usize = 0;
        while k < m
            invariant
                k <= m,
                m == self.pools.len(),
                *self == *old(self),
                self.wf(),
                forall|q: int| 0 <= q < k ==> self.pools[q].len() > 0,
            decreases m - k,
        {
            if self.pools[k].len() == 0 {
                return None;
            }
            k = k + 1;
        }
        let mut res: Vec<V> = Vec::new();
        let mut k: usize = 0;
        while k < m
            invariant
                k <= m,
                m == self.pools.len(),
                self.wf(),
                all_nonempty(self.pools@),
                res@ == odometer_tuple(self.pools@, self.idxs@).subrange(0, k as int),
            decreases m - k,
        {
            res.push(self.pools[k][self.idxs[k]]);
            k = k + 1;
            assert(res@ =~= odometer_tuple(self.pools@, self.idxs@).subrange(0, k as int));
        }
        assert(res@ =~= odometer_tuple(self.pools@, self.idxs@));
        self.update_idxs();
        Some(res)
    }
}

/// Each tuple of a product comes strictly after the one before it in
/// lexicographic order of positions, so no tuple repeats.
pub proof fn product_ascends<V>(pools: Seq<Vec<V>>, old: Seq<usize>, new: Seq<usize>)
    requires
        old.len() == pools.len(),
        odometer_next(pools, old, new),
    ensures
        lex_less(old, new),
{
    let p = choose|p: int| #![trigger old[p]]
        0 <= p < pools.len() && old[p] < pools[p].len() - 1
        && (forall|q: int| p < q < pools.len() ==> old[q] == pools[q].len() - 1)
        && (forall|q: int| 0 <= q < p ==> new[q] == old[q])
        && new[p] == old[p] + 1
        && (forall|q: int| p < q < pools.len() ==> new[q] == 0);
    assert(old[p] < new[p]);
}

} // verus!
