use vstd::prelude::*;
use crate::cursor::{Cursor, SourceError};

verus! {

/// Sources read in parallel; one that is exhausted contributes the fill
/// value until all are.
#[derive(Debug)]
pub struct PyItertoolsZipLongest<S, V> {
    pub iterators: Vec<S>,
    pub fillvalue: V,
}

/// The next value of each source, or `fill` for each source that has none.
pub open spec fn zip_row<V, S: Cursor<V>>(srcs: Seq<S>, fill: V) -> Seq<V> {
    Seq::new(srcs.len(), |k: int| if srcs[k].rest().len() > 0 { srcs[k].rest()[0] } else { fill })
}

/// The source raises its failure on the next pull.
pub open spec fn raises<V, S: Cursor<V>>(src: S) -> bool {
    src.rest().len() == 0 && src.failure() is Some
}

/// The position of the first source from `i` on that raises on the next
/// pull, or `srcs.len()` when none does.
pub open spec fn first_raiser<V, S: Cursor<V>>(srcs: Seq<S>, i: int) -> int
    decreases srcs.len() - i,
{
    if i < 0 || i >= srcs.len() {
        srcs.len() as int
    } else if raises::<V, S>(srcs[i]) {
        i
    } else {
        first_raiser::<V, S>(srcs, i + 1)
    }
}

/// Some source still holds a value.
pub open spec fn any_live<V, S: Cursor<V>>(srcs: Seq<S>) -> bool {
    exists|k: int| 0 <= k < srcs.len() && srcs[k].rest().len() > 0
}

impl<S, V: Copy> PyItertoolsZipLongest<S, V> {
    pub fn py_new(iterators: Vec<S>, fillvalue: V) -> (r: Self)
        ensures
            r.iterators == iterators,
            r.fillvalue == fillvalue,
    {
        PyItertoolsZipLongest { iterators, fillvalue }
    }

    /// One value from each source in order, the fill value standing in for
    /// each exhausted one; nothing once every source is exhausted. A failure
    /// of a source ends the step there, the sources before it having been
    /// pulled.
    pub fn next(&mut self) -> (r: Result<Option<Vec<V>>, SourceError>)
        where S: Cursor<V>,
        ensures
            final(self).fillvalue == old(self).fillvalue,
            final(self).iterators.len() == old(self).iterators.len(),
            ({
                let srcs = old(self).iterators@;
                let k = first_raiser::<V, S>(srcs, 0);
                &&& forall|q: int| 0 <= q < srcs.len() ==> #[trigger] final(self).iterators[q].failure()
                    == srcs[q].failure()
                &&& forall|q: int| 0 <= q < srcs.len() ==> #[trigger] final(self).iterators[q].rest()
                    == if q < k && srcs[q].rest().len() > 0 { srcs[q].rest().drop_first() } else { srcs[q].rest() }
                &&& k < srcs.len() ==> r == Err::<Option<Vec<V>>, SourceError>(srcs[k].failure()->Some_0)
                &&& k >= srcs.len() && any_live::<V, S>(srcs) ==> (r matches Ok(Some(row))
                    && row@ == zip_row::<V, S>(srcs, old(self).fillvalue))
                &&& k >= srcs.len() && !any_live::<V, S>(srcs) ==> r == Ok::<Option<Vec<V>>, SourceError>(None)
            }),
    {
        let ghost orig = self.iterators@;
        let m = self.iterators.len();
        let mut pending: Vec<S> = Vec::new();
        std::mem::swap(&mut pending, &mut self.iterators);
        let mut result: Vec<V> = Vec::new();
        let mut numactive = m;
        let mut idx: usize = 0;
        while idx < m
            invariant
                idx <= m,
                m == orig.len(),
                orig == old(self).iterators@,
                self.fillvalue == old(self).fillvalue,
                pending@ == orig.subrange(idx as int, m as int),
                self.iterators.len() == idx,
                result@ == zip_row::<V, S>(orig, self.fillvalue).subrange(0, idx as int),
                first_raiser::<V, S>(orig, 0) == first_raiser::<V, S>(orig, idx as int),
                forall|k: int| 0 <= k < idx ==> #[trigger] self.iterators[k].failure() == orig[k].failure(),
                forall|k: int| 0 <= k < idx ==> #[trigger] self.iterators[k].rest()
                    == if orig[k].rest().len() > 0 { orig[k].rest().drop_first() } else { orig[k].rest() },
                numactive + (idx - numactive_live::<V, S>(orig, idx as int)) == m,
                numactive >= m - idx,
            decreases m - idx,
        {
            let mut it = pending.remove(0);
            assert(it == orig[idx as int]);
            let next_obj = match it.advance() {
                Ok(Some(obj)) => obj,
                Ok(None) => {
                    numactive = numactive - 1;
                    self.fillvalue
                },
                Err(e) => {
                    let ghost done = self.iterators@;
                    self.iterators.push(it);
                    self.iterators.append(&mut pending);
                    proof {
                        assert(raises::<V, S>(orig[idx as int]));
                        assert(first_raiser::<V, S>(orig, idx as int) == idx);
                        assert forall|q: int| 0 <= q < m implies #[trigger] self.iterators[q].rest()
                            == if q < idx && orig[q].rest().len() > 0 { orig[q].rest().drop_first() } else { orig[q].rest() }
                            && self.iterators[q].failure() == orig[q].failure() by {
                            if q < idx {
                                assert(self.iterators[q] == done[q]);
                            } else if q > idx {
                                assert(self.iterators[q] == orig[q]);
                            }
                        }
                    }
                    return Err(e);
                },
            };
            self.iterators.push(it);
            result.push(next_obj);
            proof { lemma_live_step::<V, S>(orig, idx as int); }
            idx = idx + 1;
            assert(pending@ =~= orig.subrange(idx as int, m as int));
            assert(result@ =~= zip_row::<V, S>(orig, self.fillvalue).subrange(0, idx as int));
        }
        proof { lemma_no_live::<V, S>(orig); }
        if numactive == 0 {
            return Ok(None);
        }
        assert(result@ =~= zip_row::<V, S>(orig, self.fillvalue));
        Ok(Some(result))
    }
}

/// How many of the first `i` sources still hold a value.
pub open spec fn numactive_live<V, S: Cursor<V>>(srcs: Seq<S>, i: int) -> int
    decreases i,
{
    if i <= 0 {
        0
    } else {
        numactive_live::<V, S>(srcs, i - 1) + if srcs[i - 1].rest().len() > 0 { 1int } else { 0int }
    }
}

proof fn lemma_live_step<V, S: Cursor<V>>(srcs: Seq<S>, i: int)
    requires
        0 <= i,
    ensures
        numactive_live::<V, S>(srcs, i + 1) == numactive_live::<V, S>(srcs, i)
            + if srcs[i].rest().len() > 0 { 1int } else { 0int },
{
}

proof fn lemma_no_live<V, S: Cursor<V>>(srcs: Seq<S>)
    ensures
        numactive_live::<V, S>(srcs, srcs.len() as int) == 0 <==> !any_live::<V, S>(srcs),
    decreases srcs.len(),
{
    lemma_live_prefix::<V, S>(srcs, srcs.len() as int);
}

proof fn lemma_live_prefix<V, S: Cursor<V>>(srcs: Seq<S>, i: int)
    requires
        0 <= i <= srcs.len(),
    ensures
        numactive_live::<V, S>(srcs, i) >= 0,
        numactive_live::<V, S>(srcs, i) == 0 <==> forall|k: int| 0 <= k < i ==> srcs[k].rest().len() == 0,
    decreases i,
{
    if i > 0 {
        lemma_live_prefix::<V, S>(srcs, i - 1);
        if numactive_live::<V, S>(srcs, i) == 0 {
            assert forall|k: int| 0 <= k < i implies srcs[k].rest().len() == 0 by {
                if k < i - 1 {
                } else {
                }
            }
        }
    }
}

} // verus!
