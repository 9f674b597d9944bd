use vstd::prelude::*;
use crate::cursor::{end_of, Cursor, SourceError};
use crate::pool::drain;

verus! {

/// The values of the sources in `srcs`, one source after another, up to and
/// including the first source that fails.
pub open spec fn flatten_rests<V, S: Cursor<V>>(srcs: Seq<S>) -> Seq<V>
    decreases srcs.len(),
{
    if srcs.len() == 0 {
        Seq::empty()
    } else if srcs[0].failure() is Some {
        srcs[0].rest()
    } else {
        srcs[0].rest() + flatten_rests::<V, S>(srcs.drop_first())
    }
}

/// The failure of the first source in `srcs` that fails, if any.
pub open spec fn first_failure<V, S: Cursor<V>>(srcs: Seq<S>) -> Option<SourceError>
    decreases srcs.len(),
{
    if srcs.len() == 0 {
        None
    } else if srcs[0].failure() is Some {
        srcs[0].failure()
    } else {
        first_failure::<V, S>(srcs.drop_first())
    }
}

/// Sources concatenated in order; each is opened only when the one before
/// it is exhausted.
#[derive(Debug)]
pub struct PyItertoolsChain<S> {
    /// The sources not yet opened, in order.
    pub iterables: Vec<S>,
    /// How many sources have been used up.
    pub cur_idx: usize,
    /// The source being read, if one is open.
    pub cached_iter: Option<S>,
}

impl<S> PyItertoolsChain<S> {
    /// The open source, if any, followed by those not yet opened.
    pub open spec fn sources(&self) -> Seq<S> {
        match self.cached_iter {
            Some(c) => seq![c] + self.iterables@,
            None => self.iterables@,
        }
    }

    /// A chain over `iterables`, with none of them opened yet.
    pub fn tp_new<V>(iterables: Vec<S>) -> (r: Self)
        where S: Cursor<V>,
        ensures
            r.rest() == flatten_rests::<V, S>(iterables@),
            r.failure() == first_failure::<V, S>(iterables@),
            r.cached_iter is None,
            r.cur_idx == 0,
    {
        PyItertoolsChain { iterables, cur_idx: 0, cached_iter: None }
    }

    /// A chain over the sources that `iterable` yields, all read from it now;
    /// its failure, if it raises one.
    pub fn from_iterable<V, T: Cursor<S>>(iterable: T) -> (r: Result<Self, SourceError>)
        where S: Cursor<V>,
        ensures
            match iterable.failure() {
                None => r is Ok && r->Ok_0.rest() == flatten_rests::<V, S>(iterable.rest())
                    && r->Ok_0.failure() == first_failure::<V, S>(iterable.rest())
                    && r->Ok_0.cached_iter is None && r->Ok_0.cur_idx == 0,
                Some(e) => r == Err::<Self, SourceError>(e),
            },
    {
        let mut iterable = iterable;
        let iterables = drain(&mut iterable)?;
        Ok(PyItertoolsChain::tp_new(iterables))
    }
}

impl<S> PyItertoolsChain<S> {
    /// The next value of the open source, opening the following sources in
    /// turn as each is exhausted. A failure is handed on as it is, and the
    /// sources not yet reached stay unopened and unpulled.
    pub fn next<V>(&mut self) -> (r: Result<Option<V>, SourceError>)
        where S: Cursor<V>,
        ensures
            final(self).failure() == old(self).failure(),
            old(self).rest().len() == 0 ==> r == end_of::<V>(old(self).failure())
                && final(self).rest() == old(self).rest(),
            old(self).rest().len() > 0 ==> r == Ok::<Option<V>, SourceError>(Some(old(self).rest()[0]))
                && final(self).rest() == old(self).rest().drop_first(),
            final(self).iterables.len() <= old(self).iterables.len(),
            final(self).iterables@ == old(self).iterables@.skip(
                old(self).iterables.len() - final(self).iterables.len()),
            r is Err ==> final(self).cached_iter is Some,
            r matches Err(e) ==> (final(self).cached_iter matches Some(c)
                && c.failure() == Some(e) && c.rest().len() == 0),
    {
        let ghost total = self.rest();
        let ghost fail = self.failure();
        loop
            invariant
                self.rest() == total,
                self.failure() == fail,
                total == old(self).rest(),
                fail == old(self).failure(),
                self.iterables.len() <= old(self).iterables.len(),
                self.iterables@ == old(self).iterables@.skip(
                    old(self).iterables.len() - self.iterables.len()),
            decreases 2 * self.iterables.len() + (if self.cached_iter is Some { 1int } else { 0int }),
        {
            match self.cached_iter.take() {
                Some(mut it) => {
                    let ghost before = it;
                    proof { lemma_unfold_open::<V, S>(before, self.iterables@); }
                    match it.advance() {
                        Ok(Some(v)) => {
                            self.cached_iter = Some(it);
                            proof { lemma_unfold_open::<V, S>(it, self.iterables@); }
                            assert(self.rest() =~= total.drop_first());
                            return Ok(Some(v));
                        },
                        Ok(None) => {
                            if self.cur_idx < usize::MAX {
                                self.cur_idx = self.cur_idx + 1;
                            }
                            assert(self.rest() =~= total);
                        },
                        Err(e) => {
                            self.cached_iter = Some(it);
                            proof { lemma_unfold_open::<V, S>(it, self.iterables@); }
                            return Err(e);
                        },
                    }
                },
                None => {
                    if self.iterables.len() == 0 {
                        assert(total =~= Seq::<V>::empty());
                        return Ok(None);
                    }
                    let ghost before = self.iterables@;
                    let it = self.iterables.remove(0);
                    assert(self.iterables@ =~= before.drop_first());
                    assert(self.iterables@ =~= old(self).iterables@.skip(
                        old(self).iterables.len() - self.iterables.len()));
                    self.cached_iter = Some(it);
                    proof { lemma_unfold_open::<V, S>(it, self.iterables@); }
                    assert(self.rest() =~= total);
                },
            }
        }
    }
}

proof fn lemma_unfold_open<V, S: Cursor<V>>(c: S, rest: Seq<S>)
    ensures
        flatten_rests::<V, S>(seq![c] + rest) == if c.failure() is Some {
            c.rest()
        } else {
            c.rest() + flatten_rests::<V, S>(rest)
        },
        first_failure::<V, S>(seq![c] + rest) == if c.failure() is Some {
            c.failure()
        } else {
            first_failure::<V, S>(rest)
        },
{
    let s = seq![c] + rest;
    assert(s[0] == c);
    assert(s.drop_first() =~= rest);
}

impl<V, S: Cursor<V>> Cursor<V> for PyItertoolsChain<S> {
    open spec fn rest(&self) -> Seq<V> {
        flatten_rests::<V, S>(self.sources())
    }

    open spec fn failure(&self) -> Option<SourceError> {
        first_failure::<V, S>(self.sources())
    }

    fn advance(&mut self) -> (r: Result<Option<V>, SourceError>) {
        self.next()
    }
}

/// Chaining two sources, the first of which ends normally, yields every
/// value of the first, then every value of the second, and ends as the
/// second does.
pub proof fn chain_of_two<V, S: Cursor<V>>(a: S, b: S)
    requires
        a.failure() is None,
    ensures
        flatten_rests::<V, S>(seq![a, b]) == a.rest() + b.rest(),
        first_failure::<V, S>(seq![a, b]) == b.failure(),
{
    let s = seq![a, b];
    assert(s.drop_first() =~= seq![b]);
    assert(seq![b].drop_first() =~= Seq::<S>::empty());
    assert(flatten_rests::<V, S>(Seq::<S>::empty()) == Seq::<V>::empty());
    assert(first_failure::<V, S>(Seq::<S>::empty()) is None);
    assert(first_failure::<V, S>(seq![b]) == b.failure());
    assert(seq![b][0] == b);
    assert(flatten_rests::<V, S>(seq![b]) =~= b.rest());
    assert(s[0] == a);
}

} // verus!
