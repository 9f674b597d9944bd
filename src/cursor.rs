use vstd::prelude::*;

verus! {

/// A failure raised by a source, handed on unchanged by every combinator.
#[derive(PartialEq, Eq, Debug, Clone, Copy)]
pub struct SourceError {
    pub code: u64,
}

/// What a pull gives once a source has no values left: a normal end, or the
/// failure the source raises.
pub open spec fn end_of<V>(failure: Option<SourceError>) -> Result<Option<V>, SourceError> {
    match failure {
        None => Ok(None),
        Some(e) => Err(e),
    }
}

/// A pull-based source of values. `rest` is the finite sequence of values
/// that the cursor will still produce, in order; `failure` is what it raises
/// after them (`None` for a normal end).
pub trait Cursor<V>: Sized {
    spec fn rest(&self) -> Seq<V>;

    spec fn failure(&self) -> Option<SourceError>;

    /// Produces the next value; `Ok(None)` once the source is exhausted, or
    /// its failure.
    fn advance(&mut self) -> (r: Result<Option<V>, SourceError>)
        ensures
            final(self).failure() == old(self).failure(),
            old(self).rest().len() == 0 ==> r == end_of::<V>(old(self).failure())
                && final(self).rest() == old(self).rest(),
            old(self).rest().len() > 0 ==> r == Ok::<Option<V>, SourceError>(Some(old(self).rest()[0]))
                && final(self).rest() == old(self).rest().drop_first(),
    ;
}

/// A cursor over the values held in a vector, which then ends normally or
/// raises `fail`.
#[derive(Debug)]
pub struct VecCursor<V> {
    pub items: Vec<V>,
    pub pos: usize,
    pub fail: Option<SourceError>,
}

impl<V: Copy> VecCursor<V> {
    pub open spec fn spec_rest(&self) -> Seq<V> {
        self.items@.subrange(self.pos as int, self.items@.len() as int)
    }

    pub fn new(items: Vec<V>) -> (r: Self)
        ensures
            r.rest() == items@,
            r.failure() is None,
    {
        let r = VecCursor { items, pos: 0, fail: None };
        assert(r.spec_rest() =~= r.items@);
        r
    }

    /// A cursor that raises `fail` after the values of `items`.
    pub fn failing(items: Vec<V>, fail: SourceError) -> (r: Self)
        ensures
            r.rest() == items@,
            r.failure() == Some(fail),
    {
        let r = VecCursor { items, pos: 0, fail: Some(fail) };
        assert(r.spec_rest() =~= r.items@);
        r
    }
}

impl<V: Copy> Cursor<V> for VecCursor<V> {
    open spec fn rest(&self) -> Seq<V> {
        if self.pos <= self.items@.len() {
            self.spec_rest()
        } else {
            Seq::empty()
        }
    }

    open spec fn failure(&self) -> Option<SourceError> {
        self.fail
    }

    fn advance(&mut self) -> (r: Result<Option<V>, SourceError>) {
        if self.pos < self.items.len() {
            let v = self.items[self.pos];
            self.pos = self.pos + 1;
            assert(self.rest() =~= old(self).rest().drop_first());
            Ok(Some(v))
        } else {
            assert(self.rest() =~= Seq::<V>::empty());
            match self.fail {
                None => Ok(None),
                Some(e) => Err(e),
            }
        }
    }
}

/// A cursor that hands out the values of a vector themselves, front first,
/// for values that cannot be copied (such as argument tuples).
#[derive(Debug)]
pub struct OwnedCursor<T> {
    pub items: Vec<T>,
}

impl<T> OwnedCursor<T> {
    pub fn new(items: Vec<T>) -> (r: Self)
        ensures
            r.rest() == items@,
            r.failure() is None,
    {
        OwnedCursor { items }
    }
}

impl<T> Cursor<T> for OwnedCursor<T> {
    open spec fn rest(&self) -> Seq<T> {
        self.items@
    }

    open spec fn failure(&self) -> Option<SourceError> {
        None
    }

    fn advance(&mut self) -> (r: Result<Option<T>, SourceError>) {
        if self.items.len() > 0 {
            Ok(Some(self.items.remove(0)))
        } else {
            Ok(None)
        }
    }
}

/// A test on values, such as a user-supplied predicate.
pub trait Predicate<V> {
    spec fn holds(&self, v: V) -> bool;

    fn test(&self, v: &V) -> (r: bool)
        ensures
            r == self.holds(*v),
    ;
}

/// A function from values to grouping keys, with equality on those keys.
pub trait KeyFunc<V, K> {
    spec fn key_of(&self, v: V) -> K;

    fn key(&self, v: V) -> (k: K)
        ensures
            k == self.key_of(v),
    ;

    fn same_key(&self, a: K, b: K) -> (r: bool)
        ensures
            r == (a == b),
    ;
}

/// A binary operation that folds values together.
pub trait BinaryOp<V> {
    spec fn combine(&self, acc: V, v: V) -> V;

    fn apply(&self, acc: V, v: V) -> (r: V)
        ensures
            r == self.combine(acc, v),
    ;
}

/// A function applied to a tuple of arguments, unpacked positionally.
pub trait StarFunc<A, R> {
    spec fn call(&self, args: Seq<A>) -> R;

    fn invoke(&self, args: &Vec<A>) -> (r: R)
        ensures
            r == self.call(args@),
    ;
}

} // verus!
