use vstd::prelude::*;
use crate::cursor::{end_of, Cursor, SourceError};
use crate::error::{ItertoolsError, SliceBound};
use crate::integer::Integer;

verus! {

/// An argument given for an islice bound: nothing, an integer, or a value
/// that is not an integer.
#[derive(Debug)]
pub enum SliceArg {
    NoneValue,
    Int(Integer),
    NotInt,
}

/// The bound an argument names, when it is an integer in `0..=isize::MAX`.
pub open spec fn valid_bound(a: SliceArg) -> Option<usize> {
    match a {
        SliceArg::Int(v) => if 0 <= v.value() <= isize::MAX {
            Some(v.value() as usize)
        } else {
            None
        },
        _ => None,
    }
}

/// A bound read from an argument that may be absent (`NoneValue`), with its default.
pub open spec fn bound_or(a: SliceArg, default: usize, name: SliceBound) -> Result<usize, ItertoolsError> {
    match a {
        SliceArg::NoneValue => Ok(default),
        _ => match valid_bound(a) {
            Some(v) => Ok(v),
            None => Err(ItertoolsError::InvalidBound(name)),
        },
    }
}

/// The stop bound an argument gives: none for `NoneValue`.
pub open spec fn stop_of(a: SliceArg) -> Result<Option<usize>, ItertoolsError> {
    match a {
        SliceArg::NoneValue => Ok(None),
        _ => match valid_bound(a) {
            Some(v) => Ok(Some(v)),
            None => Err(ItertoolsError::InvalidBound(SliceBound::Stop)),
        },
    }
}

/// The `(start, stop, step)` that islice's arguments after the source give,
/// or the error they raise: `(stop)`, `(start, stop)` or `(start, stop, step)`;
/// step is checked first, then start, then stop.
pub open spec fn slice_params(args: Seq<SliceArg>) -> Result<(usize, Option<usize>, usize), ItertoolsError> {
    if args.len() == 1 {
        match stop_of(args[0]) {
            Err(e) => Err(e),
            Ok(stop) => Ok((0usize, stop, 1usize)),
        }
    } else if args.len() == 2 {
        match (bound_or(args[0], 0, SliceBound::Start), stop_of(args[1])) {
            (Err(e), _) => Err(e),
            (Ok(_), Err(e)) => Err(e),
            (Ok(start), Ok(stop)) => Ok((start, stop, 1usize)),
        }
    } else if args.len() == 3 {
        match (bound_or(args[2], 1, SliceBound::Step), bound_or(args[0], 0, SliceBound::Start), stop_of(args[1])) {
            (Err(e), _, _) => Err(e),
            (Ok(_), Err(e), _) => Err(e),
            (Ok(_), Ok(_), Err(e)) => Err(e),
            (Ok(step), Ok(start), Ok(stop)) => Ok((start, stop, step)),
        }
    } else {
        Err(ItertoolsError::ArgumentCount(args.len() as usize))
    }
}

/// Reads a bound: an integer in `0..=isize::MAX`; anything else is refused,
/// naming the bound.
pub fn pyobject_to_opt_usize(obj: &SliceArg, name: SliceBound) -> (r: Result<usize, ItertoolsError>)
    ensures
        match valid_bound(*obj) {
            Some(v) => r == Ok::<usize, ItertoolsError>(v),
            None => r == Err::<usize, ItertoolsError>(ItertoolsError::InvalidBound(name)),
        },
{
    if let SliceArg::Int(v) = obj {
        if let Some(value) = v.to_usize() {
            if value <= isize::MAX as usize {
                return Ok(value);
            }
        }
    }
    Err(ItertoolsError::InvalidBound(name))
}

fn optional_bound(obj: &SliceArg, default: usize, name: SliceBound) -> (r: Result<usize, ItertoolsError>)
    ensures
        r == bound_or(*obj, default, name),
{
    match obj {
        SliceArg::NoneValue => Ok(default),
        _ => pyobject_to_opt_usize(obj, name),
    }
}

/// The values of a source at positions `start`, `start + step`, ... below `stop`.
#[derive(Debug)]
pub struct PyItertoolsIslice<S> {
    pub iterable: S,
    /// How many values have been pulled from the source.
    pub cur: usize,
    /// The position of the next value to hand out.
    pub next: usize,
    pub stop: Option<usize>,
    pub step: usize,
}

/// The next target after `next`, saturating at the stop bound (or the
/// largest `usize`) on overflow.
pub open spec fn advance_target(next: usize, step: usize, stop: Option<usize>) -> usize {
    if next + step <= usize::MAX {
        (next + step) as usize
    } else {
        match stop {
            Some(s) => s,
            None => usize::MAX,
        }
    }
}

impl<S> PyItertoolsIslice<S> {
    /// Builds an islice of `iterable` from the arguments that follow it:
    /// `(stop)`, `(start, stop)` or `(start, stop, step)`. Nothing is pulled.
    pub fn tp_new(iterable: S, args: &Vec<SliceArg>) -> (r: Result<Self, ItertoolsError>)
        ensures
            match slice_params(args@) {
                Err(e) => r is Err && r->Err_0 == e,
                Ok((start, stop, step)) => r is Ok && r->Ok_0.iterable == iterable
                    && r->Ok_0.cur == 0 && r->Ok_0.next == start
                    && r->Ok_0.stop == stop && r->Ok_0.step == step,
            },
    {
        let n = args.len();
        if n == 0 || n > 3 {
            return Err(ItertoolsError::ArgumentCount(n));
        }
        let step = if n == 3 {
            optional_bound(&args[2], 1, SliceBound::Step)?
        } else {
            1
        };
        let start = if n >= 2 {
            optional_bound(&args[0], 0, SliceBound::Start)?
        } else {
            0
        };
        let stop_arg = if n == 1 { &args[0] } else { &args[1] };
        let stop = match stop_arg {
            SliceArg::NoneValue => None,
            _ => Some(pyobject_to_opt_usize(stop_arg, SliceBound::Stop)?),
        };
        Ok(PyItertoolsIslice { iterable, cur: 0, next: start, stop, step })
    }
}

impl<S> PyItertoolsIslice<S> {
    /// The next selected value. Values before the target position are pulled
    /// and dropped; once the stop bound is reached nothing more is pulled.
    pub fn next<V>(&mut self) -> (r: Result<Option<V>, SourceError>)
        where S: Cursor<V>,
        ensures
            final(self).iterable.failure() == old(self).iterable.failure(),
            ({
                let s = old(self).iterable.rest();
                let cur = old(self).cur;
                let next = old(self).next;
                let skip: int = if cur < next { next - cur } else { 0 };
                let c1: int = cur + skip;
                final(self).stop == old(self).stop && final(self).step == old(self).step
                && if s.len() < skip {
                    r == end_of::<V>(old(self).iterable.failure()) && final(self).iterable.rest().len() == 0
                        && final(self).cur == cur + s.len() && final(self).next == next
                } else if old(self).stop is Some && c1 >= old(self).stop->Some_0 {
                    r == Ok::<Option<V>, SourceError>(None) && final(self).iterable.rest() == s.skip(skip)
                        && final(self).cur == c1 && final(self).next == next
                } else if s.len() == skip {
                    r == end_of::<V>(old(self).iterable.failure()) && final(self).iterable.rest() == s.skip(skip)
                        && final(self).cur == c1 && final(self).next == next
                } else {
                    r == Ok::<Option<V>, SourceError>(Some(s[skip])) && final(self).iterable.rest() == s.skip(skip + 1)
                        && final(self).cur == (if c1 == usize::MAX { c1 } else { c1 + 1 })
                        && final(self).next == advance_target(next, old(self).step, old(self).stop)
                }
            }),
    {
        let ghost s = self.iterable.rest();
        let ghost cur0 = self.cur;
        let ghost skip: int = if self.cur < self.next { self.next - self.cur } else { 0 };
        while self.cur < self.next
            invariant
                cur0 == old(self).cur,
                s == old(self).iterable.rest(),
                skip == (if cur0 < self.next { self.next - cur0 } else { 0int }),
                cur0 <= self.cur,
                self.cur <= self.next || self.cur == cur0,
                self.next == old(self).next,
                self.stop == old(self).stop,
                self.step == old(self).step,
                self.iterable.failure() == old(self).iterable.failure(),
                self.cur - cur0 <= s.len(),
                self.iterable.rest() == s.skip(self.cur - cur0),
            decreases self.next - self.cur,
        {
            match self.iterable.advance()? {
                Some(_) => {
                    self.cur = self.cur + 1;
                    assert(self.iterable.rest() =~= s.skip(self.cur - cur0));
                },
                None => {
                    assert(s.skip(self.cur - cur0).len() == 0);
                    assert(s.len() == self.cur - cur0);
                    return Ok(None);
                },
            }
        }
        if let Some(stop) = self.stop {
            if self.cur >= stop {
                return Ok(None);
            }
        }
        assert(self.cur - cur0 == skip);
        match self.iterable.advance()? {
            None => Ok(None),
            Some(obj) => {
                assert(self.cur - cur0 == skip);
                assert(self.iterable.rest() =~= s.skip(skip + 1));
                self.cur = if self.cur == usize::MAX { self.cur } else { self.cur + 1 };
                self.next = match self.next.checked_add(self.step) {
                    Some(n) => n,
                    None => match self.stop {
                        Some(s) => s,
                        None => usize::MAX,
                    },
                };
                Ok(Some(obj))
            },
        }
    }
}

} // verus!
