use vstd::prelude::*;
use crate::error::ItertoolsError;
use crate::integer::{size_arg, Integer};
use crate::text::{chars_to_string, decimal, push_chars, push_decimal};

verus! {

/// An unbounded arithmetic sequence: `start`, `start + step`, `start + 2 * step`, ...
#[derive(Debug)]
pub struct PyItertoolsCount {
    pub cur: Integer,
    pub step: Integer,
}

impl PyItertoolsCount {
    /// A count from `start` (zero when absent) by `step` (one when absent).
    pub fn py_new(start: Option<Integer>, step: Option<Integer>) -> (r: Self)
        ensures
            r.cur.value() == match start { Some(s) => s.value(), None => 0 },
            r.step.value() == match step { Some(s) => s.value(), None => 1 },
    {
        let cur = match start {
            Some(s) => s,
            None => Integer::from_i64(0),
        };
        let step = match step {
            Some(s) => s,
            None => Integer::from_i64(1),
        };
        PyItertoolsCount { cur, step }
    }

    /// The current value; the count then moves on by `step`.
    pub fn next(&mut self) -> (r: Integer)
        ensures
            r.value() == old(self).cur.value(),
            final(self).cur.value() == old(self).cur.value() + old(self).step.value(),
            final(self).step == old(self).step,
    {
        let next = self.cur.add(&self.step);
        let current = self.cur.duplicate();
        self.cur = next;
        current
    }
}

/// The same value, a given number of times or without end.
#[derive(Debug)]
pub struct PyItertoolsRepeat<V> {
    pub object: V,
    pub times: Option<usize>,
}

impl<V: Copy> PyItertoolsRepeat<V> {
    /// A repeat of `object`, `times` times, or forever when `times` is
    /// absent. A negative count, or one above `isize::MAX`, is refused.
    pub fn py_new(object: V, times: Option<Integer>) -> (r: Result<Self, ItertoolsError>)
        ensures
            match times {
                None => r == Ok::<Self, ItertoolsError>(PyItertoolsRepeat { object, times: None }),
                Some(t) => if t.value() > isize::MAX {
                    r == Err::<Self, ItertoolsError>(ItertoolsError::Overflow)
                } else if t.value() < 0 {
                    r == Err::<Self, ItertoolsError>(ItertoolsError::NegativeCount)
                } else {
                    r == Ok::<Self, ItertoolsError>(PyItertoolsRepeat { object, times: Some(t.value() as usize) })
                },
            },
    {
        match times {
            None => Ok(PyItertoolsRepeat { object, times: None }),
            Some(t) => {
                let n = size_arg(&t, ItertoolsError::NegativeCount)?;
                Ok(PyItertoolsRepeat { object, times: Some(n) })
            },
        }
    }

    /// How many values remain; `None` for an unbounded repeat, which has no size.
    pub fn length_hint(&self) -> (r: Option<usize>)
        ensures
            r == self.times,
    {
        self.times
    }

    /// The arguments that rebuild this repeat in its current state.
    pub fn reduce(&self) -> (r: (V, Option<usize>))
        ensures
            r == (self.object, self.times),
    {
        (self.object, self.times)
    }

    /// The text `repeat(<object>)` or `repeat(<object>, <remaining>)`, given
    /// the text of the object.
    pub fn repr(&self, object_repr: &str) -> (r: String)
        ensures
            r@ == "repeat("@ + object_repr@ + match self.times {
                Some(t) => ", "@ + decimal(t as nat),
                None => Seq::<char>::empty(),
            } + ")"@,
    {
        let mut out: Vec<char> = Vec::new();
        push_chars(&mut out, "repeat(");
        push_chars(&mut out, object_repr);
        let ghost mid = out@;
        match self.times {
            Some(t) => {
                push_chars(&mut out, ", ");
                push_decimal(&mut out, t);
            },
            None => {},
        }
        push_chars(&mut out, ")");
        let r = chars_to_string(&out);
        assert(r@ =~= "repeat("@ + object_repr@ + match self.times {
                Some(t) => ", "@ + decimal(t as nat),
                None => Seq::<char>::empty(),
            } + ")"@);
        r
    }

    /// The object, while the count lasts.
    pub fn next(&mut self) -> (r: Option<V>)
        ensures
            final(self).object == old(self).object,
            match old(self).times {
                None => r == Some(old(self).object) && final(self).times is None,
                Some(t) => if t == 0 {
                    r is None && final(self).times == Some(0usize)
                } else {
                    r == Some(old(self).object) && final(self).times == Some((t - 1) as usize)
                },
            },
    {
        match self.times {
            None => Some(self.object),
            Some(t) => {
                if t == 0 {
                    None
                } else {
                    self.times = Some(t - 1);
                    Some(self.object)
                }
            },
        }
    }
}

} // verus!
