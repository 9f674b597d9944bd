use vstd::prelude::*;
use crate::cursor::{BinaryOp, KeyFunc, Predicate, StarFunc};

verus! {

/// Groups values by the values themselves.
#[derive(Debug)]
pub struct IdentityKey;

impl KeyFunc<i64, i64> for IdentityKey {
    open spec fn key_of(&self, v: i64) -> i64 {
        v
    }

    fn key(&self, v: i64) -> (k: i64) {
        v
    }

    fn same_key(&self, a: i64, b: i64) -> (r: bool) {
        a == b
    }
}

impl KeyFunc<char, char> for IdentityKey {
    open spec fn key_of(&self, v: char) -> char {
        v
    }

    fn key(&self, v: char) -> (k: char) {
        v
    }

    fn same_key(&self, a: char, b: char) -> (r: bool) {
        a == b
    }
}

/// The truth of a number: anything but zero.
#[derive(Debug)]
pub struct Truthy;

impl Predicate<i64> for Truthy {
    open spec fn holds(&self, v: i64) -> bool {
        v != 0
    }

    fn test(&self, v: &i64) -> (r: bool) {
        *v != 0
    }
}

/// Holds of numbers below a bound.
#[derive(Debug)]
pub struct LessThan {
    pub bound: i64,
}

impl Predicate<i64> for LessThan {
    open spec fn holds(&self, v: i64) -> bool {
        v < self.bound
    }

    fn test(&self, v: &i64) -> (r: bool) {
        *v < self.bound
    }
}

/// The larger of two numbers, or of all arguments.
#[derive(Debug)]
pub struct Maximum;

impl BinaryOp<i64> for Maximum {
    open spec fn combine(&self, acc: i64, v: i64) -> i64 {
        if v > acc { v } else { acc }
    }

    fn apply(&self, acc: i64, v: i64) -> (r: i64) {
        if v > acc { v } else { acc }
    }
}

/// The largest of `s`, or `None` when it is empty.
pub open spec fn max_of(s: Seq<i64>) -> Option<i64>
    decreases s.len(),
{
    if s.len() == 0 {
        None
    } else {
        match max_of(s.drop_last()) {
            None => Some(s.last()),
            Some(m) => Some(if s.last() > m { s.last() } else { m }),
        }
    }
}

impl StarFunc<i64, Option<i64>> for Maximum {
    open spec fn call(&self, args: Seq<i64>) -> Option<i64> {
        max_of(args)
    }

    fn invoke(&self, args: &Vec<i64>) -> (r: Option<i64>) {
        let mut best: Option<i64> = None;
        let mut i: usize = 0;
        while i < args.len()
            invariant
                i <= args.len(),
                best == max_of(args@.subrange(0, i as int)),
            decreases args.len() - i,
        {
            let v = args[i];
            assert(args@.subrange(0, i + 1).drop_last() =~= args@.subrange(0, i as int));
            best = match best {
                None => Some(v),
                Some(m) => Some(if v > m { v } else { m }),
            };
            i = i + 1;
        }
        assert(args@.subrange(0, args.len() as int) =~= args@);
        best
    }
}

} // verus!
