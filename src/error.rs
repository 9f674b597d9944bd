use vstd::prelude::*;
use crate::cursor::SourceError;

verus! {

/// Which bound of an islice an argument stands for.
#[derive(PartialEq, Eq, Debug, Clone, Copy)]
pub enum SliceBound {
    Start,
    Stop,
    Step,
}

/// Construction-time failures of the combinators.
#[derive(PartialEq, Eq, Debug, Clone, Copy)]
pub enum ItertoolsError {
    /// A count or tuple size is larger than `isize::MAX`.
    Overflow,
    /// A repeat count is negative.
    NegativeCount,
    /// An islice bound is not an integer in `0..=isize::MAX`.
    InvalidBound(SliceBound),
    /// islice takes one to three bounds after its source; the number given.
    ArgumentCount(usize),
    /// The tuple size `r` is negative.
    NegativeSize,
    /// A source raised this failure while being read at construction.
    Source(SourceError),
}

} // verus!
