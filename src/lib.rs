//! Lazy sequence combinators: composable cursors that pull values from
//! upstream sources on demand, with contracts over the sequences they yield.
//!
//! Sources implement [`cursor::Cursor`], whose model is the finite sequence of
//! values still to come. Buffers that several consumers share (tee, groupby)
//! are held by one owner and passed to each consumer's `next`, which holds
//! only its own position.

pub mod callables;
pub mod chain;
pub mod combinations;
pub mod cursor;
pub mod error;
pub mod filters;
pub mod groupby;
pub mod integer;
pub mod islice;
pub mod permutations;
pub mod pool;
pub mod producers;
pub mod product;
pub mod replay;
pub mod text;
pub mod zip;
