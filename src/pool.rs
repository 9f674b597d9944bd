use vstd::prelude::*;
use crate::cursor::{Cursor, SourceError};

verus! {

/// The values of `pool` at positions `idx`, in order.
pub open spec fn picks<V>(pool: Seq<V>, idx: Seq<usize>) -> Seq<V> {
    Seq::new(idx.len(), |k: int| pool[idx[k] as int])
}

/// Pulls every value that `src` still holds, in order; the source's failure
/// instead, if it raises one at the end.
pub fn drain<V, S: Cursor<V>>(src: &mut S) -> (r: Result<Vec<V>, SourceError>)
    ensures
        final(src).rest().len() == 0,
        final(src).failure() == old(src).failure(),
        match old(src).failure() {
            None => r is Ok && r->Ok_0@ == old(src).rest(),
            Some(e) => r == Err::<Vec<V>, SourceError>(e),
        },
{
    let mut out: Vec<V> = Vec::new();
    let ghost s = src.rest();
    loop
        invariant
            s == old(src).rest(),
            s == out@ + src.rest(),
            src.failure() == old(src).failure(),
        decreases src.rest().len(),
    {
        match src.advance()? {
            Some(v) => {
                out.push(v);
                assert(s =~= out@ + src.rest());
            },
            None => {
                assert(s =~= out@);
                return Ok(out);
            },
        }
    }
}

/// A copy of `v`.
pub fn copy_vec<V: Copy>(v: &Vec<V>) -> (r: Vec<V>)
    ensures
        r@ == v@,
{
    let mut out: Vec<V> = Vec::new();
    let mut i: usize = 0;
    while i < v.len()
        invariant
            i <= v.len(),
            out@ == v@.subrange(0, i as int),
        decreases v.len() - i,
    {
        out.push(v[i]);
        i = i + 1;
        assert(out@ =~= v@.subrange(0, i as int));
    }
    assert(v@.subrange(0, v.len() as int) =~= v@);
    out
}

/// The values of `pool` at positions `idx`.
pub fn pick<V: Copy>(pool: &Vec<V>, idx: &Vec<usize>) -> (r: Vec<V>)
    requires
        forall|k: int| 0 <= k < idx.len() ==> idx[k] < pool.len(),
    ensures
        r@ == picks(pool@, idx@),
{
    let mut out: Vec<V> = Vec::new();
    let mut i: usize = 0;
    while i < idx.len()
        invariant
            i <= idx.len(),
            forall|k: int| 0 <= k < idx.len() ==> idx[k] < pool.len(),
            out@ == picks(pool@, idx@.subrange(0, i as int)),
        decreases idx.len() - i,
    {
        out.push(pool[idx[i]]);
        i = i + 1;
        assert(out@ =~= picks(pool@, idx@.subrange(0, i as int)));
    }
    assert(idx@.subrange(0, idx.len() as int) =~= idx@);
    out
}

/// The first `r` of `0, 1, 2, ...`.
pub fn first_indices(r: usize) -> (v: Vec<usize>)
    ensures
        v.len() == r,
        forall|k: int| 0 <= k < r ==> v[k] == k,
{
    let mut v: Vec<usize> = Vec::new();
    let mut i: usize = 0;
    while i < r
        invariant
            i <= r,
            v.len() == i,
            forall|k: int| 0 <= k < i ==> v[k] == k,
        decreases r - i,
    {
        v.push(i);
        i = i + 1;
    }
    v
}

/// `r` copies of `x`.
pub fn filled(x: usize, r: usize) -> (v: Vec<usize>)
    ensures
        v.len() == r,
        forall|k: int| 0 <= k < r ==> v[k] == x,
{
    let mut v: Vec<usize> = Vec::new();
    let mut i: usize = 0;
    while i < r
        invariant
            i <= r,
            v.len() == i,
            forall|k: int| 0 <= k < i ==> v[k] == x,
        decreases r - i,
    {
        v.push(x);
        i = i + 1;
    }
    v
}

} // verus!
