use vstd::prelude::*;
use crate::cursor::{end_of, Cursor, SourceError};

verus! {

/// A source's values, saved on the first pass and replayed without end.
#[derive(Debug)]
pub struct PyItertoolsCycle<S, V> {
    pub iter: S,
    pub saved: Vec<V>,
    /// The position of the next replayed value.
    pub index: usize,
    /// The source has ended normally; from then on it is never pulled and
    /// the saved values are read only.
    pub replaying: bool,
}

impl<S, V: Copy> PyItertoolsCycle<S, V> {
    pub open spec fn wf(&self) -> bool {
        self.index == 0 || self.index < self.saved.len()
    }

    /// A cycle over `iter`. Nothing is pulled.
    pub fn py_new(iter: S) -> (r: Self)
        ensures
            r.wf(),
            r.iter == iter,
            r.saved@.len() == 0,
            r.index == 0,
            !r.replaying,
    {
        PyItertoolsCycle { iter, saved: Vec::new(), index: 0, replaying: false }
    }

    /// The next saved value in turn, from the first again after the last,
    /// moving the replay position on.
    fn replay(&mut self) -> (r: Result<Option<V>, SourceError>)
        requires
            old(self).wf(),
        ensures
            final(self).wf(),
            final(self).iter == old(self).iter,
            final(self).saved == old(self).saved,
            final(self).replaying == old(self).replaying,
            ({
                let saved = old(self).saved@;
                let i = old(self).index;
                if saved.len() == 0 {
                    r == Ok::<Option<V>, SourceError>(None) && final(self).index == i
                } else {
                    r == Ok::<Option<V>, SourceError>(Some(saved[i as int]))
                        && final(self).index == (if i + 1 >= saved.len() { 0 } else { i + 1 })
                }
            }),
    {
        let n = self.saved.len();
        if n == 0 {
            return Ok(None);
        }
        let last_index = self.index;
        if last_index >= n - 1 {
            self.index = 0;
        } else {
            self.index = last_index + 1;
        }
        Ok(Some(self.saved[last_index]))
    }

    /// While the source lasts, its next value, which is saved; once it has
    /// ended, the saved values in turn, from the first again after the
    /// last, without pulling the source again. An empty source gives
    /// nothing, ever.
    pub fn next(&mut self) -> (r: Result<Option<V>, SourceError>)
        where S: Cursor<V>,
        requires
            old(self).wf(),
        ensures
            final(self).wf(),
            final(self).iter.failure() == old(self).iter.failure(),
            old(self).replaying ==> final(self).replaying,
            ({
                let s = old(self).iter.rest();
                let saved = old(self).saved@;
                let i = old(self).index;
                let replayed = if saved.len() == 0 {
                    r == Ok::<Option<V>, SourceError>(None) && final(self).index == i
                } else {
                    r == Ok::<Option<V>, SourceError>(Some(saved[i as int]))
                        && final(self).index == (if i + 1 >= saved.len() { 0 } else { i + 1 })
                };
                if old(self).replaying {
                    replayed && final(self).iter == old(self).iter && final(self).saved@ == saved
                } else if s.len() > 0 {
                    r == Ok::<Option<V>, SourceError>(Some(s[0])) && final(self).iter.rest() == s.drop_first()
                        && final(self).saved@ == saved.push(s[0]) && final(self).index == i
                        && !final(self).replaying
                } else if old(self).iter.failure() is Some {
                    r == end_of::<V>(old(self).iter.failure()) && final(self).iter.rest() == s
                        && final(self).saved@ == saved && final(self).index == i
                        && !final(self).replaying
                } else {
                    replayed && final(self).iter.rest() == s && final(self).saved@ == saved
                        && final(self).replaying
                }
            }),
    {
        if self.replaying {
            return self.replay();
        }
        match self.iter.advance()? {
            Some(item) => {
                self.saved.push(item);
                Ok(Some(item))
            },
            None => {
                self.replaying = true;
                self.replay()
            },
        }
    }
}

/// The buffer that tee cursors share: values pulled from the source once,
/// kept for every cursor to read at its own position.
#[derive(Debug)]
pub struct PyItertoolsTeeData<S, V> {
    pub iterable: S,
    pub values: Vec<V>,
}

impl<S, V: Copy> PyItertoolsTeeData<S, V> {
    /// The whole sequence being teed: what has been buffered, then what the
    /// source still holds. No read changes it.
    pub open spec fn full(&self) -> Seq<V>
        where S: Cursor<V>,
    {
        self.values@ + self.iterable.rest()
    }

    /// An empty buffer over `iterable`.
    pub fn new(iterable: S) -> (r: Self)
        ensures
            r.iterable == iterable,
            r.values@.len() == 0,
    {
        PyItertoolsTeeData { iterable, values: Vec::new() }
    }

    /// The value at `index` of the teed sequence, pulling it from the source
    /// if it is the first one not yet buffered.
    pub fn get_item(&mut self, index: usize) -> (r: Result<Option<V>, SourceError>)
        where S: Cursor<V>,
        requires
            index <= old(self).values.len(),
        ensures
            final(self).full() == old(self).full(),
            final(self).iterable.failure() == old(self).iterable.failure(),
            old(self).values@.is_prefix_of(final(self).values@),
            final(self).values.len() <= old(self).values.len() + 1,
            index < old(self).full().len() ==> r == Ok::<Option<V>, SourceError>(Some(old(self).full()[index as int]))
                && index < final(self).values.len(),
            index >= old(self).full().len() ==> r == end_of::<V>(old(self).iterable.failure())
                && final(self).values@ == old(self).values@,
            index < old(self).values.len() ==> final(self).values@ == old(self).values@
                && final(self).iterable == old(self).iterable,
            index == old(self).values.len() && index < old(self).full().len()
                ==> final(self).values@ == old(self).values@.push(old(self).iterable.rest()[0])
                && final(self).iterable.rest() == old(self).iterable.rest().drop_first(),
    {
        let ghost f = self.full();
        if self.values.len() == index {
            match self.iterable.advance()? {
                Some(result) => {
                    self.values.push(result);
                    assert(self.full() =~= f);
                },
                None => {
                    return Ok(None);
                },
            }
        }
        assert(self.values@ =~= f.subrange(0, self.values.len() as int));
        Ok(Some(self.values[index]))
    }
}

/// One of several independent cursors over a shared tee buffer.
#[derive(Debug)]
pub struct PyItertoolsTee {
    pub index: usize,
}

impl PyItertoolsTee {
    /// A cursor at the start of a new buffer over `iterable`.
    pub fn from_iter<S, V: Copy>(iterable: S) -> (r: (PyItertoolsTeeData<S, V>, PyItertoolsTee))
        ensures
            r.0.iterable == iterable,
            r.0.values@.len() == 0,
            r.1.index == 0,
    {
        (PyItertoolsTeeData::new(iterable), PyItertoolsTee { index: 0 })
    }

    /// `n` cursors, each at the start of one new buffer over `iterable`.
    pub fn py_new<S, V: Copy>(iterable: S, n: usize) -> (r: (PyItertoolsTeeData<S, V>, Vec<PyItertoolsTee>))
        ensures
            r.0.iterable == iterable,
            r.0.values@.len() == 0,
            r.1.len() == n,
            forall|k: int| 0 <= k < n ==> #[trigger] r.1[k].index == 0,
    {
        let (data, first) = PyItertoolsTee::from_iter(iterable);
        (data, first.copies(n))
    }

    /// `n` cursors on this cursor's buffer at its position: teeing a tee
    /// cursor shares its buffer instead of building another.
    pub fn copies(&self, n: usize) -> (r: Vec<PyItertoolsTee>)
        ensures
            r.len() == n,
            forall|k: int| 0 <= k < n ==> #[trigger] r[k].index == self.index,
    {
        let mut tees: Vec<PyItertoolsTee> = Vec::new();
        let mut i: usize = 0;
        while i < n
            invariant
                i <= n,
                tees.len() == i,
                forall|k: int| 0 <= k < i ==> #[trigger] tees[k].index == self.index,
            decreases n - i,
        {
            tees.push(self.copy());
            i = i + 1;
        }
        tees
    }

    /// Another cursor on the same buffer at the same position; the two then
    /// advance independently.
    pub fn copy(&self) -> (r: PyItertoolsTee)
        ensures
            r.index == self.index,
    {
        PyItertoolsTee { index: self.index }
    }

    /// The value at this cursor's position in the teed sequence; the cursor
    /// then moves on by one. Other cursors' reads do not change what it sees.
    pub fn next<S, V: Copy>(&mut self, data: &mut PyItertoolsTeeData<S, V>) -> (r: Result<Option<V>, SourceError>)
        where S: Cursor<V>,
        requires
            old(self).index <= old(data).values.len(),
        ensures
            final(data).full() == old(data).full(),
            final(data).iterable.failure() == old(data).iterable.failure(),
            final(self).index <= final(data).values.len(),
            old(data).values@.is_prefix_of(final(data).values@),
            old(self).index < old(data).full().len() ==> r == Ok::<Option<V>, SourceError>(
                Some(old(data).full()[old(self).index as int]))
                && final(self).index == old(self).index + 1,
            old(self).index >= old(data).full().len() ==> r == end_of::<V>(old(data).iterable.failure())
                && final(self).index == old(self).index,
    {
        let value = data.get_item(self.index);
        if let Ok(Some(_)) = value {
            self.index = self.index + 1;
        }
        value
    }
}

/// The values that cursor `c` received in the history `h` of reads, in order.
/// Each entry of `h` names the cursor that read and what it got.
pub open spec fn reads_of<V>(h: Seq<(nat, Option<V>)>, c: nat) -> Seq<V>
    decreases h.len(),
{
    if h.len() == 0 {
        Seq::empty()
    } else {
        let prev = reads_of(h.drop_last(), c);
        if h.last().0 == c && h.last().1 is Some {
            prev.push(h.last().1->Some_0)
        } else {
            prev
        }
    }
}

/// Every read in `h` is what a tee cursor's `next` gives (its `Ok` value)
/// when all cursors start at position zero: the element of `full` at that
/// cursor's own position, or nothing past the end.
pub open spec fn tee_history<V>(full: Seq<V>, h: Seq<(nat, Option<V>)>) -> bool
    decreases h.len(),
{
    h.len() == 0 || (tee_history(full, h.drop_last()) && {
        let k = reads_of(h.drop_last(), h.last().0).len();
        h.last().1 == if k < full.len() { Some(full[k as int]) } else { None::<V> }
    })
}

/// However reads through tee cursors over one buffer are interleaved, each
/// cursor receives the teed sequence in order, from its start, with no value
/// skipped or repeated.
pub proof fn tee_cursors_reproduce_sequence<V>(full: Seq<V>, h: Seq<(nat, Option<V>)>, c: nat)
    requires
        tee_history(full, h),
    ensures
        reads_of(h, c).len() <= full.len(),
        reads_of(h, c) == full.subrange(0, reads_of(h, c).len() as int),
    decreases h.len(),
{
    if h.len() > 0 {
        tee_cursors_reproduce_sequence(full, h.drop_last(), c);
        let prev = reads_of(h.drop_last(), c);
        if h.last().0 == c && h.last().1 is Some {
            assert(prev.len() < full.len());
            assert(reads_of(h, c) =~= full.subrange(0, prev.len() as int + 1));
        }
    }
}

} // verus!
