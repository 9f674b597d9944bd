use vstd::prelude::*;
use crate::cursor::{end_of, Cursor, KeyFunc, SourceError};

verus! {

/// A handle on one group of a groupby. It reads through its parent, and
/// only while it is the parent's current group.
#[derive(Debug)]
pub struct PyItertoolsGrouper {
    pub id: u64,
}

/// What a groupby shares with its current group.
#[derive(Debug)]
pub struct GroupByState<V, K> {
    /// A value already pulled from the source and not yet handed out.
    pub current_value: Option<V>,
    pub current_key: Option<K>,
    /// The source stands at the first value of a new group.
    pub next_group: bool,
    /// The id of the group handle that may still read, if any.
    pub grouper: Option<u64>,
}

impl<V, K> GroupByState<V, K> {
    pub open spec fn spec_is_current(&self, grouper: PyItertoolsGrouper) -> bool {
        self.grouper == Some(grouper.id)
    }

    /// Whether `grouper` is the handle that may still read.
    pub fn is_current(&self, grouper: &PyItertoolsGrouper) -> (r: bool)
        ensures
            r == self.spec_is_current(*grouper),
    {
        match self.grouper {
            Some(id) => id == grouper.id,
            None => false,
        }
    }
}

/// Consecutive runs of values with equal keys.
#[derive(Debug)]
pub struct PyItertoolsGroupBy<S, F, V, K> {
    pub iterable: S,
    pub key_func: F,
    pub state: GroupByState<V, K>,
    /// The id the next group handle receives.
    pub generation: u64,
}

/// The first position from which `s` holds a value whose key differs from `k`,
/// or `s.len()` when there is none.
pub open spec fn first_other_key<V, K, F: KeyFunc<V, K>>(f: F, s: Seq<V>, k: K) -> int {
    if exists|j: int| 0 <= j < s.len() && f.key_of(s[j]) != k {
        choose|j: int| 0 <= j < s.len() && f.key_of(s[j]) != k
            && forall|q: int| 0 <= q < j ==> f.key_of(s[q]) == k
    } else {
        s.len() as int
    }
}

impl<S, F, V: Copy, K: Copy> PyItertoolsGroupBy<S, F, V, K> {
    pub open spec fn wf(&self) -> bool {
        &&& self.state.grouper is Some ==> self.state.current_key is Some
            && self.state.grouper->Some_0 < self.generation
        &&& self.state.next_group ==> self.state.current_key is Some
            && self.state.current_value is Some && self.state.grouper is None
    }

    /// A groupby over `iterable` keyed by `key_func`. Nothing is pulled.
    pub fn py_new(iterable: S, key_func: F) -> (r: Self)
        ensures
            r.wf(),
            r.iterable == iterable,
            r.key_func == key_func,
            r.state.current_key is None,
            r.state.current_value is None,
            !r.state.next_group,
            r.state.grouper is None,
            r.generation == 0,
    {
        PyItertoolsGroupBy {
            iterable,
            key_func,
            state: GroupByState { current_value: None, current_key: None, next_group: false, grouper: None },
            generation: 0,
        }
    }

    /// Pulls one value and computes its key.
    pub fn advance(&mut self) -> (r: Result<Option<(V, K)>, SourceError>)
        where S: Cursor<V>, F: KeyFunc<V, K>,
        ensures
            final(self).key_func == old(self).key_func,
            final(self).state == old(self).state,
            final(self).generation == old(self).generation,
            final(self).iterable.failure() == old(self).iterable.failure(),
            old(self).iterable.rest().len() == 0 ==> r == end_of::<(V, K)>(old(self).iterable.failure())
                && final(self).iterable.rest() == old(self).iterable.rest(),
            old(self).iterable.rest().len() > 0 ==> r == Ok::<Option<(V, K)>, SourceError>(
                Some((old(self).iterable.rest()[0], old(self).key_func.key_of(old(self).iterable.rest()[0]))))
                && final(self).iterable.rest() == old(self).iterable.rest().drop_first(),
    {
        match self.iterable.advance()? {
            Some(v) => {
                let k = self.key_func.key(v);
                Ok(Some((v, k)))
            },
            None => Ok(None),
        }
    }

    /// The key and handle of the next group. Any earlier handle stops reading.
    /// Values left in the current group are skipped.
    pub fn next(&mut self) -> (r: Result<Option<(K, PyItertoolsGrouper)>, SourceError>)
        where S: Cursor<V>, F: KeyFunc<V, K>,
        requires
            old(self).wf(),
            old(self).generation < u64::MAX,
        ensures
            final(self).wf(),
            final(self).key_func == old(self).key_func,
            final(self).iterable.failure() == old(self).iterable.failure(),
            forall|g: PyItertoolsGrouper| g.id < old(self).generation
                ==> !final(self).state.spec_is_current(g),
            ({
                let s = old(self).iterable.rest();
                let f = old(self).key_func;
                if old(self).state.next_group {
                    r == Ok::<Option<(K, PyItertoolsGrouper)>, SourceError>(
                        Some((old(self).state.current_key->Some_0, PyItertoolsGrouper { id: old(self).generation })))
                        && final(self).iterable.rest() == s
                        && final(self).state.current_value == old(self).state.current_value
                } else {
                    let j = match old(self).state.current_key {
                        Some(k) => first_other_key(f, s, k),
                        None => 0int,
                    };
                    if j >= s.len() {
                        r == end_of::<(K, PyItertoolsGrouper)>(old(self).iterable.failure())
                            && final(self).iterable.rest().len() == 0
                    } else {
                        r == Ok::<Option<(K, PyItertoolsGrouper)>, SourceError>(
                            Some((f.key_of(s[j]), PyItertoolsGrouper { id: old(self).generation })))
                            && final(self).iterable.rest() == s.skip(j + 1)
                            && final(self).state.current_value == Some(s[j])
                    }
                }
            }),
            r matches Ok(Some(group)) ==> final(self).state.spec_is_current(group.1)
                && final(self).generation == old(self).generation + 1
                && final(self).state.current_key == Some(group.0)
                && !final(self).state.next_group,
    {
        self.state.grouper = None;
        if !self.state.next_group {
            let ghost s = self.iterable.rest();
            let ghost f = self.key_func;
            match self.state.current_key {
                Some(old_key) => {
                    let ghost mut found: int = 0;
                    loop
                        invariant_except_break
                            self.state.current_key == Some(old_key),
                            self.state.current_value == old(self).state.current_value,
                            forall|q: int| 0 <= q < s.len() - self.iterable.rest().len()
                                ==> f.key_of(s[q]) == old_key,
                        invariant
                            old(self).state.current_key == Some(old_key),
                            !old(self).state.next_group,
                            self.key_func == f,
                            s == old(self).iterable.rest(),
                            f == old(self).key_func,
                            !self.state.next_group,
                            self.state.grouper is None,
                            self.generation == old(self).generation,
                            self.iterable.failure() == old(self).iterable.failure(),
                            s.len() - self.iterable.rest().len() >= 0,
                            self.iterable.rest() == s.skip(s.len() - self.iterable.rest().len()),
                        ensures
                            0 <= found < s.len(),
                            found == first_other_key(f, s, old_key),
                            self.iterable.rest() == s.skip(found + 1),
                            self.state.current_value == Some(s[found]),
                            self.state.current_key == Some(f.key_of(s[found])),
                        decreases self.iterable.rest().len(),
                    {
                        let ghost pulled = s.len() - self.iterable.rest().len();
                        match self.advance() {
                            Ok(Some((v, k))) => {
                                assert(v == s[pulled]);
                                assert(self.iterable.rest() =~= s.skip(pulled + 1));
                                if !self.key_func.same_key(k, old_key) {
                                    proof {
                                        assert(exists|x: int| 0 <= x < s.len() && f.key_of(s[x]) != old_key);
                                        let c = choose|x: int| 0 <= x < s.len() && f.key_of(s[x]) != old_key
                                            && forall|q: int| 0 <= q < x ==> f.key_of(s[q]) == old_key;
                                        assert(c == pulled) by {
                                            if c < pulled {
                                                assert(f.key_of(s[c]) == old_key);
                                            } else if c > pulled {
                                                assert(f.key_of(s[pulled]) == old_key);
                                            }
                                        }
                                        found = pulled;
                                    }
                                    self.state.current_value = Some(v);
                                    self.state.current_key = Some(k);
                                    break;
                                }
                            },
                            other => {
                                proof {
                                    assert(pulled == s.len());
                                    if exists|x: int| 0 <= x < s.len() && f.key_of(s[x]) != old_key {
                                        let x = choose|x: int| 0 <= x < s.len() && f.key_of(s[x]) != old_key;
                                        assert(f.key_of(s[x]) == old_key);
                                    }
                                }
                                return match other {
                                    Err(e) => Err(e),
                                    _ => Ok(None),
                                };
                            },
                        }
                    }
                },
                None => {
                    match self.advance()? {
                        None => return Ok(None),
                        Some((value, key)) => {
                            self.state.current_value = Some(value);
                            self.state.current_key = Some(key);
                        },
                    }
                },
            }
        }
        self.state.next_group = false;
        let id = self.generation;
        self.generation = id + 1;
        self.state.grouper = Some(id);
        match self.state.current_key {
            Some(k) => Ok(Some((k, PyItertoolsGrouper { id }))),
            None => Ok(None),
        }
    }
}

impl PyItertoolsGrouper {
    /// The next value of this group. Once the key changes the new value is
    /// kept for the parent, this handle stops, and the parent stands at a new
    /// group. A handle that is no longer current yields nothing.
    pub fn next<S, F, V: Copy, K: Copy>(&self, parent: &mut PyItertoolsGroupBy<S, F, V, K>)
        -> (r: Result<Option<V>, SourceError>)
        where S: Cursor<V>, F: KeyFunc<V, K>,
        requires
            old(parent).wf(),
        ensures
            final(parent).wf(),
            final(parent).iterable.failure() == old(parent).iterable.failure(),
            final(parent).key_func == old(parent).key_func,
            final(parent).generation == old(parent).generation,
            ({
                let st = old(parent).state;
                let s = old(parent).iterable.rest();
                let f = old(parent).key_func;
                if !st.spec_is_current(*self) {
                    r == Ok::<Option<V>, SourceError>(None) && *final(parent) == *old(parent)
                } else if st.current_value is Some {
                    r == Ok::<Option<V>, SourceError>(st.current_value) && final(parent).iterable.rest() == s
                        && final(parent).state.current_value is None
                        && final(parent).state.spec_is_current(*self)
                        && final(parent).state.current_key == st.current_key
                        && !final(parent).state.next_group
                } else if s.len() == 0 {
                    r == end_of::<V>(old(parent).iterable.failure()) && final(parent).iterable.rest() == s
                        && final(parent).state == st
                } else if f.key_of(s[0]) == st.current_key->Some_0 {
                    r == Ok::<Option<V>, SourceError>(Some(s[0])) && final(parent).iterable.rest() == s.drop_first()
                        && final(parent).state == st
                } else {
                    r == Ok::<Option<V>, SourceError>(None) && final(parent).iterable.rest() == s.drop_first()
                        && final(parent).state.next_group
                        && final(parent).state.current_value == Some(s[0])
                        && final(parent).state.current_key == Some(f.key_of(s[0]))
                        && final(parent).state.grouper is None
                }
            }),
    {
        if !parent.state.is_current(self) {
            return Ok(None);
        }
        if let Some(v) = parent.state.current_value.take() {
            return Ok(Some(v));
        }
        let old_key = match parent.state.current_key {
            Some(k) => k,
            None => return Ok(None),
        };
        match parent.advance()? {
            None => Ok(None),
            Some((value, key)) => {
                if parent.key_func.same_key(key, old_key) {
                    Ok(Some(value))
                } else {
                    parent.state.current_value = Some(value);
                    parent.state.current_key = Some(key);
                    parent.state.next_group = true;
                    parent.state.grouper = None;
                    Ok(None)
                }
            },
        }
    }
}

} // verus!
