use vstd::prelude::*;
use crate::cursor::{end_of, BinaryOp, Cursor, Predicate, SourceError, StarFunc};

verus! {

/// The first position `j` below `n` where `p` fails on `s`, or `n` if none.
pub open spec fn first_failing<V, P: Predicate<V>>(p: P, s: Seq<V>) -> int {
    if exists|j: int| 0 <= j < s.len() && !p.holds(s[j]) {
        choose|j: int| 0 <= j < s.len() && !p.holds(s[j]) && forall|q: int| 0 <= q < j ==> p.holds(s[q])
    } else {
        s.len() as int
    }
}

proof fn lemma_first_failing<V, P: Predicate<V>>(p: P, s: Seq<V>, j: int)
    requires
        0 <= j <= s.len(),
        forall|q: int| 0 <= q < j ==> p.holds(s[q]),
        j == s.len() || !p.holds(s[j]),
    ensures
        first_failing(p, s) == j,
{
    if exists|x: int| 0 <= x < s.len() && !p.holds(s[x]) {
        let c = choose|x: int| 0 <= x < s.len() && !p.holds(s[x]) && forall|q: int| 0 <= q < x ==> p.holds(s[q]);
        assert(exists|x: int| 0 <= x < s.len() && !p.holds(s[x]) && forall|q: int| 0 <= q < x ==> p.holds(s[q])) by {
            let x0 = choose|x: int| 0 <= x < s.len() && !p.holds(s[x]);
            if j < s.len() {
                assert(!p.holds(s[j]) && forall|q: int| 0 <= q < j ==> p.holds(s[q]));
            } else {
                assert(p.holds(s[x0]));
            }
        }
        if c < j {
            assert(p.holds(s[c]));
        } else if c > j {
            assert(p.holds(s[j]));
        }
    } else {
        if j < s.len() {
            assert(!p.holds(s[j]));
        }
    }
}

/// Pulls from `src` until `p` fails on a value, which is returned.
fn skip_while<V, S: Cursor<V>, P: Predicate<V>>(src: &mut S, p: &P) -> (r: Result<Option<V>, SourceError>)
    ensures
        final(src).failure() == old(src).failure(),
        ({
            let s = old(src).rest();
            let j = first_failing(*p, s);
            if j < s.len() {
                r == Ok::<Option<V>, SourceError>(Some(s[j])) && final(src).rest() == s.skip(j + 1)
            } else {
                r == end_of::<V>(old(src).failure()) && final(src).rest().len() == 0
            }
        }),
{
    let ghost s = src.rest();
    loop
        invariant
            s == old(src).rest(),
            src.failure() == old(src).failure(),
            s.len() - src.rest().len() >= 0,
            src.rest() == s.skip(s.len() - src.rest().len()),
            forall|q: int| 0 <= q < s.len() - src.rest().len() ==> p.holds(s[q]),
        decreases src.rest().len(),
    {
        let ghost pulled = s.len() - src.rest().len();
        let pulled_value = src.advance();
        proof {
            if pulled_value is Err {
                lemma_first_failing(*p, s, pulled);
            }
        }
        match pulled_value? {
            None => {
                proof { lemma_first_failing(*p, s, pulled); }
                return Ok(None);
            },
            Some(v) => {
                assert(v == s[pulled]);
                assert(src.rest() =~= s.skip(pulled + 1));
                if !p.test(&v) {
                    proof { lemma_first_failing(*p, s, pulled); }
                    return Ok(Some(v));
                }
            },
        }
    }
}

/// The values of a source on which a predicate fails.
#[derive(Debug)]
pub struct PyItertoolsFilterFalse<S, P> {
    pub predicate: P,
    pub iterable: S,
}

impl<S, P> PyItertoolsFilterFalse<S, P> {
    pub fn py_new(predicate: P, iterable: S) -> (r: Self)
        ensures
            r.predicate == predicate,
            r.iterable == iterable,
    {
        PyItertoolsFilterFalse { predicate, iterable }
    }

    /// The next value on which the predicate fails; those on which it holds
    /// are dropped.
    pub fn next<V>(&mut self) -> (r: Result<Option<V>, SourceError>)
        where S: Cursor<V>, P: Predicate<V>,
        ensures
            final(self).predicate == old(self).predicate,
            final(self).iterable.failure() == old(self).iterable.failure(),
            ({
                let s = old(self).iterable.rest();
                let j = first_failing(old(self).predicate, s);
                if j < s.len() {
                    r == Ok::<Option<V>, SourceError>(Some(s[j])) && final(self).iterable.rest() == s.skip(j + 1)
                } else {
                    r == end_of::<V>(old(self).iterable.failure()) && final(self).iterable.rest().len() == 0
                }
            }),
    {
        skip_while(&mut self.iterable, &self.predicate)
    }
}

/// The values of a source while a predicate holds; the first failure ends it.
#[derive(Debug)]
pub struct PyItertoolsTakewhile<S, P> {
    pub predicate: P,
    pub iterable: S,
    pub stop_flag: bool,
}

impl<S, P> PyItertoolsTakewhile<S, P> {
    pub fn py_new(predicate: P, iterable: S) -> (r: Self)
        ensures
            r.predicate == predicate,
            r.iterable == iterable,
            !r.stop_flag,
    {
        PyItertoolsTakewhile { predicate, iterable, stop_flag: false }
    }

    /// The next value while the predicate holds. The first value on which it
    /// fails is consumed, and nothing is produced after it.
    pub fn next<V>(&mut self) -> (r: Result<Option<V>, SourceError>)
        where S: Cursor<V>, P: Predicate<V>,
        ensures
            final(self).predicate == old(self).predicate,
            final(self).iterable.failure() == old(self).iterable.failure(),
            ({
                let s = old(self).iterable.rest();
                if old(self).stop_flag {
                    r == Ok::<Option<V>, SourceError>(None) && final(self).stop_flag
                        && final(self).iterable.rest() == s
                } else if s.len() == 0 {
                    r == end_of::<V>(old(self).iterable.failure())
                        && final(self).stop_flag == old(self).stop_flag
                        && final(self).iterable.rest() == s
                } else if old(self).predicate.holds(s[0]) {
                    r == Ok::<Option<V>, SourceError>(Some(s[0])) && !final(self).stop_flag
                        && final(self).iterable.rest() == s.drop_first()
                } else {
                    r == Ok::<Option<V>, SourceError>(None) && final(self).stop_flag
                        && final(self).iterable.rest() == s.drop_first()
                }
            }),
    {
        if self.stop_flag {
            return Ok(None);
        }
        let obj = match self.iterable.advance()? {
            Some(v) => v,
            None => return Ok(None),
        };
        if self.predicate.test(&obj) {
            Ok(Some(obj))
        } else {
            self.stop_flag = true;
            Ok(None)
        }
    }
}

/// A source with its leading run of values satisfying a predicate removed.
#[derive(Debug)]
pub struct PyItertoolsDropwhile<S, P> {
    pub predicate: P,
    pub iterable: S,
    pub start_flag: bool,
}

impl<S, P> PyItertoolsDropwhile<S, P> {
    pub fn py_new(predicate: P, iterable: S) -> (r: Self)
        ensures
            r.predicate == predicate,
            r.iterable == iterable,
            !r.start_flag,
    {
        PyItertoolsDropwhile { predicate, iterable, start_flag: false }
    }

    /// Before the first failure of the predicate, drops values until it fails
    /// and returns that value; after it, forwards the source.
    pub fn next<V>(&mut self) -> (r: Result<Option<V>, SourceError>)
        where S: Cursor<V>, P: Predicate<V>,
        ensures
            final(self).predicate == old(self).predicate,
            final(self).iterable.failure() == old(self).iterable.failure(),
            ({
                let s = old(self).iterable.rest();
                let j = first_failing(old(self).predicate, s);
                if old(self).start_flag {
                    final(self).start_flag && if s.len() == 0 {
                        r == end_of::<V>(old(self).iterable.failure()) && final(self).iterable.rest() == s
                    } else {
                        r == Ok::<Option<V>, SourceError>(Some(s[0]))
                            && final(self).iterable.rest() == s.drop_first()
                    }
                } else if j < s.len() {
                    r == Ok::<Option<V>, SourceError>(Some(s[j])) && final(self).start_flag
                        && final(self).iterable.rest() == s.skip(j + 1)
                } else {
                    r == end_of::<V>(old(self).iterable.failure()) && !final(self).start_flag
                        && final(self).iterable.rest().len() == 0
                }
            }),
    {
        if !self.start_flag {
            let r = skip_while(&mut self.iterable, &self.predicate);
            if let Ok(Some(_)) = r {
                self.start_flag = true;
            }
            return r;
        }
        self.iterable.advance()
    }
}

/// Each selected value of `data`: the one whose selector is true.
#[derive(Debug)]
pub struct PyItertoolsCompress<D, T> {
    pub data: D,
    pub selector: T,
}

/// The first position where both sequences have a value and the selector is true,
/// or `-1` if there is none.
pub open spec fn first_selected<V>(d: Seq<V>, s: Seq<bool>) -> int {
    if exists|j: int| 0 <= j < d.len() && j < s.len() && s[j] {
        choose|j: int| 0 <= j < d.len() && j < s.len() && s[j]
            && forall|q: int| 0 <= q < j ==> !s[q]
    } else {
        -1
    }
}

impl<D, T> PyItertoolsCompress<D, T> {
    pub fn py_new(data: D, selector: T) -> (r: Self)
        ensures
            r.data == data,
            r.selector == selector,
    {
        PyItertoolsCompress { data, selector }
    }

    /// The next data value whose selector is true. Selector and data are
    /// pulled in lockstep, the selector first; the data value is pulled even
    /// when its selector is false.
    pub fn next<V>(&mut self) -> (r: Result<Option<V>, SourceError>)
        where D: Cursor<V>, T: Cursor<bool>,
        ensures
            final(self).data.failure() == old(self).data.failure(),
            final(self).selector.failure() == old(self).selector.failure(),
            ({
                let d = old(self).data.rest();
                let s = old(self).selector.rest();
                let j = first_selected(d, s);
                if j >= 0 {
                    r == Ok::<Option<V>, SourceError>(Some(d[j])) && final(self).data.rest() == d.skip(j + 1)
                        && final(self).selector.rest() == s.skip(j + 1)
                } else if s.len() <= d.len() {
                    r == end_of::<V>(old(self).selector.failure()) && final(self).selector.rest().len() == 0
                        && final(self).data.rest() == d.skip(s.len() as int)
                } else {
                    r == end_of::<V>(old(self).data.failure()) && final(self).data.rest().len() == 0
                        && final(self).selector.rest() == s.skip(d.len() as int + 1)
                }
            }),
    {
        let ghost d = self.data.rest();
        let ghost s = self.selector.rest();
        let ghost mut m: int = 0;
        loop
            invariant
                d == old(self).data.rest(),
                s == old(self).selector.rest(),
                0 <= m <= d.len(),
                m <= s.len(),
                self.data.rest() == d.skip(m),
                self.selector.rest() == s.skip(m),
                self.data.failure() == old(self).data.failure(),
                self.selector.failure() == old(self).selector.failure(),
                forall|q: int| 0 <= q < m ==> !s[q],
            decreases d.len() - m,
        {
            let verdict = match self.selector.advance() {
                Ok(Some(b)) => b,
                other => {
                    proof {
                        assert(m == s.len());
                        if exists|j: int| 0 <= j < d.len() && j < s.len() && s[j] {
                            let j = choose|j: int| 0 <= j < d.len() && j < s.len() && s[j];
                            assert(!s[j]);
                        }
                    }
                    return match other {
                        Err(e) => Err(e),
                        _ => Ok(None),
                    };
                },
            };
            assert(verdict == s[m]);
            let data_obj = match self.data.advance() {
                Ok(Some(v)) => v,
                other => {
                    proof {
                        assert(m == d.len());
                        assert(self.selector.rest() =~= s.skip(m + 1));
                        if exists|j: int| 0 <= j < d.len() && j < s.len() && s[j] {
                            let j = choose|j: int| 0 <= j < d.len() && j < s.len() && s[j];
                            assert(!s[j]);
                        }
                    }
                    return match other {
                        Err(e) => Err(e),
                        _ => Ok(None),
                    };
                },
            };
            assert(data_obj == d[m]);
            proof {
                assert(self.data.rest() =~= d.skip(m + 1));
                assert(self.selector.rest() =~= s.skip(m + 1));
            }
            if verdict {
                proof {
                    let c = choose|j: int| 0 <= j < d.len() && j < s.len() && s[j]
                        && forall|q: int| 0 <= q < j ==> !s[q];
                    assert(exists|j: int| 0 <= j < d.len() && j < s.len() && s[j]
                        && forall|q: int| 0 <= q < j ==> !s[q]) by {
                        assert(0 <= m < d.len() && m < s.len() && s[m]
                            && forall|q: int| 0 <= q < m ==> !s[q]);
                    }
                    if c < m {
                        assert(!s[c]);
                    } else if c > m {
                        assert(!s[m]);
                    }
                }
                return Ok(Some(data_obj));
            }
            proof { m = m + 1; }
        }
    }
}

/// A function applied to each argument tuple of a source.
#[derive(Debug)]
pub struct PyItertoolsStarmap<F, S> {
    pub function: F,
    pub iterable: S,
}

impl<F, S> PyItertoolsStarmap<F, S> {
    pub fn py_new(function: F, iterable: S) -> (r: Self)
        ensures
            r.function == function,
            r.iterable == iterable,
    {
        PyItertoolsStarmap { function, iterable }
    }

    /// The function applied to the next argument tuple.
    pub fn next<A, R>(&mut self) -> (r: Result<Option<R>, SourceError>)
        where S: Cursor<Vec<A>>, F: StarFunc<A, R>,
        ensures
            final(self).function == old(self).function,
            final(self).iterable.failure() == old(self).iterable.failure(),
            old(self).iterable.rest().len() == 0 ==> r == end_of::<R>(old(self).iterable.failure())
                && final(self).iterable.rest() == old(self).iterable.rest(),
            old(self).iterable.rest().len() > 0 ==> r == Ok::<Option<R>, SourceError>(
                Some(old(self).function.call(old(self).iterable.rest()[0]@)))
                && final(self).iterable.rest() == old(self).iterable.rest().drop_first(),
    {
        match self.iterable.advance()? {
            Some(args) => Ok(Some(self.function.invoke(&args))),
            None => Ok(None),
        }
    }
}

/// Running folds of a source under a binary operation, optionally seeded.
#[derive(Debug)]
pub struct PyItertoolsAccumulate<S, F, V> {
    pub iterable: S,
    pub binop: F,
    pub initial: Option<V>,
    pub acc_value: Option<V>,
}

impl<S, F, V: Copy> PyItertoolsAccumulate<S, F, V> {
    pub fn py_new(iterable: S, binop: F, initial: Option<V>) -> (r: Self)
        ensures
            r.iterable == iterable,
            r.binop == binop,
            r.initial == initial,
            r.acc_value is None,
    {
        PyItertoolsAccumulate { iterable, binop, initial, acc_value: None }
    }

    /// The first call gives the seed, or else the first value; each later
    /// call folds the next value into the running total and gives it.
    pub fn next(&mut self) -> (r: Result<Option<V>, SourceError>)
        where S: Cursor<V>, F: BinaryOp<V>,
        ensures
            final(self).binop == old(self).binop,
            final(self).initial == old(self).initial,
            final(self).iterable.failure() == old(self).iterable.failure(),
            r matches Ok(Some(v)) ==> final(self).acc_value == Some(v),
            !(r matches Ok(Some(_))) ==> final(self).acc_value == old(self).acc_value,
            ({
                let s = old(self).iterable.rest();
                let end = end_of::<V>(old(self).iterable.failure());
                match old(self).acc_value {
                    None => match old(self).initial {
                        Some(i) => r == Ok::<Option<V>, SourceError>(Some(i)) && final(self).iterable.rest() == s,
                        None => if s.len() == 0 {
                            r == end && final(self).iterable.rest() == s
                        } else {
                            r == Ok::<Option<V>, SourceError>(Some(s[0]))
                                && final(self).iterable.rest() == s.drop_first()
                        },
                    },
                    Some(a) => if s.len() == 0 {
                        r == end && final(self).iterable.rest() == s
                    } else {
                        r == Ok::<Option<V>, SourceError>(Some(old(self).binop.combine(a, s[0])))
                            && final(self).iterable.rest() == s.drop_first()
                    },
                }
            }),
    {
        let next_acc_value = match self.acc_value {
            None => match self.initial {
                None => match self.iterable.advance()? {
                    Some(obj) => obj,
                    None => return Ok(None),
                },
                Some(obj) => obj,
            },
            Some(value) => {
                let obj = match self.iterable.advance()? {
                    Some(obj) => obj,
                    None => return Ok(None),
                };
                self.binop.apply(value, obj)
            },
        };
        self.acc_value = Some(next_acc_value);
        Ok(Some(next_acc_value))
    }
}

/// Overlapping pairs of consecutive values.
#[derive(Debug)]
pub struct PyItertoolsPairwise<S, V> {
    pub iterator: S,
    pub old: Option<V>,
}

impl<S, V: Copy> PyItertoolsPairwise<S, V> {
    pub fn py_new(iterator: S) -> (r: Self)
        ensures
            r.iterator == iterator,
            r.old is None,
    {
        PyItertoolsPairwise { iterator, old: None }
    }

    /// The pair of the previous value (pulled now on the first call) and the
    /// next one.
    pub fn next(&mut self) -> (r: Result<Option<(V, V)>, SourceError>)
        where S: Cursor<V>,
        ensures
            final(self).iterator.failure() == old(self).iterator.failure(),
            ({
                let s = old(self).iterator.rest();
                let end = end_of::<(V, V)>(old(self).iterator.failure());
                match old(self).old {
                    Some(o) => if s.len() == 0 {
                        r == end && final(self).iterator.rest() == s && final(self).old == old(self).old
                    } else {
                        r == Ok::<Option<(V, V)>, SourceError>(Some((o, s[0])))
                            && final(self).iterator.rest() == s.drop_first()
                            && final(self).old == Some(s[0])
                    },
                    None => if s.len() < 2 {
                        r == end && final(self).iterator.rest().len() == 0 && final(self).old is None
                    } else {
                        r == Ok::<Option<(V, V)>, SourceError>(Some((s[0], s[1])))
                            && final(self).iterator.rest() == s.skip(2)
                            && final(self).old == Some(s[1])
                    },
                }
            }),
    {
        let ghost s = self.iterator.rest();
        let ghost had_previous = self.old is Some;
        let prev = match self.old {
            None => match self.iterator.advance() {
                Ok(Some(v)) => v,
                Ok(None) => return Ok(None),
                Err(e) => return Err(e),
            },
            Some(obj) => obj,
        };
        let new = match self.iterator.advance() {
            Ok(Some(v)) => v,
            Ok(None) => return Ok(None),
            Err(e) => return Err(e),
        };
        proof {
            if !had_previous {
                assert(self.iterator.rest() =~= s.skip(2));
            }
        }
        self.old = Some(new);
        Ok(Some((prev, new)))
    }
}

} // verus!
