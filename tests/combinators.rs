use itertools_core::callables::{IdentityKey, LessThan, Maximum, Truthy};
use itertools_core::chain::PyItertoolsChain;
use itertools_core::combinations::{PyItertoolsCombinations, PyItertoolsCombinationsWithReplacement};
use itertools_core::cursor::{Cursor, OwnedCursor, SourceError, VecCursor};
use itertools_core::error::{ItertoolsError, SliceBound};
use itertools_core::filters::{
    PyItertoolsAccumulate, PyItertoolsCompress, PyItertoolsDropwhile, PyItertoolsFilterFalse,
    PyItertoolsPairwise, PyItertoolsStarmap, PyItertoolsTakewhile,
};
use itertools_core::groupby::PyItertoolsGroupBy;
use itertools_core::integer::Integer;
use itertools_core::islice::{pyobject_to_opt_usize, PyItertoolsIslice, SliceArg};
use itertools_core::permutations::PyItertoolsPermutations;
use itertools_core::product::PyItertoolsProduct;
use itertools_core::producers::{PyItertoolsCount, PyItertoolsRepeat};
use itertools_core::replay::{PyItertoolsCycle, PyItertoolsTee};
use itertools_core::zip::PyItertoolsZipLongest;

fn src<V: Copy>(v: &[V]) -> VecCursor<V> {
    VecCursor::new(v.to_vec())
}

fn chars(s: &str) -> VecCursor<char> {
    VecCursor::new(s.chars().collect())
}

fn big(v: i64) -> Integer {
    Integer::from_i64(v)
}

fn drain_chain(c: &mut PyItertoolsChain<VecCursor<i64>>) -> Vec<i64> {
    let mut out = Vec::new();
    while let Ok(Some(v)) = c.advance() {
        out.push(v);
    }
    out
}

#[test]
fn chain_concatenates_sources() {
    let mut c = PyItertoolsChain::tp_new(vec![src(&[1, 2]), src(&[]), src(&[3])]);
    assert_eq!(drain_chain(&mut c), vec![1, 2, 3]);
    assert_eq!(c.advance(), Ok(None));
}

#[test]
fn chain_with_empty_sources() {
    let mut c = PyItertoolsChain::tp_new(vec![src::<i64>(&[]), src(&[])]);
    assert_eq!(drain_chain(&mut c), Vec::<i64>::new());
    let mut none = PyItertoolsChain::<VecCursor<i64>>::tp_new(vec![]);
    assert_eq!(drain_chain(&mut none), Vec::<i64>::new());
}

#[test]
fn islice_start_stop_step() {
    let args = vec![SliceArg::Int(big(2)), SliceArg::Int(big(7)), SliceArg::Int(big(2))];
    let mut s = PyItertoolsIslice::tp_new(src(&[0i64, 1, 2, 3, 4, 5, 6, 7, 8, 9]), &args).unwrap();
    let mut out = Vec::new();
    while let Ok(Some(v)) = s.next::<i64>() {
        out.push(v);
    }
    assert_eq!(out, vec![2, 4, 6]);
    assert_eq!(s.next::<i64>(), Ok(None));
}

#[test]
fn islice_stop_only_and_open_stop() {
    let mut s = PyItertoolsIslice::tp_new(src(&[5i64, 6, 7, 8]), &vec![SliceArg::Int(big(2))]).unwrap();
    assert_eq!(s.next::<i64>(), Ok(Some(5)));
    assert_eq!(s.next::<i64>(), Ok(Some(6)));
    assert_eq!(s.next::<i64>(), Ok(None));
    let args = vec![SliceArg::Int(big(1)), SliceArg::NoneValue];
    let mut t = PyItertoolsIslice::tp_new(src(&[5i64, 6, 7]), &args).unwrap();
    assert_eq!(t.next::<i64>(), Ok(Some(6)));
    assert_eq!(t.next::<i64>(), Ok(Some(7)));
    assert_eq!(t.next::<i64>(), Ok(None));
}

#[test]
fn islice_rejects_bad_arguments() {
    let e = PyItertoolsIslice::tp_new(src(&[1i64]), &vec![]).err();
    assert_eq!(e, Some(ItertoolsError::ArgumentCount(0)));
    let args = vec![SliceArg::Int(big(0)), SliceArg::Int(big(1)), SliceArg::NotInt];
    let e = PyItertoolsIslice::tp_new(src(&[1i64]), &args).err();
    assert_eq!(e, Some(ItertoolsError::InvalidBound(SliceBound::Step)));
    let args = vec![SliceArg::Int(big(-1)), SliceArg::Int(big(1))];
    let e = PyItertoolsIslice::tp_new(src(&[1i64]), &args).err();
    assert_eq!(e, Some(ItertoolsError::InvalidBound(SliceBound::Start)));
    let e = PyItertoolsIslice::tp_new(src(&[1i64]), &vec![SliceArg::Int(big(i64::MAX)), SliceArg::NotInt]).err();
    assert_eq!(e, Some(ItertoolsError::InvalidBound(SliceBound::Stop)));
    let four = vec![SliceArg::NoneValue, SliceArg::NoneValue, SliceArg::NoneValue, SliceArg::NoneValue];
    assert_eq!(PyItertoolsIslice::tp_new(src(&[1i64]), &four).err(), Some(ItertoolsError::ArgumentCount(4)));
}

#[test]
fn bound_conversion_limits() {
    assert_eq!(pyobject_to_opt_usize(&SliceArg::Int(big(i64::MAX)), SliceBound::Stop), Ok(i64::MAX as usize));
    assert_eq!(pyobject_to_opt_usize(&SliceArg::Int(big(0)), SliceBound::Start), Ok(0));
    let too_big = Integer::from_bytes(vec![0, 0, 0, 0, 0, 0, 0, 0x80, 0]);
    assert_eq!(
        pyobject_to_opt_usize(&SliceArg::Int(too_big), SliceBound::Stop),
        Err(ItertoolsError::InvalidBound(SliceBound::Stop))
    );
    assert_eq!(
        pyobject_to_opt_usize(&SliceArg::NoneValue, SliceBound::Step),
        Err(ItertoolsError::InvalidBound(SliceBound::Step))
    );
}

fn comb_strings(mut c: PyItertoolsCombinations<char>) -> Vec<String> {
    let mut out = Vec::new();
    while let Some(t) = c.next() {
        out.push(t.into_iter().collect());
    }
    out
}

#[test]
fn combinations_of_abcd_pairs() {
    let c = PyItertoolsCombinations::py_new(chars("ABCD"), &big(2)).unwrap();
    assert_eq!(comb_strings(c), vec!["AB", "AC", "AD", "BC", "BD", "CD"]);
}

#[test]
fn combinations_edge_sizes() {
    let zero = PyItertoolsCombinations::py_new(chars("AB"), &big(0)).unwrap();
    assert_eq!(comb_strings(zero), vec![""]);
    let too_many = PyItertoolsCombinations::py_new(chars("AB"), &big(3)).unwrap();
    assert_eq!(comb_strings(too_many), Vec::<String>::new());
    let e = PyItertoolsCombinations::py_new(chars("AB"), &big(-1)).err();
    assert_eq!(e, Some(ItertoolsError::NegativeSize));
}

#[test]
fn combinations_with_replacement_order() {
    let mut c = PyItertoolsCombinationsWithReplacement::py_new(chars("ABC"), &big(2)).unwrap();
    let mut out: Vec<String> = Vec::new();
    while let Some(t) = c.next() {
        out.push(t.into_iter().collect());
    }
    assert_eq!(out, vec!["AA", "AB", "AC", "BB", "BC", "CC"]);
    let mut empty = PyItertoolsCombinationsWithReplacement::py_new(chars(""), &big(2)).unwrap();
    assert_eq!(empty.next(), None);
}

#[test]
fn permutations_of_abc() {
    let mut p = PyItertoolsPermutations::py_new(chars("ABC"), None).unwrap();
    let mut out: Vec<String> = Vec::new();
    while let Some(t) = p.next() {
        out.push(t.into_iter().collect());
    }
    assert_eq!(out, vec!["ABC", "ACB", "BAC", "BCA", "CAB", "CBA"]);
}

#[test]
fn permutations_of_size_two() {
    let mut p = PyItertoolsPermutations::py_new(chars("ABC"), Some(big(2))).unwrap();
    let mut out: Vec<String> = Vec::new();
    while let Some(t) = p.next() {
        out.push(t.into_iter().collect());
    }
    assert_eq!(out, vec!["AB", "AC", "BA", "BC", "CA", "CB"]);
    let mut oversized = PyItertoolsPermutations::py_new(chars("AB"), Some(big(3))).unwrap();
    assert_eq!(oversized.next(), None);
    assert_eq!(PyItertoolsPermutations::py_new(chars("AB"), Some(big(-2))).err(), Some(ItertoolsError::NegativeSize));
}

#[test]
fn product_of_two_pools() {
    let mut p = PyItertoolsProduct::py_new(vec![src(&[0i64, 1]), src(&[0, 1])], 1).unwrap();
    let mut out = Vec::new();
    while let Some(t) = p.next() {
        out.push(t);
    }
    assert_eq!(out, vec![vec![0, 0], vec![0, 1], vec![1, 0], vec![1, 1]]);
}

#[test]
fn product_with_empty_pool_and_repeat() {
    let mut p = PyItertoolsProduct::py_new(vec![src(&[0i64, 1]), src(&[])], 1).unwrap();
    assert_eq!(p.next(), None);
    let mut q = PyItertoolsProduct::py_new(vec![src(&[7i64, 8])], 2).unwrap();
    let mut out = Vec::new();
    while let Some(t) = q.next() {
        out.push(t);
    }
    assert_eq!(out, vec![vec![7, 7], vec![7, 8], vec![8, 7], vec![8, 8]]);
    let mut unit = PyItertoolsProduct::<i64>::py_new::<VecCursor<i64>>(vec![], 1).unwrap();
    assert_eq!(unit.next(), Some(vec![]));
    assert_eq!(unit.next(), None);
}

#[test]
fn tee_cursors_interleaved() {
    let (mut data, mut tees) = PyItertoolsTee::py_new(src(&[10i64, 20, 30]), 3);
    let mut a = tees.remove(0);
    let mut b = tees.remove(0);
    let mut c = tees.remove(0);
    assert_eq!(a.next(&mut data), Ok(Some(10)));
    assert_eq!(a.next(&mut data), Ok(Some(20)));
    assert_eq!(b.next(&mut data), Ok(Some(10)));
    assert_eq!(a.next(&mut data), Ok(Some(30)));
    assert_eq!(a.next(&mut data), Ok(None));
    assert_eq!(c.next(&mut data), Ok(Some(10)));
    assert_eq!(b.next(&mut data), Ok(Some(20)));
    assert_eq!(c.next(&mut data), Ok(Some(20)));
    assert_eq!(c.next(&mut data), Ok(Some(30)));
    assert_eq!(b.next(&mut data), Ok(Some(30)));
    assert_eq!(b.next(&mut data), Ok(None));
    assert_eq!(c.next(&mut data), Ok(None));
}

#[test]
fn tee_copy_starts_in_lockstep() {
    let (mut data, mut a) = PyItertoolsTee::from_iter(src(&[1i64, 2, 3]));
    assert_eq!(a.next(&mut data), Ok(Some(1)));
    let mut b = a.copy();
    assert_eq!(b.next(&mut data), Ok(Some(2)));
    assert_eq!(b.next(&mut data), Ok(Some(3)));
    assert_eq!(a.next(&mut data), Ok(Some(2)));
}

#[test]
fn tee_buffer_fills_once() {
    let mut data = itertools_core::replay::PyItertoolsTeeData::new(src(&[4i64, 5]));
    assert_eq!(data.get_item(0), Ok(Some(4)));
    assert_eq!(data.get_item(0), Ok(Some(4)));
    assert_eq!(data.get_item(1), Ok(Some(5)));
    assert_eq!(data.get_item(2), Ok(None));
    assert_eq!(data.values, vec![4, 5]);
}

fn collect_group(g: &itertools_core::groupby::PyItertoolsGrouper,
                 parent: &mut PyItertoolsGroupBy<VecCursor<i64>, IdentityKey, i64, i64>) -> Vec<i64> {
    let mut out = Vec::new();
    while let Ok(Some(v)) = g.next(parent) {
        out.push(v);
    }
    out
}

#[test]
fn groupby_groups_by_adjacency() {
    let mut gb = PyItertoolsGroupBy::py_new(src(&[1i64, 1, 2, 2, 1]), IdentityKey);
    let mut groups = Vec::new();
    while let Ok(Some((k, g))) = gb.next() {
        let vals = collect_group(&g, &mut gb);
        groups.push((k, vals));
    }
    assert_eq!(groups, vec![(1, vec![1, 1]), (2, vec![2, 2]), (1, vec![1])]);
}

#[test]
fn groupby_superseded_grouper_is_exhausted() {
    let mut gb = PyItertoolsGroupBy::py_new(src(&[1i64, 1, 1, 2, 3]), IdentityKey);
    let (k1, g1) = gb.next().unwrap().unwrap();
    assert_eq!(k1, 1);
    assert_eq!(g1.next(&mut gb), Ok(Some(1)));
    let (k2, g2) = gb.next().unwrap().unwrap();
    assert_eq!(k2, 2);
    assert_eq!(g1.next(&mut gb), Ok(None));
    assert!(!gb.state.is_current(&g1));
    assert!(gb.state.is_current(&g2));
    assert_eq!(g2.next(&mut gb), Ok(Some(2)));
    let (k3, _g3) = gb.next().unwrap().unwrap();
    assert_eq!(k3, 3);
    assert!(matches!(gb.next(), Ok(None)));
}

#[test]
fn groupby_advance_pulls_value_and_key() {
    let mut gb = PyItertoolsGroupBy::py_new(chars("ab"), IdentityKey);
    assert_eq!(gb.advance(), Ok(Some(('a', 'a'))));
    assert_eq!(gb.advance(), Ok(Some(('b', 'b'))));
    assert_eq!(gb.advance(), Ok(None));
}

#[test]
fn cycle_repeats_saved_values() {
    let mut c = PyItertoolsCycle::py_new(src(&[1i64, 2, 3]));
    let out: Vec<i64> = (0..7).map(|_| c.next().unwrap().unwrap()).collect();
    assert_eq!(out, vec![1, 2, 3, 1, 2, 3, 1]);
}

#[test]
fn cycle_of_empty_never_yields() {
    let mut c = PyItertoolsCycle::py_new(src::<i64>(&[]));
    for _ in 0..5 {
        assert_eq!(c.next(), Ok(None));
    }
}

#[test]
fn zip_longest_fills_missing() {
    let mut z = PyItertoolsZipLongest::py_new(vec![src(&[1i64, 2, 3]), src(&[1])], 0);
    let mut out = Vec::new();
    while let Ok(Some(t)) = z.next() {
        out.push(t);
    }
    assert_eq!(out, vec![vec![1, 1], vec![2, 0], vec![3, 0]]);
    let mut none = PyItertoolsZipLongest::<VecCursor<i64>, i64>::py_new(vec![], 0);
    assert_eq!(none.next(), Ok(None));
}

#[test]
fn count_steps_with_big_integers() {
    let mut c = PyItertoolsCount::py_new(Some(big(i64::MAX - 1)), None);
    assert_eq!(c.next().to_i64(), Some(i64::MAX - 1));
    assert_eq!(c.next().to_i64(), Some(i64::MAX));
    let beyond = c.next();
    assert_eq!(beyond.to_i64(), None);
    assert!(!beyond.is_negative());
    let mut d = PyItertoolsCount::py_new(None, Some(big(-3)));
    assert_eq!(d.next().to_i64(), Some(0));
    assert_eq!(d.next().to_i64(), Some(-3));
    assert_eq!(d.next().to_i64(), Some(-6));
}

#[test]
fn integer_arithmetic_round_trip() {
    let a = big(-1125);
    assert_eq!(a.bytes, vec![155, 251]);
    assert!(a.is_negative());
    assert_eq!(a.add(&big(1125)).to_i64(), Some(0));
    assert_eq!(big(300).to_usize(), Some(300));
    assert_eq!(big(-1).to_usize(), None);
}

#[test]
fn repeat_counts_down() {
    let mut r = PyItertoolsRepeat::py_new('x', Some(big(2))).unwrap();
    assert_eq!(r.length_hint(), Some(2));
    assert_eq!(r.next(), Some('x'));
    assert_eq!(r.reduce(), ('x', Some(1)));
    assert_eq!(r.next(), Some('x'));
    assert_eq!(r.next(), None);
    assert_eq!(r.length_hint(), Some(0));
    let mut forever = PyItertoolsRepeat::py_new(5i64, None).unwrap();
    assert_eq!(forever.length_hint(), None);
    assert_eq!(forever.next(), Some(5));
    assert_eq!(forever.reduce(), (5, None));
}

#[test]
fn repeat_count_limits() {
    assert_eq!(PyItertoolsRepeat::py_new(1i64, Some(big(-5))).err(), Some(ItertoolsError::NegativeCount));
    let zero = PyItertoolsRepeat::py_new(1i64, Some(big(0))).unwrap();
    assert_eq!(zero.length_hint(), Some(0));
    let over = Integer::from_bytes(vec![0, 0, 0, 0, 0, 0, 0, 0x80, 0]);
    assert_eq!(PyItertoolsRepeat::py_new(1i64, Some(over)).err(), Some(ItertoolsError::Overflow));
    let max = PyItertoolsRepeat::py_new(1i64, Some(big(i64::MAX))).unwrap();
    assert_eq!(max.length_hint(), Some(i64::MAX as usize));
}

#[test]
fn repeat_text() {
    let r = PyItertoolsRepeat::py_new(1i64, Some(big(120))).unwrap();
    assert_eq!(r.repr("'a'"), "repeat('a', 120)");
    let f = PyItertoolsRepeat::py_new(1i64, None).unwrap();
    assert_eq!(f.repr("None"), "repeat(None)");
}

#[test]
fn compress_selects_in_lockstep() {
    let mut c = PyItertoolsCompress::py_new(chars("ABCDEF"), src(&[true, false, true, false, true, true]));
    let mut out = String::new();
    while let Ok(Some(v)) = c.next::<char>() {
        out.push(v);
    }
    assert_eq!(out, "ACEF");
    let mut short = PyItertoolsCompress::py_new(chars("ABC"), src(&[false]));
    assert_eq!(short.next::<char>(), Ok(None));
    assert_eq!(short.data.advance(), Ok(Some('B')));
}

#[test]
fn filterfalse_keeps_failures() {
    let mut f = PyItertoolsFilterFalse::py_new(Truthy, src(&[0i64, 1, 0, 2, 0]));
    let mut out = Vec::new();
    while let Ok(Some(v)) = f.next::<i64>() {
        out.push(v);
    }
    assert_eq!(out, vec![0, 0, 0]);
}

#[test]
fn takewhile_stops_for_good() {
    let mut t = PyItertoolsTakewhile::py_new(LessThan { bound: 5 }, src(&[1i64, 4, 6, 4, 1]));
    assert_eq!(t.next::<i64>(), Ok(Some(1)));
    assert_eq!(t.next::<i64>(), Ok(Some(4)));
    assert_eq!(t.next::<i64>(), Ok(None));
    assert_eq!(t.next::<i64>(), Ok(None));
    assert_eq!(t.iterable.advance(), Ok(Some(4)));
}

#[test]
fn dropwhile_then_forwards() {
    let mut d = PyItertoolsDropwhile::py_new(LessThan { bound: 5 }, src(&[1i64, 4, 6, 4, 1]));
    let mut out = Vec::new();
    while let Ok(Some(v)) = d.next::<i64>() {
        out.push(v);
    }
    assert_eq!(out, vec![6, 4, 1]);
}

#[test]
fn starmap_applies_to_argument_tuples() {
    let rows = OwnedCursor::new(vec![vec![2i64, 5], vec![3, 2], vec![10, 3]]);
    let mut s = PyItertoolsStarmap::py_new(Maximum, rows);
    assert_eq!(s.next::<i64, Option<i64>>(), Ok(Some(Some(5))));
    assert_eq!(s.next::<i64, Option<i64>>(), Ok(Some(Some(3))));
    assert_eq!(s.next::<i64, Option<i64>>(), Ok(Some(Some(10))));
    assert_eq!(s.next::<i64, Option<i64>>(), Ok(None));
}

#[test]
fn accumulate_running_max_and_seed() {
    let mut a = PyItertoolsAccumulate::py_new(src(&[3i64, 4, 6, 2, 1, 9]), Maximum, None);
    let mut out = Vec::new();
    while let Ok(Some(v)) = a.next() {
        out.push(v);
    }
    assert_eq!(out, vec![3, 4, 6, 6, 6, 9]);
    let mut seeded = PyItertoolsAccumulate::py_new(src::<i64>(&[]), Maximum, Some(7));
    assert_eq!(seeded.next(), Ok(Some(7)));
    assert_eq!(seeded.next(), Ok(None));
    let mut empty = PyItertoolsAccumulate::py_new(src::<i64>(&[]), Maximum, None);
    assert_eq!(empty.next(), Ok(None));
}

#[test]
fn pairwise_slides_by_one() {
    let mut p = PyItertoolsPairwise::py_new(chars("ABCD"));
    assert_eq!(p.next(), Ok(Some(('A', 'B'))));
    assert_eq!(p.next(), Ok(Some(('B', 'C'))));
    assert_eq!(p.next(), Ok(Some(('C', 'D'))));
    assert_eq!(p.next(), Ok(None));
    let mut one = PyItertoolsPairwise::py_new(chars("A"));
    assert_eq!(one.next(), Ok(None));
}

#[test]
fn construction_pulls_nothing_or_everything() {
    let f = PyItertoolsFilterFalse::py_new(Truthy, src(&[1i64, 2]));
    assert_eq!(f.iterable.pos, 0);
    let s = PyItertoolsIslice::tp_new(src(&[1i64, 2, 3]), &vec![SliceArg::Int(big(2))]).unwrap();
    assert_eq!(s.iterable.pos, 0);
    let c: PyItertoolsCycle<VecCursor<i64>, i64> = PyItertoolsCycle::py_new(src(&[1i64]));
    assert_eq!(c.iter.pos, 0);
    let comb = PyItertoolsCombinations::py_new(chars("ABC"), &big(2)).unwrap();
    assert_eq!(comb.pool, vec!['A', 'B', 'C']);
}

#[test]
fn chain_from_iterable_of_sources() {
    let sources = OwnedCursor::new(vec![src(&[1i64]), src(&[]), src(&[2, 3])]);
    let mut c = PyItertoolsChain::from_iterable(sources).unwrap();
    assert_eq!(drain_chain(&mut c), vec![1, 2, 3]);
}

#[test]
fn permutations_counters_roll_over() {
    let mut p = PyItertoolsPermutations::py_new(chars("AB"), None).unwrap();
    assert_eq!(p.cycles, vec![2, 1]);
    assert_eq!(p.next(), Some(vec!['A', 'B']));
    assert_eq!(p.next(), Some(vec!['B', 'A']));
    assert_eq!(p.cycles, vec![1, 1]);
    assert_eq!(p.next(), None);
    assert_eq!(p.next(), None);
}

#[test]
fn permutations_of_empty_pool() {
    let mut p = PyItertoolsPermutations::py_new(chars(""), None).unwrap();
    assert_eq!(p.next(), Some(vec![]));
    assert_eq!(p.next(), None);
}

#[test]
fn product_update_advances_odometer() {
    let mut p = PyItertoolsProduct::py_new(vec![src(&[0i64, 1]), src(&[0, 1, 2])], 1).unwrap();
    p.update_idxs();
    assert_eq!(p.idxs, vec![0, 1]);
    p.update_idxs();
    p.update_idxs();
    assert_eq!(p.idxs, vec![1, 0]);
    assert!(!p.stop);
    p.update_idxs();
    p.update_idxs();
    assert_eq!(p.idxs, vec![1, 2]);
    p.update_idxs();
    assert!(p.stop);
}

#[test]
fn islice_step_zero_repeats_position_rule() {
    let args = vec![SliceArg::Int(big(1)), SliceArg::Int(big(3)), SliceArg::Int(big(0))];
    let mut s = PyItertoolsIslice::tp_new(src(&[0i64, 1, 2, 3, 4]), &args).unwrap();
    assert_eq!(s.next::<i64>(), Ok(Some(1)));
    assert_eq!(s.next::<i64>(), Ok(Some(2)));
    assert_eq!(s.next::<i64>(), Ok(None));
}

#[test]
fn tee_of_a_tee_shares_the_buffer() {
    let (mut data, mut a) = PyItertoolsTee::from_iter(src(&[1i64, 2, 3]));
    assert_eq!(a.next(&mut data), Ok(Some(1)));
    let mut more = a.copies(2);
    assert_eq!(more.len(), 2);
    assert_eq!(more[0].next(&mut data), Ok(Some(2)));
    assert_eq!(more[1].next(&mut data), Ok(Some(2)));
    assert_eq!(more[1].next(&mut data), Ok(Some(3)));
    assert_eq!(data.values, vec![1, 2, 3]);
}

fn failing(v: &[i64], code: u64) -> VecCursor<i64> {
    VecCursor::failing(v.to_vec(), SourceError { code })
}

#[test]
fn source_failure_is_distinct_from_exhaustion() {
    let mut f = failing(&[1], 7);
    assert_eq!(f.advance(), Ok(Some(1)));
    assert_eq!(f.advance(), Err(SourceError { code: 7 }));
}

#[test]
fn chain_stops_at_a_failing_source() {
    let mut c = PyItertoolsChain::tp_new(vec![src(&[1i64]), failing(&[2], 3), src(&[4])]);
    assert_eq!(c.advance(), Ok(Some(1)));
    assert_eq!(c.advance(), Ok(Some(2)));
    assert_eq!(c.advance(), Err(SourceError { code: 3 }));
}

#[test]
fn zip_longest_failure_abandons_the_step() {
    let mut z = PyItertoolsZipLongest::py_new(vec![src(&[1i64, 2]), failing(&[5], 9), src(&[8, 9])], 0);
    assert_eq!(z.next(), Ok(Some(vec![1, 5, 8])));
    assert_eq!(z.next(), Err(SourceError { code: 9 }));
    assert_eq!(z.iterators[0].advance(), Ok(None));
    assert_eq!(z.iterators[2].advance(), Ok(Some(9)));
}

#[test]
fn filters_pass_failures_on() {
    let mut f = PyItertoolsFilterFalse::py_new(Truthy, failing(&[1, 2], 4));
    assert_eq!(f.next::<i64>(), Err(SourceError { code: 4 }));
    let mut s = PyItertoolsIslice::tp_new(failing(&[0, 1], 5), &vec![SliceArg::Int(big(3)), SliceArg::NoneValue]).unwrap();
    assert_eq!(s.next::<i64>(), Err(SourceError { code: 5 }));
    let mut a = PyItertoolsAccumulate::py_new(failing(&[3], 6), Maximum, None);
    assert_eq!(a.next(), Ok(Some(3)));
    assert_eq!(a.next(), Err(SourceError { code: 6 }));
}

#[test]
fn pool_construction_reports_failure() {
    let e = PyItertoolsCombinations::py_new(failing(&[1, 2], 8), &big(1)).err();
    assert_eq!(e, Some(ItertoolsError::Source(SourceError { code: 8 })));
    let e = PyItertoolsProduct::py_new(vec![src(&[1i64]), failing(&[], 2), failing(&[], 3)], 1).err();
    assert_eq!(e, Some(ItertoolsError::Source(SourceError { code: 2 })));
}

#[test]
fn groupby_and_tee_pass_failures_on() {
    let mut gb = PyItertoolsGroupBy::py_new(failing(&[1, 1], 11), IdentityKey);
    let (_, g) = gb.next().unwrap().unwrap();
    assert_eq!(g.next(&mut gb), Ok(Some(1)));
    assert_eq!(g.next(&mut gb), Ok(Some(1)));
    assert_eq!(g.next(&mut gb), Err(SourceError { code: 11 }));
    let (mut data, mut t) = PyItertoolsTee::from_iter(failing(&[], 12));
    assert_eq!(t.next(&mut data), Err(SourceError { code: 12 }));
    let mut c = PyItertoolsCycle::py_new(failing(&[1], 13));
    assert_eq!(c.next(), Ok(Some(1)));
    assert_eq!(c.next(), Err(SourceError { code: 13 }));
}

#[test]
fn sizes_beyond_isize_are_refused() {
    let over = || Integer::from_bytes(vec![0, 0, 0, 0, 0, 0, 0, 0x80, 0]);
    assert_eq!(PyItertoolsCombinations::py_new(chars("AB"), &over()).err(), Some(ItertoolsError::Overflow));
    assert_eq!(
        PyItertoolsCombinationsWithReplacement::py_new(chars("AB"), &over()).err(),
        Some(ItertoolsError::Overflow)
    );
    assert_eq!(PyItertoolsPermutations::py_new(chars("AB"), Some(over())).err(), Some(ItertoolsError::Overflow));
    let mut big_r = PyItertoolsCombinations::py_new(chars("AB"), &big(i64::MAX)).unwrap();
    assert_eq!(big_r.next(), None);
}

#[test]
fn cycle_stops_pulling_after_the_first_pass() {
    let mut c = PyItertoolsCycle::py_new(src(&[1i64, 2]));
    assert_eq!(c.next(), Ok(Some(1)));
    assert_eq!(c.next(), Ok(Some(2)));
    assert!(!c.replaying);
    assert_eq!(c.next(), Ok(Some(1)));
    assert!(c.replaying);
    assert_eq!(c.next(), Ok(Some(2)));
    assert_eq!(c.iter.pos, 2);
}

#[test]
fn grouper_keeps_the_key_while_current() {
    let mut gb = PyItertoolsGroupBy::py_new(src(&[4i64, 4, 5]), IdentityKey);
    let (k, g) = gb.next().unwrap().unwrap();
    assert_eq!(k, 4);
    assert_eq!(g.next(&mut gb), Ok(Some(4)));
    assert_eq!(gb.state.current_key, Some(4));
    assert_eq!(g.next(&mut gb), Ok(Some(4)));
    assert_eq!(gb.state.current_key, Some(4));
    assert!(!gb.state.next_group);
    assert_eq!(g.next(&mut gb), Ok(None));
    assert!(gb.state.next_group);
}

#[test]
fn permutations_first_call_keeps_counters() {
    let mut p = PyItertoolsPermutations::py_new(chars("ABC"), None).unwrap();
    assert_eq!(p.next(), Some(vec!['A', 'B', 'C']));
    assert_eq!(p.cycles, vec![3, 2, 1]);
    assert_eq!(p.indices, vec![0, 1, 2]);
    assert_eq!(p.result, Some(vec![0, 1, 2]));
    assert_eq!(p.next(), Some(vec!['A', 'C', 'B']));
    assert_eq!(p.cycles, vec![3, 1, 1]);
}

#[test]
fn chain_failure_keeps_later_sources_unopened() {
    let mut c = PyItertoolsChain::tp_new(vec![failing(&[], 21), src(&[5i64])]);
    assert_eq!(c.advance(), Err(SourceError { code: 21 }));
    assert_eq!(c.iterables.len(), 1);
    assert_eq!(c.iterables[0].pos, 0);
    assert!(c.cached_iter.is_some());
}
