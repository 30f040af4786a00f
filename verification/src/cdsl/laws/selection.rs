//! What the choices of a builder mean for the set that is built.

use vstd::prelude::*;

use crate::cdsl::builder::BuilderView;
use crate::cdsl::interval::Interval;
use crate::cdsl::numset::{
    ascending, enumerates, is_power_of_two, lemma_ascending, lemma_enumeration_unique,
    lemma_small_powers, powers_between, range_set, Range, RangeBound,
};

verus! {

/// The powers of two, one by one.
pub proof fn law_powers_of_two(x: RangeBound)
    ensures
        is_power_of_two(x) <==> {
            ||| x == 1 || x == 2 || x == 4 || x == 8 || x == 16 || x == 32 || x == 64 || x == 128
            ||| x == 256 || x == 512 || x == 1024 || x == 2048 || x == 4096 || x == 8192
            ||| x == 16384 || x == 32768
        },
{
    assert(1u16 << 0 == 1 && 1u16 << 1 == 2 && 1u16 << 2 == 4 && 1u16 << 3 == 8 && 1u16 << 4 == 16
        && 1u16 << 5 == 32 && 1u16 << 6 == 64 && 1u16 << 7 == 128 && 1u16 << 8 == 256 && 1u16 << 9
        == 512 && 1u16 << 10 == 1024 && 1u16 << 11 == 2048 && 1u16 << 12 == 4096 && 1u16 << 13
        == 8192 && 1u16 << 14 == 16384 && 1u16 << 15 == 32768) by (bit_vector);
    if is_power_of_two(x) {
        let k = choose|k: u16| k < 16 && x == #[trigger] (1u16 << k);
        assert(k == 0 || k == 1 || k == 2 || k == 3 || k == 4 || k == 5 || k == 6 || k == 7 || k
            == 8 || k == 9 || k == 10 || k == 11 || k == 12 || k == 13 || k == 14 || k == 15);
    }
}

/// A range selects the powers of two between its bounds, which are included, and no range selects
/// nothing.
pub proof fn law_range_set(range: Range, x: RangeBound)
    ensures
        range_set(Some(range)).contains(x) <==> is_power_of_two(x) && range.start <= x
            && x <= range.end,
        !range_set(None).contains(x),
{
}

/// The ascending list of a set is the one list of its members in which each is less than the next.
pub proof fn law_ascending(s: Set<RangeBound>, q: Seq<RangeBound>)
    ensures
        q == ascending(s) <==> {
            &&& forall|i: int, j: int| 0 <= i < j < q.len() ==> q[i] < q[j]
            &&& forall|x: RangeBound| #[trigger] s.contains(x) <==> q.contains(x)
        },
{
    lemma_ascending(s);
    let all = ascending(s);
    assert forall|x: RangeBound| #[trigger] s.contains(x) <==> all.contains(x) by {
        assert(all.to_set().contains(x) == s.contains(x));
    }
    if (forall|i: int, j: int| 0 <= i < j < q.len() ==> q[i] < q[j]) && (forall|x: RangeBound|
        #[trigger] s.contains(x) <==> q.contains(x)) {
        assert forall|x: RangeBound| q.to_set().contains(x) == s.contains(x) by {}
        assert(q.to_set() =~= s);
        lemma_enumeration_unique(q, all, s);
    }
}

/// An interval that is everything or nothing fits anywhere. A range fits where its bounds are
/// powers of two, in order, and lie within.
pub proof fn law_interval_fits(range: Range, full: Range)
    ensures
        Interval::Empty.fits(full),
        Interval::All.fits(full),
        Interval::Range(range).fits(full) <==> {
            &&& is_power_of_two(range.start)
            &&& is_power_of_two(range.end)
            &&& full.start <= range.start
            &&& range.start <= range.end
            &&& range.end <= full.end
        },
{
}

/// Everything selects the full range, a range selects itself, and nothing selects the default
/// alone, where there is one.
pub proof fn law_interval_range(range: Range, full: Range, default: RangeBound)
    ensures
        Interval::All.spec_range(full, None) == Some(full),
        Interval::All.spec_range(full, Some(default)) == Some(full),
        Interval::Range(range).spec_range(full, None) == Some(range),
        Interval::Range(range).spec_range(full, Some(default)) == Some(range),
        Interval::Empty.spec_range(full, None) is None,
        Interval::Empty.spec_range(full, Some(default)) == Some(
            (Range { start: default, end: default }),
        ),
{
}

/// The lane counts of a built set: all of them, without that of scalars unless they are included;
/// or those in the range that was chosen; or the scalars alone where none was chosen. No other
/// choice matters.
pub proof fn law_built_lanes(builder: BuilderView, lanes: RangeBound)
    ensures
        builder.simd_lanes is All ==> (builder.built().lanes.contains(lanes) <==> is_power_of_two(
            lanes,
        ) && lanes <= 256 && (lanes >= 2 || builder.includes_scalars)),
        builder.simd_lanes matches Interval::Range(range) ==> (builder.built().lanes.contains(lanes)
            <==> is_power_of_two(lanes) && range.start <= lanes && lanes <= range.end),
        builder.simd_lanes is Empty ==> (builder.built().lanes.contains(lanes) <==> lanes == 1),
{
    lemma_small_powers(1);
    lemma_small_powers(0);
}

/// A set built without scalars, from chosen lane counts, has no scalar among its types.
pub proof fn law_built_without_scalars(builder: BuilderView)
    requires
        builder.buildable(),
        !builder.includes_scalars,
        !(builder.simd_lanes is Empty),
    ensures
        !builder.built().lanes.contains(1),
{
}

/// The dynamic lane counts of a built set: all from two on, or those in the range that was chosen,
/// or none. No other choice matters.
pub proof fn law_built_dynamic_lanes(builder: BuilderView, lanes: RangeBound)
    ensures
        builder.dynamic_simd_lanes is All ==> (builder.built().dynamic_lanes.contains(lanes)
            <==> is_power_of_two(lanes) && 2 <= lanes && lanes <= 256),
        builder.dynamic_simd_lanes matches Interval::Range(range) ==> (
        builder.built().dynamic_lanes.contains(lanes) <==> is_power_of_two(lanes) && range.start
            <= lanes && lanes <= range.end),
        builder.dynamic_simd_lanes is Empty ==> !builder.built().dynamic_lanes.contains(lanes),
{
}

/// The integer widths of a built set: all five, or those in the range that was chosen, or none. No
/// other choice matters.
pub proof fn law_built_ints(builder: BuilderView, bits: RangeBound)
    ensures
        builder.ints is All ==> (builder.built().ints.contains(bits) <==> bits == 8 || bits == 16
            || bits == 32 || bits == 64 || bits == 128),
        builder.ints matches Interval::Range(range) ==> (builder.built().ints.contains(bits)
            <==> is_power_of_two(bits) && range.start <= bits && bits <= range.end),
        builder.ints is Empty ==> !builder.built().ints.contains(bits),
{
    law_powers_of_two(bits);
}

/// The floating point widths of a built set: both, or those in the range that was chosen, or none.
/// No other choice matters.
pub proof fn law_built_floats(builder: BuilderView, bits: RangeBound)
    ensures
        builder.floats is All ==> (builder.built().floats.contains(bits) <==> bits == 32 || bits
            == 64),
        builder.floats matches Interval::Range(range) ==> (builder.built().floats.contains(bits)
            <==> is_power_of_two(bits) && range.start <= bits && bits <= range.end),
        builder.floats is Empty ==> !builder.built().floats.contains(bits),
{
    law_powers_of_two(bits);
}

/// The reference widths of a built set: both, or those in the range that was chosen, or none. No
/// other choice matters.
pub proof fn law_built_refs(builder: BuilderView, bits: RangeBound)
    ensures
        builder.refs is All ==> (builder.built().refs.contains(bits) <==> bits == 32 || bits == 64),
        builder.refs matches Interval::Range(range) ==> (builder.built().refs.contains(bits)
            <==> is_power_of_two(bits) && range.start <= bits && bits <= range.end),
        builder.refs is Empty ==> !builder.built().refs.contains(bits),
{
    law_powers_of_two(bits);
}

/// The special types of a built set are those that were chosen, in the same order.
pub proof fn law_built_specials(builder: BuilderView)
    ensures
        builder.built().specials == builder.specials,
{
}

/// A set can be built exactly if each range that was chosen has powers of two as its bounds, in
/// order, and lies within what there is: lane counts from one, or two without scalars, to 256,
/// dynamic ones from two to 256, integers from 8 to 128 bits, floats and references from 32 to 64.
pub proof fn law_buildable(builder: BuilderView)
    ensures
        builder.buildable() <==> {
            &&& builder.simd_lanes matches Interval::Range(range) ==> {
                &&& is_power_of_two(range.start) && is_power_of_two(range.end)
                &&& range.start <= range.end && range.end <= 256
                &&& range.start >= 1 && (range.start >= 2 || builder.includes_scalars)
            }
            &&& builder.dynamic_simd_lanes matches Interval::Range(range) ==> {
                &&& is_power_of_two(range.start) && is_power_of_two(range.end)
                &&& range.start <= range.end && range.end <= 256 && range.start >= 2
            }
            &&& builder.ints matches Interval::Range(range) ==> {
                &&& is_power_of_two(range.start) && is_power_of_two(range.end)
                &&& range.start <= range.end && range.end <= 128 && range.start >= 8
            }
            &&& builder.floats matches Interval::Range(range) ==> {
                &&& is_power_of_two(range.start) && is_power_of_two(range.end)
                &&& range.start <= range.end && range.end <= 64 && range.start >= 32
            }
            &&& builder.refs matches Interval::Range(range) ==> {
                &&& is_power_of_two(range.start) && is_power_of_two(range.end)
                &&& range.start <= range.end && range.end <= 64 && range.start >= 32
            }
        },
{
}

} // verus!
