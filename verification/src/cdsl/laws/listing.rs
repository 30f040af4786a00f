//! What holds of the lists of concrete types that sets of value types stand for.

use vstd::prelude::*;

use crate::cdsl::numset::{
    ascending, is_power_of_two, lemma_ascending, lemma_enumeration_unique,
    lemma_small_powers, RangeBound,
};
use crate::cdsl::types::{
    is_float_width, is_int_width, is_ref_width, DynamicVectorType, LaneType, ReferenceType,
    SpecialType, ValueType, VectorType,
};
use crate::cdsl::typeset::{
    dynamic_row, dynamic_rows, row, rows, TypeSet, TypeSetView, MAX_LANES,
};
use crate::cdsl::typevar::{lane_count, lane_type, singleton_set};
use crate::shared::types::{Float, Int, Reference};

verus! {

/// The number of types in the rows.
proof fn lemma_rows_len(
    lanes: Seq<RangeBound>,
    ints: Seq<RangeBound>,
    floats: Seq<RangeBound>,
    refs: Seq<RangeBound>,
)
    ensures
        rows(lanes, ints, floats, refs).len() == lanes.len() * (ints.len() + floats.len()
            + refs.len()),
    decreases lanes.len(),
{
    let each = ints.len() + floats.len() + refs.len();
    if lanes.len() > 0 {
        lemma_rows_len(lanes.drop_last(), ints, floats, refs);
        assert(lanes.len() * each == (lanes.len() - 1) * each + each) by (nonlinear_arith)
            requires
                lanes.len() > 0,
        ;
    }
}

/// The number of types in the dynamic rows.
proof fn lemma_dynamic_rows_len(
    lanes: Seq<RangeBound>,
    ints: Seq<RangeBound>,
    floats: Seq<RangeBound>,
)
    ensures
        dynamic_rows(lanes, ints, floats).len() == lanes.len() * (ints.len() + floats.len()),
    decreases lanes.len(),
{
    let each = ints.len() + floats.len();
    if lanes.len() > 0 {
        lemma_dynamic_rows_len(lanes.drop_last(), ints, floats);
        assert(lanes.len() * each == (lanes.len() - 1) * each + each) by (nonlinear_arith)
            requires
                lanes.len() > 0,
        ;
    }
}

/// The size of a set is the number of concrete types that it lists.
pub proof fn law_size_counts_types(set: TypeSetView)
    ensures
        set.concrete_types().len() == set.size(),
{
    lemma_ascending(set.lanes);
    lemma_ascending(set.dynamic_lanes);
    lemma_ascending(set.ints);
    lemma_ascending(set.floats);
    lemma_ascending(set.refs);
    lemma_rows_len(
        ascending(set.lanes),
        ascending(set.ints),
        ascending(set.floats),
        ascending(set.refs),
    );
    lemma_dynamic_rows_len(
        ascending(set.dynamic_lanes),
        ascending(set.ints),
        ascending(set.floats),
    );
}

/// A list of integer, floating point and reference widths, each of them the width of some type.
spec fn widths_listable(
    ints: Seq<RangeBound>,
    floats: Seq<RangeBound>,
    refs: Seq<RangeBound>,
) -> bool {
    &&& forall|i: int| 0 <= i < ints.len() ==> is_int_width(#[trigger] ints[i])
    &&& forall|i: int| 0 <= i < floats.len() ==> is_float_width(#[trigger] floats[i])
    &&& forall|i: int| 0 <= i < refs.len() ==> is_ref_width(#[trigger] refs[i])
}

/// Whether the width of `lane` is listed.
spec fn lane_listed(lane: LaneType, ints: Seq<RangeBound>, floats: Seq<RangeBound>) -> bool {
    match lane {
        LaneType::Int(integer) => ints.contains(integer.spec_bits()),
        LaneType::Float(float) => floats.contains(float.spec_bits()),
    }
}

/// The types in a row.
proof fn lemma_row_members(
    lanes: RangeBound,
    ints: Seq<RangeBound>,
    floats: Seq<RangeBound>,
    refs: Seq<RangeBound>,
    value_type: ValueType,
)
    requires
        widths_listable(ints, floats, refs),
    ensures
        row(lanes, ints, floats, refs).contains(value_type) <==> match value_type {
            ValueType::Lane(lane) => lanes == 1 && lane_listed(lane, ints, floats),
            ValueType::Vector(vector) => {
                lanes != 1 && vector.lanes == lanes && lane_listed(vector.base, ints, floats)
            },
            ValueType::Reference(reference) => refs.contains(reference.0.spec_bits()),
            _ => false,
        },
{
    let int_of = |bits: RangeBound| LaneType::spec_int(bits).spec_by_lanes(lanes);
    let float_of = |bits: RangeBound| LaneType::spec_float(bits).spec_by_lanes(lanes);
    let ref_of = |bits: RangeBound| ValueType::Reference(ReferenceType::spec_ref(bits));
    let all = row(lanes, ints, floats, refs);
    let (i, f) = (ints.len() as int, floats.len() as int);
    if all.contains(value_type) {
        let k = choose|k: int| 0 <= k < all.len() && all[k] == value_type;
        if k < i {
            assert(all[k] == int_of(ints[k]));
        } else if k < i + f {
            assert(all[k] == float_of(floats[k - i]));
        } else {
            assert(all[k] == ref_of(refs[k - i - f]));
        }
    }
    match value_type {
        ValueType::Reference(reference) => {
            if refs.contains(reference.0.spec_bits()) {
                let k = refs.index_of(reference.0.spec_bits());
                assert(all[i + f + k] == ref_of(refs[k]));
            }
        },
        _ => {
            if let Some(lane) = lane_type(value_type) {
                match lane {
                    LaneType::Int(integer) => {
                        if ints.contains(integer.spec_bits()) {
                            let k = ints.index_of(integer.spec_bits());
                            assert(all[k] == int_of(ints[k]));
                        }
                    },
                    LaneType::Float(float) => {
                        if floats.contains(float.spec_bits()) {
                            let k = floats.index_of(float.spec_bits());
                            assert(all[i + k] == float_of(floats[k]));
                        }
                    },
                }
            }
        },
    }
}

/// The types in a dynamic row.
proof fn lemma_dynamic_row_members(
    lanes: RangeBound,
    ints: Seq<RangeBound>,
    floats: Seq<RangeBound>,
    value_type: ValueType,
)
    requires
        widths_listable(ints, floats, seq![]),
    ensures
        dynamic_row(lanes, ints, floats).contains(value_type) <==> match value_type {
            ValueType::DynamicVector(vector) => {
                vector.unscaled_lanes == lanes && lane_listed(vector.base, ints, floats)
            },
            _ => false,
        },
{
    let int_of = |bits: RangeBound| LaneType::spec_int(bits).spec_to_dynamic(lanes);
    let float_of = |bits: RangeBound| LaneType::spec_float(bits).spec_to_dynamic(lanes);
    let all = dynamic_row(lanes, ints, floats);
    let i = ints.len() as int;
    if all.contains(value_type) {
        let k = choose|k: int| 0 <= k < all.len() && all[k] == value_type;
        if k < i {
            assert(all[k] == int_of(ints[k]));
        } else {
            assert(all[k] == float_of(floats[k - i]));
        }
    }
    if let Some(lane) = lane_type(value_type) {
        match lane {
            LaneType::Int(integer) => {
                if ints.contains(integer.spec_bits()) {
                    let k = ints.index_of(integer.spec_bits());
                    assert(all[k] == int_of(ints[k]));
                }
            },
            LaneType::Float(float) => {
                if floats.contains(float.spec_bits()) {
                    let k = floats.index_of(float.spec_bits());
                    assert(all[i + k] == float_of(floats[k]));
                }
            },
        }
    }
}

/// The members of two lists, one after the other.
proof fn lemma_append_members(a: Seq<ValueType>, b: Seq<ValueType>, value_type: ValueType)
    ensures
        (a + b).contains(value_type) <==> a.contains(value_type) || b.contains(value_type),
{
    let all = a + b;
    if all.contains(value_type) {
        let k = choose|k: int| 0 <= k < all.len() && all[k] == value_type;
        if k < a.len() {
            assert(a[k] == value_type);
        } else {
            assert(b[k - a.len()] == value_type);
        }
    }
    if a.contains(value_type) {
        assert(all[a.index_of(value_type)] == value_type);
    }
    if b.contains(value_type) {
        assert(all[a.len() + b.index_of(value_type)] == value_type);
    }
}

/// The types in the rows of all lane counts.
proof fn lemma_rows_members(
    lanes: Seq<RangeBound>,
    ints: Seq<RangeBound>,
    floats: Seq<RangeBound>,
    refs: Seq<RangeBound>,
    value_type: ValueType,
)
    requires
        lanes.len() > 0 ==> widths_listable(ints, floats, refs),
    ensures
        rows(lanes, ints, floats, refs).contains(value_type) <==> match value_type {
            ValueType::Lane(lane) => lanes.contains(1) && lane_listed(lane, ints, floats),
            ValueType::Vector(vector) => {
                &&& vector.lanes != 1
                &&& vector.lanes <= RangeBound::MAX
                &&& lanes.contains(vector.lanes as RangeBound)
                &&& lane_listed(vector.base, ints, floats)
            },
            ValueType::Reference(reference) => {
                lanes.len() > 0 && refs.contains(reference.0.spec_bits())
            },
            _ => false,
        },
    decreases lanes.len(),
{
    if lanes.len() > 0 {
        let (before, last) = (lanes.drop_last(), lanes.last());
        lemma_rows_members(before, ints, floats, refs, value_type);
        lemma_row_members(last, ints, floats, refs, value_type);
        lemma_append_members(
            rows(before, ints, floats, refs),
            row(last, ints, floats, refs),
            value_type,
        );
        assert(lanes =~= before.push(last));
        lemma_push_contains(before, last);
    }
}

/// The members of a list with one more item.
proof fn lemma_push_contains(q: Seq<RangeBound>, last: RangeBound)
    ensures
        forall|x: RangeBound| #[trigger] q.push(last).contains(x) <==> q.contains(x) || x == last,
{
    assert forall|x: RangeBound| #[trigger] q.push(last).contains(x) <==> q.contains(x) || x
        == last by {
        if q.contains(x) {
            assert(q.push(last)[q.index_of(x)] == x);
        }
        assert(q.push(last)[q.len() as int] == last);
    }
}

/// The types in the dynamic rows of all lane counts.
proof fn lemma_dynamic_rows_members(
    lanes: Seq<RangeBound>,
    ints: Seq<RangeBound>,
    floats: Seq<RangeBound>,
    value_type: ValueType,
)
    requires
        lanes.len() > 0 ==> widths_listable(ints, floats, seq![]),
    ensures
        dynamic_rows(lanes, ints, floats).contains(value_type) <==> match value_type {
            ValueType::DynamicVector(vector) => {
                &&& vector.unscaled_lanes <= RangeBound::MAX
                &&& lanes.contains(vector.unscaled_lanes as RangeBound)
                &&& lane_listed(vector.base, ints, floats)
            },
            _ => false,
        },
    decreases lanes.len(),
{
    if lanes.len() > 0 {
        let (before, last) = (lanes.drop_last(), lanes.last());
        lemma_dynamic_rows_members(before, ints, floats, value_type);
        lemma_dynamic_row_members(last, ints, floats, value_type);
        lemma_append_members(
            dynamic_rows(before, ints, floats),
            dynamic_row(last, ints, floats),
            value_type,
        );
        assert(lanes =~= before.push(last));
        lemma_push_contains(before, last);
    }
}

/// The ascending list of a set has the members of the set.
proof fn lemma_ascending_members(s: Set<RangeBound>)
    ensures
        forall|x: RangeBound| #[trigger] ascending(s).contains(x) <==> s.contains(x),
        forall|i: int| 0 <= i < ascending(s).len() ==> s.contains(#[trigger] ascending(s)[i]),
        ascending(s).len() == 0 <==> s.is_empty(),
{
    lemma_ascending(s);
    let q = ascending(s);
    assert forall|x: RangeBound| #[trigger] q.contains(x) <==> s.contains(x) by {
        assert(q.to_set().contains(x) == s.contains(x));
    }
    assert forall|i: int| 0 <= i < q.len() implies s.contains(#[trigger] q[i]) by {
        assert(q.contains(q[i]));
    }
    if q.len() > 0 {
        assert(s.contains(q[0]));
    }
    if !s.is_empty() {
        let x = choose|x: RangeBound| s.contains(x);
        assert(q.contains(x));
    }
}

/// A set lists exactly the types that it represents.
pub proof fn law_lists_what_it_represents(set: TypeSetView, value_type: ValueType)
    requires
        set.listable(),
    ensures
        set.concrete_types().contains(value_type) <==> set.represents(value_type),
{
    let (lanes, dynamic_lanes) = (ascending(set.lanes), ascending(set.dynamic_lanes));
    let (ints, floats, refs) = (ascending(set.ints), ascending(set.floats), ascending(set.refs));
    lemma_ascending_members(set.lanes);
    lemma_ascending_members(set.dynamic_lanes);
    lemma_ascending_members(set.ints);
    lemma_ascending_members(set.floats);
    lemma_ascending_members(set.refs);
    lemma_rows_members(lanes, ints, floats, refs, value_type);
    lemma_dynamic_rows_members(dynamic_lanes, ints, floats, value_type);
    let wrap = |special: SpecialType| ValueType::Special(special);
    let specials = set.specials.map_values(wrap);
    let fixed = rows(lanes, ints, floats, refs);
    let scalable = dynamic_rows(dynamic_lanes, ints, floats);
    lemma_append_members(fixed, scalable, value_type);
    lemma_append_members(fixed + scalable, specials, value_type);
    assert(specials.contains(value_type) <==> match value_type {
        ValueType::Special(special) => set.specials.contains(special),
        _ => false,
    }) by {
        if specials.contains(value_type) {
            let k = specials.index_of(value_type);
            assert(specials[k] == wrap(set.specials[k]));
        }
        if let ValueType::Special(special) = value_type {
            if set.specials.contains(special) {
                assert(specials[set.specials.index_of(special)] == value_type);
            }
        }
    }
}

/// Two lists without duplicates that share no type have no duplicates, one after the other.
proof fn lemma_append_unique(a: Seq<ValueType>, b: Seq<ValueType>)
    requires
        a.no_duplicates(),
        b.no_duplicates(),
        forall|value_type: ValueType| !(#[trigger] a.contains(value_type) && b.contains(value_type)),
    ensures
        (a + b).no_duplicates(),
{
    let all = a + b;
    let n = a.len() as int;
    assert forall|i: int, j: int|
        0 <= i < all.len() && 0 <= j < all.len() && i != j implies all[i] != all[j] by {
        if i < n && n <= j {
            assert(a.contains(a[i]));
            assert(b.contains(b[j - n]));
        } else if j < n && n <= i {
            assert(a.contains(a[j]));
            assert(b.contains(b[i - n]));
        }
    }
}

/// A row has no duplicates.
proof fn lemma_row_unique(
    lanes: RangeBound,
    ints: Seq<RangeBound>,
    floats: Seq<RangeBound>,
    refs: Seq<RangeBound>,
)
    requires
        widths_listable(ints, floats, refs),
        ints.no_duplicates(),
        floats.no_duplicates(),
        refs.no_duplicates(),
    ensures
        row(lanes, ints, floats, refs).no_duplicates(),
{
    let int_of = |bits: RangeBound| LaneType::spec_int(bits).spec_by_lanes(lanes);
    let float_of = |bits: RangeBound| LaneType::spec_float(bits).spec_by_lanes(lanes);
    let ref_of = |bits: RangeBound| ValueType::Reference(ReferenceType::spec_ref(bits));
    let (a, b, c) = (ints.map_values(int_of), floats.map_values(float_of), refs.map_values(ref_of));
    assert forall|value_type: ValueType| !(#[trigger] a.contains(value_type) && b.contains(
        value_type,
    )) by {
        if a.contains(value_type) && b.contains(value_type) {
            assert(value_type == int_of(ints[a.index_of(value_type)]));
            assert(value_type == float_of(floats[b.index_of(value_type)]));
        }
    }
    lemma_append_unique(a, b);
    assert forall|value_type: ValueType| !(#[trigger] (a + b).contains(value_type) && c.contains(
        value_type,
    )) by {
        if (a + b).contains(value_type) && c.contains(value_type) {
            lemma_append_members(a, b, value_type);
            if a.contains(value_type) {
                assert(value_type == int_of(ints[a.index_of(value_type)]));
            } else {
                assert(value_type == float_of(floats[b.index_of(value_type)]));
            }
            assert(value_type == ref_of(refs[c.index_of(value_type)]));
        }
    }
    lemma_append_unique(a + b, c);
}

/// A dynamic row has no duplicates.
proof fn lemma_dynamic_row_unique(
    lanes: RangeBound,
    ints: Seq<RangeBound>,
    floats: Seq<RangeBound>,
)
    requires
        widths_listable(ints, floats, seq![]),
        ints.no_duplicates(),
        floats.no_duplicates(),
    ensures
        dynamic_row(lanes, ints, floats).no_duplicates(),
{
    let int_of = |bits: RangeBound| LaneType::spec_int(bits).spec_to_dynamic(lanes);
    let float_of = |bits: RangeBound| LaneType::spec_float(bits).spec_to_dynamic(lanes);
    let (a, b) = (ints.map_values(int_of), floats.map_values(float_of));
    assert forall|value_type: ValueType| !(#[trigger] a.contains(value_type) && b.contains(
        value_type,
    )) by {
        if a.contains(value_type) && b.contains(value_type) {
            assert(value_type == int_of(ints[a.index_of(value_type)]));
            assert(value_type == float_of(floats[b.index_of(value_type)]));
        }
    }
    lemma_append_unique(a, b);
}

/// The rows of different lane counts share no type, unless there are references.
proof fn lemma_rows_unique(
    lanes: Seq<RangeBound>,
    ints: Seq<RangeBound>,
    floats: Seq<RangeBound>,
    refs: Seq<RangeBound>,
)
    requires
        lanes.len() > 0 ==> widths_listable(ints, floats, refs),
        lanes.no_duplicates(),
        ints.no_duplicates(),
        floats.no_duplicates(),
        refs.no_duplicates(),
        refs.len() == 0 || lanes.len() <= 1,
    ensures
        rows(lanes, ints, floats, refs).no_duplicates(),
    decreases lanes.len(),
{
    if lanes.len() > 0 {
        let (before, last) = (lanes.drop_last(), lanes.last());
        let (a, b) = (rows(before, ints, floats, refs), row(last, ints, floats, refs));
        lemma_rows_unique(before, ints, floats, refs);
        lemma_row_unique(last, ints, floats, refs);
        assert forall|value_type: ValueType| !(#[trigger] a.contains(value_type) && b.contains(
            value_type,
        )) by {
            lemma_rows_members(before, ints, floats, refs, value_type);
            lemma_row_members(last, ints, floats, refs, value_type);
            if before.contains(last) {
                assert(lanes[before.index_of(last)] == lanes[lanes.len() - 1]);
            }
        }
        lemma_append_unique(a, b);
    }
}

/// The dynamic rows of different lane counts share no type.
proof fn lemma_dynamic_rows_unique(
    lanes: Seq<RangeBound>,
    ints: Seq<RangeBound>,
    floats: Seq<RangeBound>,
)
    requires
        lanes.len() > 0 ==> widths_listable(ints, floats, seq![]),
        lanes.no_duplicates(),
        ints.no_duplicates(),
        floats.no_duplicates(),
    ensures
        dynamic_rows(lanes, ints, floats).no_duplicates(),
    decreases lanes.len(),
{
    if lanes.len() > 0 {
        let (before, last) = (lanes.drop_last(), lanes.last());
        let (a, b) = (dynamic_rows(before, ints, floats), dynamic_row(last, ints, floats));
        lemma_dynamic_rows_unique(before, ints, floats);
        lemma_dynamic_row_unique(last, ints, floats);
        assert forall|value_type: ValueType| !(#[trigger] a.contains(value_type) && b.contains(
            value_type,
        )) by {
            lemma_dynamic_rows_members(before, ints, floats, value_type);
            lemma_dynamic_row_members(last, ints, floats, value_type);
            if before.contains(last) {
                assert(lanes[before.index_of(last)] == lanes[lanes.len() - 1]);
            }
        }
        lemma_append_unique(a, b);
    }
}

/// The size of a set is the number of types that it represents: each of them is listed once.
/// A set where a reference comes with more than one lane count is left out, as it is listed with
/// each of them, and so is one that names a special type twice.
pub proof fn law_size_is_number_of_types(set: TypeSetView)
    requires
        set.listable(),
        set.refs.is_empty() || set.lanes.len() <= 1,
        set.specials.no_duplicates(),
    ensures
        set.concrete_types().no_duplicates(),
        set.concrete_types().len() == set.size(),
{
    let (lanes, dynamic_lanes) = (ascending(set.lanes), ascending(set.dynamic_lanes));
    let (ints, floats, refs) = (ascending(set.ints), ascending(set.floats), ascending(set.refs));
    lemma_ascending(set.lanes);
    lemma_ascending(set.dynamic_lanes);
    lemma_ascending(set.ints);
    lemma_ascending(set.floats);
    lemma_ascending(set.refs);
    lemma_ascending_members(set.lanes);
    lemma_ascending_members(set.dynamic_lanes);
    lemma_ascending_members(set.ints);
    lemma_ascending_members(set.floats);
    lemma_ascending_members(set.refs);
    lemma_rows_unique(lanes, ints, floats, refs);
    lemma_dynamic_rows_unique(dynamic_lanes, ints, floats);
    let wrap = |special: SpecialType| ValueType::Special(special);
    let specials = set.specials.map_values(wrap);
    let fixed = rows(lanes, ints, floats, refs);
    let scalable = dynamic_rows(dynamic_lanes, ints, floats);
    assert forall|value_type: ValueType| !(#[trigger] fixed.contains(value_type)
        && scalable.contains(value_type)) by {
        lemma_rows_members(lanes, ints, floats, refs, value_type);
        lemma_dynamic_rows_members(dynamic_lanes, ints, floats, value_type);
    }
    lemma_append_unique(fixed, scalable);
    assert forall|value_type: ValueType| !(#[trigger] (fixed + scalable).contains(value_type)
        && specials.contains(value_type)) by {
        lemma_append_members(fixed, scalable, value_type);
        lemma_rows_members(lanes, ints, floats, refs, value_type);
        lemma_dynamic_rows_members(dynamic_lanes, ints, floats, value_type);
        if specials.contains(value_type) {
            let k = specials.index_of(value_type);
            assert(specials[k] == wrap(set.specials[k]));
        }
    }
    lemma_append_unique(fixed + scalable, specials);
    law_size_counts_types(set);
}

/// The ascending list of a set with one member.
proof fn lemma_ascending_one(x: RangeBound)
    ensures
        ascending(set![x]) == seq![x],
{
    lemma_ascending(set![x]);
    assert(seq![x].to_set() =~= set![x]) by {
        assert(seq![x][0] == x);
    }
    lemma_enumeration_unique(ascending(set![x]), seq![x], set![x]);
}

/// The ascending list of the empty set.
proof fn lemma_ascending_none()
    ensures
        ascending(Set::empty()) == Seq::<RangeBound>::empty(),
{
    lemma_ascending(Set::empty());
}

/// The variable that stands for a scalar, a reference or a special type has that type alone.
pub proof fn law_singleton_of_scalar(value_type: ValueType)
    requires
        value_type is Lane || value_type is Reference || value_type is Special,
    ensures
        singleton_set(value_type).valid(),
        singleton_set(value_type).concrete_types() == seq![value_type],
        singleton_set(value_type).countable(),
        singleton_set(value_type).singleton() == Some(value_type),
{
    reveal_with_fuel(rows, 2);
    reveal_with_fuel(dynamic_rows, 2);
    let set = singleton_set(value_type);
    lemma_small_powers(1);
    lemma_ascending_none();
    lemma_ascending_one(1);
    match value_type {
        ValueType::Lane(LaneType::Int(integer)) => {
            lemma_ascending_one(integer.spec_bits());
        },
        ValueType::Lane(LaneType::Float(float)) => {
            lemma_ascending_one(float.spec_bits());
        },
        ValueType::Reference(reference) => {
            lemma_ascending_one(reference.0.spec_bits());
        },
        _ => {},
    }
    assert(seq![1u16].drop_last() =~= seq![]);
    assert(set.concrete_types() =~= seq![value_type]);
    law_size_counts_types(set);
}

/// The variable that stands for a vector has two types: the vector with that number of lanes, and
/// the dynamic vector with at least that number of lanes.
pub proof fn law_singleton_of_vector(value_type: ValueType)
    requires
        value_type is Vector || value_type is DynamicVector,
        is_power_of_two(lane_count(value_type)),
        1 < lane_count(value_type) <= MAX_LANES,
    ensures
        singleton_set(value_type).valid(),
        singleton_set(value_type).concrete_types() == seq![
            lane_type(value_type)->0.spec_by_lanes(lane_count(value_type)),
            lane_type(value_type)->0.spec_to_dynamic(lane_count(value_type)),
        ],
        singleton_set(value_type).countable(),
        singleton_set(value_type).singleton() is None,
{
    reveal_with_fuel(rows, 2);
    reveal_with_fuel(dynamic_rows, 2);
    let set = singleton_set(value_type);
    let lanes = lane_count(value_type);
    let lane = lane_type(value_type)->0;
    lemma_ascending_none();
    lemma_ascending_one(lanes);
    match lane {
        LaneType::Int(integer) => {
            lemma_ascending_one(integer.spec_bits());
        },
        LaneType::Float(float) => {
            lemma_ascending_one(float.spec_bits());
        },
    }
    assert(seq![lanes].drop_last() =~= seq![]);
    assert(set.concrete_types() =~= seq![lane.spec_by_lanes(lanes), lane.spec_to_dynamic(lanes)]);
    law_size_counts_types(set);
}

/// A set of numbers within a list has no more members than the list has items.
proof fn lemma_len_within(s: Set<RangeBound>, items: Seq<RangeBound>)
    requires
        forall|x: RangeBound| #[trigger] s.contains(x) ==> items.contains(x),
    ensures
        s.len() <= items.len(),
{
    assert(s.subset_of(items.to_set()));
    vstd::set_lib::lemma_len_subset(s, items.to_set());
    items.lemma_cardinality_of_set();
}

/// A valid set can be counted, and listed where it has one type only. Left out are the sets that
/// name more special types than there is room for in a count.
pub proof fn law_valid_sets_are_countable(set: TypeSetView)
    requires
        set.valid(),
        set.specials.len() + 137 <= usize::MAX,
    ensures
        set.countable(),
{
    let (l, d) = (set.lanes.len(), set.dynamic_lanes.len());
    let (i, f, r) = (set.ints.len(), set.floats.len(), set.refs.len());
    let powers = seq![1u16, 2u16, 4u16, 8u16, 16u16, 32u16, 64u16, 128u16, 256u16];
    let vector_powers = seq![2u16, 4u16, 8u16, 16u16, 32u16, 64u16, 128u16, 256u16];
    assert(l <= 9) by {
        assert forall|x: RangeBound| #[trigger] set.lanes.contains(x) implies powers.contains(
            x,
        ) by {
            lemma_small_powers(x);
            assert(powers[0] == 1 && powers[1] == 2 && powers[2] == 4 && powers[3] == 8
                && powers[4] == 16 && powers[5] == 32 && powers[6] == 64 && powers[7] == 128
                && powers[8] == 256);
        }
        lemma_len_within(set.lanes, powers);
    }
    assert(d <= 8) by {
        assert forall|x: RangeBound| #[trigger] set.dynamic_lanes.contains(
            x,
        ) implies vector_powers.contains(x) by {
            lemma_small_powers(x);
            assert(vector_powers[0] == 2 && vector_powers[1] == 4 && vector_powers[2] == 8
                && vector_powers[3] == 16 && vector_powers[4] == 32 && vector_powers[5] == 64
                && vector_powers[6] == 128 && vector_powers[7] == 256);
        }
        lemma_len_within(set.dynamic_lanes, vector_powers);
    }
    assert(i <= 5) by {
        let widths = seq![8u16, 16u16, 32u16, 64u16, 128u16];
        assert(widths[0] == 8 && widths[1] == 16 && widths[2] == 32 && widths[3] == 64 && widths[4]
            == 128);
        lemma_len_within(set.ints, widths);
    }
    let widths = seq![32u16, 64u16];
    assert(widths[0] == 32 && widths[1] == 64);
    lemma_len_within(set.floats, widths);
    lemma_len_within(set.refs, widths);
    assert(l * (i + f + r) <= 81 && d * (i + f) <= 56) by (nonlinear_arith)
        requires
            l <= 9,
            d <= 8,
            i <= 5,
            f <= 2,
            r <= 2,
    ;
}

/// Where in the rows a row stands.
proof fn lemma_rows_index(
    lanes: Seq<RangeBound>,
    ints: Seq<RangeBound>,
    floats: Seq<RangeBound>,
    refs: Seq<RangeBound>,
    a: int,
    b: int,
)
    requires
        0 <= a < lanes.len(),
        0 <= b < ints.len() + floats.len() + refs.len(),
    ensures
        0 <= a * (ints.len() + floats.len() + refs.len()) + b < rows(
            lanes,
            ints,
            floats,
            refs,
        ).len(),
        rows(lanes, ints, floats, refs)[a * (ints.len() + floats.len() + refs.len()) + b] == row(
            lanes[a],
            ints,
            floats,
            refs,
        )[b],
    decreases lanes.len(),
{
    let w = (ints.len() + floats.len() + refs.len()) as int;
    let n = lanes.len() as int;
    let front = lanes.drop_last();
    lemma_rows_len(lanes, ints, floats, refs);
    lemma_rows_len(front, ints, floats, refs);
    assert(0 <= a * w && a * w + b < n * w) by (nonlinear_arith)
        requires
            0 <= a < n,
            0 <= b < w,
    ;
    if a < n - 1 {
        lemma_rows_index(front, ints, floats, refs, a, b);
    } else {
        assert(a * w == (n - 1) * w);
    }
}

/// Where in the dynamic rows a dynamic row stands.
proof fn lemma_dynamic_rows_index(
    lanes: Seq<RangeBound>,
    ints: Seq<RangeBound>,
    floats: Seq<RangeBound>,
    a: int,
    b: int,
)
    requires
        0 <= a < lanes.len(),
        0 <= b < ints.len() + floats.len(),
    ensures
        0 <= a * (ints.len() + floats.len()) + b < dynamic_rows(lanes, ints, floats).len(),
        dynamic_rows(lanes, ints, floats)[a * (ints.len() + floats.len()) + b] == dynamic_row(
            lanes[a],
            ints,
            floats,
        )[b],
    decreases lanes.len(),
{
    let w = (ints.len() + floats.len()) as int;
    let n = lanes.len() as int;
    let front = lanes.drop_last();
    lemma_dynamic_rows_len(lanes, ints, floats);
    lemma_dynamic_rows_len(front, ints, floats);
    assert(0 <= a * w && a * w + b < n * w) by (nonlinear_arith)
        requires
            0 <= a < n,
            0 <= b < w,
    ;
    if a < n - 1 {
        lemma_dynamic_rows_index(front, ints, floats, a, b);
    } else {
        assert(a * w == (n - 1) * w);
    }
}

/// The types with fixed lanes come first, by lane count. Those with one lane count are all
/// integers, then all floats, then all references, each by width, in ascending order: `a` picks
/// the lane count and `b` the width.
pub proof fn law_fixed_types_in_order(set: TypeSetView, a: int, b: int)
    requires
        0 <= a < set.lanes.len(),
    ensures
        0 <= b < set.ints.len() ==> set.concrete_types()[a * (set.ints.len() + set.floats.len()
            + set.refs.len()) + b] == LaneType::spec_int(ascending(set.ints)[b]).spec_by_lanes(
            ascending(set.lanes)[a],
        ),
        0 <= b < set.floats.len() ==> set.concrete_types()[a * (set.ints.len() + set.floats.len()
            + set.refs.len()) + set.ints.len() + b] == LaneType::spec_float(
            ascending(set.floats)[b],
        ).spec_by_lanes(ascending(set.lanes)[a]),
        0 <= b < set.refs.len() ==> set.concrete_types()[a * (set.ints.len() + set.floats.len()
            + set.refs.len()) + set.ints.len() + set.floats.len() + b] == ValueType::Reference(
            ReferenceType::spec_ref(ascending(set.refs)[b]),
        ),
{
    let (lanes, ints) = (ascending(set.lanes), ascending(set.ints));
    let (floats, refs) = (ascending(set.floats), ascending(set.refs));
    lemma_ascending(set.lanes);
    lemma_ascending(set.ints);
    lemma_ascending(set.floats);
    lemma_ascending(set.refs);
    let (i, f) = (ints.len() as int, floats.len() as int);
    if 0 <= b < ints.len() {
        lemma_rows_index(lanes, ints, floats, refs, a, b);
    }
    if 0 <= b < floats.len() {
        lemma_rows_index(lanes, ints, floats, refs, a, i + b);
    }
    if 0 <= b < refs.len() {
        lemma_rows_index(lanes, ints, floats, refs, a, i + f + b);
    }
}

/// The types with dynamic lanes come next, by lane count. Those with one lane count are all
/// integers, then all floats, each by width, in ascending order.
pub proof fn law_dynamic_types_in_order(set: TypeSetView, a: int, b: int)
    requires
        0 <= a < set.dynamic_lanes.len(),
    ensures
        0 <= b < set.ints.len() ==> set.concrete_types()[set.lanes.len() * (set.ints.len()
            + set.floats.len() + set.refs.len()) + a * (set.ints.len() + set.floats.len()) + b]
            == LaneType::spec_int(ascending(set.ints)[b]).spec_to_dynamic(
            ascending(set.dynamic_lanes)[a],
        ),
        0 <= b < set.floats.len() ==> set.concrete_types()[set.lanes.len() * (set.ints.len()
            + set.floats.len() + set.refs.len()) + a * (set.ints.len() + set.floats.len())
            + set.ints.len() + b] == LaneType::spec_float(
            ascending(set.floats)[b],
        ).spec_to_dynamic(ascending(set.dynamic_lanes)[a]),
{
    let (lanes, dynamic_lanes) = (ascending(set.lanes), ascending(set.dynamic_lanes));
    let (ints, floats, refs) = (ascending(set.ints), ascending(set.floats), ascending(set.refs));
    lemma_ascending(set.lanes);
    lemma_ascending(set.dynamic_lanes);
    lemma_ascending(set.ints);
    lemma_ascending(set.floats);
    lemma_ascending(set.refs);
    lemma_rows_len(lanes, ints, floats, refs);
    if 0 <= b < ints.len() {
        lemma_dynamic_rows_index(dynamic_lanes, ints, floats, a, b);
    }
    if 0 <= b < floats.len() {
        lemma_dynamic_rows_index(dynamic_lanes, ints, floats, a, ints.len() + b);
    }
}

/// The special types come last, in the order of the set, and then the list ends: it has one type
/// for each lane count and width, and no reference with a dynamic number of lanes.
pub proof fn law_special_types_last(set: TypeSetView, k: int)
    ensures
        set.concrete_types().len() == set.lanes.len() * (set.ints.len() + set.floats.len()
            + set.refs.len()) + set.dynamic_lanes.len() * (set.ints.len() + set.floats.len())
            + set.specials.len(),
        0 <= k < set.specials.len() ==> set.concrete_types()[set.concrete_types().len()
            - set.specials.len() + k] == ValueType::Special(set.specials[k]),
        set.size() == set.lanes.len() * (set.ints.len() + set.floats.len() + set.refs.len())
            + set.dynamic_lanes.len() * (set.ints.len() + set.floats.len()) + set.specials.len(),
{
    law_size_counts_types(set);
    lemma_ascending(set.lanes);
    lemma_ascending(set.dynamic_lanes);
    lemma_ascending(set.ints);
    lemma_ascending(set.floats);
    lemma_ascending(set.refs);
    let lanes = ascending(set.lanes);
    let (ints, floats, refs) = (ascending(set.ints), ascending(set.floats), ascending(set.refs));
    lemma_rows_len(lanes, ints, floats, refs);
    lemma_dynamic_rows_len(ascending(set.dynamic_lanes), ints, floats);
}

/// A set has a singleton exactly if it has one type, of whatever kind, and then it is that type:
/// it is represented, and no other type is.
pub proof fn law_singleton(set: TypeSetView, value_type: ValueType)
    ensures
        set.singleton() is Some <==> set.size() == 1,
        set.singleton() == Some(value_type) <==> set.concrete_types() == seq![value_type],
        set.listable() && set.singleton() == Some(value_type) ==> set.represents(value_type),
        set.listable() && set.singleton() is Some && set.represents(value_type) ==> set.singleton()
            == Some(value_type),
{
    law_size_counts_types(set);
    let types = set.concrete_types();
    if types.len() == 1 {
        assert(types =~= seq![types[0]]);
        if set.listable() {
            law_lists_what_it_represents(set, value_type);
            law_lists_what_it_represents(set, types[0]);
        }
    }
    if types == seq![value_type] {
        assert(types[0] == value_type);
    }
    if set.listable() && set.singleton() == Some(value_type) {
        assert(types.contains(types[0]));
    }
}

/// A set that represents no type but one, and lists it once, has it as its singleton.
pub proof fn law_sole_type_is_singleton(set: TypeSetView, value_type: ValueType)
    requires
        set.listable(),
        set.concrete_types().no_duplicates(),
        set.represents(value_type),
        forall|other: ValueType| #[trigger] set.represents(other) ==> other == value_type,
    ensures
        set.singleton() == Some(value_type),
{
    let types = set.concrete_types();
    law_lists_what_it_represents(set, value_type);
    assert forall|k: int| 0 <= k < types.len() implies types[k] == value_type by {
        assert(types.contains(types[k]));
        law_lists_what_it_represents(set, types[k]);
    }
    if types.len() > 1 {
        assert(types[0] == types[1]);
    }
}

/// A set represents a scalar exactly if it has the single lane and the width of the scalar, a
/// vector exactly if it has the number of lanes and the width of a lane, a reference exactly if it
/// has its width and some number of lanes, and a special type exactly if it names it.
pub proof fn law_represents(
    set: TypeSetView,
    integer: Int,
    float: Float,
    reference: Reference,
    special: SpecialType,
    lanes: RangeBound,
)
    ensures
        set.represents(LaneType::Int(integer).spec_by_lanes(lanes)) <==> set.lanes.contains(lanes)
            && set.ints.contains(integer.spec_bits()),
        set.represents(LaneType::Float(float).spec_by_lanes(lanes)) <==> set.lanes.contains(lanes)
            && set.floats.contains(float.spec_bits()),
        set.represents(LaneType::Int(integer).spec_to_dynamic(lanes))
            <==> set.dynamic_lanes.contains(lanes) && set.ints.contains(integer.spec_bits()),
        set.represents(LaneType::Float(float).spec_to_dynamic(lanes))
            <==> set.dynamic_lanes.contains(lanes) && set.floats.contains(float.spec_bits()),
        set.represents(ValueType::Reference(ReferenceType(reference))) <==> set.refs.contains(
            reference.spec_bits(),
        ) && exists|some: RangeBound| #[trigger] set.lanes.contains(some),
        set.represents(ValueType::Special(special)) <==> set.specials.contains(special),
{
    lemma_some_member(set.lanes);
}

/// A set can be listed exactly if it lists no width that no type has: without lane counts none is
/// listed, and no reference with dynamic lane counts alone. It can be counted exactly if it is not
/// too large, and can be listed where it has one type.
pub proof fn law_listable(set: TypeSetView)
    ensures
        set.listable() <==> {
            &&& (exists|x: RangeBound| #[trigger] set.lanes.contains(x)) || (exists|x: RangeBound|
                #[trigger] set.dynamic_lanes.contains(x)) ==> {
                &&& forall|x: RangeBound| #[trigger] set.ints.contains(x) ==> is_int_width(x)
                &&& forall|x: RangeBound| #[trigger] set.floats.contains(x) ==> is_float_width(x)
            }
            &&& (exists|x: RangeBound| #[trigger] set.lanes.contains(x)) ==> forall|x: RangeBound|
                #[trigger] set.refs.contains(x) ==> is_ref_width(x)
        },
        set.valid() ==> set.listable(),
        set.countable() <==> set.size() <= usize::MAX && (set.size() != 1 || set.listable()),
{
    lemma_some_member(set.lanes);
    lemma_some_member(set.dynamic_lanes);
}

proof fn lemma_some_member(s: Set<RangeBound>)
    ensures
        !s.is_empty() <==> exists|x: RangeBound| #[trigger] s.contains(x),
{
    if s.is_empty() {
        assert forall|x: RangeBound| !#[trigger] s.contains(x) by {}
    } else {
        let some = choose|x: RangeBound| s.contains(x);
        assert(s.contains(some));
    }
}

/// A set is valid exactly if its lane counts are powers of two up to 256, the dynamic ones from
/// two on, and its widths are those of types.
pub proof fn law_valid(set: TypeSetView)
    ensures
        set.valid() <==> {
            &&& forall|x: RangeBound| #[trigger]
                set.lanes.contains(x) ==> is_power_of_two(x) && x <= 256
            &&& forall|x: RangeBound| #[trigger]
                set.dynamic_lanes.contains(x) ==> is_power_of_two(x) && 2 <= x && x <= 256
            &&& forall|x: RangeBound| #[trigger] set.ints.contains(x) ==> is_int_width(x)
            &&& forall|x: RangeBound| #[trigger] set.floats.contains(x) ==> is_float_width(x)
            &&& forall|x: RangeBound| #[trigger] set.refs.contains(x) ==> is_ref_width(x)
        },
{
}

/// The number of lanes of a value type, and their type.
pub proof fn law_lane_count(lane: LaneType, lanes: u16, value_type: ValueType)
    ensures
        lane_count(lane.spec_by_lanes(lanes)) == lanes,
        lane_count(lane.spec_to_dynamic(lanes)) == lanes,
        lane_type(lane.spec_by_lanes(lanes)) == Some(lane),
        lane_type(lane.spec_to_dynamic(lanes)) == Some(lane),
        value_type is Reference || value_type is Special ==> lane_count(value_type) == 1
            && lane_type(value_type) is None,
{
}

/// Of a number of lanes only as much counts as a lane count can hold.
pub proof fn law_large_lane_count(base: LaneType, lanes: u64)
    ensures
        lane_count(ValueType::Vector((VectorType { base, lanes }))) == lanes % 0x10000,
        lane_count(
            ValueType::DynamicVector((DynamicVectorType { base, unscaled_lanes: lanes })),
        ) == lanes % 0x10000,
        lane_type(ValueType::Vector((VectorType { base, lanes }))) == Some(base),
        lane_type(
            ValueType::DynamicVector((DynamicVectorType { base, unscaled_lanes: lanes })),
        ) == Some(base),
{
    assert(lanes as u16 == lanes % 0x10000) by (bit_vector);
}

/// A set of types stands for the sets that it holds.
pub proof fn law_set_view(set: TypeSet)
    ensures
        set@.lanes == set.lanes@,
        set@.dynamic_lanes == set.dynamic_lanes@,
        set@.ints == set.ints@,
        set@.floats == set.floats@,
        set@.refs == set.refs@,
        set@.specials == set.specials@,
{
}

/// The set of the variable that stands for a type holds its number of lanes, fixed and, unless it
/// is one, dynamic, and its width among those of its kind, and nothing else.
pub proof fn law_singleton_set(value_type: ValueType, x: RangeBound)
    ensures
        singleton_set(value_type).lanes.contains(x) <==> x == lane_count(value_type),
        singleton_set(value_type).dynamic_lanes.contains(x) <==> x == lane_count(value_type) && x
            > 1,
        singleton_set(value_type).ints.contains(x) <==> (lane_type(value_type) matches Some(
            LaneType::Int(integer),
        ) && integer.spec_bits() == x),
        singleton_set(value_type).floats.contains(x) <==> (lane_type(value_type) matches Some(
            LaneType::Float(float),
        ) && float.spec_bits() == x),
        singleton_set(value_type).refs.contains(x) <==> (value_type matches ValueType::Reference(
            reference,
        ) && reference.0.spec_bits() == x),
        value_type matches ValueType::Special(special) ==> singleton_set(value_type).specials
            == seq![special],
        !(value_type is Special) ==> singleton_set(value_type).specials.len() == 0,
{
}

} // verus!
