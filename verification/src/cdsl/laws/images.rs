//! What holds of the images of sets of value types.

use vstd::prelude::*;

use crate::cdsl::numset::{
    doubled, halved, is_power_of_two, lemma_ascending, lemma_doubled_members, lemma_halved_members,
    lemma_small_powers, RangeBound,
};
use crate::cdsl::types::{LaneType, ValueType};
use crate::cdsl::typeset::{DerivedFunc, TypeSetView, MAX_BITS, MAX_FLOAT_BITS, MAX_LANES};

verus! {

/// The half of a member above the floor is among the halves.
proof fn lemma_half_of(s: Set<RangeBound>, floor: RangeBound, x: RangeBound)
    requires
        s.contains(x),
        x > floor,
    ensures
        halved(s, floor).contains((x / 2) as RangeBound),
{
    lemma_halved_members(s, floor);
}

/// A half is the half of some member above the floor.
proof fn lemma_half_origin(s: Set<RangeBound>, floor: RangeBound, y: RangeBound) -> (x: RangeBound)
    requires
        halved(s, floor).contains(y),
    ensures
        s.contains(x),
        x > floor,
        y == x / 2,
{
    lemma_halved_members(s, floor);
    choose|x: RangeBound| #[trigger] s.contains(x) && x > floor && y == x / 2
}

/// The double of a member below the limit is among the doubles.
proof fn lemma_double_of(s: Set<RangeBound>, limit: RangeBound, x: RangeBound)
    requires
        s.contains(x),
        x < limit,
    ensures
        doubled(s, limit).contains((2 * x) as RangeBound),
{
    lemma_doubled_members(s, limit);
}

/// A double is the double of some member below the limit.
proof fn lemma_double_origin(s: Set<RangeBound>, limit: RangeBound, y: RangeBound) -> (x:
    RangeBound)
    requires
        doubled(s, limit).contains(y),
    ensures
        s.contains(x),
        x < limit,
        y == (2 * x) as RangeBound,
{
    lemma_doubled_members(s, limit);
    choose|x: RangeBound| #[trigger] s.contains(x) && x < limit && y == (2 * x) as RangeBound
}

/// Doubling undoes halving where every member is even and above the floor.
proof fn lemma_double_of_half(s: Set<RangeBound>, floor: RangeBound, limit: RangeBound)
    requires
        forall|x: RangeBound| #[trigger] s.contains(x) ==> x > floor && x % 2 == 0 && x / 2 < limit,
    ensures
        doubled(halved(s, floor), limit) == s,
        halved(s, floor).len() == s.len(),
        forall|y: RangeBound| #[trigger]
            halved(s, floor).contains(y) ==> y < limit && s.contains((2 * y) as RangeBound),
{
    let halves = halved(s, floor);
    assert forall|x: RangeBound| #[trigger] s.contains(x) implies doubled(halves, limit).contains(
        x,
    ) by {
        lemma_half_of(s, floor, x);
        lemma_double_of(halves, limit, (x / 2) as RangeBound);
    }
    assert forall|x: RangeBound| #[trigger] doubled(halves, limit).contains(x) implies s.contains(
        x,
    ) by {
        let y = lemma_double_origin(halves, limit, x);
        let z = lemma_half_origin(s, floor, y);
    }
    assert(doubled(halves, limit) =~= s);
    assert forall|y: RangeBound| #[trigger] halves.contains(y) implies y < limit && s.contains(
        (2 * y) as RangeBound,
    ) by {
        let z = lemma_half_origin(s, floor, y);
    }
    assert(s.filter(|x: RangeBound| x > floor) =~= s);
    lemma_ascending(s);
    vstd::set_lib::lemma_map_size(s, halves, |x: RangeBound| x / 2);
}

/// Halving undoes doubling where every member is below the limit and its double above the floor.
proof fn lemma_half_of_double(s: Set<RangeBound>, limit: RangeBound, floor: RangeBound)
    requires
        limit <= 0x8000,
        forall|x: RangeBound| #[trigger] s.contains(x) ==> x < limit && 2 * x > floor,
    ensures
        halved(doubled(s, limit), floor) == s,
        doubled(s, limit).len() == s.len(),
        forall|y: RangeBound| #[trigger]
            doubled(s, limit).contains(y) ==> y > floor && s.contains((y / 2) as RangeBound),
{
    let doubles = doubled(s, limit);
    assert forall|x: RangeBound| #[trigger] s.contains(x) implies halved(doubles, floor).contains(
        x,
    ) by {
        lemma_double_of(s, limit, x);
        lemma_half_of(doubles, floor, (2 * x) as RangeBound);
    }
    assert forall|x: RangeBound| #[trigger] halved(doubles, floor).contains(x) implies s.contains(
        x,
    ) by {
        let y = lemma_half_origin(doubles, floor, x);
        let z = lemma_double_origin(s, limit, y);
    }
    assert(halved(doubles, floor) =~= s);
    assert forall|y: RangeBound| #[trigger] doubles.contains(y) implies y > floor && s.contains(
        (y / 2) as RangeBound,
    ) by {
        let z = lemma_double_origin(s, limit, y);
    }
    assert(s.filter(|x: RangeBound| x < limit) =~= s);
    lemma_ascending(s);
    vstd::set_lib::lemma_map_size(s, doubles, |x: RangeBound| (2 * x) as RangeBound);
}

/// The lane counts of a valid set, one by one.
proof fn lemma_lane_values(set: TypeSetView)
    requires
        set.valid(),
    ensures
        forall|x: RangeBound| #[trigger]
            set.lanes.contains(x) ==> x == 1 || x == 2 || x == 4 || x == 8 || x == 16 || x == 32
                || x == 64 || x == 128 || x == 256,
        forall|x: RangeBound| #[trigger]
            set.dynamic_lanes.contains(x) ==> x == 2 || x == 4 || x == 8 || x == 16 || x == 32 || x
                == 64 || x == 128 || x == 256,
{
    assert forall|x: RangeBound| #[trigger] set.lanes.contains(x) implies x == 1 || x == 2 || x == 4
        || x == 8 || x == 16 || x == 32 || x == 64 || x == 128 || x == 256 by {
        lemma_small_powers(x);
    }
    assert forall|x: RangeBound| #[trigger] set.dynamic_lanes.contains(x) implies x == 2 || x == 4
        || x == 8 || x == 16 || x == 32 || x == 64 || x == 128 || x == 256 by {
        lemma_small_powers(x);
    }
}

/// Deriving never leaves the types that exist: the image of a valid set is valid.
pub proof fn law_image_valid(set: TypeSetView, func: DerivedFunc)
    requires
        set.valid(),
    ensures
        set.image(func).valid(),
{
    lemma_half_width_valid(set);
    lemma_double_width_valid(set);
    lemma_half_vector_valid(set);
    lemma_double_vector_valid(set);
    match func {
        DerivedFunc::SplitLanes => {
            lemma_double_vector_valid(set.half_width());
        },
        DerivedFunc::MergeLanes => {
            lemma_half_vector_valid(set.double_width());
        },
        DerivedFunc::LaneOf => {
            lemma_small_powers(1);
        },
        _ => {},
    }
}

proof fn lemma_half_width_valid(set: TypeSetView)
    requires
        set.valid(),
    ensures
        set.half_width().valid(),
{
    lemma_halved_members(set.ints, 8);
    lemma_halved_members(set.floats, 32);
}

proof fn lemma_double_width_valid(set: TypeSetView)
    requires
        set.valid(),
    ensures
        set.double_width().valid(),
{
    lemma_doubled_members(set.ints, MAX_BITS);
    lemma_doubled_members(set.floats, MAX_FLOAT_BITS);
}

proof fn lemma_half_vector_valid(set: TypeSetView)
    requires
        set.valid(),
    ensures
        set.half_vector().valid(),
{
    lemma_lane_values(set);
    lemma_halved_members(set.lanes, 1);
    assert forall|lanes: RangeBound| #[trigger]
        set.half_vector().lanes.contains(lanes) implies is_power_of_two(lanes) && lanes
        <= MAX_LANES by {
        lemma_small_powers(lanes);
    }
}

proof fn lemma_double_vector_valid(set: TypeSetView)
    requires
        set.valid(),
    ensures
        set.double_vector().valid(),
{
    lemma_lane_values(set);
    lemma_doubled_members(set.lanes, MAX_LANES);
    assert forall|lanes: RangeBound| #[trigger]
        set.double_vector().lanes.contains(lanes) implies is_power_of_two(lanes) && lanes
        <= MAX_LANES by {
        lemma_small_powers(lanes);
    }
}

/// Where every width can be halved, doubling the widths afterwards is allowed and gives back the
/// set.
pub proof fn law_double_width_undoes_half_width(set: TypeSetView)
    requires
        set.valid(),
        set.derivable(DerivedFunc::HalfWidth),
    ensures
        set.image(DerivedFunc::HalfWidth).derivable(DerivedFunc::DoubleWidth),
        set.image(DerivedFunc::HalfWidth).image(DerivedFunc::DoubleWidth) == set,
{
    lemma_double_of_half(set.ints, 8, MAX_BITS);
    lemma_double_of_half(set.floats, 32, MAX_FLOAT_BITS);
    assert(set.image(DerivedFunc::HalfWidth).image(DerivedFunc::DoubleWidth) =~= set);
}

/// Where every width can be doubled, halving the widths afterwards is allowed and gives back the
/// set.
pub proof fn law_half_width_undoes_double_width(set: TypeSetView)
    requires
        set.valid(),
        set.derivable(DerivedFunc::DoubleWidth),
    ensures
        set.image(DerivedFunc::DoubleWidth).derivable(DerivedFunc::HalfWidth),
        set.image(DerivedFunc::DoubleWidth).image(DerivedFunc::HalfWidth) == set,
{
    lemma_half_of_double(set.ints, MAX_BITS, 8);
    lemma_half_of_double(set.floats, MAX_FLOAT_BITS, 32);
    assert(set.image(DerivedFunc::DoubleWidth).image(DerivedFunc::HalfWidth) =~= set);
}

/// Where every lane count can be halved, doubling the lanes afterwards is allowed and gives back
/// the set.
pub proof fn law_double_vector_undoes_half_vector(set: TypeSetView)
    requires
        set.valid(),
        set.derivable(DerivedFunc::HalfVector),
    ensures
        set.image(DerivedFunc::HalfVector).derivable(DerivedFunc::DoubleVector),
        set.image(DerivedFunc::HalfVector).image(DerivedFunc::DoubleVector) == set,
{
    lemma_lane_values(set);
    lemma_double_of_half(set.lanes, 1, MAX_LANES);
    let some = choose|x: RangeBound| set.lanes.contains(x);
    lemma_half_of(set.lanes, 1, some);
    assert(set.image(DerivedFunc::HalfVector).image(DerivedFunc::DoubleVector) =~= set);
}

/// Where every lane count can be doubled, halving the lanes afterwards is allowed and gives back
/// the set.
pub proof fn law_half_vector_undoes_double_vector(set: TypeSetView)
    requires
        set.valid(),
        set.derivable(DerivedFunc::DoubleVector),
    ensures
        set.image(DerivedFunc::DoubleVector).derivable(DerivedFunc::HalfVector),
        set.image(DerivedFunc::DoubleVector).image(DerivedFunc::HalfVector) == set,
{
    lemma_lane_values(set);
    lemma_half_of_double(set.lanes, MAX_LANES, 1);
    let some = choose|x: RangeBound| set.lanes.contains(x);
    lemma_double_of(set.lanes, MAX_LANES, some);
    assert(set.image(DerivedFunc::DoubleVector).image(DerivedFunc::HalfVector) =~= set);
}

/// Where every lane can be split, merging the lanes afterwards is allowed and gives back the set.
pub proof fn law_merge_lanes_undoes_split_lanes(set: TypeSetView)
    requires
        set.valid(),
        set.derivable(DerivedFunc::SplitLanes),
    ensures
        set.image(DerivedFunc::SplitLanes).derivable(DerivedFunc::MergeLanes),
        set.image(DerivedFunc::SplitLanes).image(DerivedFunc::MergeLanes) == set,
{
    law_double_width_undoes_half_width(set);
    law_half_vector_undoes_double_vector(set);
    assert(set.image(DerivedFunc::SplitLanes).image(DerivedFunc::MergeLanes) =~= set);
}

/// Where every two lanes can be merged, splitting the lanes afterwards is allowed and gives back
/// the set.
pub proof fn law_split_lanes_undoes_merge_lanes(set: TypeSetView)
    requires
        set.valid(),
        set.derivable(DerivedFunc::MergeLanes),
    ensures
        set.image(DerivedFunc::MergeLanes).derivable(DerivedFunc::SplitLanes),
        set.image(DerivedFunc::MergeLanes).image(DerivedFunc::SplitLanes) == set,
{
    law_half_width_undoes_double_width(set);
    law_double_vector_undoes_half_vector(set);
    assert(set.image(DerivedFunc::MergeLanes).image(DerivedFunc::SplitLanes) =~= set);
}

/// Whether all lane counts, and all widths of integers and floats, are powers of two.
pub open spec fn holds_powers(set: TypeSetView) -> bool {
    &&& forall|x: RangeBound| #[trigger] set.lanes.contains(x) ==> is_power_of_two(x)
    &&& forall|x: RangeBound| #[trigger] set.ints.contains(x) ==> is_power_of_two(x)
    &&& forall|x: RangeBound| #[trigger] set.floats.contains(x) ==> is_power_of_two(x)
}

/// The lane counts and widths of a valid set are powers of two.
pub proof fn law_valid_sets_hold_powers(set: TypeSetView)
    requires
        set.valid(),
    ensures
        holds_powers(set),
{
    lemma_small_powers(8);
    lemma_small_powers(16);
    lemma_small_powers(32);
    lemma_small_powers(64);
    lemma_small_powers(128);
}

/// A power of two above one is even.
proof fn lemma_even_power(x: RangeBound)
    requires
        is_power_of_two(x),
        x > 1,
    ensures
        x % 2 == 0,
{
    let k = choose|k: u16| k < 16 && x == #[trigger] (1u16 << k);
    assert(x % 2 == 0) by (bit_vector)
        requires
            k < 16,
            x == 1u16 << k,
            x > 1,
    ;
}

/// There are as many halves as members, where all members are powers of two above the floor.
proof fn lemma_halves_len(s: Set<RangeBound>, floor: RangeBound)
    requires
        floor >= 1,
        forall|x: RangeBound| #[trigger] s.contains(x) ==> x > floor && is_power_of_two(x),
    ensures
        halved(s, floor).len() == s.len(),
{
    assert forall|x: RangeBound| #[trigger] s.contains(x) implies x > floor && x % 2 == 0 && x / 2
        < 0x8000 by {
        lemma_even_power(x);
    }
    lemma_double_of_half(s, floor, 0x8000);
}

/// Where a function that changes widths or lane counts is allowed, it loses nothing: the image
/// has as many lane counts, widths and types as the set.
pub proof fn law_image_keeps_size(set: TypeSetView, func: DerivedFunc)
    requires
        holds_powers(set),
        reshapes(func),
        set.derivable(func),
    ensures
        set.image(func).lanes.len() == set.lanes.len(),
        set.image(func).ints.len() == set.ints.len(),
        set.image(func).floats.len() == set.floats.len(),
        set.image(func).size() == set.size(),
{
    let image = set.image(func);
    assert(image.ints.len() == set.ints.len() && image.floats.len() == set.floats.len()) by {
        if set.widths_halve() {
            lemma_halves_len(set.ints, 8);
            lemma_halves_len(set.floats, 32);
        }
        if set.widths_double() {
            lemma_positive_powers(set.ints);
            lemma_positive_powers(set.floats);
            lemma_half_of_double(set.ints, MAX_BITS, 1);
            lemma_half_of_double(set.floats, MAX_FLOAT_BITS, 1);
        }
    }
    assert(image.lanes.len() == set.lanes.len()) by {
        if set.lanes_halve() {
            lemma_halves_len(set.lanes, 1);
        }
        if set.lanes_double() {
            lemma_positive_powers(set.lanes);
            lemma_half_of_double(set.lanes, MAX_LANES, 1);
        }
    }
}

/// Powers of two are positive.
proof fn lemma_positive_powers(s: Set<RangeBound>)
    requires
        forall|x: RangeBound| #[trigger] s.contains(x) ==> is_power_of_two(x),
    ensures
        forall|x: RangeBound| #[trigger] s.contains(x) ==> x > 0,
{
    lemma_small_powers(0);
}

/// The lane that `func` makes of `lane`.
pub open spec fn derived_lane(lane: LaneType, func: DerivedFunc) -> LaneType {
    match (func, lane) {
        (DerivedFunc::HalfWidth | DerivedFunc::SplitLanes, LaneType::Int(integer)) => {
            LaneType::spec_int((integer.spec_bits() / 2) as u16)
        },
        (DerivedFunc::HalfWidth | DerivedFunc::SplitLanes, LaneType::Float(float)) => {
            LaneType::spec_float((float.spec_bits() / 2) as u16)
        },
        (DerivedFunc::DoubleWidth | DerivedFunc::MergeLanes, LaneType::Int(integer)) => {
            LaneType::spec_int((2 * integer.spec_bits()) as u16)
        },
        (DerivedFunc::DoubleWidth | DerivedFunc::MergeLanes, LaneType::Float(float)) => {
            LaneType::spec_float((2 * float.spec_bits()) as u16)
        },
        _ => lane,
    }
}

/// The number of lanes that `func` makes of `lanes` lanes.
pub open spec fn derived_lane_count(lanes: RangeBound, func: DerivedFunc) -> RangeBound {
    match func {
        DerivedFunc::HalfVector | DerivedFunc::MergeLanes => (lanes / 2) as RangeBound,
        DerivedFunc::DoubleVector | DerivedFunc::SplitLanes => (2 * lanes) as RangeBound,
        _ => lanes,
    }
}

/// The type that `func`, one of the functions that change widths or lane counts, makes of
/// `value_type`. Such a function leaves references, and the lane counts of dynamic vectors, as
/// they are.
pub open spec fn derived_type(value_type: ValueType, func: DerivedFunc) -> ValueType {
    match value_type {
        ValueType::Lane(lane) => {
            derived_lane(lane, func).spec_by_lanes(derived_lane_count(1, func))
        },
        ValueType::Vector(vector) => {
            derived_lane(vector.base, func).spec_by_lanes(
                derived_lane_count(vector.lanes as RangeBound, func),
            )
        },
        ValueType::DynamicVector(vector) => {
            derived_lane(vector.base, func).spec_to_dynamic(vector.unscaled_lanes as RangeBound)
        },
        _ => value_type,
    }
}

/// Whether `func` changes widths or lane counts.
pub open spec fn reshapes(func: DerivedFunc) -> bool {
    match func {
        DerivedFunc::LaneOf | DerivedFunc::AsBool | DerivedFunc::DynamicToVector => false,
        _ => true,
    }
}

/// The function that undoes a function that changes widths or lane counts.
pub open spec fn inverse(func: DerivedFunc) -> DerivedFunc {
    match func {
        DerivedFunc::HalfWidth => DerivedFunc::DoubleWidth,
        DerivedFunc::DoubleWidth => DerivedFunc::HalfWidth,
        DerivedFunc::HalfVector => DerivedFunc::DoubleVector,
        DerivedFunc::DoubleVector => DerivedFunc::HalfVector,
        DerivedFunc::SplitLanes => DerivedFunc::MergeLanes,
        DerivedFunc::MergeLanes => DerivedFunc::SplitLanes,
        _ => func,
    }
}

/// A function that changes widths or lane counts, where it is allowed, is undone by its inverse,
/// which is then allowed.
pub proof fn law_inverse_undoes(set: TypeSetView, func: DerivedFunc)
    requires
        set.valid(),
        reshapes(func),
        set.derivable(func),
    ensures
        set.image(func).derivable(inverse(func)),
        set.image(func).image(inverse(func)) == set,
{
    match func {
        DerivedFunc::HalfWidth => law_double_width_undoes_half_width(set),
        DerivedFunc::DoubleWidth => law_half_width_undoes_double_width(set),
        DerivedFunc::HalfVector => law_double_vector_undoes_half_vector(set),
        DerivedFunc::DoubleVector => law_half_vector_undoes_double_vector(set),
        DerivedFunc::SplitLanes => law_merge_lanes_undoes_split_lanes(set),
        DerivedFunc::MergeLanes => law_split_lanes_undoes_merge_lanes(set),
        _ => {},
    }
}

/// The lanes of the image, and how the inverse leads back from them.
proof fn lemma_derived_lane(set: TypeSetView, func: DerivedFunc, lane: LaneType)
    requires
        set.valid(),
        reshapes(func),
        set.derivable(func),
        set.has_lane(lane),
    ensures
        set.image(func).has_lane(derived_lane(lane, func)),
        derived_lane(derived_lane(lane, func), inverse(func)) == lane,
{
    match lane {
        LaneType::Int(integer) => {
            let bits = integer.spec_bits();
            if set.widths_halve() {
                lemma_half_of(set.ints, 8, bits);
            }
            if set.widths_double() {
                lemma_double_of(set.ints, MAX_BITS, bits);
            }
        },
        LaneType::Float(float) => {
            let bits = float.spec_bits();
            if set.widths_halve() {
                lemma_half_of(set.floats, 32, bits);
            }
            if set.widths_double() {
                lemma_double_of(set.floats, MAX_FLOAT_BITS, bits);
            }
        },
    }
}

/// The lane counts of the image, and how the inverse leads back from them.
proof fn lemma_derived_lane_count(set: TypeSetView, func: DerivedFunc, lanes: RangeBound)
    requires
        set.valid(),
        reshapes(func),
        set.derivable(func),
        set.lanes.contains(lanes),
    ensures
        set.image(func).lanes.contains(derived_lane_count(lanes, func)),
        derived_lane_count(derived_lane_count(lanes, func), inverse(func)) == lanes,
{
    lemma_small_powers(lanes);
    if set.lanes_halve() {
        lemma_half_of(set.lanes, 1, lanes);
    }
    if set.lanes_double() {
        lemma_double_of(set.lanes, MAX_LANES, lanes);
    }
}

/// Each type of a set leads to a type of the image, from which the inverse leads back.
proof fn lemma_derived_type(set: TypeSetView, func: DerivedFunc, value_type: ValueType)
    requires
        set.valid(),
        reshapes(func),
        set.derivable(func),
        set.represents(value_type),
    ensures
        set.image(func).represents(derived_type(value_type, func)),
        derived_type(derived_type(value_type, func), inverse(func)) == value_type,
{
    match value_type {
        ValueType::Lane(lane) => {
            lemma_derived_lane(set, func, lane);
            lemma_derived_lane_count(set, func, 1);
        },
        ValueType::Vector(vector) => {
            lemma_derived_lane(set, func, vector.base);
            lemma_derived_lane_count(set, func, vector.lanes as RangeBound);
        },
        ValueType::DynamicVector(vector) => {
            lemma_derived_lane(set, func, vector.base);
        },
        ValueType::Reference(reference) => {
            let lanes = choose|lanes: RangeBound| set.lanes.contains(lanes);
            lemma_derived_lane_count(set, func, lanes);
        },
        ValueType::Special(_) => {},
    }
}

/// Where a function that changes widths or lane counts is allowed, the image of a set represents
/// exactly the types that the function makes of the types of the set.
pub proof fn law_image_represents(set: TypeSetView, func: DerivedFunc, value_type: ValueType)
    requires
        set.valid(),
        reshapes(func),
        set.derivable(func),
    ensures
        set.image(func).represents(value_type) <==> exists|origin: ValueType| #[trigger]
            set.represents(origin) && derived_type(origin, func) == value_type,
{
    let image = set.image(func);
    if image.represents(value_type) {
        law_image_valid(set, func);
        law_inverse_undoes(set, func);
        lemma_derived_type(image, inverse(func), value_type);
        assert(set.represents(derived_type(value_type, inverse(func))));
        assert(inverse(inverse(func)) == func);
    }
    if exists|origin: ValueType| #[trigger]
        set.represents(origin) && derived_type(origin, func) == value_type {
        let origin = choose|origin: ValueType| #[trigger]
            set.represents(origin) && derived_type(origin, func) == value_type;
        lemma_derived_type(set, func, origin);
    }
}

/// The number of bits of a scalar or a vector with a fixed number of lanes.
pub open spec fn total_bits(value_type: ValueType) -> int {
    match value_type {
        ValueType::Lane(lane) => lane.spec_lane_bits() as int,
        ValueType::Vector(vector) => vector.lanes * vector.base.spec_lane_bits(),
        _ => 0,
    }
}

/// Splitting and merging lanes keep the number of bits of a type.
pub proof fn law_split_and_merge_keep_bits(
    set: TypeSetView,
    func: DerivedFunc,
    value_type: ValueType,
)
    requires
        set.valid(),
        func == DerivedFunc::SplitLanes || func == DerivedFunc::MergeLanes,
        set.derivable(func),
        set.represents(value_type),
    ensures
        total_bits(derived_type(value_type, func)) == total_bits(value_type),
{
    lemma_derived_type(set, func, value_type);
    if let ValueType::Vector(vector) = value_type {
        lemma_small_powers(vector.lanes as RangeBound);
        let (lanes, bits) = (vector.lanes as int, vector.base.spec_lane_bits() as int);
        let half = derived_lane(vector.base, DerivedFunc::SplitLanes).spec_lane_bits() as int;
        let double = derived_lane(vector.base, DerivedFunc::MergeLanes).spec_lane_bits() as int;
        if func == DerivedFunc::SplitLanes {
            assert(2 * lanes * half == lanes * bits) by (nonlinear_arith)
                requires
                    2 * half == bits,
            ;
        } else {
            assert((lanes / 2) * double == lanes * bits) by (nonlinear_arith)
                requires
                    double == 2 * bits,
                    lanes % 2 == 0,
            ;
        }
    }
}

/// Taking the lane type twice is the same as taking it once.
pub proof fn law_lane_of_is_idempotent(set: TypeSetView)
    ensures
        set.image(DerivedFunc::LaneOf).image(DerivedFunc::LaneOf) == set.image(DerivedFunc::LaneOf),
{
}

/// Every scalar or vector type of a set leads to its lane type, a scalar, and all scalars of the
/// image come about this way.
pub proof fn law_lane_of_represents(set: TypeSetView, lane: LaneType)
    requires
        !set.lanes.is_empty(),
    ensures
        set.image(DerivedFunc::LaneOf).represents(ValueType::Lane(lane)) <==> exists|
            lanes: RangeBound,
        | #[trigger]
            set.lanes.contains(lanes) && set.represents(lane.spec_by_lanes(lanes)),
{
    let lanes = choose|lanes: RangeBound| set.lanes.contains(lanes);
    assert(set.lanes.contains(lanes));
    if set.has_lane(lane) {
        assert(set.represents(lane.spec_by_lanes(lanes)));
    }
}

/// No integer, floating point or reference type is a truth type.
pub proof fn law_as_bool_represents(set: TypeSetView, value_type: ValueType)
    ensures
        set.image(DerivedFunc::AsBool).represents(value_type) <==> set.represents(value_type)
            && value_type is Special,
{
}

/// Fixing dynamic lane counts makes a vector type of each dynamic vector type whose number of
/// lanes stays below the largest, and leaves no dynamic vector type.
pub proof fn law_dynamic_to_vector_represents(set: TypeSetView, lane: LaneType, lanes: RangeBound)
    ensures
        set.image(DerivedFunc::DynamicToVector).represents(lane.spec_by_lanes(lanes)) <==> lanes
            < MAX_LANES && set.represents(lane.spec_to_dynamic(lanes)),
        !set.image(DerivedFunc::DynamicToVector).represents(lane.spec_to_dynamic(lanes)),
{
}

/// The lane type of any vector is a scalar: `lane_of` leaves the single lane as the only fixed
/// number of lanes, whatever the set, and changes nothing else.
pub proof fn law_lane_of(set: TypeSetView, lanes: RangeBound)
    ensures
        set.image(DerivedFunc::LaneOf).lanes.contains(lanes) <==> lanes == 1,
        set.image(DerivedFunc::LaneOf).dynamic_lanes == set.dynamic_lanes,
        set.image(DerivedFunc::LaneOf).ints == set.ints,
        set.image(DerivedFunc::LaneOf).floats == set.floats,
        set.image(DerivedFunc::LaneOf).refs == set.refs,
        set.image(DerivedFunc::LaneOf).specials == set.specials,
{
}

/// No vector with a fixed number of lanes is a lane type. Dynamic vectors, references and special
/// types stay where there is some number of lanes.
pub proof fn law_lane_of_leaves_no_vector(set: TypeSetView, value_type: ValueType)
    ensures
        value_type is Vector ==> !set.image(DerivedFunc::LaneOf).represents(value_type),
        value_type is DynamicVector || value_type is Special ==> set.image(
            DerivedFunc::LaneOf,
        ).represents(value_type) == set.represents(value_type),
        value_type is Reference && !set.lanes.is_empty() ==> set.image(
            DerivedFunc::LaneOf,
        ).represents(value_type) == set.represents(value_type),
{
    law_lane_of(set, 1);
    if let ValueType::Vector(vector) = value_type {
        law_lane_of(set, vector.lanes as RangeBound);
    }
}

/// `as_bool` takes all widths away and leaves lane counts and special types.
pub proof fn law_as_bool(set: TypeSetView, bits: RangeBound)
    ensures
        !set.image(DerivedFunc::AsBool).ints.contains(bits),
        !set.image(DerivedFunc::AsBool).floats.contains(bits),
        !set.image(DerivedFunc::AsBool).refs.contains(bits),
        set.image(DerivedFunc::AsBool).lanes == set.lanes,
        set.image(DerivedFunc::AsBool).dynamic_lanes == set.dynamic_lanes,
        set.image(DerivedFunc::AsBool).specials == set.specials,
{
}

/// The widths after halving are the halves of those that can be halved: integers wider than a
/// byte and floats wider than 32 bits. Lane counts and references stay, special types go.
pub proof fn law_half_width(set: TypeSetView, bits: RangeBound)
    ensures
        set.image(DerivedFunc::HalfWidth).ints.contains(bits) <==> exists|wide: RangeBound|
            #[trigger] set.ints.contains(wide) && wide > 8 && bits == wide / 2,
        set.image(DerivedFunc::HalfWidth).floats.contains(bits) <==> exists|wide: RangeBound|
            #[trigger] set.floats.contains(wide) && wide > 32 && bits == wide / 2,
        set.image(DerivedFunc::HalfWidth).lanes == set.lanes,
        set.image(DerivedFunc::HalfWidth).dynamic_lanes == set.dynamic_lanes,
        set.image(DerivedFunc::HalfWidth).refs == set.refs,
        set.image(DerivedFunc::HalfWidth).specials.len() == 0,
{
    lemma_halved_members(set.ints, 8);
    lemma_halved_members(set.floats, 32);
}

/// The widths after doubling are the doubles of those that can be doubled: integers narrower than
/// 128 bits and floats narrower than 64. Lane counts and references stay, special types go.
pub proof fn law_double_width(set: TypeSetView, bits: RangeBound)
    ensures
        set.image(DerivedFunc::DoubleWidth).ints.contains(bits) <==> exists|narrow: RangeBound|
            #[trigger] set.ints.contains(narrow) && narrow < 128 && bits == 2 * narrow,
        set.image(DerivedFunc::DoubleWidth).floats.contains(bits) <==> exists|narrow: RangeBound|
            #[trigger] set.floats.contains(narrow) && narrow < 64 && bits == 2 * narrow,
        set.image(DerivedFunc::DoubleWidth).lanes == set.lanes,
        set.image(DerivedFunc::DoubleWidth).dynamic_lanes == set.dynamic_lanes,
        set.image(DerivedFunc::DoubleWidth).refs == set.refs,
        set.image(DerivedFunc::DoubleWidth).specials.len() == 0,
{
    lemma_doubles_fit(set.ints, 128);
    lemma_doubles_fit(set.floats, 64);
}

/// Small doubles are not cut off.
proof fn lemma_doubles_fit(s: Set<RangeBound>, limit: RangeBound)
    requires
        limit <= 0x8000,
    ensures
        forall|y: RangeBound| #[trigger]
            doubled(s, limit).contains(y) <==> exists|x: RangeBound| #[trigger]
                s.contains(x) && x < limit && y == 2 * x,
{
    lemma_doubled_members(s, limit);
    assert forall|y: RangeBound| #[trigger]
        doubled(s, limit).contains(y) <==> exists|x: RangeBound| #[trigger]
            s.contains(x) && x < limit && y == 2 * x by {
        if doubled(s, limit).contains(y) {
            let x = lemma_double_origin(s, limit, y);
            assert(s.contains(x) && x < limit && y == 2 * x);
        }
        if exists|x: RangeBound| #[trigger] s.contains(x) && x < limit && y == 2 * x {
            let x = choose|x: RangeBound| #[trigger] s.contains(x) && x < limit && y == 2 * x;
            lemma_double_of(s, limit, x);
        }
    }
}

/// The lane counts after halving are the halves of those above one. Widths, references and dynamic
/// lane counts stay, special types go.
pub proof fn law_half_vector(set: TypeSetView, lanes: RangeBound)
    ensures
        set.image(DerivedFunc::HalfVector).lanes.contains(lanes) <==> exists|many: RangeBound|
            #[trigger] set.lanes.contains(many) && many > 1 && lanes == many / 2,
        set.image(DerivedFunc::HalfVector).dynamic_lanes == set.dynamic_lanes,
        set.image(DerivedFunc::HalfVector).ints == set.ints,
        set.image(DerivedFunc::HalfVector).floats == set.floats,
        set.image(DerivedFunc::HalfVector).refs == set.refs,
        set.image(DerivedFunc::HalfVector).specials.len() == 0,
{
    lemma_halved_members(set.lanes, 1);
}

/// The lane counts after doubling are the doubles of those below 256. Widths, references and
/// dynamic lane counts stay, special types go.
pub proof fn law_double_vector(set: TypeSetView, lanes: RangeBound)
    ensures
        set.image(DerivedFunc::DoubleVector).lanes.contains(lanes) <==> exists|few: RangeBound|
            #[trigger] set.lanes.contains(few) && few < 256 && lanes == 2 * few,
        set.image(DerivedFunc::DoubleVector).dynamic_lanes == set.dynamic_lanes,
        set.image(DerivedFunc::DoubleVector).ints == set.ints,
        set.image(DerivedFunc::DoubleVector).floats == set.floats,
        set.image(DerivedFunc::DoubleVector).refs == set.refs,
        set.image(DerivedFunc::DoubleVector).specials.len() == 0,
{
    lemma_doubles_fit(set.lanes, 256);
}

/// Splitting lanes is halving the widths and doubling the lane counts, in either order.
pub proof fn law_split_lanes(set: TypeSetView)
    ensures
        set.image(DerivedFunc::SplitLanes) == set.image(DerivedFunc::HalfWidth).image(
            DerivedFunc::DoubleVector,
        ),
        set.image(DerivedFunc::SplitLanes) == set.image(DerivedFunc::DoubleVector).image(
            DerivedFunc::HalfWidth,
        ),
{
}

/// Merging lanes is doubling the widths and halving the lane counts, in either order.
pub proof fn law_merge_lanes(set: TypeSetView)
    ensures
        set.image(DerivedFunc::MergeLanes) == set.image(DerivedFunc::DoubleWidth).image(
            DerivedFunc::HalfVector,
        ),
        set.image(DerivedFunc::MergeLanes) == set.image(DerivedFunc::HalfVector).image(
            DerivedFunc::DoubleWidth,
        ),
{
}

/// Fixing dynamic lane counts makes lane counts of those below 256, in place of all others, and
/// leaves no dynamic ones. Widths and references stay, special types go.
pub proof fn law_dynamic_to_vector(set: TypeSetView, lanes: RangeBound)
    ensures
        set.image(DerivedFunc::DynamicToVector).lanes.contains(lanes) <==> lanes < 256
            && set.dynamic_lanes.contains(lanes),
        !set.image(DerivedFunc::DynamicToVector).dynamic_lanes.contains(lanes),
        set.image(DerivedFunc::DynamicToVector).ints == set.ints,
        set.image(DerivedFunc::DynamicToVector).floats == set.floats,
        set.image(DerivedFunc::DynamicToVector).refs == set.refs,
        set.image(DerivedFunc::DynamicToVector).specials.len() == 0,
{
}

/// A larger set has a larger image, field by field: what `func` makes of a member does not depend
/// on what else is in the set.
pub proof fn law_image_is_monotone(a: TypeSetView, b: TypeSetView, func: DerivedFunc)
    requires
        a.lanes.subset_of(b.lanes),
        a.dynamic_lanes.subset_of(b.dynamic_lanes),
        a.ints.subset_of(b.ints),
        a.floats.subset_of(b.floats),
        a.refs.subset_of(b.refs),
    ensures
        a.image(func).lanes.subset_of(b.image(func).lanes),
        a.image(func).dynamic_lanes.subset_of(b.image(func).dynamic_lanes),
        a.image(func).ints.subset_of(b.image(func).ints),
        a.image(func).floats.subset_of(b.image(func).floats),
        a.image(func).refs.subset_of(b.image(func).refs),
{
    lemma_halved_monotone(a.ints, b.ints, 8);
    lemma_halved_monotone(a.floats, b.floats, 32);
    lemma_halved_monotone(a.lanes, b.lanes, 1);
    lemma_doubled_monotone(a.ints, b.ints, 128);
    lemma_doubled_monotone(a.floats, b.floats, 64);
    lemma_doubled_monotone(a.lanes, b.lanes, 256);
}

proof fn lemma_halved_monotone(a: Set<RangeBound>, b: Set<RangeBound>, floor: RangeBound)
    requires
        a.subset_of(b),
    ensures
        halved(a, floor).subset_of(halved(b, floor)),
{
    assert forall|y: RangeBound| halved(a, floor).contains(y) implies halved(b, floor).contains(
        y,
    ) by {
        let x = lemma_half_origin(a, floor, y);
        lemma_half_of(b, floor, x);
    }
}

proof fn lemma_doubled_monotone(a: Set<RangeBound>, b: Set<RangeBound>, limit: RangeBound)
    requires
        a.subset_of(b),
    ensures
        doubled(a, limit).subset_of(doubled(b, limit)),
{
    assert forall|y: RangeBound| doubled(a, limit).contains(y) implies doubled(b, limit).contains(
        y,
    ) by {
        let x = lemma_double_origin(a, limit, y);
        lemma_double_of(b, limit, x);
    }
}

} // verus!
