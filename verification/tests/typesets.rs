use codegen_meta::cdsl::builder::TypeSetBuilder;
use codegen_meta::cdsl::interval::Interval;
use codegen_meta::cdsl::numset::{range_to_set, to_vec, NumSet};
use codegen_meta::cdsl::types::{
    DynamicVectorType, LaneType, ReferenceType, SpecialType, ValueType, VectorType,
};
use codegen_meta::cdsl::typeset::{DerivedFunc, TypeSet};
use codegen_meta::shared::types::{Flag, Float, Int, Reference};

fn num_set(items: &[u16]) -> NumSet {
    items.iter().copied().collect()
}

fn iflags() -> SpecialType {
    SpecialType::Flag(Flag::IFlags)
}

fn fflags() -> SpecialType {
    SpecialType::Flag(Flag::FFlags)
}

#[test]
fn ranges_hold_powers_of_two() {
    assert_eq!(to_vec(&range_to_set(Some(8..128))), [8, 16, 32, 64, 128]);
    assert_eq!(to_vec(&range_to_set(Some(64..64))), [64]);
    assert!(range_to_set(None).is_empty());
}

#[test]
fn size_counts_lanes_times_widths() {
    let set = TypeSetBuilder::new()
        .ints(Interval::All)
        .floats(Interval::All)
        .refs(Interval::All)
        .simd_lanes(Interval::All)
        .build();
    assert_eq!(set.size(), 9 * (5 + 2 + 2));
    // A reference is listed once for each lane count.
    assert_eq!(set.concrete_types().len(), 81);

    let set = TypeSetBuilder::new()
        .ints(8..16)
        .refs(32..32)
        .dynamic_simd_lanes(2..4)
        .build();
    // There is no reference with a dynamic number of lanes.
    assert_eq!(set.size(), 3 + 2 * 2);
    assert_eq!(set.concrete_types().len(), 7);

    let set = TypeSetBuilder::new().specials(vec![iflags(), fflags()]).build();
    assert_eq!(set.size(), 2);
    assert_eq!(
        set.concrete_types(),
        [ValueType::Special(iflags()), ValueType::Special(fflags())]
    );
}

#[test]
fn concrete_types_come_in_order() {
    let set = TypeSetBuilder::new()
        .ints(8..16)
        .floats(32..32)
        .simd_lanes(1..2)
        .dynamic_simd_lanes(4..4)
        .specials(vec![fflags()])
        .build();
    let i8 = LaneType::Int(Int::I8);
    let i16 = LaneType::Int(Int::I16);
    let f32 = LaneType::Float(Float::F32);
    assert_eq!(
        set.concrete_types(),
        [
            ValueType::Lane(i8),
            ValueType::Lane(i16),
            ValueType::Lane(f32),
            ValueType::Vector(VectorType::new(i8, 2)),
            ValueType::Vector(VectorType::new(i16, 2)),
            ValueType::Vector(VectorType::new(f32, 2)),
            ValueType::DynamicVector(DynamicVectorType::new(i8, 4)),
            ValueType::DynamicVector(DynamicVectorType::new(i16, 4)),
            ValueType::DynamicVector(DynamicVectorType::new(f32, 4)),
            ValueType::Special(fflags()),
        ]
    );
    assert_eq!(set.size(), 10);
}

#[test]
fn references_are_listed_by_width() {
    let set = TypeSetBuilder::new().refs(Interval::All).build();
    assert_eq!(
        set.concrete_types(),
        [
            ValueType::Reference(ReferenceType(Reference::R32)),
            ValueType::Reference(ReferenceType(Reference::R64)),
        ]
    );
    assert_eq!(
        TypeSetBuilder::new().refs(64..64).build().get_singleton(),
        ValueType::Reference(ReferenceType(Reference::R64))
    );
}

#[test]
fn halving_and_doubling_undo_each_other() {
    let set = TypeSetBuilder::new().ints(16..64).floats(64..64).simd_lanes(4..64).build();
    for (func, inverse) in [
        (DerivedFunc::HalfWidth, DerivedFunc::DoubleWidth),
        (DerivedFunc::HalfVector, DerivedFunc::DoubleVector),
        (DerivedFunc::DoubleVector, DerivedFunc::HalfVector),
        (DerivedFunc::SplitLanes, DerivedFunc::MergeLanes),
    ] {
        let image = set.image(func);
        assert_ne!(image, set);
        assert_eq!(image.size(), set.size());
        assert_eq!(image.lanes.len(), set.lanes.len());
        assert_eq!(image.ints.len(), set.ints.len());
        assert_eq!(image.floats.len(), set.floats.len());
        assert_eq!(image.image(inverse), set);
    }
    let set = TypeSetBuilder::new().ints(8..64).floats(32..32).simd_lanes(2..64).build();
    for (func, inverse) in [
        (DerivedFunc::DoubleWidth, DerivedFunc::HalfWidth),
        (DerivedFunc::MergeLanes, DerivedFunc::SplitLanes),
    ] {
        assert_eq!(set.image(func).size(), set.size());
        assert_eq!(set.image(func).image(inverse), set);
    }
}

#[test]
fn images_drop_what_has_none() {
    let set = TypeSetBuilder::new()
        .ints(Interval::All)
        .floats(Interval::All)
        .simd_lanes(Interval::All)
        .specials(vec![iflags()])
        .build();
    let half = set.image(DerivedFunc::HalfWidth);
    assert_eq!(half.ints, num_set(&[8, 16, 32, 64]));
    assert_eq!(half.floats, num_set(&[32]));
    assert!(half.specials.is_empty());
    let double = set.image(DerivedFunc::DoubleWidth);
    assert_eq!(double.ints, num_set(&[16, 32, 64, 128]));
    assert_eq!(double.floats, num_set(&[64]));
    let half = set.image(DerivedFunc::HalfVector);
    assert_eq!(half.lanes, num_set(&[1, 2, 4, 8, 16, 32, 64, 128]));
    let double = set.image(DerivedFunc::DoubleVector);
    assert_eq!(double.lanes, num_set(&[2, 4, 8, 16, 32, 64, 128, 256]));
}

#[test]
fn splitting_and_merging_keep_the_number_of_bits() {
    let set = TypeSetBuilder::new().ints(32..32).simd_lanes(4..4).build();
    let split = set.image(DerivedFunc::SplitLanes);
    assert_eq!(split.get_singleton(), LaneType::Int(Int::I16).by_lanes(8));
    let merged = set.image(DerivedFunc::MergeLanes);
    assert_eq!(merged.get_singleton(), LaneType::Int(Int::I64).by_lanes(2));
}

#[test]
fn lane_of_gives_scalars() {
    let set = TypeSetBuilder::new().ints(8..16).simd_lanes(4..8).build();
    let lanes = set.image(DerivedFunc::LaneOf);
    assert_eq!(lanes.lanes, num_set(&[1]));
    assert_eq!(lanes.ints, num_set(&[8, 16]));
    assert_eq!(lanes.image(DerivedFunc::LaneOf), lanes);
}

#[test]
fn as_bool_keeps_special_types_only() {
    let set = TypeSetBuilder::new()
        .ints(Interval::All)
        .refs(Interval::All)
        .specials(vec![iflags()])
        .build();
    assert_eq!(
        set.image(DerivedFunc::AsBool).concrete_types(),
        [ValueType::Special(iflags())]
    );
}

#[test]
fn dynamic_to_vector_fixes_lanes() {
    let set = TypeSetBuilder::new().ints(8..8).dynamic_simd_lanes(128..256).build();
    let fixed = set.image(DerivedFunc::DynamicToVector);
    assert_eq!(fixed.lanes, num_set(&[128]));
    assert!(fixed.dynamic_lanes.is_empty());
    assert_eq!(fixed.get_singleton(), LaneType::Int(Int::I8).by_lanes(128));
}

#[test]
fn text_of_a_set() {
    let set = TypeSetBuilder::new().ints(8..32).simd_lanes(2..4).build();
    assert_eq!(set.debug_string(), "TypeSet(lanes={2, 4}, ints={8, 16, 32})");
    let set = TypeSetBuilder::new()
        .floats(Interval::All)
        .refs(32..32)
        .dynamic_simd_lanes(256..256)
        .specials(vec![iflags(), fflags()])
        .build();
    assert_eq!(
        set.debug_string(),
        "TypeSet(lanes={1}, dynamic_lanes={256}, floats={32, 64}, refs={32}, specials={iflags, fflags})"
    );
    let none = TypeSet::new(
        NumSet::new(),
        NumSet::new(),
        NumSet::new(),
        NumSet::new(),
        NumSet::new(),
        vec![],
    );
    assert_eq!(none.debug_string(), "TypeSet()");
    assert_eq!(none.size(), 0);
    assert!(none.concrete_types().is_empty());
}

#[test]
fn sets_are_equal_by_content() {
    let set = TypeSetBuilder::new().ints(8..32).build();
    assert_eq!(set.clone(), set);
    assert_ne!(set, TypeSetBuilder::new().ints(8..64).build());
}

#[test]
fn intervals_select_ranges() {
    assert_eq!(Interval::Empty.to_range(8..128, None), None);
    assert_eq!(Interval::Empty.to_range(1..256, Some(1)), Some(1..1));
    assert_eq!(Interval::All.to_range(8..128, None), Some(8..128));
    assert_eq!(Interval::from(16..32).to_range(8..128, None), Some(16..32));
}

#[test]
fn names_and_documentation_of_types() {
    let f64 = LaneType::Float(Float::F64);
    assert_eq!(ValueType::Lane(f64).to_string(), "f64");
    assert_eq!(f64.by_lanes(1), ValueType::Lane(f64));
    assert_eq!(f64.by_lanes(16).to_string(), "f64x16");
    assert_eq!(f64.to_dynamic(2).to_string(), "f64x2xN");
    assert_eq!(f64.lane_bits(), 64);
    assert_eq!(LaneType::int_from_bits(128), LaneType::Int(Int::I128));
    assert_eq!(LaneType::float_from_bits(32), LaneType::Float(Float::F32));
    assert_eq!(
        ValueType::Reference(ReferenceType(Reference::R64)).to_string(),
        "r64"
    );
    assert_eq!(ValueType::Special(iflags()).to_string(), "iflags");
    assert_eq!(
        f64.by_lanes(4).doc(),
        "A SIMD vector with 4 lanes containing a `f64` each."
    );
}

#[test]
fn builders_refuse_what_cannot_be_selected() {
    assert!(TypeSetBuilder::new().ints(16..256).try_build().is_none());
    assert!(TypeSetBuilder::new().ints(4..16).try_build().is_none());
    assert!(TypeSetBuilder::new().ints(32..16).try_build().is_none());
    assert!(TypeSetBuilder::new().ints(9..16).try_build().is_none());
    assert!(TypeSetBuilder::new().floats(32..48).try_build().is_none());
    assert!(TypeSetBuilder::new().refs(16..32).try_build().is_none());
    assert!(TypeSetBuilder::new().dynamic_simd_lanes(1..2).try_build().is_none());
    let scalars = TypeSetBuilder::new().ints(8..8).simd_lanes(1..1);
    assert!(scalars.includes_scalars(false).try_build().is_none());
    let built = TypeSetBuilder::new().ints(16..128).try_build().unwrap();
    assert_eq!(built, TypeSetBuilder::new().ints(16..128).build());
}

#[test]
fn a_single_type_can_be_had() {
    let set = TypeSetBuilder::new().ints(8..8).build();
    assert_eq!(set.try_get_singleton(), Some(set.get_singleton()));
    assert_eq!(TypeSetBuilder::new().build().try_get_singleton(), None);
}

#[test]
fn texts_tell_sets_apart() {
    let sets = [
        TypeSetBuilder::new().build(),
        TypeSetBuilder::new().ints(8..8).build(),
        TypeSetBuilder::new().ints(8..16).build(),
        TypeSetBuilder::new().floats(32..32).build(),
        TypeSetBuilder::new().refs(32..32).build(),
        TypeSetBuilder::new().simd_lanes(2..2).build(),
        TypeSetBuilder::new().dynamic_simd_lanes(2..2).build(),
    ];
    for a in &sets {
        for b in &sets {
            assert_eq!(a.debug_string() == b.debug_string(), a == b);
        }
    }
}
