use codegen_meta::cdsl::builder::TypeSetBuilder;
use codegen_meta::cdsl::interval::Interval;
use codegen_meta::cdsl::numset::NumSet;
use codegen_meta::cdsl::refusal::Refusal;
use codegen_meta::cdsl::types::{DynamicVectorType, LaneType, ReferenceType, SpecialType, ValueType};
use codegen_meta::cdsl::typeset::{DerivedFunc, TypeSet};
use codegen_meta::cdsl::typevar::TypeVar;
use codegen_meta::shared::types::{Flag, Int, Reference};

fn num_set(items: &[u16]) -> NumSet {
    items.iter().copied().collect()
}

fn ints(name: &str) -> TypeVar {
    TypeVar::new(
        name,
        "integers",
        TypeSetBuilder::new().ints(16..64).simd_lanes(2..128).build(),
    )
}

#[test]
fn derived_variables_map_their_types() {
    let x = ints("x");
    for func in [
        DerivedFunc::LaneOf,
        DerivedFunc::AsBool,
        DerivedFunc::HalfWidth,
        DerivedFunc::DoubleWidth,
        DerivedFunc::HalfVector,
        DerivedFunc::DoubleVector,
        DerivedFunc::SplitLanes,
        DerivedFunc::MergeLanes,
        DerivedFunc::DynamicToVector,
    ] {
        let derived = x.derived(func);
        assert_eq!(derived.name, format!("{}(x)", func.name()));
        assert_eq!(derived.doc, "");
        assert_eq!(derived.get_typeset(), x.get_typeset().image(func));
        assert!(derived.root() == &x);
    }
    assert_eq!(x.lane_of().name, "lane_of(x)");
    assert_eq!(x.as_bool().name, "as_bool(x)");
    assert_eq!(x.half_vector().name, "half_vector(x)");
    assert_eq!(x.double_vector().name, "double_vector(x)");
    assert_eq!(x.split_lanes().name, "split_lanes(x)");
    assert_eq!(x.merge_lanes().name, "merge_lanes(x)");
    assert_eq!(x.dynamic_to_vector().name, "dynamic_to_vector(x)");
}

#[test]
fn inverse_derivations_lead_back() {
    let x = ints("x");
    assert_eq!(x.half_width().double_width().get_typeset(), x.get_typeset());
    assert_eq!(x.double_width().half_width().get_typeset(), x.get_typeset());
    assert_eq!(x.half_vector().double_vector().get_typeset(), x.get_typeset());
    assert_eq!(x.double_vector().half_vector().get_typeset(), x.get_typeset());
    assert_eq!(x.split_lanes().merge_lanes().get_typeset(), x.get_typeset());
    assert_eq!(x.merge_lanes().split_lanes().get_typeset(), x.get_typeset());
    assert!(x.half_width().double_width() != x);
}

#[test]
fn variables_are_equal_by_identity_and_derivation() {
    let x = ints("x");
    let y = ints("x");
    let copy = x.clone();
    assert!(x == copy);
    assert!(copy == x);
    assert!(x != y);
    assert!(x.half_width() == copy.half_width());
    assert!(x.half_width() == x.half_width());
    assert!(x.half_width() != y.half_width());
    assert!(x.half_width() != x.double_width());
    assert!(x != x.half_width());
    assert!(x.half_width() != x);
    assert!(x.half_width().lane_of() == copy.half_width().lane_of());
    assert!(x.half_width().lane_of() != x.lane_of().half_width());
    assert!(TypeVar::from(&x) == x);
}

#[test]
fn equality_follows_the_roots() {
    let (x, y) = (ints("x"), ints("y"));
    let same = x.clone();
    assert!(x.lane_of() == same.lane_of());
    assert!(same.lane_of() == x.lane_of());
    assert!(x.lane_of() != y.lane_of());
    assert!(x.lane_of() != same.as_bool());
    assert!(x != same.as_bool());
    // Variables made alike differ.
    assert!(ints("x") != ints("x"));
    let set = TypeSetBuilder::new().ints(8..8).build();
    let a = TypeVar::new("a", "", set.clone());
    let b = TypeVar::new("a", "", set.clone());
    assert!(a != b);
    let c = TypeVar::new_beside(&a, "a", "", set);
    assert!(c != a);
    assert_eq!((&c.name, &c.doc), (&a.name, &a.doc));
    assert_eq!(c.get_raw_typeset(), a.get_raw_typeset());
    assert!(c.base.is_none());
    assert!(c.lane_of() != a.lane_of());
    assert!(a.clone() == a);
    // What a derived variable is derived from is the variable itself.
    assert!(x.half_width().base.as_ref().unwrap().type_var == x);
    let derived = x.try_derived(DerivedFunc::LaneOf).unwrap();
    assert!(derived == x.lane_of());
}

#[test]
fn copies_are_new_variables() {
    let x = ints("x");
    let copy = TypeVar::copy_from(&x, String::from("copy"));
    assert_eq!(copy.name, "copy");
    assert_eq!(copy.doc, "");
    assert_eq!(copy.get_raw_typeset(), x.get_raw_typeset());
    assert!(copy != x);
    let twin = TypeVar::copy_from(&copy, String::from("copy"));
    assert!(twin != copy);
    assert_eq!(x.name, "x");
    assert_eq!(x.doc, "integers");
}

#[test]
fn free_variables_are_roots_with_several_types() {
    let x = ints("x");
    assert!(x.free_typevar() == Some(x.clone()));
    assert!(x.half_width().lane_of().free_typevar() == Some(x.clone()));
    let i32 = TypeVar::new_singleton(ValueType::Lane(LaneType::Int(Int::I32)));
    let free = x.lane_of().free_typevar().unwrap();
    assert!(free.base.is_none());
    assert!(free.free_typevar() == Some(free.clone()));
    assert!(i32.free_typevar().is_none());
    assert!(i32.half_width().free_typevar().is_none());
}

#[test]
fn singletons_have_one_type() {
    let i32 = ValueType::Lane(LaneType::Int(Int::I32));
    let type_var = TypeVar::new_singleton(i32);
    assert_eq!(type_var.singleton_type(), Some(i32));
    assert_eq!(type_var.doc, "An integer type with 32 bits.");
    assert_eq!(
        type_var.half_width().singleton_type(),
        Some(ValueType::Lane(LaneType::Int(Int::I16)))
    );
    let r64 = ValueType::Reference(ReferenceType(Reference::R64));
    assert_eq!(TypeVar::new_singleton(r64).singleton_type(), Some(r64));
    assert_eq!(TypeVar::new_singleton(r64).get_raw_typeset().refs, num_set(&[64]));
    let iflags = ValueType::Special(SpecialType::Flag(Flag::IFlags));
    assert_eq!(TypeVar::new_singleton(iflags).singleton_type(), Some(iflags));
    assert_eq!(ints("x").singleton_type(), None);
}

#[test]
fn references_have_no_dynamic_lanes() {
    let set = TypeSetBuilder::new().refs(32..32).dynamic_simd_lanes(2..2).build();
    let r32 = ValueType::Reference(ReferenceType(Reference::R32));
    assert_eq!(set.size(), 1);
    assert_eq!(set.concrete_types(), [r32]);
    let type_var = TypeVar::new("r", "", set);
    assert_eq!(type_var.singleton_type(), Some(r32));
    assert!(type_var.free_typevar().is_none());
}

#[test]
fn vectors_stand_for_fixed_and_dynamic_lanes() {
    let base = LaneType::Int(Int::I8);
    let dynamic = ValueType::DynamicVector(DynamicVectorType::new(base, 16));
    for value_type in [base.by_lanes(16), dynamic] {
        let type_var = TypeVar::new_singleton(value_type);
        assert_eq!(
            type_var.get_typeset().concrete_types(),
            [base.by_lanes(16), dynamic]
        );
        assert_eq!(type_var.singleton_type(), None);
    }
}

#[test]
fn every_built_set_can_be_counted() {
    let set = TypeSetBuilder::new()
        .ints(Interval::All)
        .floats(Interval::All)
        .refs(Interval::All)
        .simd_lanes(Interval::All)
        .dynamic_simd_lanes(Interval::All)
        .build();
    assert_eq!(set.size(), 137);
    assert_eq!(set.concrete_types().len(), 137);
}

fn refusal(set: TypeSet, func: DerivedFunc) -> Option<Refusal> {
    let refusal = TypeVar::new("x", "", set.clone()).try_derived(func).err();
    assert_eq!(refusal, set.refusal(func));
    refusal
}

#[test]
fn widths_that_lead_nowhere_are_refused() {
    let ints = TypeSetBuilder::new().ints(8..32).build();
    assert_eq!(refusal(ints.clone(), DerivedFunc::HalfWidth), Some(Refusal::HalfInt));
    assert_eq!(refusal(ints, DerivedFunc::DoubleWidth), None);
    let ints = TypeSetBuilder::new().ints(32..128).build();
    assert_eq!(refusal(ints.clone(), DerivedFunc::HalfWidth), None);
    assert_eq!(refusal(ints, DerivedFunc::DoubleWidth), Some(Refusal::DoubleInt));
    let floats = TypeSetBuilder::new().floats(32..32).build();
    assert_eq!(refusal(floats, DerivedFunc::HalfWidth), Some(Refusal::HalfFloat));
    let floats = TypeSetBuilder::new().floats(64..64).build();
    assert_eq!(refusal(floats, DerivedFunc::DoubleWidth), Some(Refusal::DoubleFloat));
    assert_eq!(Refusal::HalfInt.message(), "can't halve all integer types");
    assert_eq!(Refusal::HalfFloat.message(), "can't halve all float types");
    assert_eq!(Refusal::DoubleInt.message(), "can't double all integer types");
    assert_eq!(Refusal::DoubleFloat.message(), "can't double all float types");
}

#[test]
fn lanes_that_lead_nowhere_are_refused() {
    let scalars = TypeSetBuilder::new().ints(16..16).build();
    assert_eq!(refusal(scalars.clone(), DerivedFunc::HalfVector), Some(Refusal::Scalar));
    assert_eq!(refusal(scalars.clone(), DerivedFunc::MergeLanes), Some(Refusal::Scalar));
    assert_eq!(refusal(scalars, DerivedFunc::DoubleVector), None);
    let vectors = TypeSetBuilder::new().ints(16..16).simd_lanes(2..256).build();
    assert_eq!(refusal(vectors.clone(), DerivedFunc::DoubleVector), Some(Refusal::LargestVector));
    assert_eq!(refusal(vectors.clone(), DerivedFunc::SplitLanes), Some(Refusal::LargestVector));
    assert_eq!(refusal(vectors, DerivedFunc::HalfVector), None);
    // Widths come before lanes.
    let bytes = TypeSetBuilder::new().ints(8..8).simd_lanes(256..256).build();
    assert_eq!(refusal(bytes, DerivedFunc::SplitLanes), Some(Refusal::HalfInt));
    let none = TypeSetBuilder::new().ints(8..8).build().image(DerivedFunc::HalfVector);
    assert_eq!(refusal(none.clone(), DerivedFunc::HalfVector), Some(Refusal::NoLanes));
    assert_eq!(refusal(none.clone(), DerivedFunc::DoubleVector), Some(Refusal::NoLanes));
    assert_eq!(refusal(none, DerivedFunc::LaneOf), None);
    assert_eq!(Refusal::Scalar.message(), "can't halve a scalar type");
    assert_eq!(Refusal::LargestVector.message(), "can't double 256 lanes");
    assert_eq!(Refusal::NoLanes.message(), "no lanes");
}

#[test]
fn nothing_is_derived_from_special_types() {
    let flags = TypeSetBuilder::new().specials(vec![SpecialType::Flag(Flag::IFlags)]).build();
    assert_eq!(refusal(flags, DerivedFunc::LaneOf), Some(Refusal::Special));
    assert_eq!(Refusal::Special.message(), "can't derive from special types");
}

#[test]
fn only_vectors_with_few_lanes_have_variables() {
    let base = LaneType::Int(Int::I8);
    assert!(TypeVar::try_new_singleton(base.by_lanes(3)).is_none());
    assert!(TypeVar::try_new_singleton(base.by_lanes(512)).is_none());
    assert!(TypeVar::try_new_singleton(base.by_lanes(0)).is_none());
    assert!(TypeVar::try_new_singleton(base.to_dynamic(6)).is_none());
    let type_var = TypeVar::try_new_singleton(base.by_lanes(256)).unwrap();
    assert_eq!(type_var.name, "i8x256");
    assert_eq!(type_var.get_raw_typeset().lanes, num_set(&[256]));
}
