use codegen_meta::cdsl::builder::TypeSetBuilder;
use codegen_meta::cdsl::interval::Interval;
use codegen_meta::cdsl::numset::NumSet;
use codegen_meta::cdsl::types::{LaneType, ValueType, VectorType};
use codegen_meta::cdsl::typeset::MAX_BITS;
use codegen_meta::cdsl::typevar::TypeVar;
use codegen_meta::shared::types as shared_types;

fn num_set(items: &[u16]) -> NumSet {
    items.iter().copied().collect()
}

#[test]
fn test_typevar_builder() {
    let type_set = TypeSetBuilder::new().ints(Interval::All).build();
    assert_eq!(type_set.lanes, num_set(&[1]));
    assert!(type_set.floats.is_empty());
    assert_eq!(type_set.ints, num_set(&[8, 16, 32, 64, 128]));
    assert!(type_set.specials.is_empty());

    let type_set = TypeSetBuilder::new().floats(Interval::All).build();
    assert_eq!(type_set.lanes, num_set(&[1]));
    assert_eq!(type_set.floats, num_set(&[32, 64]));
    assert!(type_set.ints.is_empty());
    assert!(type_set.specials.is_empty());

    let type_set = TypeSetBuilder::new()
        .floats(Interval::All)
        .simd_lanes(Interval::All)
        .includes_scalars(false)
        .build();
    assert_eq!(type_set.lanes, num_set(&[2, 4, 8, 16, 32, 64, 128, 256]));
    assert_eq!(type_set.floats, num_set(&[32, 64]));
    assert!(type_set.ints.is_empty());
    assert!(type_set.specials.is_empty());

    let type_set = TypeSetBuilder::new()
        .floats(Interval::All)
        .simd_lanes(Interval::All)
        .includes_scalars(true)
        .build();
    assert_eq!(type_set.lanes, num_set(&[1, 2, 4, 8, 16, 32, 64, 128, 256]));
    assert_eq!(type_set.floats, num_set(&[32, 64]));
    assert!(type_set.ints.is_empty());
    assert!(type_set.specials.is_empty());

    let type_set = TypeSetBuilder::new()
        .floats(Interval::All)
        .simd_lanes(Interval::All)
        .includes_scalars(false)
        .build();
    assert_eq!(type_set.lanes, num_set(&[2, 4, 8, 16, 32, 64, 128, 256]));
    assert_eq!(type_set.floats, num_set(&[32, 64]));
    assert!(type_set.dynamic_lanes.is_empty());
    assert!(type_set.ints.is_empty());
    assert!(type_set.specials.is_empty());

    let type_set = TypeSetBuilder::new()
        .ints(Interval::All)
        .floats(Interval::All)
        .dynamic_simd_lanes(Interval::All)
        .includes_scalars(false)
        .build();
    assert_eq!(
        type_set.dynamic_lanes,
        num_set(&[2, 4, 8, 16, 32, 64, 128, 256])
    );
    assert_eq!(type_set.ints, num_set(&[8, 16, 32, 64, 128]));
    assert_eq!(type_set.floats, num_set(&[32, 64]));
    assert_eq!(type_set.lanes, num_set(&[1]));
    assert!(type_set.specials.is_empty());

    let type_set = TypeSetBuilder::new()
        .floats(Interval::All)
        .dynamic_simd_lanes(Interval::All)
        .includes_scalars(false)
        .build();
    assert_eq!(
        type_set.dynamic_lanes,
        num_set(&[2, 4, 8, 16, 32, 64, 128, 256])
    );
    assert_eq!(type_set.floats, num_set(&[32, 64]));
    assert_eq!(type_set.lanes, num_set(&[1]));
    assert!(type_set.ints.is_empty());
    assert!(type_set.specials.is_empty());

    let type_set = TypeSetBuilder::new().ints(16..64).build();
    assert_eq!(type_set.lanes, num_set(&[1]));
    assert_eq!(type_set.ints, num_set(&[16, 32, 64]));
    assert!(type_set.floats.is_empty());
    assert!(type_set.specials.is_empty());
}

#[test]
fn test_dynamic_to_vector() {
    // We don't generate single lane dynamic types, so the maximum number of
    // lanes we support is 128.
    assert_eq!(
        TypeSetBuilder::new()
            .dynamic_simd_lanes(Interval::All)
            .ints(Interval::All)
            .build()
            .dynamic_to_vector(),
        TypeSetBuilder::new()
            .simd_lanes(2..128)
            .ints(Interval::All)
            .build()
    );
    assert_eq!(
        TypeSetBuilder::new()
            .dynamic_simd_lanes(Interval::All)
            .floats(Interval::All)
            .build()
            .dynamic_to_vector(),
        TypeSetBuilder::new()
            .simd_lanes(2..128)
            .floats(Interval::All)
            .build()
    );
}

#[test]
fn test_as_bool() {
    let a = TypeSetBuilder::new()
        .simd_lanes(2..8)
        .ints(8..8)
        .floats(32..32)
        .build();
    assert_eq!(
        a.lane_of(),
        TypeSetBuilder::new().ints(8..8).floats(32..32).build()
    );
}

#[test]
fn test_forward_images() {
    let empty_set = TypeSetBuilder::new().build();

    // Half vector.
    assert_eq!(
        TypeSetBuilder::new()
            .simd_lanes(1..32)
            .build()
            .half_vector(),
        TypeSetBuilder::new().simd_lanes(1..16).build()
    );

    // Double vector.
    assert_eq!(
        TypeSetBuilder::new()
            .simd_lanes(1..32)
            .build()
            .double_vector(),
        TypeSetBuilder::new().simd_lanes(2..64).build()
    );
    assert_eq!(
        TypeSetBuilder::new()
            .simd_lanes(128..256)
            .build()
            .double_vector(),
        TypeSetBuilder::new().simd_lanes(256..256).build()
    );

    // Half width.
    assert_eq!(
        TypeSetBuilder::new().ints(8..32).build().half_width(),
        TypeSetBuilder::new().ints(8..16).build()
    );
    assert_eq!(
        TypeSetBuilder::new().floats(32..32).build().half_width(),
        empty_set
    );
    assert_eq!(
        TypeSetBuilder::new().floats(32..64).build().half_width(),
        TypeSetBuilder::new().floats(32..32).build()
    );

    // Double width.
    assert_eq!(
        TypeSetBuilder::new().ints(8..32).build().double_width(),
        TypeSetBuilder::new().ints(16..64).build()
    );
    assert_eq!(
        TypeSetBuilder::new().ints(32..64).build().double_width(),
        TypeSetBuilder::new().ints(64..128).build()
    );
    assert_eq!(
        TypeSetBuilder::new().floats(32..32).build().double_width(),
        TypeSetBuilder::new().floats(64..64).build()
    );
    assert_eq!(
        TypeSetBuilder::new().floats(32..64).build().double_width(),
        TypeSetBuilder::new().floats(64..64).build()
    );
}

#[test]
fn test_typeset_singleton() {
    assert_eq!(
        TypeSetBuilder::new().ints(16..16).build().get_singleton(),
        ValueType::Lane(shared_types::Int::I16.into())
    );
    assert_eq!(
        TypeSetBuilder::new().floats(64..64).build().get_singleton(),
        ValueType::Lane(shared_types::Float::F64.into())
    );
    assert_eq!(
        TypeSetBuilder::new()
            .simd_lanes(4..4)
            .ints(32..32)
            .build()
            .get_singleton(),
        LaneType::from(shared_types::Int::I32).by_lanes(4)
    );
}

#[test]
fn test_typevar_functions() {
    let x = TypeVar::new(
        "x",
        "i16 and up",
        TypeSetBuilder::new().ints(16..64).build(),
    );
    assert_eq!(x.half_width().name, "half_width(x)");
    assert_eq!(
        x.half_width().double_width().name,
        "double_width(half_width(x))"
    );

    let x = TypeVar::new("x", "up to i32", TypeSetBuilder::new().ints(8..32).build());
    assert_eq!(x.double_width().name, "double_width(x)");
}

#[test]
fn test_typevar_singleton() {
    // Test i32.
    let typevar = TypeVar::new_singleton(ValueType::Lane(LaneType::Int(shared_types::Int::I32)));
    assert_eq!(typevar.name, "i32");
    assert_eq!(typevar.get_raw_typeset().ints, num_set(&[32]));
    assert!(typevar.get_raw_typeset().floats.is_empty());
    assert!(typevar.get_raw_typeset().specials.is_empty());
    assert_eq!(typevar.get_raw_typeset().lanes, num_set(&[1]));

    // Test f32x4.
    let typevar = TypeVar::new_singleton(ValueType::Vector(VectorType::new(
        LaneType::Float(shared_types::Float::F32),
        4,
    )));
    assert_eq!(typevar.name, "f32x4");
    assert!(typevar.get_raw_typeset().ints.is_empty());
    assert_eq!(typevar.get_raw_typeset().floats, num_set(&[32]));
    assert_eq!(typevar.get_raw_typeset().lanes, num_set(&[4]));
    assert!(typevar.get_raw_typeset().specials.is_empty());
}

#[test]
#[should_panic]
fn test_typevar_builder_too_high_bound_panic() {
    TypeSetBuilder::new().ints(16..2 * MAX_BITS).try_build().unwrap();
}

#[test]
#[should_panic]
fn test_typevar_builder_inverted_bounds_panic() {
    TypeSetBuilder::new().ints(32..16).try_build().unwrap();
}

#[test]
#[should_panic]
fn test_typeset_singleton_panic_nonsingleton_types() {
    TypeSetBuilder::new()
        .ints(8..8)
        .floats(32..32)
        .build()
        .try_get_singleton()
        .unwrap();
}

#[test]
#[should_panic]
fn test_typeset_singleton_panic_nonsingleton_lanes() {
    TypeSetBuilder::new()
        .simd_lanes(1..2)
        .floats(32..32)
        .build()
        .try_get_singleton()
        .unwrap();
}
