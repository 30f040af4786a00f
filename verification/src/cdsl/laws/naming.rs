//! What the names, the documentation and the widths of types tell.

use vstd::prelude::*;
use vstd::std_specs::convert::FromSpec;

use crate::cdsl::interval::Interval;
use crate::cdsl::numset::Range;
use crate::cdsl::types::{
    is_float_width, is_int_width, is_ref_width, DynamicVectorType, LaneType, ReferenceType,
    SpecialType, ValueType, VectorType,
};
use crate::cdsl::typeset::DerivedFunc;
use crate::cdsl::typevar::TypeVar;
use crate::shared::types::{Flag, Float, Int, Reference};
use crate::text::{decimal, joined};

verus! {

/// The number that a numeral stands for.
pub open spec fn number_of(numeral: Seq<char>) -> int
    decreases numeral.len(),
{
    if numeral.len() == 0 {
        0
    } else {
        10 * number_of(numeral.drop_last()) + (numeral.last() as int - '0' as int)
    }
}

/// A numeral stands for its number, has nothing but digits, and starts with a zero only if it is
/// the zero.
pub proof fn law_decimal(n: nat)
    ensures
        number_of(decimal(n)) == n,
        decimal(n).len() > 0,
        forall|i: int| 0 <= i < decimal(n).len() ==> '0' <= #[trigger] decimal(n)[i] <= '9',
        decimal(n)[0] == '0' ==> n == 0 && decimal(n).len() == 1,
    decreases n,
{
    reveal_with_fuel(number_of, 2);
    let last = decimal(n).last();
    assert('0' <= last <= '9' && last as int - '0' as int == n % 10);
    if n >= 10 {
        let front = decimal(n / 10);
        law_decimal(n / 10);
        assert(decimal(n).drop_last() =~= front);
        assert forall|i: int| 0 <= i < decimal(n).len() implies '0' <= #[trigger] decimal(n)[i]
            <= '9' by {
            if i < front.len() {
                assert(decimal(n)[i] == front[i]);
            }
        }
        assert(decimal(n)[0] == front[0]);
    } else {
        assert(decimal(n).drop_last() =~= seq![]);
    }
}

/// A list is written as nothing, as its one item, or as its first item, a separator and the rest.
pub proof fn law_joined(first: Seq<char>, rest: Seq<Seq<char>>, separator: Seq<char>)
    ensures
        joined(seq![], separator) == Seq::<char>::empty(),
        joined(seq![first], separator) == first,
        rest.len() > 0 ==> joined(seq![first] + rest, separator) == first + separator + joined(
            rest,
            separator,
        ),
    decreases rest.len(),
{
    let all = seq![first] + rest;
    if rest.len() == 1 {
        assert(all.drop_last() =~= seq![first]);
        assert(all.last() == rest[0]);
        assert(joined(all, separator) == joined(seq![first], separator) + separator + rest[0]);
    } else if rest.len() > 1 {
        let front = rest.drop_last();
        law_joined(first, front, separator);
        assert(all.drop_last() =~= seq![first] + front);
        assert(all.last() == rest.last());
        assert(joined(all, separator) == joined(seq![first] + front, separator) + separator
            + rest.last());
        assert(joined(rest, separator) == joined(front, separator) + separator + rest.last());
        assert(joined(all, separator) =~= first + separator + joined(rest, separator));
    }
}

/// The widths of the types.
pub proof fn law_widths()
    ensures
        Int::I8.spec_bits() == 8,
        Int::I16.spec_bits() == 16,
        Int::I32.spec_bits() == 32,
        Int::I64.spec_bits() == 64,
        Int::I128.spec_bits() == 128,
        Float::F32.spec_bits() == 32,
        Float::F64.spec_bits() == 64,
        Reference::R32.spec_bits() == 32,
        Reference::R64.spec_bits() == 64,
        forall|integer: Int| #[trigger]
            LaneType::Int(integer).spec_lane_bits() == integer.spec_bits(),
        forall|float: Float| #[trigger]
            LaneType::Float(float).spec_lane_bits() == float.spec_bits(),
{
}

/// Each type is the type of its width, and only widths of types lead to types of that width.
pub proof fn law_types_of_widths(integer: Int, float: Float, reference: Reference, bits: u16)
    ensures
        LaneType::spec_int(integer.spec_bits()) == LaneType::Int(integer),
        LaneType::spec_float(float.spec_bits()) == LaneType::Float(float),
        ReferenceType::spec_ref(reference.spec_bits()) == ReferenceType(reference),
        is_int_width(bits) <==> exists|t: Int| #[trigger] t.spec_bits() == bits,
        is_float_width(bits) <==> exists|t: Float| #[trigger] t.spec_bits() == bits,
        is_ref_width(bits) <==> exists|t: Reference| #[trigger] t.spec_bits() == bits,
{
    assert(Int::I8.spec_bits() == 8 && Int::I16.spec_bits() == 16 && Int::I32.spec_bits() == 32
        && Int::I64.spec_bits() == 64 && Int::I128.spec_bits() == 128);
    assert(Float::F32.spec_bits() == 32 && Float::F64.spec_bits() == 64);
    assert(Reference::R32.spec_bits() == 32 && Reference::R64.spec_bits() == 64);
}

/// A lane type with one lane is itself, and with any other number of lanes the vector with that
/// many. With a dynamic number of lanes it is always a dynamic vector.
pub proof fn law_lanes(lane: LaneType, lanes: u16)
    ensures
        lanes == 1 ==> lane.spec_by_lanes(lanes) == ValueType::Lane(lane),
        lanes != 1 ==> lane.spec_by_lanes(lanes) == ValueType::Vector(
            (VectorType { base: lane, lanes: lanes as u64 }),
        ),
        lane.spec_to_dynamic(lanes) == ValueType::DynamicVector(
            (DynamicVectorType { base: lane, unscaled_lanes: lanes as u64 }),
        ),
{
}

/// The name of a scalar type is its kind and its width.
pub proof fn law_scalar_names(integer: Int, float: Float, reference: Reference)
    ensures
        ValueType::Lane(LaneType::Int(integer)).spec_name() == "i"@ + decimal(
            integer.spec_bits() as nat,
        ),
        ValueType::Lane(LaneType::Float(float)).spec_name() == "f"@ + decimal(
            float.spec_bits() as nat,
        ),
        ValueType::Reference(ReferenceType(reference)).spec_name() == "r"@ + decimal(
            reference.spec_bits() as nat,
        ),
        LaneType::Int(integer).spec_name() == ValueType::Lane(LaneType::Int(integer)).spec_name(),
        LaneType::Float(float).spec_name() == ValueType::Lane(LaneType::Float(float)).spec_name(),
        ReferenceType(reference).spec_name() == ValueType::Reference(
            ReferenceType(reference),
        ).spec_name(),
        ValueType::Special(SpecialType::Flag(Flag::IFlags)).spec_name() == "iflags"@,
        ValueType::Special(SpecialType::Flag(Flag::FFlags)).spec_name() == "fflags"@,
        SpecialType::Flag(Flag::IFlags).spec_name() == "iflags"@,
        SpecialType::Flag(Flag::FFlags).spec_name() == "fflags"@,
{
}

/// The name of a vector is that of the scalar, followed by the number of lanes, and by another
/// mark where that number is dynamic.
pub proof fn law_vector_names(base: LaneType, lanes: u64)
    ensures
        ValueType::Vector((VectorType { base, lanes })).spec_name() == ValueType::Lane(
            base,
        ).spec_name() + "x"@ + decimal(lanes as nat),
        ValueType::DynamicVector(
            (DynamicVectorType { base, unscaled_lanes: lanes }),
        ).spec_name() == ValueType::Vector((VectorType { base, lanes })).spec_name() + "xN"@,
        (VectorType { base, lanes }).spec_name() == ValueType::Vector(
            (VectorType { base, lanes }),
        ).spec_name(),
        (DynamicVectorType { base, unscaled_lanes: lanes }).spec_name() == ValueType::DynamicVector(
            (DynamicVectorType { base, unscaled_lanes: lanes }),
        ).spec_name(),
{
}

/// The documentation of an integer type gives its width, with a warning for the narrow ones.
pub proof fn law_int_doc(integer: Int)
    ensures
        ({
            let bits = decimal(integer.spec_bits() as nat);
            let narrow = integer == Int::I8 || integer == Int::I16;
            ValueType::Lane(LaneType::Int(integer)).spec_doc() == "An integer type with "@ + bits
                + if narrow {
                " bits. WARNING: arithmetic on "@ + bits + "bit integers is incomplete"@
            } else {
                " bits."@
            }
        }),
        LaneType::Int(integer).spec_doc() == ValueType::Lane(LaneType::Int(integer)).spec_doc(),
{
    let bits = decimal(integer.spec_bits() as nat);
    if integer.spec_bits() < 32 {
        assert("An integer type with "@ + bits + " bits. WARNING: arithmetic on "@ + bits
            + "bit integers is incomplete"@ =~= "An integer type with "@ + bits + (
        " bits. WARNING: arithmetic on "@ + bits + "bit integers is incomplete"@));
    }
}

/// The documentation of a reference type or a vector gives what it is made of.
pub proof fn law_compound_docs(reference: Reference, base: LaneType, lanes: u64)
    ensures
        ValueType::Reference(ReferenceType(reference)).spec_doc()
            == "An opaque reference type with "@ + decimal(reference.spec_bits() as nat)
            + " bits."@,
        ValueType::Vector((VectorType { base, lanes })).spec_doc() == "A SIMD vector with "@
            + decimal(lanes as nat) + " lanes containing a `"@ + ValueType::Lane(base).spec_name()
            + "` each."@,
        ValueType::DynamicVector((DynamicVectorType { base, unscaled_lanes: lanes })).spec_doc()
            == "A dynamically-scaled SIMD vector with a minimum of "@ + decimal(lanes as nat)
            + " lanes containing `"@ + ValueType::Lane(base).spec_name() + "` bits each."@,
{
}

/// Types with different names are different, and so are types with different widths: the names of
/// the scalars tell them apart.
pub proof fn law_scalar_names_differ(a: Int, b: Int, c: Float, d: Float)
    ensures
        LaneType::Int(a).spec_name() == LaneType::Int(b).spec_name() <==> a == b,
        LaneType::Float(c).spec_name() == LaneType::Float(d).spec_name() <==> c == d,
        LaneType::Int(a).spec_name() != LaneType::Float(c).spec_name(),
{
    reveal_strlit("i");
    reveal_strlit("f");
    lemma_same_numeral("i"@, a.spec_bits() as nat, b.spec_bits() as nat);
    lemma_same_numeral("f"@, c.spec_bits() as nat, d.spec_bits() as nat);
    assert(LaneType::Int(a).spec_name()[0] == 'i');
    assert(LaneType::Float(c).spec_name()[0] == 'f');
}

proof fn lemma_same_numeral(start: Seq<char>, m: nat, n: nat)
    ensures
        start + decimal(m) == start + decimal(n) <==> m == n,
{
    if start + decimal(m) == start + decimal(n) {
        assert((start + decimal(m)).skip(start.len() as int) =~= decimal(m));
        assert((start + decimal(n)).skip(start.len() as int) =~= decimal(n));
        law_decimal(m);
        law_decimal(n);
    }
}

/// The names of the functions that derive a variable.
pub proof fn law_function_names()
    ensures
        DerivedFunc::LaneOf.spec_name() == "lane_of"@,
        DerivedFunc::AsBool.spec_name() == "as_bool"@,
        DerivedFunc::HalfWidth.spec_name() == "half_width"@,
        DerivedFunc::DoubleWidth.spec_name() == "double_width"@,
        DerivedFunc::HalfVector.spec_name() == "half_vector"@,
        DerivedFunc::DoubleVector.spec_name() == "double_vector"@,
        DerivedFunc::SplitLanes.spec_name() == "split_lanes"@,
        DerivedFunc::MergeLanes.spec_name() == "merge_lanes"@,
        DerivedFunc::DynamicToVector.spec_name() == "dynamic_to_vector"@,
{
}

/// The documentation of the other scalar types.
pub proof fn law_fixed_docs()
    ensures
        ValueType::Lane(LaneType::Float(Float::F32)).spec_doc()
            == "A 32-bit floating point type represented in the IEEE 754-2008 *binary32* interchange format. This corresponds to the :c:type:`float` type in most C implementations."@,
        ValueType::Lane(LaneType::Float(Float::F64)).spec_doc()
            == "A 64-bit floating point type represented in the IEEE 754-2008 *binary64* interchange format. This corresponds to the :c:type:`double` type in most C implementations."@,
        ValueType::Special(SpecialType::Flag(Flag::IFlags)).spec_doc()
            == "CPU flags representing the result of an integer comparison. These flags can be tested with an :type:`intcc` condition code."@,
        ValueType::Special(SpecialType::Flag(Flag::FFlags)).spec_doc()
            == "CPU flags representing the result of a floating point comparison. These flags can be tested with a :type:`floatcc` condition code."@,
{
}

/// Conversions keep what they convert: a range is the interval with its bounds, a scalar is the
/// value type that it is, and a reference to a variable is that variable.
pub proof fn law_conversions(
    range: Range,
    integer: Int,
    float: Float,
    lane: LaneType,
    reference: ReferenceType,
    special: SpecialType,
    type_var: &TypeVar,
)
    ensures
        <Interval as FromSpec<Range>>::from_spec(range) == Interval::Range(range),
        <LaneType as FromSpec<Int>>::from_spec(integer) == LaneType::Int(integer),
        <LaneType as FromSpec<Float>>::from_spec(float) == LaneType::Float(float),
        <ValueType as FromSpec<LaneType>>::from_spec(lane) == ValueType::Lane(lane),
        <ValueType as FromSpec<ReferenceType>>::from_spec(reference) == ValueType::Reference(
            reference,
        ),
        <ValueType as FromSpec<SpecialType>>::from_spec(special) == ValueType::Special(special),
        <TypeVar as FromSpec<&TypeVar>>::from_spec(type_var) == *type_var,
{
}

} // verus!
