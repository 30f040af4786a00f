//! The hierarchy of concrete value types.

use vstd::prelude::*;
use vstd::string::StringExecFns;

use crate::shared::types as shared_types;
use crate::text::{decimal, push_decimal};

verus! {

/// A concrete type of an SSA value.
#[derive(Clone, Copy, Debug, PartialEq, Eq, PartialOrd, Ord, Hash, Structural)]
pub enum ValueType {
    Lane(LaneType),
    Reference(ReferenceType),
    Special(SpecialType),
    Vector(VectorType),
    DynamicVector(DynamicVectorType),
}

impl ValueType {
    /// The short name of this type.
    pub open spec fn spec_name(self) -> Seq<char> {
        match self {
            ValueType::Lane(lane) => lane.spec_name(),
            ValueType::Reference(reference) => reference.spec_name(),
            ValueType::Special(special) => special.spec_name(),
            ValueType::Vector(vector) => vector.spec_name(),
            ValueType::DynamicVector(vector) => vector.spec_name(),
        }
    }

    /// The documentation of this type.
    pub open spec fn spec_doc(self) -> Seq<char> {
        match self {
            ValueType::Lane(lane) => lane.spec_doc(),
            ValueType::Reference(reference) => reference.spec_doc(),
            ValueType::Special(special) => special.spec_doc(),
            ValueType::Vector(vector) => vector.spec_doc(),
            ValueType::DynamicVector(vector) => vector.spec_doc(),
        }
    }

    /// Return the short name of this type, such as `i32`, `f32x4` or `i8x16xN`.
    pub fn to_string(&self) -> (name: String)
        ensures
            name@ == self.spec_name(),
    {
        match *self {
            ValueType::Lane(lane) => lane.to_string(),
            ValueType::Reference(reference) => reference.to_string(),
            ValueType::Special(special) => special.to_string(),
            ValueType::Vector(vector) => vector.to_string(),
            ValueType::DynamicVector(vector) => vector.to_string(),
        }
    }

    /// Return a string containing the documentation comment for this type.
    pub fn doc(&self) -> (doc: String)
        ensures
            doc@ == self.spec_doc(),
    {
        match *self {
            ValueType::Lane(lane) => lane.doc(),
            ValueType::Reference(reference) => reference.doc(),
            ValueType::Special(special) => special.doc(),
            ValueType::Vector(vector) => vector.doc(),
            ValueType::DynamicVector(vector) => vector.doc(),
        }
    }
}

impl From<LaneType> for ValueType {
    fn from(lane: LaneType) -> (value_type: ValueType) {
        ValueType::Lane(lane)
    }
}

impl vstd::std_specs::convert::FromSpecImpl<LaneType> for ValueType {
    open spec fn obeys_from_spec() -> bool {
        true
    }

    open spec fn from_spec(lane: LaneType) -> ValueType {
        ValueType::Lane(lane)
    }
}

impl From<ReferenceType> for ValueType {
    fn from(reference: ReferenceType) -> (value_type: ValueType) {
        ValueType::Reference(reference)
    }
}

impl vstd::std_specs::convert::FromSpecImpl<ReferenceType> for ValueType {
    open spec fn obeys_from_spec() -> bool {
        true
    }

    open spec fn from_spec(reference: ReferenceType) -> ValueType {
        ValueType::Reference(reference)
    }
}

impl From<SpecialType> for ValueType {
    fn from(special: SpecialType) -> (value_type: ValueType) {
        ValueType::Special(special)
    }
}

impl vstd::std_specs::convert::FromSpecImpl<SpecialType> for ValueType {
    open spec fn obeys_from_spec() -> bool {
        true
    }

    open spec fn from_spec(special: SpecialType) -> ValueType {
        ValueType::Special(special)
    }
}

/// A concrete scalar type that can appear as a vector lane too.
#[derive(Clone, Copy, Debug, PartialEq, Eq, PartialOrd, Ord, Hash, Structural)]
pub enum LaneType {
    Float(shared_types::Float),
    Int(shared_types::Int),
}

/// Whether some integer type has `bits` bits.
pub open spec fn is_int_width(bits: u16) -> bool {
    bits == 8 || bits == 16 || bits == 32 || bits == 64 || bits == 128
}

/// Whether some floating point type has `bits` bits.
pub open spec fn is_float_width(bits: u16) -> bool {
    bits == 32 || bits == 64
}

/// Whether some reference type has `bits` bits.
pub open spec fn is_ref_width(bits: u16) -> bool {
    bits == 32 || bits == 64
}

impl LaneType {
    /// The number of bits in a lane.
    pub open spec fn spec_lane_bits(self) -> u16 {
        match self {
            LaneType::Float(float) => float.spec_bits(),
            LaneType::Int(integer) => integer.spec_bits(),
        }
    }

    /// The short name of this type.
    pub open spec fn spec_name(self) -> Seq<char> {
        match self {
            LaneType::Float(_) => "f"@ + decimal(self.spec_lane_bits() as nat),
            LaneType::Int(_) => "i"@ + decimal(self.spec_lane_bits() as nat),
        }
    }

    /// The documentation of this type.
    pub open spec fn spec_doc(self) -> Seq<char> {
        let bits = decimal(self.spec_lane_bits() as nat);
        match self {
            LaneType::Float(shared_types::Float::F32) => "A 32-bit floating point type represented in the IEEE 754-2008 *binary32* interchange format. This corresponds to the :c:type:`float` type in most C implementations."@,
            LaneType::Float(shared_types::Float::F64) => "A 64-bit floating point type represented in the IEEE 754-2008 *binary64* interchange format. This corresponds to the :c:type:`double` type in most C implementations."@,
            LaneType::Int(_) => if self.spec_lane_bits() < 32 {
                "An integer type with "@ + bits + " bits. WARNING: arithmetic on "@ + bits
                    + "bit integers is incomplete"@
            } else {
                "An integer type with "@ + bits + " bits."@
            },
        }
    }

    /// The integer type with `bits` bits.
    pub open spec fn spec_int(bits: u16) -> LaneType {
        LaneType::Int(
            match bits {
                8 => shared_types::Int::I8,
                16 => shared_types::Int::I16,
                32 => shared_types::Int::I32,
                64 => shared_types::Int::I64,
                _ => shared_types::Int::I128,
            },
        )
    }

    /// The floating point type with `bits` bits.
    pub open spec fn spec_float(bits: u16) -> LaneType {
        LaneType::Float(
            match bits {
                32 => shared_types::Float::F32,
                _ => shared_types::Float::F64,
            },
        )
    }

    /// The type with `lanes` lanes of this type: this type itself for a single lane.
    pub open spec fn spec_by_lanes(self, lanes: u16) -> ValueType {
        if lanes == 1 {
            ValueType::Lane(self)
        } else {
            ValueType::Vector(VectorType { base: self, lanes: lanes as u64 })
        }
    }

    /// The dynamic vector type with at least `lanes` lanes of this type.
    pub open spec fn spec_to_dynamic(self, lanes: u16) -> ValueType {
        ValueType::DynamicVector(DynamicVectorType { base: self, unscaled_lanes: lanes as u64 })
    }

    /// Return the number of bits in a lane.
    pub fn lane_bits(self) -> (bits: u64)
        ensures
            bits == self.spec_lane_bits(),
    {
        match self {
            LaneType::Float(float) => float.bits() as u64,
            LaneType::Int(integer) => integer.bits() as u64,
        }
    }

    /// Return the short name of this type.
    pub fn to_string(&self) -> (name: String)
        ensures
            name@ == self.spec_name(),
    {
        let mut name = match self {
            LaneType::Float(_) => String::from("f"),
            LaneType::Int(_) => String::from("i"),
        };
        push_decimal(&mut name, self.lane_bits());
        name
    }

    /// Return a string containing the documentation comment for this lane type.
    pub fn doc(self) -> (doc: String)
        ensures
            doc@ == self.spec_doc(),
    {
        match self {
            LaneType::Float(shared_types::Float::F32) => String::from(
                "A 32-bit floating point type represented in the IEEE 754-2008 *binary32* interchange format. This corresponds to the :c:type:`float` type in most C implementations.",
            ),
            LaneType::Float(shared_types::Float::F64) => String::from(
                "A 64-bit floating point type represented in the IEEE 754-2008 *binary64* interchange format. This corresponds to the :c:type:`double` type in most C implementations.",
            ),
            LaneType::Int(_) => {
                let bits = self.lane_bits();
                let mut doc = String::from("An integer type with ");
                push_decimal(&mut doc, bits);
                if bits < 32 {
                    doc.append(" bits. WARNING: arithmetic on ");
                    push_decimal(&mut doc, bits);
                    doc.append("bit integers is incomplete");
                } else {
                    doc.append(" bits.");
                }
                doc
            },
        }
    }

    /// Return the integer type with `num_bits` bits.
    pub fn int_from_bits(num_bits: u16) -> (lane: LaneType)
        requires
            is_int_width(num_bits),
        ensures
            lane == LaneType::spec_int(num_bits),
            lane.spec_lane_bits() == num_bits,
    {
        LaneType::Int(
            match num_bits {
                8 => shared_types::Int::I8,
                16 => shared_types::Int::I16,
                32 => shared_types::Int::I32,
                64 => shared_types::Int::I64,
                _ => shared_types::Int::I128,
            },
        )
    }

    /// Return the floating point type with `num_bits` bits.
    pub fn float_from_bits(num_bits: u16) -> (lane: LaneType)
        requires
            is_float_width(num_bits),
        ensures
            lane == LaneType::spec_float(num_bits),
            lane.spec_lane_bits() == num_bits,
    {
        LaneType::Float(
            match num_bits {
                32 => shared_types::Float::F32,
                _ => shared_types::Float::F64,
            },
        )
    }

    /// Return the type with `lanes` lanes of this type. One lane gives the scalar type.
    pub fn by_lanes(self, lanes: u16) -> (value_type: ValueType)
        ensures
            value_type == self.spec_by_lanes(lanes),
    {
        if lanes == 1 {
            self.into()
        } else {
            ValueType::Vector(VectorType::new(self, lanes as u64))
        }
    }

    /// Return the dynamic vector type with at least `lanes` lanes of this type.
    pub fn to_dynamic(self, lanes: u16) -> (value_type: ValueType)
        ensures
            value_type == self.spec_to_dynamic(lanes),
    {
        ValueType::DynamicVector(DynamicVectorType::new(self, lanes as u64))
    }
}

impl From<shared_types::Int> for LaneType {
    fn from(integer: shared_types::Int) -> (lane: LaneType) {
        LaneType::Int(integer)
    }
}

impl vstd::std_specs::convert::FromSpecImpl<shared_types::Int> for LaneType {
    open spec fn obeys_from_spec() -> bool {
        true
    }

    open spec fn from_spec(integer: shared_types::Int) -> LaneType {
        LaneType::Int(integer)
    }
}

impl From<shared_types::Float> for LaneType {
    fn from(float: shared_types::Float) -> (lane: LaneType) {
        LaneType::Float(float)
    }
}

impl vstd::std_specs::convert::FromSpecImpl<shared_types::Float> for LaneType {
    open spec fn obeys_from_spec() -> bool {
        true
    }

    open spec fn from_spec(float: shared_types::Float) -> LaneType {
        LaneType::Float(float)
    }
}

/// A concrete SIMD vector type: a lane type and a number of lanes.
#[derive(Clone, Copy, Debug, PartialEq, Eq, PartialOrd, Ord, Hash, Structural)]
pub struct VectorType {
    pub base: LaneType,
    pub lanes: u64,
}

impl VectorType {
    /// The short name of this type.
    pub open spec fn spec_name(self) -> Seq<char> {
        self.base.spec_name() + "x"@ + decimal(self.lanes as nat)
    }

    /// The documentation of this type.
    pub open spec fn spec_doc(self) -> Seq<char> {
        "A SIMD vector with "@ + decimal(self.lanes as nat) + " lanes containing a `"@
            + self.base.spec_name() + "` each."@
    }

    /// Create a vector type with `lanes` lanes of type `base`.
    pub fn new(base: LaneType, lanes: u64) -> (vector: VectorType)
        ensures
            vector == (VectorType { base, lanes }),
    {
        VectorType { base, lanes }
    }

    /// Return the number of lanes in a vector.
    pub fn lane_count(&self) -> (lanes: u64)
        ensures
            lanes == self.lanes,
    {
        self.lanes
    }

    /// Return the lane type of the vector.
    pub fn lane_type(&self) -> (base: LaneType)
        ensures
            base == self.base,
    {
        self.base
    }

    /// Return the short name of this type.
    pub fn to_string(&self) -> (name: String)
        ensures
            name@ == self.spec_name(),
    {
        let mut name = self.base.to_string();
        name.append("x");
        push_decimal(&mut name, self.lanes);
        name
    }

    /// Return a string containing the documentation comment for this vector type.
    pub fn doc(&self) -> (doc: String)
        ensures
            doc@ == self.spec_doc(),
    {
        let mut doc = String::from("A SIMD vector with ");
        push_decimal(&mut doc, self.lanes);
        doc.append(" lanes containing a `");
        let base = self.base.to_string();
        doc.append(base.as_str());
        doc.append("` each.");
        doc
    }
}

/// A concrete scalable SIMD vector type: a lane type and a minimum number of lanes.
#[derive(Clone, Copy, Debug, PartialEq, Eq, PartialOrd, Ord, Hash, Structural)]
pub struct DynamicVectorType {
    pub base: LaneType,
    pub unscaled_lanes: u64,
}

impl DynamicVectorType {
    /// The short name of this type.
    pub open spec fn spec_name(self) -> Seq<char> {
        self.base.spec_name() + "x"@ + decimal(self.unscaled_lanes as nat) + "xN"@
    }

    /// The documentation of this type.
    pub open spec fn spec_doc(self) -> Seq<char> {
        "A dynamically-scaled SIMD vector with a minimum of "@ + decimal(self.unscaled_lanes as nat)
            + " lanes containing `"@ + self.base.spec_name() + "` bits each."@
    }

    /// Create a dynamic vector type with at least `unscaled_lanes` lanes of type `base`.
    pub fn new(base: LaneType, unscaled_lanes: u64) -> (vector: DynamicVectorType)
        ensures
            vector == (DynamicVectorType { base, unscaled_lanes }),
    {
        DynamicVectorType { base, unscaled_lanes }
    }

    /// Return the minimum number of lanes in a vector.
    pub fn minimum_lane_count(&self) -> (lanes: u64)
        ensures
            lanes == self.unscaled_lanes,
    {
        self.unscaled_lanes
    }

    /// Return the lane type of the vector.
    pub fn lane_type(&self) -> (base: LaneType)
        ensures
            base == self.base,
    {
        self.base
    }

    /// Return the short name of this type.
    pub fn to_string(&self) -> (name: String)
        ensures
            name@ == self.spec_name(),
    {
        let mut name = self.base.to_string();
        name.append("x");
        push_decimal(&mut name, self.unscaled_lanes);
        name.append("xN");
        name
    }

    /// Return a string containing the documentation comment for this dynamic vector type.
    pub fn doc(&self) -> (doc: String)
        ensures
            doc@ == self.spec_doc(),
    {
        let mut doc = String::from("A dynamically-scaled SIMD vector with a minimum of ");
        push_decimal(&mut doc, self.unscaled_lanes);
        doc.append(" lanes containing `");
        let base = self.base.to_string();
        doc.append(base.as_str());
        doc.append("` bits each.");
        doc
    }
}

/// A reference type: a scalar type, but not a lane type.
#[derive(Clone, Copy, Debug, PartialEq, Eq, PartialOrd, Ord, Hash, Structural)]
pub struct ReferenceType(pub shared_types::Reference);

impl ReferenceType {
    /// The short name of this type.
    pub open spec fn spec_name(self) -> Seq<char> {
        "r"@ + decimal(self.0.spec_bits() as nat)
    }

    /// The documentation of this type.
    pub open spec fn spec_doc(self) -> Seq<char> {
        "An opaque reference type with "@ + decimal(self.0.spec_bits() as nat) + " bits."@
    }

    /// The reference type with `bits` bits.
    pub open spec fn spec_ref(bits: u16) -> ReferenceType {
        ReferenceType(
            match bits {
                32 => shared_types::Reference::R32,
                _ => shared_types::Reference::R64,
            },
        )
    }

    /// Return the reference type with `num_bits` bits.
    pub fn ref_from_bits(num_bits: u16) -> (reference: ReferenceType)
        requires
            is_ref_width(num_bits),
        ensures
            reference == ReferenceType::spec_ref(num_bits),
            reference.0.spec_bits() == num_bits,
    {
        ReferenceType(
            match num_bits {
                32 => shared_types::Reference::R32,
                _ => shared_types::Reference::R64,
            },
        )
    }

    /// Return the short name of this type.
    pub fn to_string(&self) -> (name: String)
        ensures
            name@ == self.spec_name(),
    {
        let mut name = String::from("r");
        push_decimal(&mut name, self.0.bits() as u64);
        name
    }

    /// Return a string containing the documentation comment for this reference type.
    pub fn doc(self) -> (doc: String)
        ensures
            doc@ == self.spec_doc(),
    {
        let mut doc = String::from("An opaque reference type with ");
        push_decimal(&mut doc, self.0.bits() as u64);
        doc.append(" bits.");
        doc
    }
}

/// A concrete scalar type that is neither a vector nor a lane type.
///
/// Special types cannot be used to form vectors.
#[derive(Clone, Copy, Debug, PartialEq, Eq, PartialOrd, Ord, Hash, Structural)]
pub enum SpecialType {
    Flag(shared_types::Flag),
}

impl SpecialType {
    /// The short name of this type.
    pub open spec fn spec_name(self) -> Seq<char> {
        match self {
            SpecialType::Flag(shared_types::Flag::IFlags) => "iflags"@,
            SpecialType::Flag(shared_types::Flag::FFlags) => "fflags"@,
        }
    }

    /// The documentation of this type.
    pub open spec fn spec_doc(self) -> Seq<char> {
        match self {
            SpecialType::Flag(shared_types::Flag::IFlags) => "CPU flags representing the result of an integer comparison. These flags can be tested with an :type:`intcc` condition code."@,
            SpecialType::Flag(shared_types::Flag::FFlags) => "CPU flags representing the result of a floating point comparison. These flags can be tested with a :type:`floatcc` condition code."@,
        }
    }

    /// Return the short name of this type.
    pub fn to_string(&self) -> (name: String)
        ensures
            name@ == self.spec_name(),
    {
        match self {
            SpecialType::Flag(shared_types::Flag::IFlags) => String::from("iflags"),
            SpecialType::Flag(shared_types::Flag::FFlags) => String::from("fflags"),
        }
    }

    /// Return a string containing the documentation comment for this special type.
    pub fn doc(self) -> (doc: String)
        ensures
            doc@ == self.spec_doc(),
    {
        match self {
            SpecialType::Flag(shared_types::Flag::IFlags) => String::from(
                "CPU flags representing the result of an integer comparison. These flags can be tested with an :type:`intcc` condition code.",
            ),
            SpecialType::Flag(shared_types::Flag::FFlags) => String::from(
                "CPU flags representing the result of a floating point comparison. These flags can be tested with a :type:`floatcc` condition code.",
            ),
        }
    }
}

} // verus!
