//! The scalar types that everything else is made of.

use vstd::prelude::*;

verus! {

/// An integer type, named after its width.
#[derive(Clone, Copy, Debug, PartialEq, Eq, PartialOrd, Ord, Hash, Structural)]
pub enum Int {
    I8,
    I16,
    I32,
    I64,
    I128,
}

impl Int {
    /// The number of bits of this type.
    pub open spec fn spec_bits(self) -> u16 {
        match self {
            Int::I8 => 8,
            Int::I16 => 16,
            Int::I32 => 32,
            Int::I64 => 64,
            Int::I128 => 128,
        }
    }

    /// Return the number of bits of this type.
    #[verifier::when_used_as_spec(spec_bits)]
    pub fn bits(self) -> (bits: u16)
        ensures
            bits == self.spec_bits(),
    {
        match self {
            Int::I8 => 8,
            Int::I16 => 16,
            Int::I32 => 32,
            Int::I64 => 64,
            Int::I128 => 128,
        }
    }
}

/// A floating point type, named after its width.
#[derive(Clone, Copy, Debug, PartialEq, Eq, PartialOrd, Ord, Hash, Structural)]
pub enum Float {
    F32,
    F64,
}

impl Float {
    /// The number of bits of this type.
    pub open spec fn spec_bits(self) -> u16 {
        match self {
            Float::F32 => 32,
            Float::F64 => 64,
        }
    }

    /// Return the number of bits of this type.
    #[verifier::when_used_as_spec(spec_bits)]
    pub fn bits(self) -> (bits: u16)
        ensures
            bits == self.spec_bits(),
    {
        match self {
            Float::F32 => 32,
            Float::F64 => 64,
        }
    }
}

/// An opaque reference type, named after its width.
#[derive(Clone, Copy, Debug, PartialEq, Eq, PartialOrd, Ord, Hash, Structural)]
pub enum Reference {
    R32,
    R64,
}

impl Reference {
    /// The number of bits of this type.
    pub open spec fn spec_bits(self) -> u16 {
        match self {
            Reference::R32 => 32,
            Reference::R64 => 64,
        }
    }

    /// Return the number of bits of this type.
    #[verifier::when_used_as_spec(spec_bits)]
    pub fn bits(self) -> (bits: u16)
        ensures
            bits == self.spec_bits(),
    {
        match self {
            Reference::R32 => 32,
            Reference::R64 => 64,
        }
    }
}

/// A type of CPU flags.
#[derive(Clone, Copy, Debug, PartialEq, Eq, PartialOrd, Ord, Hash, Structural)]
pub enum Flag {
    /// Flags that an integer comparison sets.
    IFlags,
    /// Flags that a floating point comparison sets.
    FFlags,
}

} // verus!
