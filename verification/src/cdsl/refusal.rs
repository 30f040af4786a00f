//! Why a type variable cannot be derived from another.

use vstd::prelude::*;

use crate::cdsl::numset::{enumerates, to_vec, NumSet, RangeBound};
use crate::cdsl::typeset::{
    DerivedFunc, TypeSet, TypeSetView, MAX_BITS, MAX_FLOAT_BITS, MAX_LANES,
};
use crate::cdsl::typevar::TypeVar;

verus! {

/// Why a function does not apply to a set of types.
#[derive(Clone, Copy, Debug, PartialEq, Eq, Structural)]
pub enum Refusal {
    /// There are special types.
    Special,
    /// The narrowest integer type cannot be halved.
    HalfInt,
    /// The narrowest floating point type cannot be halved.
    HalfFloat,
    /// The widest integer type cannot be doubled.
    DoubleInt,
    /// The widest floating point type cannot be doubled.
    DoubleFloat,
    /// There is a type with one lane.
    Scalar,
    /// There is a type with the largest number of lanes.
    LargestVector,
    /// There is no number of lanes.
    NoLanes,
}

impl Refusal {
    /// What is wrong, in words.
    pub open spec fn spec_message(self) -> Seq<char> {
        match self {
            Refusal::Special => "can't derive from special types"@,
            Refusal::HalfInt => "can't halve all integer types"@,
            Refusal::HalfFloat => "can't halve all float types"@,
            Refusal::DoubleInt => "can't double all integer types"@,
            Refusal::DoubleFloat => "can't double all float types"@,
            Refusal::Scalar => "can't halve a scalar type"@,
            Refusal::LargestVector => "can't double 256 lanes"@,
            Refusal::NoLanes => "no lanes"@,
        }
    }

    /// Say what is wrong, in words.
    pub fn message(self) -> (message: &'static str)
        ensures
            message@ == self.spec_message(),
    {
        match self {
            Refusal::Special => "can't derive from special types",
            Refusal::HalfInt => "can't halve all integer types",
            Refusal::HalfFloat => "can't halve all float types",
            Refusal::DoubleInt => "can't double all integer types",
            Refusal::DoubleFloat => "can't double all float types",
            Refusal::Scalar => "can't halve a scalar type",
            Refusal::LargestVector => "can't double 256 lanes",
            Refusal::NoLanes => "no lanes",
        }
    }
}

/// Whether all members of `s` are above `floor`.
pub open spec fn all_above(s: Set<RangeBound>, floor: RangeBound) -> bool {
    forall|x: RangeBound| #[trigger] s.contains(x) ==> x > floor
}

/// Whether all members of `s` are below `limit`.
pub open spec fn all_below(s: Set<RangeBound>, limit: RangeBound) -> bool {
    forall|x: RangeBound| #[trigger] s.contains(x) ==> x < limit
}

impl TypeSetView {
    /// Why the widths cannot be halved.
    pub open spec fn half_width_refusal(self) -> Option<Refusal> {
        if !all_above(self.ints, 8) {
            Some(Refusal::HalfInt)
        } else if !all_above(self.floats, 32) {
            Some(Refusal::HalfFloat)
        } else {
            None
        }
    }

    /// Why the widths cannot be doubled.
    pub open spec fn double_width_refusal(self) -> Option<Refusal> {
        if !all_below(self.ints, MAX_BITS) {
            Some(Refusal::DoubleInt)
        } else if !all_below(self.floats, MAX_FLOAT_BITS) {
            Some(Refusal::DoubleFloat)
        } else {
            None
        }
    }

    /// Why the lane counts cannot be halved.
    pub open spec fn half_vector_refusal(self) -> Option<Refusal> {
        if self.lanes.is_empty() {
            Some(Refusal::NoLanes)
        } else if !all_above(self.lanes, 1) {
            Some(Refusal::Scalar)
        } else {
            None
        }
    }

    /// Why the lane counts cannot be doubled.
    pub open spec fn double_vector_refusal(self) -> Option<Refusal> {
        if self.lanes.is_empty() {
            Some(Refusal::NoLanes)
        } else if !all_below(self.lanes, MAX_LANES) {
            Some(Refusal::LargestVector)
        } else {
            None
        }
    }

    /// Why `func` does not apply to the set. Widths come before lane counts.
    pub open spec fn refusal(self, func: DerivedFunc) -> Option<Refusal> {
        if self.specials.len() > 0 {
            Some(Refusal::Special)
        } else {
            match func {
                DerivedFunc::HalfWidth => self.half_width_refusal(),
                DerivedFunc::DoubleWidth => self.double_width_refusal(),
                DerivedFunc::HalfVector => self.half_vector_refusal(),
                DerivedFunc::DoubleVector => self.double_vector_refusal(),
                DerivedFunc::SplitLanes => match self.half_width_refusal() {
                    Some(refusal) => Some(refusal),
                    None => self.double_vector_refusal(),
                },
                DerivedFunc::MergeLanes => match self.double_width_refusal() {
                    Some(refusal) => Some(refusal),
                    None => self.half_vector_refusal(),
                },
                DerivedFunc::LaneOf | DerivedFunc::AsBool | DerivedFunc::DynamicToVector => None,
            }
        }
    }
}

/// A function applies to a set exactly if there is no reason against it.
pub proof fn law_refusals(set: TypeSetView, func: DerivedFunc)
    ensures
        set.refusal(func) is None <==> set.derivable(func),
{
}

/// The members of a set, by their places in the ascending list.
proof fn lemma_listed(items: Seq<RangeBound>, s: Set<RangeBound>)
    requires
        enumerates(items, s),
    ensures
        forall|x: RangeBound| #[trigger]
            s.contains(x) ==> exists|i: int| 0 <= i < items.len() && items[i] == x,
        forall|i: int| 0 <= i < items.len() ==> s.contains(#[trigger] items[i]),
        items.len() == 0 <==> s.is_empty(),
{
    assert forall|x: RangeBound| #[trigger] s.contains(x) implies exists|i: int|
        0 <= i < items.len() && items[i] == x by {
        assert(items.to_set().contains(x));
    }
    assert forall|i: int| 0 <= i < items.len() implies s.contains(#[trigger] items[i]) by {
        assert(items.to_set().contains(items[i]));
    }
    if items.len() > 0 {
        assert(s.contains(items[0]));
    }
}

/// Whether the smallest member of `set`, if there is any, is above `floor`.
fn min_above(set: &NumSet, floor: RangeBound) -> (above: bool)
    ensures
        above == all_above(set@, floor),
{
    let items = to_vec(set);
    proof {
        lemma_listed(items@, set@);
    }
    items.len() == 0 || items[0] > floor
}

/// Whether the largest member of `set`, if there is any, is below `limit`.
fn max_below(set: &NumSet, limit: RangeBound) -> (below: bool)
    ensures
        below == all_below(set@, limit),
{
    let items = to_vec(set);
    proof {
        lemma_listed(items@, set@);
    }
    items.len() == 0 || items[items.len() - 1] < limit
}

impl TypeSet {
    fn half_width_refusal(&self) -> (refusal: Option<Refusal>)
        ensures
            refusal == self@.half_width_refusal(),
    {
        if !min_above(&self.ints, 8) {
            Some(Refusal::HalfInt)
        } else if !min_above(&self.floats, 32) {
            Some(Refusal::HalfFloat)
        } else {
            None
        }
    }

    fn double_width_refusal(&self) -> (refusal: Option<Refusal>)
        ensures
            refusal == self@.double_width_refusal(),
    {
        if !max_below(&self.ints, MAX_BITS) {
            Some(Refusal::DoubleInt)
        } else if !max_below(&self.floats, MAX_FLOAT_BITS) {
            Some(Refusal::DoubleFloat)
        } else {
            None
        }
    }

    fn has_no_lanes(&self) -> (none: bool)
        ensures
            none == self@.lanes.is_empty(),
    {
        let items = to_vec(&self.lanes);
        proof {
            lemma_listed(items@, self@.lanes);
        }
        items.len() == 0
    }

    fn half_vector_refusal(&self) -> (refusal: Option<Refusal>)
        ensures
            refusal == self@.half_vector_refusal(),
    {
        if self.has_no_lanes() {
            Some(Refusal::NoLanes)
        } else if !min_above(&self.lanes, 1) {
            Some(Refusal::Scalar)
        } else {
            None
        }
    }

    fn double_vector_refusal(&self) -> (refusal: Option<Refusal>)
        ensures
            refusal == self@.double_vector_refusal(),
    {
        if self.has_no_lanes() {
            Some(Refusal::NoLanes)
        } else if !max_below(&self.lanes, MAX_LANES) {
            Some(Refusal::LargestVector)
        } else {
            None
        }
    }

    /// Say why `derived_func` does not apply to this set, if it does not.
    pub fn refusal(&self, derived_func: DerivedFunc) -> (refusal: Option<Refusal>)
        ensures
            refusal == self@.refusal(derived_func),
    {
        if self.specials.len() > 0 {
            return Some(Refusal::Special);
        }
        match derived_func {
            DerivedFunc::HalfWidth => self.half_width_refusal(),
            DerivedFunc::DoubleWidth => self.double_width_refusal(),
            DerivedFunc::HalfVector => self.half_vector_refusal(),
            DerivedFunc::DoubleVector => self.double_vector_refusal(),
            DerivedFunc::SplitLanes => match self.half_width_refusal() {
                Some(refusal) => Some(refusal),
                None => self.double_vector_refusal(),
            },
            DerivedFunc::MergeLanes => match self.double_width_refusal() {
                Some(refusal) => Some(refusal),
                None => self.half_vector_refusal(),
            },
            DerivedFunc::LaneOf | DerivedFunc::AsBool | DerivedFunc::DynamicToVector => None,
        }
    }
}

impl TypeVar {
    /// Create a type variable that is a function of another, or say why there is none.
    pub fn try_derived(&self, derived_func: DerivedFunc) -> (result: Result<TypeVar, Refusal>)
        ensures
            match self@.typeset().refusal(derived_func) {
                Some(refusal) => result == Err::<TypeVar, Refusal>(refusal),
                None => result matches Ok(type_var) && type_var@ == self@.derived(derived_func)
                    && type_var.parent() == Some((*self, derived_func))
                    && type_var.root_variable() == self.root_variable(),
            },
    {
        match self.get_typeset().refusal(derived_func) {
            Some(refusal) => Err(refusal),
            None => {
                proof {
                    law_refusals(self@.typeset(), derived_func);
                }
                Ok(self.derived(derived_func))
            },
        }
    }
}

} // verus!
