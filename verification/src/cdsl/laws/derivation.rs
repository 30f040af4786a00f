//! What holds of type variables that are derived from others.

use vstd::prelude::*;

use crate::cdsl::laws::images::{inverse, law_image_valid, law_inverse_undoes, reshapes};
use crate::cdsl::laws::listing::law_size_counts_types;
use crate::cdsl::numset::RangeBound;
use crate::cdsl::refusal::Refusal;
use crate::cdsl::typeset::{DerivedFunc, TypeSetView};
use crate::cdsl::typevar::TypeVarView;

verus! {

/// Deriving maps the types of a variable and records the function; the root, and with it the free
/// variable, stays the same.
pub proof fn law_derived(type_var: TypeVarView, func: DerivedFunc)
    ensures
        type_var.derived(func).typeset() == type_var.typeset().image(func),
        type_var.derived(func).derivation() == type_var.derivation().push(func),
        type_var.derived(func).root() == type_var.root(),
        type_var.derived(func).free_typevar() == type_var.free_typevar(),
{
}

/// The root of a variable is not derived, is its own root, and ranges over its own set.
pub proof fn law_root(type_var: TypeVarView)
    ensures
        type_var.root().base is None,
        type_var.root().root() == type_var.root(),
        type_var.root().derivation() == Seq::<DerivedFunc>::empty(),
        type_var.root().typeset() == type_var.root().type_set,
    decreases type_var,
{
    if let Some((base, _)) = type_var.base {
        law_root(*base);
    }
}

/// The image of a set across one function after the other.
pub open spec fn image_of_all(set: TypeSetView, funcs: Seq<DerivedFunc>) -> TypeSetView
    decreases funcs.len(),
{
    if funcs.len() == 0 {
        set
    } else {
        image_of_all(set, funcs.drop_last()).image(funcs.last())
    }
}

/// What a variable ranges over depends only on the set of its root and the functions that lead
/// from there to the variable.
pub proof fn law_typeset_of_derivation(type_var: TypeVarView)
    ensures
        type_var.typeset() == image_of_all(type_var.root().type_set, type_var.derivation()),
    decreases type_var,
{
    if let Some((base, func)) = type_var.base {
        law_typeset_of_derivation(*base);
        assert(base.derivation().push(func).drop_last() =~= base.derivation());
    }
}

/// Whatever is derived from a valid set is valid.
pub proof fn law_derivation_valid(type_var: TypeVarView)
    requires
        type_var.root().type_set.valid(),
    ensures
        type_var.typeset().valid(),
    decreases type_var,
{
    if let Some((base, func)) = type_var.base {
        law_derivation_valid(*base);
        law_image_valid(base.typeset(), func);
    }
}

/// A variable derived by a function that changes widths or lane counts, and then by the inverse
/// of that function, ranges over the same types as the variable itself.
pub proof fn law_inverse_derivation(type_var: TypeVarView, func: DerivedFunc)
    requires
        type_var.typeset().valid(),
        reshapes(func),
        type_var.typeset().derivable(func),
    ensures
        type_var.derived(func).typeset().derivable(inverse(func)),
        type_var.derived(func).derived(inverse(func)).typeset() == type_var.typeset(),
{
    law_inverse_undoes(type_var.typeset(), func);
    law_derived(type_var, func);
    law_derived(type_var.derived(func), inverse(func));
}

/// A derived variable is named after the function and what it is derived from, has no
/// documentation, and remembers what it is derived from and what that ranges over.
pub proof fn law_derived_parts(type_var: TypeVarView, func: DerivedFunc)
    ensures
        type_var.derived(func).name == func.spec_name() + "("@ + type_var.name + ")"@,
        type_var.derived(func).doc.len() == 0,
        type_var.derived(func).base == Some((Box::new(type_var), func)),
        type_var.derived(func).type_set == type_var.typeset(),
{
}

/// A variable that is not derived ranges over its own set, is its own root, and has no derivation.
/// A derived one has the root of its base, whatever the function.
pub proof fn law_base(type_var: TypeVarView)
    ensures
        type_var.base is None ==> type_var.typeset() == type_var.type_set && type_var.root()
            == type_var && type_var.derivation().len() == 0,
        type_var.base matches Some((base, func)) ==> type_var.typeset() == base.typeset().image(
            func,
        ) && type_var.root() == base.root() && type_var.derivation() == base.derivation().push(
            func,
        ),
{
}

/// A root is free exactly if it has other than one type, of whatever kind, and the free variable
/// is then the root itself.
pub proof fn law_free_typevar(type_var: TypeVarView)
    ensures
        type_var.free_typevar() is None <==> type_var.root().type_set.size() == 1,
        type_var.free_typevar() matches Some(free) ==> free == type_var.root(),
{
    law_size_counts_types(type_var.root().type_set);
}

/// A set may be derived from exactly if it has no special types and all its members have an image:
/// integers above 8 and floats above 32 bits where widths are halved, integers below 128 and
/// floats below 64 where they are doubled, lane counts above one where they are halved, and below
/// 256 where they are doubled, with some lane count in either case.
pub proof fn law_derivable(set: TypeSetView, func: DerivedFunc)
    ensures
        set.derivable(func) <==> {
            &&& set.specials.len() == 0
            &&& func == DerivedFunc::HalfWidth || func == DerivedFunc::SplitLanes ==> {
                &&& forall|x: RangeBound| #[trigger] set.ints.contains(x) ==> x > 8
                &&& forall|x: RangeBound| #[trigger] set.floats.contains(x) ==> x > 32
            }
            &&& func == DerivedFunc::DoubleWidth || func == DerivedFunc::MergeLanes ==> {
                &&& forall|x: RangeBound| #[trigger] set.ints.contains(x) ==> x < 128
                &&& forall|x: RangeBound| #[trigger] set.floats.contains(x) ==> x < 64
            }
            &&& func == DerivedFunc::HalfVector || func == DerivedFunc::MergeLanes ==> {
                &&& exists|x: RangeBound| #[trigger] set.lanes.contains(x)
                &&& forall|x: RangeBound| #[trigger] set.lanes.contains(x) ==> x > 1
            }
            &&& func == DerivedFunc::DoubleVector || func == DerivedFunc::SplitLanes ==> {
                &&& exists|x: RangeBound| #[trigger] set.lanes.contains(x)
                &&& forall|x: RangeBound| #[trigger] set.lanes.contains(x) ==> x < 256
            }
        },
{
    if set.lanes.is_empty() {
        assert forall|x: RangeBound| !#[trigger] set.lanes.contains(x) by {}
    } else {
        let some = choose|x: RangeBound| set.lanes.contains(x);
        assert(set.lanes.contains(some));
    }
}

/// The reason that is given against a derivation is true of the set.
pub proof fn law_refusal_is_true(set: TypeSetView, func: DerivedFunc)
    ensures
        set.refusal(func) matches Some(Refusal::Special) ==> set.specials.len() > 0,
        set.refusal(func) matches Some(Refusal::HalfInt) ==> exists|x: RangeBound| #[trigger]
            set.ints.contains(x) && x <= 8,
        set.refusal(func) matches Some(Refusal::HalfFloat) ==> exists|x: RangeBound| #[trigger]
            set.floats.contains(x) && x <= 32,
        set.refusal(func) matches Some(Refusal::DoubleInt) ==> exists|x: RangeBound| #[trigger]
            set.ints.contains(x) && x >= 128,
        set.refusal(func) matches Some(Refusal::DoubleFloat) ==> exists|x: RangeBound| #[trigger]
            set.floats.contains(x) && x >= 64,
        set.refusal(func) matches Some(Refusal::Scalar) ==> exists|x: RangeBound| #[trigger]
            set.lanes.contains(x) && x <= 1,
        set.refusal(func) matches Some(Refusal::LargestVector) ==> exists|x: RangeBound| #[trigger]
            set.lanes.contains(x) && x >= 256,
        set.refusal(func) matches Some(Refusal::NoLanes) ==> forall|x: RangeBound| !#[trigger]
            set.lanes.contains(x),
{
}

/// Which of several reasons is given: special types come first, then integers, then floats, and
/// lane counts last. No reason is given for a function that it has nothing to do with.
pub proof fn law_refusal_order(set: TypeSetView, func: DerivedFunc)
    ensures
        set.specials.len() > 0 ==> set.refusal(func) == Some(Refusal::Special),
        set.specials.len() == 0 && (func == DerivedFunc::LaneOf || func == DerivedFunc::AsBool
            || func == DerivedFunc::DynamicToVector) ==> set.refusal(func) is None,
        set.specials.len() == 0 && (func == DerivedFunc::HalfWidth || func
            == DerivedFunc::SplitLanes) ==> {
            &&& set.refusal(func) == Some(Refusal::HalfInt) <==> exists|x: RangeBound| #[trigger]
                set.ints.contains(x) && x <= 8
            &&& set.refusal(func) == Some(Refusal::HalfFloat) <==> (exists|x: RangeBound|
                #[trigger] set.floats.contains(x) && x <= 32) && set.refusal(func) != Some(
                Refusal::HalfInt,
            )
        },
        set.specials.len() == 0 && (func == DerivedFunc::DoubleWidth || func
            == DerivedFunc::MergeLanes) ==> {
            &&& set.refusal(func) == Some(Refusal::DoubleInt) <==> exists|x: RangeBound|
                #[trigger] set.ints.contains(x) && x >= 128
            &&& set.refusal(func) == Some(Refusal::DoubleFloat) <==> (exists|x: RangeBound|
                #[trigger] set.floats.contains(x) && x >= 64) && set.refusal(func) != Some(
                Refusal::DoubleInt,
            )
        },
        set.refusal(func) matches Some(Refusal::Scalar) ==> func == DerivedFunc::HalfVector || func
            == DerivedFunc::MergeLanes,
        set.refusal(func) matches Some(Refusal::LargestVector) ==> func == DerivedFunc::DoubleVector
            || func == DerivedFunc::SplitLanes,
        set.refusal(func) matches Some(Refusal::HalfInt | Refusal::HalfFloat) ==> func
            == DerivedFunc::HalfWidth || func == DerivedFunc::SplitLanes,
        set.refusal(func) matches Some(Refusal::DoubleInt | Refusal::DoubleFloat) ==> func
            == DerivedFunc::DoubleWidth || func == DerivedFunc::MergeLanes,
{
}

/// What each reason is called.
pub proof fn law_refusal_messages()
    ensures
        Refusal::Special.spec_message() == "can't derive from special types"@,
        Refusal::HalfInt.spec_message() == "can't halve all integer types"@,
        Refusal::HalfFloat.spec_message() == "can't halve all float types"@,
        Refusal::DoubleInt.spec_message() == "can't double all integer types"@,
        Refusal::DoubleFloat.spec_message() == "can't double all float types"@,
        Refusal::Scalar.spec_message() == "can't halve a scalar type"@,
        Refusal::LargestVector.spec_message() == "can't double 256 lanes"@,
{
}

} // verus!
