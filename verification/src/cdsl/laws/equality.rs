//! What holds of `==` on type variables, and of the variables that derivations share.

use vstd::prelude::*;
use vstd::std_specs::cmp::PartialEqSpec;

use crate::cdsl::laws::derivation::law_typeset_of_derivation;
use crate::cdsl::typeset::DerivedFunc;
use crate::cdsl::typevar::{lemma_parent, lemma_root, lemma_root_variable, TypeVar};

verus! {

/// A variable equals itself, and so each of its clones, which are the same variable.
pub proof fn law_equality_is_reflexive(a: TypeVar, clone: TypeVar)
    requires
        clone == a,
    ensures
        a.eq_spec(&clone),
{
}

/// What a variable equals equals it.
pub proof fn law_equality_is_symmetric(a: TypeVar, b: TypeVar)
    ensures
        a.eq_spec(&b) == b.eq_spec(&a),
{
}

/// Two variables that equal a third are equal.
pub proof fn law_equality_is_transitive(a: TypeVar, b: TypeVar, c: TypeVar)
    requires
        a.eq_spec(&b),
        b.eq_spec(&c),
    ensures
        a.eq_spec(&c),
{
}

/// Variables that are not derived are equal exactly if they are the same variable.
pub proof fn law_equality_of_roots(a: TypeVar, b: TypeVar)
    requires
        a.parent() is None,
        b.parent() is None,
    ensures
        a.eq_spec(&b) <==> a == b,
{
    lemma_root(a);
    lemma_root(b);
}

/// Variables with different roots differ, whatever their names and types, and so does all that is
/// derived from them.
pub proof fn law_variables_made_apart_differ(a: TypeVar, b: TypeVar)
    requires
        a.root_variable() != b.root_variable(),
    ensures
        !a.eq_spec(&b),
        !b.eq_spec(&a),
{
}

/// Derived variables are equal exactly if they are derived by the same function from variables
/// that are equal. Two derivations of one variable by one function are equal.
pub proof fn law_equality_of_derived(
    a: TypeVar,
    f: DerivedFunc,
    derived_a: TypeVar,
    b: TypeVar,
    g: DerivedFunc,
    derived_b: TypeVar,
)
    requires
        derived_a.parent() == Some((a, f)),
        derived_b.parent() == Some((b, g)),
    ensures
        derived_a.eq_spec(&derived_b) <==> a.eq_spec(&b) && f == g,
        a == b && f == g ==> derived_a.eq_spec(&derived_b),
{
    lemma_parent(derived_a, a, f);
    lemma_parent(derived_b, b, g);
    let (d, e) = (a@.derivation(), b@.derivation());
    assert(d.push(f).drop_last() =~= d && d.push(f).last() == f);
    assert(e.push(g).drop_last() =~= e && e.push(g).last() == g);
}

/// A derived variable never equals one that is not derived.
pub proof fn law_derived_differs_from_roots(derived: TypeVar, root: TypeVar)
    requires
        derived.parent() is Some,
        root.parent() is None,
    ensures
        !derived.eq_spec(&root),
        !root.eq_spec(&derived),
{
    let (parent, func) = derived.parent()->0;
    lemma_parent(derived, parent, func);
    lemma_root(root);
    assert(parent@.derivation().push(func).len() > 0);
}

/// A derived variable never equals what it is derived from.
pub proof fn law_derived_differs(derived: TypeVar, parent: TypeVar, func: DerivedFunc)
    requires
        derived.parent() == Some((parent, func)),
    ensures
        !derived.eq_spec(&parent),
{
    lemma_parent(derived, parent, func);
    assert(parent@.derivation().push(func).len() == parent@.derivation().len() + 1);
}

/// Equal variables range over the same types and have the same free variable.
pub proof fn law_equal_variables_range_alike(a: TypeVar, b: TypeVar)
    requires
        a.eq_spec(&b),
    ensures
        a@.typeset() == b@.typeset(),
        a@.root() == b@.root(),
        a.free_variable() == b.free_variable(),
{
    lemma_root_variable(a);
    lemma_root_variable(b);
    law_typeset_of_derivation(a@);
    law_typeset_of_derivation(b@);
}

/// A derived variable has the free variable of what it is derived from.
pub proof fn law_derived_shares_free_variable(
    derived: TypeVar,
    parent: TypeVar,
    func: DerivedFunc,
)
    requires
        derived.parent() == Some((parent, func)),
    ensures
        derived.free_variable() == parent.free_variable(),
{
    lemma_parent(derived, parent, func);
}

/// A free variable is not derived, ranges over other than a single type, and is its own free
/// variable.
pub proof fn law_free_variable(type_var: TypeVar, free: TypeVar)
    requires
        type_var.free_variable() == Some(free),
    ensures
        free.parent() is None,
        free@.typeset().singleton() is None,
        free.free_variable() == Some(free),
{
    lemma_root_variable(type_var);
    lemma_root(free);
}

/// A variable that is not derived is free exactly if it has other than a single type, and then it
/// is its own free variable.
pub proof fn law_root_is_free(type_var: TypeVar)
    requires
        type_var.parent() is None,
    ensures
        type_var@.typeset().singleton() is Some ==> type_var.free_variable() is None,
        type_var@.typeset().singleton() is None ==> type_var.free_variable() == Some(type_var),
{
    lemma_root(type_var);
}

} // verus!
