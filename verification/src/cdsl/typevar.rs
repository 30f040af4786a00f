//! Type variables.

use std::ops;
use std::rc::Rc;

use vstd::prelude::*;
use vstd::string::StringExecFns;

use crate::cdsl::builder::TypeSetBuilder;
use crate::cdsl::laws::listing::law_size_counts_types;
use crate::cdsl::numset::{
    is_power_of_two, lemma_small_powers, powers_between, RangeBound,
};
use crate::cdsl::types::{LaneType, ReferenceType, ValueType};
use crate::cdsl::typeset::{DerivedFunc, TypeSet, TypeSetView, MAX_LANES};

verus! {

/// What a [`TypeVar`] stands for.
pub struct TypeVarView {
    pub name: Seq<char>,
    pub doc: Seq<char>,
    pub type_set: TypeSetView,
    pub base: Option<(Box<TypeVarView>, DerivedFunc)>,
}

impl TypeVarView {
    /// The types that the variable ranges over: those of its own set, or the image of what its
    /// base ranges over.
    pub open spec fn typeset(self) -> TypeSetView
        decreases self,
    {
        match self.base {
            Some((base, func)) => base.typeset().image(func),
            None => self.type_set,
        }
    }

    /// The variable at the start of the derivation.
    pub open spec fn root(self) -> TypeVarView
        decreases self,
    {
        match self.base {
            Some((base, _)) => base.root(),
            None => self,
        }
    }

    /// The functions that lead from the root to the variable, in order.
    pub open spec fn derivation(self) -> Seq<DerivedFunc>
        decreases self,
    {
        match self.base {
            Some((base, func)) => base.derivation().push(func),
            None => seq![],
        }
    }

    /// The variable that `func` derives from this one.
    pub open spec fn derived(self, func: DerivedFunc) -> TypeVarView {
        TypeVarView {
            name: func.spec_name() + "("@ + self.name + ")"@,
            doc: seq![],
            type_set: self.typeset(),
            base: Some((Box::new(self), func)),
        }
    }

    /// The free variable that controls this one. A root with a single type is not free.
    pub open spec fn free_typevar(self) -> Option<TypeVarView> {
        match self.root().type_set.singleton() {
            Some(_) => None,
            None => Some(self.root()),
        }
    }
}

/// The number of lanes of a value type, as far as a lane count can tell.
pub open spec fn lane_count(value_type: ValueType) -> RangeBound {
    match value_type {
        ValueType::Vector(vector) => vector.lanes as RangeBound,
        ValueType::DynamicVector(vector) => vector.unscaled_lanes as RangeBound,
        _ => 1,
    }
}

/// The type of the lanes of a value type, if it has lanes.
pub open spec fn lane_type(value_type: ValueType) -> Option<LaneType> {
    match value_type {
        ValueType::Lane(lane) => Some(lane),
        ValueType::Vector(vector) => Some(vector.base),
        ValueType::DynamicVector(vector) => Some(vector.base),
        _ => None,
    }
}

/// The type set of the type variable that stands for `value_type`. Several lanes may be fixed or
/// dynamic.
pub open spec fn singleton_set(value_type: ValueType) -> TypeSetView {
    let lanes = lane_count(value_type);
    TypeSetView {
        lanes: set![lanes],
        dynamic_lanes: if lanes > 1 {
            set![lanes]
        } else {
            Set::empty()
        },
        ints: match lane_type(value_type) {
            Some(LaneType::Int(integer)) => set![integer.spec_bits()],
            _ => Set::empty(),
        },
        floats: match lane_type(value_type) {
            Some(LaneType::Float(float)) => set![float.spec_bits()],
            _ => Set::empty(),
        },
        refs: match value_type {
            ValueType::Reference(reference) => set![reference.0.spec_bits()],
            _ => Set::empty(),
        },
        specials: match value_type {
            ValueType::Special(special) => seq![special],
            _ => seq![],
        },
    }
}

/// What tells a type variable from all others, even from those with the same name and types.
/// There is no way to make a copy of it.
#[verifier::external_body]
#[derive(Debug)]
pub struct Identity {
    token: Rc<()>,
}

/// A new identity, by [`Rc::new`]: the allocation is another one than that of any identity that
/// still exists, of which `taken` is one.
#[verifier::external_body]
#[allow(unused_variables)]
fn fresh_identity(taken: Option<&Identity>) -> (identity: Identity)
    ensures
        taken matches Some(taken) ==> identity != *taken,
{
    Identity { token: Rc::new(()) }
}

/// Type variables can be used in place of concrete types when defining
/// instructions. This makes the instructions *polymorphic*.
///
/// A type variable is restricted to vary over a subset of the value types.
/// This subset is specified by a set of flags that control the permitted base
/// types and whether the type variable can assume scalar or vector types, or
/// both.
#[derive(Debug)]
pub struct TypeVarContent {
    /// Short name of type variable used in instruction descriptions.
    pub name: String,
    /// Documentation string.
    pub doc: String,
    /// Type set associated to the type variable.
    /// This field must remain private; use `get_typeset()` or `get_raw_typeset()` to get the
    /// information you want.
    type_set: TypeSet,
    pub base: Option<TypeVarParent>,
    /// What tells the variable from others.
    identity: Identity,
}

/// A shared handle on a type variable.
#[derive(Debug)]
pub struct TypeVar {
    content: Rc<TypeVarContent>,
}

/// What a derived type variable is derived from, and how.
#[derive(Debug)]
pub struct TypeVarParent {
    pub type_var: TypeVar,
    pub derived_func: DerivedFunc,
}

impl TypeVarContent {
    /// What the content stands for.
    pub closed spec fn view(self) -> TypeVarView
        decreases self,
    {
        TypeVarView {
            name: self.name@,
            doc: self.doc@,
            type_set: self.type_set@,
            base: match self.base {
                Some(parent) => Some(
                    (Box::new(parent.type_var.content.view()), parent.derived_func),
                ),
                None => None,
            },
        }
    }

    /// What the variable is derived from, and how, if it is derived.
    pub closed spec fn parent(self) -> Option<(TypeVar, DerivedFunc)> {
        match self.base {
            Some(parent) => Some((parent.type_var, parent.derived_func)),
            None => None,
        }
    }
}

impl View for TypeVar {
    type V = TypeVarView;

    closed spec fn view(&self) -> TypeVarView {
        self.content.view()
    }
}

impl TypeVar {
    /// What the variable is derived from, and how, if it is derived.
    pub closed spec fn parent(self) -> Option<(TypeVar, DerivedFunc)> {
        self.content.parent()
    }

    /// The very variable at the start of the derivation.
    pub closed spec fn root_variable(self) -> TypeVar
        decreases self,
    {
        match self.content.base {
            Some(parent) => parent.type_var.root_variable(),
            None => self,
        }
    }

    /// The very variable that is free, if any is: the root, unless it has a single type.
    pub open spec fn free_variable(self) -> Option<TypeVar> {
        match self@.root().type_set.singleton() {
            Some(_) => None,
            None => Some(self.root_variable()),
        }
    }
}

/// How a variable that is not derived relates to what it stands for.
pub proof fn lemma_root(type_var: TypeVar)
    requires
        type_var.parent() is None,
    ensures
        type_var@.base is None,
        type_var.root_variable() == type_var,
{
}

/// How a derived variable relates to what it is derived from.
pub proof fn lemma_parent(type_var: TypeVar, parent: TypeVar, func: DerivedFunc)
    requires
        type_var.parent() == Some((parent, func)),
    ensures
        type_var@.base == Some((Box::new(parent@), func)),
        type_var.root_variable() == parent.root_variable(),
{
}

/// What the root of a variable stands for is the root of what the variable stands for.
pub proof fn lemma_root_variable(type_var: TypeVar)
    ensures
        type_var.root_variable().parent() is None,
        type_var.root_variable()@ == type_var@.root(),
    decreases type_var,
{
    if let Some(parent) = type_var.content.base {
        lemma_root_variable(parent.type_var);
    }
}

/// A second handle on the same content, by [`Rc::clone`]: it shares what the first one holds.
#[verifier::external_body]
fn share(content: &Rc<TypeVarContent>) -> (handle: Rc<TypeVarContent>)
    ensures
        handle == *content,
{
    Rc::clone(content)
}

impl Clone for TypeVar {
    /// Another handle on the same type variable.
    fn clone(&self) -> (copy: TypeVar)
        ensures
            copy == *self,
    {
        TypeVar { content: share(&self.content) }
    }
}

impl ops::Deref for TypeVar {
    type Target = TypeVarContent;

    fn deref(&self) -> (content: &TypeVarContent)
        ensures
            content.view() == self@,
            content.parent() == self.parent(),
    {
        &*self.content
    }
}

impl<'a> From<&'a TypeVar> for TypeVar {
    fn from(type_var: &'a TypeVar) -> (copy: TypeVar) {
        type_var.clone()
    }
}

impl<'a> vstd::std_specs::convert::FromSpecImpl<&'a TypeVar> for TypeVar {
    open spec fn obeys_from_spec() -> bool {
        true
    }

    open spec fn from_spec(type_var: &'a TypeVar) -> TypeVar {
        *type_var
    }
}

impl TypeVar {
    /// Create a type variable that ranges over `type_set`. It is another variable than all that
    /// exist, which no clause says, as none of them is at hand: see `new_beside`.
    pub fn new<N: Into<String>, D: Into<String>>(name: N, doc: D, type_set: TypeSet) -> (type_var:
        TypeVar)
        ensures
            exists|name_text: String, doc_text: String|
                {
                    &&& #[trigger] call_ensures(<N as Into<String>>::into, (name,), name_text)
                    &&& #[trigger] call_ensures(<D as Into<String>>::into, (doc,), doc_text)
                    &&& type_var@ == (TypeVarView {
                        name: name_text@,
                        doc: doc_text@,
                        type_set: type_set@,
                        base: None,
                    })
                },
            type_var.parent() is None,
    {
        TypeVar {
            content: Rc::new(
                TypeVarContent {
                    name: name.into(),
                    doc: doc.into(),
                    type_set,
                    base: None,
                    identity: fresh_identity(None),
                },
            ),
        }
    }

    /// Create a type variable that ranges over `type_set`, another one than `other` and all that
    /// `other` is derived from, even where name, documentation and types agree.
    pub fn new_beside<N: Into<String>, D: Into<String>>(
        other: &TypeVar,
        name: N,
        doc: D,
        type_set: TypeSet,
    ) -> (type_var: TypeVar)
        ensures
            exists|name_text: String, doc_text: String|
                {
                    &&& #[trigger] call_ensures(<N as Into<String>>::into, (name,), name_text)
                    &&& #[trigger] call_ensures(<D as Into<String>>::into, (doc,), doc_text)
                    &&& type_var@ == (TypeVarView {
                        name: name_text@,
                        doc: doc_text@,
                        type_set: type_set@,
                        base: None,
                    })
                },
            type_var.parent() is None,
            type_var.root_variable() != other.root_variable(),
    {
        let identity = fresh_identity(Some(&other.root().content.identity));
        TypeVar {
            content: Rc::new(
                TypeVarContent {
                    name: name.into(),
                    doc: doc.into(),
                    type_set,
                    base: None,
                    identity,
                },
            ),
        }
    }

    /// Create a type variable that stands for a concrete type.
    pub fn new_singleton(value_type: ValueType) -> (type_var: TypeVar)
        requires
            is_power_of_two(lane_count(value_type)) && lane_count(value_type) <= MAX_LANES,
        ensures
            type_var@ == (TypeVarView {
                name: value_type.spec_name(),
                doc: value_type.spec_doc(),
                type_set: singleton_set(value_type),
                base: None,
            }),
            type_var.parent() is None,
    {
        let (name, doc) = (value_type.to_string(), value_type.doc());
        let builder = TypeSetBuilder::new();
        proof {
            lemma_small_powers(lane_count(value_type));
            lemma_small_powers(1);
            lemma_small_powers(8);
            lemma_small_powers(16);
            lemma_small_powers(32);
            lemma_small_powers(64);
            lemma_small_powers(128);
            lemma_single_power(1);
            lemma_single_power(8);
            lemma_single_power(16);
            lemma_single_power(32);
            lemma_single_power(64);
            lemma_single_power(128);
            lemma_single_power(lane_count(value_type));
        }
        let (scalar_type, num_lanes) = match value_type {
            ValueType::Special(special_type) => {
                let specials = vec![special_type];
                assert(specials@ =~= seq![special_type]);
                return TypeVar::new(name, doc, builder.specials(specials).build());
            },
            ValueType::Reference(ReferenceType(reference_type)) => {
                let bits: RangeBound = reference_type.bits();
                return TypeVar::new(name, doc, builder.refs(bits..bits).build());
            },
            ValueType::Lane(lane_type) => (lane_type, 1),
            ValueType::Vector(vec_type) => (
                vec_type.lane_type(),
                #[verifier::truncate]
                (vec_type.lane_count() as RangeBound),
            ),
            ValueType::DynamicVector(vec_type) => (
                vec_type.lane_type(),
                #[verifier::truncate]
                (vec_type.minimum_lane_count() as RangeBound),
            ),
        };
        let builder = builder.simd_lanes(num_lanes..num_lanes);
        // Only generate dynamic types for multiple lanes.
        let builder = if num_lanes > 1 {
            builder.dynamic_simd_lanes(num_lanes..num_lanes)
        } else {
            builder
        };
        let builder = match scalar_type {
            LaneType::Int(int_type) => {
                let bits: RangeBound = int_type.bits();
                builder.ints(bits..bits)
            },
            LaneType::Float(float_type) => {
                let bits: RangeBound = float_type.bits();
                builder.floats(bits..bits)
            },
        };
        TypeVar::new(name, doc, builder.build())
    }

    /// Create a type variable that stands for a concrete type, unless that is a vector with a
    /// number of lanes that no type variable ranges over.
    pub fn try_new_singleton(value_type: ValueType) -> (type_var: Option<TypeVar>)
        ensures
            type_var is Some <==> is_power_of_two(lane_count(value_type)) && lane_count(value_type)
                <= MAX_LANES,
            type_var matches Some(type_var) ==> type_var.parent() is None && type_var@ == (
            TypeVarView {
                name: value_type.spec_name(),
                doc: value_type.spec_doc(),
                type_set: singleton_set(value_type),
                base: None,
            }),
    {
        let lanes: RangeBound = match value_type {
            ValueType::Vector(vec_type) => #[verifier::truncate]
            (vec_type.lane_count() as RangeBound),
            ValueType::DynamicVector(vec_type) => #[verifier::truncate]
            (vec_type.minimum_lane_count() as RangeBound),
            _ => 1,
        };
        if lanes > MAX_LANES {
            return None;
        }
        proof {
            lemma_small_powers(lanes);
        }
        match lanes {
            1 | 2 | 4 | 8 | 16 | 32 | 64 | 128 | 256 => Some(TypeVar::new_singleton(value_type)),
            _ => None,
        }
    }

    /// Get a fresh copy of self, named after `name`. Can only be called on non-derived typevars.
    pub fn copy_from(other: &TypeVar, name: String) -> (type_var: TypeVar)
        requires
            other@.base is None,
        ensures
            type_var@ == (TypeVarView {
                name: name@,
                doc: seq![],
                type_set: other@.type_set,
                base: None,
            }),
            type_var.parent() is None,
            type_var.root_variable() != other.root_variable(),
    {
        TypeVar {
            content: Rc::new(
                TypeVarContent {
                    name,
                    doc: String::new(),
                    type_set: other.content.type_set.clone(),
                    base: None,
                    identity: fresh_identity(Some(&other.content.identity)),
                },
            ),
        }
    }

    /// Returns the typeset for this TV. If the TV is derived, computes it recursively from the
    /// derived function and the base's typeset.
    pub fn get_typeset(&self) -> (type_set: TypeSet)
        ensures
            type_set@ == self@.typeset(),
        decreases self,
    {
        match &self.content.base {
            Some(base) => base.type_var.get_typeset().image(base.derived_func),
            None => self.content.type_set.clone(),
        }
    }

    /// Returns this typevar's type set, assuming this type var has no parent.
    pub fn get_raw_typeset(&self) -> (type_set: &TypeSet)
        requires
            self@.type_set == self@.typeset(),
        ensures
            type_set@ == self@.type_set,
    {
        &self.content.type_set
    }

    /// If the associated typeset has a single type return it. Otherwise return None.
    pub fn singleton_type(&self) -> (value_type: Option<ValueType>)
        requires
            self@.typeset().countable(),
        ensures
            value_type == self@.typeset().singleton(),
    {
        proof {
            law_size_counts_types(self@.typeset());
        }
        let type_set = self.get_typeset();
        if type_set.size() == 1 {
            Some(type_set.get_singleton())
        } else {
            None
        }
    }

    /// Get the free type variable controlling this one.
    pub fn free_typevar(&self) -> (type_var: Option<TypeVar>)
        requires
            self@.root().type_set.countable(),
        ensures
            type_var == self.free_variable(),
            match self@.free_typevar() {
                Some(root) => type_var matches Some(free) && free@ == root,
                None => type_var is None,
            },
        decreases self,
    {
        match &self.content.base {
            Some(base) => base.type_var.free_typevar(),
            None => {
                match self.singleton_type() {
                    // A singleton type isn't a proper free variable.
                    Some(_) => None,
                    None => Some(self.clone()),
                }
            },
        }
    }

    /// Create a type variable that is a function of another.
    pub fn derived(&self, derived_func: DerivedFunc) -> (type_var: TypeVar)
        requires
            self@.typeset().derivable(derived_func),
        ensures
            type_var@ == self@.derived(derived_func),
            type_var.parent() == Some((*self, derived_func)),
            type_var.root_variable() == self.root_variable(),
    {
        let ts = self.get_typeset();
        let mut name = String::from(derived_func.name());
        name.append("(");
        name.append(self.content.name.as_str());
        name.append(")");
        TypeVar {
            content: Rc::new(
                TypeVarContent {
                    name,
                    doc: String::new(),
                    type_set: ts,
                    base: Some(TypeVarParent { type_var: self.clone(), derived_func }),
                    identity: fresh_identity(None),
                },
            ),
        }
    }

    /// Derive the type variable that is the lane type of this one.
    pub fn lane_of(&self) -> (type_var: TypeVar)
        requires
            self@.typeset().derivable(DerivedFunc::LaneOf),
        ensures
            type_var@ == self@.derived(DerivedFunc::LaneOf),
            type_var.parent() == Some((*self, DerivedFunc::LaneOf)),
            type_var.root_variable() == self.root_variable(),
    {
        self.derived(DerivedFunc::LaneOf)
    }

    /// Derive the type variable that is the truth type of this one.
    pub fn as_bool(&self) -> (type_var: TypeVar)
        requires
            self@.typeset().derivable(DerivedFunc::AsBool),
        ensures
            type_var@ == self@.derived(DerivedFunc::AsBool),
            type_var.parent() == Some((*self, DerivedFunc::AsBool)),
            type_var.root_variable() == self.root_variable(),
    {
        self.derived(DerivedFunc::AsBool)
    }

    /// Derive the type variable that is half as wide as this one.
    pub fn half_width(&self) -> (type_var: TypeVar)
        requires
            self@.typeset().derivable(DerivedFunc::HalfWidth),
        ensures
            type_var@ == self@.derived(DerivedFunc::HalfWidth),
            type_var.parent() == Some((*self, DerivedFunc::HalfWidth)),
            type_var.root_variable() == self.root_variable(),
    {
        self.derived(DerivedFunc::HalfWidth)
    }

    /// Derive the type variable that is twice as wide as this one.
    pub fn double_width(&self) -> (type_var: TypeVar)
        requires
            self@.typeset().derivable(DerivedFunc::DoubleWidth),
        ensures
            type_var@ == self@.derived(DerivedFunc::DoubleWidth),
            type_var.parent() == Some((*self, DerivedFunc::DoubleWidth)),
            type_var.root_variable() == self.root_variable(),
    {
        self.derived(DerivedFunc::DoubleWidth)
    }

    /// Derive the type variable that is half as long as this one.
    pub fn half_vector(&self) -> (type_var: TypeVar)
        requires
            self@.typeset().derivable(DerivedFunc::HalfVector),
        ensures
            type_var@ == self@.derived(DerivedFunc::HalfVector),
            type_var.parent() == Some((*self, DerivedFunc::HalfVector)),
            type_var.root_variable() == self.root_variable(),
    {
        self.derived(DerivedFunc::HalfVector)
    }

    /// Derive the type variable that is twice as long as this one.
    pub fn double_vector(&self) -> (type_var: TypeVar)
        requires
            self@.typeset().derivable(DerivedFunc::DoubleVector),
        ensures
            type_var@ == self@.derived(DerivedFunc::DoubleVector),
            type_var.parent() == Some((*self, DerivedFunc::DoubleVector)),
            type_var.root_variable() == self.root_variable(),
    {
        self.derived(DerivedFunc::DoubleVector)
    }

    /// Derive the type variable that is this one with each lane split in two.
    pub fn split_lanes(&self) -> (type_var: TypeVar)
        requires
            self@.typeset().derivable(DerivedFunc::SplitLanes),
        ensures
            type_var@ == self@.derived(DerivedFunc::SplitLanes),
            type_var.parent() == Some((*self, DerivedFunc::SplitLanes)),
            type_var.root_variable() == self.root_variable(),
    {
        self.derived(DerivedFunc::SplitLanes)
    }

    /// Derive the type variable that is this one with each two lanes merged.
    pub fn merge_lanes(&self) -> (type_var: TypeVar)
        requires
            self@.typeset().derivable(DerivedFunc::MergeLanes),
        ensures
            type_var@ == self@.derived(DerivedFunc::MergeLanes),
            type_var.parent() == Some((*self, DerivedFunc::MergeLanes)),
            type_var.root_variable() == self.root_variable(),
    {
        self.derived(DerivedFunc::MergeLanes)
    }

    /// Derive the type variable that is this one with its dynamic lane counts fixed.
    pub fn dynamic_to_vector(&self) -> (type_var: TypeVar)
        requires
            self@.typeset().derivable(DerivedFunc::DynamicToVector),
        ensures
            type_var@ == self@.derived(DerivedFunc::DynamicToVector),
            type_var.parent() == Some((*self, DerivedFunc::DynamicToVector)),
            type_var.root_variable() == self.root_variable(),
    {
        self.derived(DerivedFunc::DynamicToVector)
    }

    /// The type variable at the start of the derivation.
    pub fn root(&self) -> (root: &TypeVar)
        ensures
            *root == self.root_variable(),
            root@ == self@.root(),
            root@.base is None,
        decreases self,
    {
        match &self.content.base {
            Some(base) => base.type_var.root(),
            None => self,
        }
    }

    /// Whether the same functions lead from the root to this variable and to another.
    fn same_derivation(&self, other: &TypeVar) -> (same: bool)
        ensures
            same == (self@.derivation() == other@.derivation()),
        decreases self,
    {
        match (&self.content.base, &other.content.base) {
            (Some(base1), Some(base2)) => {
                proof {
                    let (d1, f1) = (base1.type_var@.derivation(), base1.derived_func);
                    let (d2, f2) = (base2.type_var@.derivation(), base2.derived_func);
                    assert(d1.push(f1).drop_last() =~= d1 && d1.push(f1).last() == f1);
                    assert(d2.push(f2).drop_last() =~= d2 && d2.push(f2).last() == f2);
                }
                base1.type_var.same_derivation(&base2.type_var) && base1.derived_func
                    == base2.derived_func
            },
            (None, None) => true,
            _ => {
                assert(self@.derivation().len() != other@.derivation().len());
                false
            },
        }
    }
}

/// Whether two handles share their content, by [`Rc::ptr_eq`]. Handles that do hold the same
/// value. Handles that do not hold different values: each content has been given an identity of
/// its own, of which there is no copy.
#[verifier::external_body]
fn same_content(content: &Rc<TypeVarContent>, other: &Rc<TypeVarContent>) -> (same: bool)
    ensures
        same == (*content == *other),
{
    Rc::ptr_eq(content, other)
}

// Type variables are compared by what they are derived from and how: roots are equal when they
// are the same variable.
impl PartialEq for TypeVar {
    fn eq(&self, other: &TypeVar) -> (equal: bool) {
        same_content(&self.root().content, &other.root().content) && self.same_derivation(other)
    }
}

impl vstd::std_specs::cmp::PartialEqSpecImpl for TypeVar {
    open spec fn obeys_eq_spec() -> bool {
        true
    }

    open spec fn eq_spec(&self, other: &TypeVar) -> bool {
        &&& self.root_variable() == other.root_variable()
        &&& self@.derivation() == other@.derivation()
    }
}

impl Eq for TypeVar {

}

/// The only power of two between `x` and `x`.
proof fn lemma_single_power(x: RangeBound)
    requires
        is_power_of_two(x),
    ensures
        powers_between(x, x) == set![x],
{
    assert(powers_between(x, x) =~= set![x]);
}

} // verus!
