//! Sets of value types, and the functions that derive one such set from another.

use vstd::prelude::*;
use vstd::string::StringExecFns;

use crate::cdsl::numset;
use crate::cdsl::numset::{
    ascending, below, count, doubled, double_below, halve_above, halved, insert, keep_below, to_vec,
    NumSet, RangeBound,
};
use crate::cdsl::types::{
    is_float_width, is_int_width, is_ref_width, LaneType, ReferenceType, SpecialType, ValueType,
};
use crate::text::{decimal, join, joined, push_decimal};

verus! {

/// The largest number of lanes of a vector.
pub const MAX_LANES: u16 = 256;

/// The largest width of an integer type.
pub const MAX_BITS: u16 = 128;

/// The largest width of a floating point type.
pub const MAX_FLOAT_BITS: u16 = 64;

/// A function that derives a type variable from another.
#[derive(Clone, Copy, Debug, Hash, PartialEq, Eq, Structural)]
pub enum DerivedFunc {
    LaneOf,
    AsBool,
    HalfWidth,
    DoubleWidth,
    HalfVector,
    DoubleVector,
    SplitLanes,
    MergeLanes,
    DynamicToVector,
}

impl DerivedFunc {
    /// The name of this function.
    pub open spec fn spec_name(self) -> Seq<char> {
        match self {
            DerivedFunc::LaneOf => "lane_of"@,
            DerivedFunc::AsBool => "as_bool"@,
            DerivedFunc::HalfWidth => "half_width"@,
            DerivedFunc::DoubleWidth => "double_width"@,
            DerivedFunc::HalfVector => "half_vector"@,
            DerivedFunc::DoubleVector => "double_vector"@,
            DerivedFunc::SplitLanes => "split_lanes"@,
            DerivedFunc::MergeLanes => "merge_lanes"@,
            DerivedFunc::DynamicToVector => "dynamic_to_vector"@,
        }
    }

    /// Return the name of this function.
    pub fn name(self) -> (name: &'static str)
        ensures
            name@ == self.spec_name(),
    {
        match self {
            DerivedFunc::LaneOf => "lane_of",
            DerivedFunc::AsBool => "as_bool",
            DerivedFunc::HalfWidth => "half_width",
            DerivedFunc::DoubleWidth => "double_width",
            DerivedFunc::HalfVector => "half_vector",
            DerivedFunc::DoubleVector => "double_vector",
            DerivedFunc::SplitLanes => "split_lanes",
            DerivedFunc::MergeLanes => "merge_lanes",
            DerivedFunc::DynamicToVector => "dynamic_to_vector",
        }
    }
}

/// What a [`TypeSet`] stands for: its sets of numbers, and its special types in order.
#[verifier::ext_equal]
pub struct TypeSetView {
    pub lanes: Set<RangeBound>,
    pub dynamic_lanes: Set<RangeBound>,
    pub ints: Set<RangeBound>,
    pub floats: Set<RangeBound>,
    pub refs: Set<RangeBound>,
    pub specials: Seq<SpecialType>,
}

/// The types with `lanes` lanes: integers, then floats, then references, by ascending width.
pub open spec fn row(
    lanes: RangeBound,
    ints: Seq<RangeBound>,
    floats: Seq<RangeBound>,
    refs: Seq<RangeBound>,
) -> Seq<ValueType> {
    ints.map_values(|bits: RangeBound| LaneType::spec_int(bits).spec_by_lanes(lanes))
        + floats.map_values(|bits: RangeBound| LaneType::spec_float(bits).spec_by_lanes(lanes))
        + refs.map_values(|bits: RangeBound| ValueType::Reference(ReferenceType::spec_ref(bits)))
}

/// The dynamic vector types with at least `lanes` lanes: integers, then floats, by ascending width.
pub open spec fn dynamic_row(
    lanes: RangeBound,
    ints: Seq<RangeBound>,
    floats: Seq<RangeBound>,
) -> Seq<ValueType> {
    ints.map_values(|bits: RangeBound| LaneType::spec_int(bits).spec_to_dynamic(lanes))
        + floats.map_values(|bits: RangeBound| LaneType::spec_float(bits).spec_to_dynamic(lanes))
}

/// The rows of all lane counts in `lanes`, one after the other.
pub open spec fn rows(
    lanes: Seq<RangeBound>,
    ints: Seq<RangeBound>,
    floats: Seq<RangeBound>,
    refs: Seq<RangeBound>,
) -> Seq<ValueType>
    decreases lanes.len(),
{
    if lanes.len() == 0 {
        seq![]
    } else {
        rows(lanes.drop_last(), ints, floats, refs) + row(lanes.last(), ints, floats, refs)
    }
}

/// The dynamic rows of all lane counts in `lanes`, one after the other.
pub open spec fn dynamic_rows(
    lanes: Seq<RangeBound>,
    ints: Seq<RangeBound>,
    floats: Seq<RangeBound>,
) -> Seq<ValueType>
    decreases lanes.len(),
{
    if lanes.len() == 0 {
        seq![]
    } else {
        dynamic_rows(lanes.drop_last(), ints, floats) + dynamic_row(lanes.last(), ints, floats)
    }
}

/// The text of one set of numbers, as a list of none (the empty set has no text) or one.
pub open spec fn number_field(label: Seq<char>, set: Set<RangeBound>) -> Seq<Seq<char>> {
    if set.is_empty() {
        seq![]
    } else {
        seq![
            label + "={"@ + joined(
                ascending(set).map_values(|x: RangeBound| decimal(x as nat)),
                ", "@,
            ) + "}"@,
        ]
    }
}

/// The text of the special types, as a list of none or one.
pub open spec fn special_field(specials: Seq<SpecialType>) -> Seq<Seq<char>> {
    if specials.len() == 0 {
        seq![]
    } else {
        seq![
            "specials={"@ + joined(
                specials.map_values(|special: SpecialType| special.spec_name()),
                ", "@,
            ) + "}"@,
        ]
    }
}

impl TypeSetView {
    /// The number of concrete types that the set represents. References have no lanes, so there
    /// is none with a dynamic number of lanes.
    pub open spec fn size(self) -> nat {
        self.lanes.len() * (self.ints.len() + self.floats.len() + self.refs.len())
            + self.dynamic_lanes.len() * (self.ints.len() + self.floats.len())
            + self.specials.len()
    }

    /// The image of the set across `lane_of`.
    pub open spec fn lane_of(self) -> TypeSetView {
        TypeSetView { lanes: set![1], ..self }
    }

    /// The image of the set across `as_bool`.
    pub open spec fn as_bool(self) -> TypeSetView {
        TypeSetView { ints: Set::empty(), floats: Set::empty(), refs: Set::empty(), ..self }
    }

    /// The image of the set across `half_width`.
    pub open spec fn half_width(self) -> TypeSetView {
        TypeSetView {
            ints: halved(self.ints, 8),
            floats: halved(self.floats, 32),
            specials: seq![],
            ..self
        }
    }

    /// The image of the set across `double_width`.
    pub open spec fn double_width(self) -> TypeSetView {
        TypeSetView {
            ints: doubled(self.ints, MAX_BITS),
            floats: doubled(self.floats, MAX_FLOAT_BITS),
            specials: seq![],
            ..self
        }
    }

    /// The image of the set across `half_vector`.
    pub open spec fn half_vector(self) -> TypeSetView {
        TypeSetView { lanes: halved(self.lanes, 1), specials: seq![], ..self }
    }

    /// The image of the set across `double_vector`.
    pub open spec fn double_vector(self) -> TypeSetView {
        TypeSetView { lanes: doubled(self.lanes, MAX_LANES), specials: seq![], ..self }
    }

    /// The image of the set across `dynamic_to_vector`.
    pub open spec fn dynamic_to_vector(self) -> TypeSetView {
        TypeSetView {
            lanes: below(self.dynamic_lanes, MAX_LANES),
            dynamic_lanes: Set::empty(),
            specials: seq![],
            ..self
        }
    }

    /// The image of the set across `func`.
    pub open spec fn image(self, func: DerivedFunc) -> TypeSetView {
        match func {
            DerivedFunc::LaneOf => self.lane_of(),
            DerivedFunc::AsBool => self.as_bool(),
            DerivedFunc::HalfWidth => self.half_width(),
            DerivedFunc::DoubleWidth => self.double_width(),
            DerivedFunc::HalfVector => self.half_vector(),
            DerivedFunc::DoubleVector => self.double_vector(),
            DerivedFunc::SplitLanes => self.half_width().double_vector(),
            DerivedFunc::MergeLanes => self.double_width().half_vector(),
            DerivedFunc::DynamicToVector => self.dynamic_to_vector(),
        }
    }

    /// Whether every lane count and every width in the set is one that some type has.
    pub open spec fn valid(self) -> bool {
        &&& forall|lanes: RangeBound| #[trigger]
            self.lanes.contains(lanes) ==> numset::is_power_of_two(lanes) && lanes <= MAX_LANES
        &&& forall|lanes: RangeBound| #[trigger]
            self.dynamic_lanes.contains(lanes) ==> numset::is_power_of_two(lanes) && 2 <= lanes
                <= MAX_LANES
        &&& forall|bits: RangeBound| #[trigger] self.ints.contains(bits) ==> is_int_width(bits)
        &&& forall|bits: RangeBound| #[trigger] self.floats.contains(bits) ==> is_float_width(bits)
        &&& forall|bits: RangeBound| #[trigger] self.refs.contains(bits) ==> is_ref_width(bits)
    }

    /// Whether each width that the concrete types are made of is the width of some type.
    pub open spec fn listable(self) -> bool {
        &&& !self.lanes.is_empty() || !self.dynamic_lanes.is_empty() ==> {
            &&& forall|bits: RangeBound| #[trigger] self.ints.contains(bits) ==> is_int_width(bits)
            &&& forall|bits: RangeBound| #[trigger]
                self.floats.contains(bits) ==> is_float_width(bits)
        }
        &&& !self.lanes.is_empty() ==> forall|bits: RangeBound| #[trigger]
            self.refs.contains(bits) ==> is_ref_width(bits)
    }

    /// The concrete types in the set: those with a fixed number of lanes by ascending number of
    /// lanes, then those with a dynamic number of lanes, then the special types.
    pub open spec fn concrete_types(self) -> Seq<ValueType> {
        rows(
            ascending(self.lanes),
            ascending(self.ints),
            ascending(self.floats),
            ascending(self.refs),
        ) + dynamic_rows(
            ascending(self.dynamic_lanes),
            ascending(self.ints),
            ascending(self.floats),
        ) + self.specials.map_values(|special: SpecialType| ValueType::Special(special))
    }

    /// Whether one of the widths in the set is that of `lane`.
    pub open spec fn has_lane(self, lane: LaneType) -> bool {
        match lane {
            LaneType::Int(integer) => self.ints.contains(integer.spec_bits()),
            LaneType::Float(float) => self.floats.contains(float.spec_bits()),
        }
    }

    /// Whether `value_type` is one of the types that the set represents. References have no
    /// lanes: they come with any lane count.
    pub open spec fn represents(self, value_type: ValueType) -> bool {
        match value_type {
            ValueType::Lane(lane) => self.lanes.contains(1) && self.has_lane(lane),
            ValueType::Vector(vector) => {
                &&& vector.lanes != 1
                &&& vector.lanes <= RangeBound::MAX
                &&& self.lanes.contains(vector.lanes as RangeBound)
                &&& self.has_lane(vector.base)
            },
            ValueType::DynamicVector(vector) => {
                &&& vector.unscaled_lanes <= RangeBound::MAX
                &&& self.dynamic_lanes.contains(vector.unscaled_lanes as RangeBound)
                &&& self.has_lane(vector.base)
            },
            ValueType::Reference(reference) => {
                !self.lanes.is_empty() && self.refs.contains(reference.0.spec_bits())
            },
            ValueType::Special(special) => self.specials.contains(special),
        }
    }

    /// Whether a type variable over the set may be derived with `func`: the function must lead
    /// out of neither the smallest nor the largest types.
    pub open spec fn derivable(self, func: DerivedFunc) -> bool {
        &&& self.specials.len() == 0
        &&& match func {
            DerivedFunc::HalfWidth => self.widths_halve(),
            DerivedFunc::DoubleWidth => self.widths_double(),
            DerivedFunc::HalfVector => self.lanes_halve(),
            DerivedFunc::DoubleVector => self.lanes_double(),
            DerivedFunc::SplitLanes => self.widths_halve() && self.lanes_double(),
            DerivedFunc::MergeLanes => self.widths_double() && self.lanes_halve(),
            DerivedFunc::LaneOf | DerivedFunc::AsBool | DerivedFunc::DynamicToVector => true,
        }
    }

    /// Whether all integer and floating point types can be halved.
    pub open spec fn widths_halve(self) -> bool {
        &&& forall|bits: RangeBound| #[trigger] self.ints.contains(bits) ==> bits > 8
        &&& forall|bits: RangeBound| #[trigger] self.floats.contains(bits) ==> bits > 32
    }

    /// Whether all integer and floating point types can be doubled.
    pub open spec fn widths_double(self) -> bool {
        &&& forall|bits: RangeBound| #[trigger] self.ints.contains(bits) ==> bits < MAX_BITS
        &&& forall|bits: RangeBound| #[trigger] self.floats.contains(bits) ==> bits < MAX_FLOAT_BITS
    }

    /// Whether there are lane counts, and all of them can be halved.
    pub open spec fn lanes_halve(self) -> bool {
        &&& !self.lanes.is_empty()
        &&& forall|lanes: RangeBound| #[trigger] self.lanes.contains(lanes) ==> lanes > 1
    }

    /// Whether there are lane counts, and all of them can be doubled.
    pub open spec fn lanes_double(self) -> bool {
        &&& !self.lanes.is_empty()
        &&& forall|lanes: RangeBound| #[trigger] self.lanes.contains(lanes) ==> lanes < MAX_LANES
    }

    /// Whether the types in the set can be counted and, where there is one only, listed.
    pub open spec fn countable(self) -> bool {
        &&& self.size() <= usize::MAX
        &&& self.size() == 1 ==> self.listable()
    }

    /// The single type in the set, if there is one only.
    pub open spec fn singleton(self) -> Option<ValueType> {
        if self.concrete_types().len() == 1 {
            Some(self.concrete_types()[0])
        } else {
            None
        }
    }

    /// The text of the set.
    pub open spec fn debug_text(self) -> Seq<char> {
        "TypeSet("@ + joined(
            number_field("lanes"@, self.lanes)
                + number_field("dynamic_lanes"@, self.dynamic_lanes)
                + number_field("ints"@, self.ints)
                + number_field("floats"@, self.floats)
                + number_field("refs"@, self.refs)
                + special_field(self.specials),
            ", "@,
        ) + ")"@
    }
}

/// A set of types.
///
/// We don't allow arbitrary subsets of types, but use a parametrized approach
/// instead.
///
/// Parametrized type sets are specified in terms of ranges:
/// - The permitted range of vector lanes, where 1 indicates a scalar type.
/// - The permitted range of dynamic vector lanes.
/// - The permitted range of integer types.
/// - The permitted range of floating point types, and
/// - The permitted range of reference types.
///
/// The ranges are inclusive from smallest bit-width to largest bit-width.
///
/// Finally, a type set can contain special types (derived from `SpecialType`)
/// which can't appear as lane types.
#[derive(Debug, PartialEq, Eq, Hash)]
pub struct TypeSet {
    pub lanes: NumSet,
    pub dynamic_lanes: NumSet,
    pub ints: NumSet,
    pub floats: NumSet,
    pub refs: NumSet,
    pub specials: Vec<SpecialType>,
}

impl View for TypeSet {
    type V = TypeSetView;

    open spec fn view(&self) -> TypeSetView {
        TypeSetView {
            lanes: self.lanes@,
            dynamic_lanes: self.dynamic_lanes@,
            ints: self.ints@,
            floats: self.floats@,
            refs: self.refs@,
            specials: self.specials@,
        }
    }
}

impl Clone for TypeSet {
    fn clone(&self) -> (copy: TypeSet)
        ensures
            copy@ == self@,
    {
        TypeSet {
            lanes: self.lanes.clone(),
            dynamic_lanes: self.dynamic_lanes.clone(),
            ints: self.ints.clone(),
            floats: self.floats.clone(),
            refs: self.refs.clone(),
            specials: self.specials.clone(),
        }
    }
}

impl TypeSet {
    /// Create a type set from its parts.
    pub fn new(
        lanes: NumSet,
        dynamic_lanes: NumSet,
        ints: NumSet,
        floats: NumSet,
        refs: NumSet,
        specials: Vec<SpecialType>,
    ) -> (set: TypeSet)
        ensures
            set@ == (TypeSetView {
                lanes: lanes@,
                dynamic_lanes: dynamic_lanes@,
                ints: ints@,
                floats: floats@,
                refs: refs@,
                specials: specials@,
            }),
    {
        TypeSet { lanes, dynamic_lanes, ints, floats, refs, specials }
    }

    /// Return the number of concrete types represented by this typeset.
    pub fn size(&self) -> (size: usize)
        requires
            self@.size() <= usize::MAX,
        ensures
            size == self@.size(),
    {
        let lanes = count(&self.lanes);
        let dynamic_lanes = count(&self.dynamic_lanes);
        let lane_widths = count(&self.ints) + count(&self.floats);
        let widths = lane_widths + count(&self.refs);
        assert(lanes * widths >= 0 && dynamic_lanes * lane_widths >= 0) by (nonlinear_arith);
        lanes * widths + dynamic_lanes * lane_widths + self.specials.len()
    }

    /// Return the image of self across the derived function func.
    pub fn image(&self, derived_func: DerivedFunc) -> (image: TypeSet)
        ensures
            image@ == self@.image(derived_func),
    {
        match derived_func {
            DerivedFunc::LaneOf => self.lane_of(),
            DerivedFunc::AsBool => self.as_bool(),
            DerivedFunc::HalfWidth => self.half_width(),
            DerivedFunc::DoubleWidth => self.double_width(),
            DerivedFunc::HalfVector => self.half_vector(),
            DerivedFunc::DoubleVector => self.double_vector(),
            DerivedFunc::SplitLanes => self.half_width().double_vector(),
            DerivedFunc::MergeLanes => self.double_width().half_vector(),
            DerivedFunc::DynamicToVector => self.dynamic_to_vector(),
        }
    }

    /// Return a TypeSet describing the image of self across lane_of.
    pub fn lane_of(&self) -> (image: TypeSet)
        ensures
            image@ == self@.lane_of(),
    {
        let mut lanes = NumSet::new();
        insert(&mut lanes, 1);
        let mut copy = self.clone();
        copy.lanes = lanes;
        copy
    }

    /// Return a TypeSet describing the image of self across as_bool.
    pub fn as_bool(&self) -> (image: TypeSet)
        ensures
            image@ == self@.as_bool(),
    {
        let mut copy = self.clone();
        copy.ints = NumSet::new();
        copy.floats = NumSet::new();
        copy.refs = NumSet::new();
        copy
    }

    /// Return a TypeSet describing the image of self across halfwidth.
    pub fn half_width(&self) -> (image: TypeSet)
        ensures
            image@ == self@.half_width(),
    {
        let mut copy = self.clone();
        copy.ints = halve_above(&self.ints, 8);
        copy.floats = halve_above(&self.floats, 32);
        copy.specials = Vec::new();
        copy
    }

    /// Return a TypeSet describing the image of self across doublewidth.
    pub fn double_width(&self) -> (image: TypeSet)
        ensures
            image@ == self@.double_width(),
    {
        let mut copy = self.clone();
        copy.ints = double_below(&self.ints, MAX_BITS);
        copy.floats = double_below(&self.floats, MAX_FLOAT_BITS);
        copy.specials = Vec::new();
        copy
    }

    /// Return a TypeSet describing the image of self across halfvector.
    pub fn half_vector(&self) -> (image: TypeSet)
        ensures
            image@ == self@.half_vector(),
    {
        let mut copy = self.clone();
        copy.lanes = halve_above(&self.lanes, 1);
        copy.specials = Vec::new();
        copy
    }

    /// Return a TypeSet describing the image of self across doublevector.
    pub fn double_vector(&self) -> (image: TypeSet)
        ensures
            image@ == self@.double_vector(),
    {
        let mut copy = self.clone();
        copy.lanes = double_below(&self.lanes, MAX_LANES);
        copy.specials = Vec::new();
        copy
    }

    /// Return a TypeSet in which the dynamic lane counts of self have become fixed lane counts.
    pub fn dynamic_to_vector(&self) -> (image: TypeSet)
        ensures
            image@ == self@.dynamic_to_vector(),
    {
        let mut copy = self.clone();
        copy.lanes = keep_below(&self.dynamic_lanes, MAX_LANES);
        copy.specials = Vec::new();
        copy.dynamic_lanes = NumSet::new();
        copy
    }

    /// List the concrete types in this typeset.
    pub fn concrete_types(&self) -> (types: Vec<ValueType>)
        requires
            self@.listable(),
        ensures
            types@ == self@.concrete_types(),
    {
        let mut ret: Vec<ValueType> = Vec::new();
        let lanes = to_vec(&self.lanes);
        let dynamic_lanes = to_vec(&self.dynamic_lanes);
        let ints = to_vec(&self.ints);
        let floats = to_vec(&self.floats);
        let refs = to_vec(&self.refs);
        proof {
            lemma_widths(self@.ints, ints@);
            lemma_widths(self@.floats, floats@);
            lemma_widths(self@.refs, refs@);
            lemma_widths(self@.lanes, lanes@);
            lemma_widths(self@.dynamic_lanes, dynamic_lanes@);
        }
        for i in 0..lanes.len()
            invariant
                lanes.len() > 0 ==> {
                    &&& forall|k: int| 0 <= k < ints.len() ==> is_int_width(#[trigger] ints[k])
                    &&& forall|k: int| 0 <= k < floats.len() ==> is_float_width(#[trigger] floats[k])
                    &&& forall|k: int| 0 <= k < refs.len() ==> is_ref_width(#[trigger] refs[k])
                },
                ret@ == rows(lanes@.take(i as int), ints@, floats@, refs@),
        {
            push_row(&mut ret, lanes[i], &ints, &floats, &refs);
            assert(lanes@.take(i + 1).drop_last() =~= lanes@.take(i as int));
        }
        assert(lanes@.take(lanes.len() as int) =~= lanes@);
        let ghost fixed = ret@;
        for i in 0..dynamic_lanes.len()
            invariant
                dynamic_lanes.len() > 0 ==> {
                    &&& forall|k: int| 0 <= k < ints.len() ==> is_int_width(#[trigger] ints[k])
                    &&& forall|k: int| 0 <= k < floats.len() ==> is_float_width(#[trigger] floats[k])
                },
                ret@ == fixed + dynamic_rows(dynamic_lanes@.take(i as int), ints@, floats@),
        {
            push_dynamic_row(&mut ret, dynamic_lanes[i], &ints, &floats);
            assert(dynamic_lanes@.take(i + 1).drop_last() =~= dynamic_lanes@.take(i as int));
        }
        assert(dynamic_lanes@.take(dynamic_lanes.len() as int) =~= dynamic_lanes@);
        let ghost listed = ret@;
        let ghost wrap = |special: SpecialType| ValueType::Special(special);
        for i in 0..self.specials.len()
            invariant
                wrap == (|special: SpecialType| ValueType::Special(special)),
                ret@ == listed + self.specials@.take(i as int).map_values(wrap),
        {
            ret.push(self.specials[i].into());
            assert(self.specials@.take(i + 1).map_values(wrap) =~= self.specials@.take(
                i as int,
            ).map_values(wrap).push(wrap(self.specials@[i as int])));
        }
        assert(self.specials@.take(self.specials.len() as int) =~= self.specials@);
        ret
    }

    /// Return the singleton type represented by this set, if there is one type only.
    pub fn try_get_singleton(&self) -> (value_type: Option<ValueType>)
        requires
            self@.listable(),
        ensures
            value_type == if self@.concrete_types().len() == 1 {
                Some(self@.concrete_types()[0])
            } else {
                None
            },
    {
        let types = self.concrete_types();
        if types.len() == 1 {
            Some(types[0])
        } else {
            None
        }
    }

    /// Return the singleton type represented by self. Can only call on typesets containing 1 type.
    pub fn get_singleton(&self) -> (value_type: ValueType)
        requires
            self@.listable(),
            self@.concrete_types().len() == 1,
        ensures
            value_type == self@.concrete_types()[0],
    {
        let types = self.concrete_types();
        types[0]
    }

    /// Return the text of this typeset: its parts in braces, without those that are empty.
    pub fn debug_string(&self) -> (text: String)
        ensures
            text@ == self@.debug_text(),
    {
        let mut subsets: Vec<String> = Vec::new();
        let ghost view = |subset: String| subset@;
        push_number_field(&mut subsets, "lanes", &self.lanes);
        push_number_field(&mut subsets, "dynamic_lanes", &self.dynamic_lanes);
        push_number_field(&mut subsets, "ints", &self.ints);
        push_number_field(&mut subsets, "floats", &self.floats);
        push_number_field(&mut subsets, "refs", &self.refs);
        if self.specials.len() > 0 {
            let mut names: Vec<String> = Vec::new();
            let ghost named = |special: SpecialType| special.spec_name();
            for i in 0..self.specials.len()
                invariant
                    view == (|subset: String| subset@),
                    named == (|special: SpecialType| special.spec_name()),
                    names@.map_values(view) == self.specials@.take(i as int).map_values(named),
            {
                let ghost before = names@;
                names.push(self.specials[i].to_string());
                assert(names@.map_values(view) =~= before.map_values(view).push(view(names@.last())));
                assert(self.specials@.take(i + 1).map_values(named) =~= self.specials@.take(
                    i as int,
                ).map_values(named).push(named(self.specials@[i as int])));
            }
            assert(self.specials@.take(self.specials.len() as int) =~= self.specials@);
            let mut field = String::from("specials={");
            let list = join(&names, ", ");
            field.append(list.as_str());
            field.append("}");
            let ghost before = subsets@;
            subsets.push(field);
            assert(subsets@.map_values(view) =~= before.map_values(view).push(view(field)));
        }
        assert(subsets@.map_values(view) =~= number_field("lanes"@, self@.lanes) + number_field(
            "dynamic_lanes"@,
            self@.dynamic_lanes,
        ) + number_field("ints"@, self@.ints) + number_field("floats"@, self@.floats)
            + number_field("refs"@, self@.refs) + special_field(self@.specials));
        let mut text = String::from("TypeSet(");
        let list = join(&subsets, ", ");
        text.append(list.as_str());
        text.append(")");
        text
    }
}

/// The members of a set of widths are the items of its enumeration.
proof fn lemma_widths(set: Set<RangeBound>, items: Seq<RangeBound>)
    requires
        numset::enumerates(items, set),
    ensures
        forall|k: int| 0 <= k < items.len() ==> set.contains(#[trigger] items[k]),
        items.len() == 0 <==> set.is_empty(),
{
    assert forall|k: int| 0 <= k < items.len() implies set.contains(#[trigger] items[k]) by {
        assert(items.to_set().contains(items[k]));
    }
    if items.len() == 0 {
        assert(set =~= Set::empty());
    } else {
        assert(set.contains(items[0]));
    }
}

/// Append the types with `lanes` lanes to `types`.
fn push_row(
    types: &mut Vec<ValueType>,
    lanes: RangeBound,
    ints: &Vec<RangeBound>,
    floats: &Vec<RangeBound>,
    refs: &Vec<RangeBound>,
)
    requires
        forall|k: int| 0 <= k < ints.len() ==> is_int_width(#[trigger] ints[k]),
        forall|k: int| 0 <= k < floats.len() ==> is_float_width(#[trigger] floats[k]),
        forall|k: int| 0 <= k < refs.len() ==> is_ref_width(#[trigger] refs[k]),
    ensures
        final(types)@ == old(types)@ + row(lanes, ints@, floats@, refs@),
{
    let ghost start = types@;
    let ghost integer = |bits: RangeBound| LaneType::spec_int(bits).spec_by_lanes(lanes);
    let ghost float = |bits: RangeBound| LaneType::spec_float(bits).spec_by_lanes(lanes);
    let ghost reference = |bits: RangeBound| ValueType::Reference(ReferenceType::spec_ref(bits));
    for i in 0..ints.len()
        invariant
            forall|k: int| 0 <= k < ints.len() ==> is_int_width(#[trigger] ints[k]),
            integer == (|bits: RangeBound| LaneType::spec_int(bits).spec_by_lanes(lanes)),
            types@ == start + ints@.take(i as int).map_values(integer),
    {
        types.push(LaneType::int_from_bits(ints[i]).by_lanes(lanes));
        assert(ints@.take(i + 1).map_values(integer) =~= ints@.take(i as int).map_values(integer).push(
            integer(ints@[i as int]),
        ));
    }
    assert(ints@.take(ints.len() as int) =~= ints@);
    let ghost with_ints = types@;
    for i in 0..floats.len()
        invariant
            forall|k: int| 0 <= k < floats.len() ==> is_float_width(#[trigger] floats[k]),
            float == (|bits: RangeBound| LaneType::spec_float(bits).spec_by_lanes(lanes)),
            types@ == with_ints + floats@.take(i as int).map_values(float),
    {
        types.push(LaneType::float_from_bits(floats[i]).by_lanes(lanes));
        assert(floats@.take(i + 1).map_values(float) =~= floats@.take(i as int).map_values(
            float,
        ).push(float(floats@[i as int])));
    }
    assert(floats@.take(floats.len() as int) =~= floats@);
    let ghost with_floats = types@;
    for i in 0..refs.len()
        invariant
            forall|k: int| 0 <= k < refs.len() ==> is_ref_width(#[trigger] refs[k]),
            reference == (|bits: RangeBound| ValueType::Reference(ReferenceType::spec_ref(bits))),
            types@ == with_floats + refs@.take(i as int).map_values(reference),
    {
        types.push(ReferenceType::ref_from_bits(refs[i]).into());
        assert(refs@.take(i + 1).map_values(reference) =~= refs@.take(i as int).map_values(
            reference,
        ).push(reference(refs@[i as int])));
    }
    assert(refs@.take(refs.len() as int) =~= refs@);
    assert(types@ =~= start + row(lanes, ints@, floats@, refs@));
}

/// Append the dynamic vector types with at least `lanes` lanes to `types`.
fn push_dynamic_row(
    types: &mut Vec<ValueType>,
    lanes: RangeBound,
    ints: &Vec<RangeBound>,
    floats: &Vec<RangeBound>,
)
    requires
        forall|k: int| 0 <= k < ints.len() ==> is_int_width(#[trigger] ints[k]),
        forall|k: int| 0 <= k < floats.len() ==> is_float_width(#[trigger] floats[k]),
    ensures
        final(types)@ == old(types)@ + dynamic_row(lanes, ints@, floats@),
{
    let ghost start = types@;
    let ghost integer = |bits: RangeBound| LaneType::spec_int(bits).spec_to_dynamic(lanes);
    let ghost float = |bits: RangeBound| LaneType::spec_float(bits).spec_to_dynamic(lanes);
    for i in 0..ints.len()
        invariant
            forall|k: int| 0 <= k < ints.len() ==> is_int_width(#[trigger] ints[k]),
            integer == (|bits: RangeBound| LaneType::spec_int(bits).spec_to_dynamic(lanes)),
            types@ == start + ints@.take(i as int).map_values(integer),
    {
        types.push(LaneType::int_from_bits(ints[i]).to_dynamic(lanes));
        assert(ints@.take(i + 1).map_values(integer) =~= ints@.take(i as int).map_values(integer).push(
            integer(ints@[i as int]),
        ));
    }
    assert(ints@.take(ints.len() as int) =~= ints@);
    let ghost with_ints = types@;
    for i in 0..floats.len()
        invariant
            forall|k: int| 0 <= k < floats.len() ==> is_float_width(#[trigger] floats[k]),
            float == (|bits: RangeBound| LaneType::spec_float(bits).spec_to_dynamic(lanes)),
            types@ == with_ints + floats@.take(i as int).map_values(float),
    {
        types.push(LaneType::float_from_bits(floats[i]).to_dynamic(lanes));
        assert(floats@.take(i + 1).map_values(float) =~= floats@.take(i as int).map_values(
            float,
        ).push(float(floats@[i as int])));
    }
    assert(floats@.take(floats.len() as int) =~= floats@);
    assert(types@ =~= start + dynamic_row(lanes, ints@, floats@));
}

/// Append the text of a set of numbers to `subsets`, unless the set is empty.
fn push_number_field(subsets: &mut Vec<String>, label: &str, set: &NumSet)
    ensures
        final(subsets)@.map_values(|subset: String| subset@) == old(subsets)@.map_values(
            |subset: String| subset@,
        ) + number_field(label@, set@),
{
    let ghost view = |subset: String| subset@;
    let ghost before = subsets@;
    if !set.is_empty() {
        let items = to_vec(set);
        let mut numerals: Vec<String> = Vec::new();
        let ghost numeral = |x: RangeBound| decimal(x as nat);
        for i in 0..items.len()
            invariant
                view == (|subset: String| subset@),
                numeral == (|x: RangeBound| decimal(x as nat)),
                numerals@.map_values(view) == items@.take(i as int).map_values(numeral),
        {
            let ghost listed = numerals@;
            let mut text = String::new();
            push_decimal(&mut text, items[i] as u64);
            numerals.push(text);
            assert(numerals@.map_values(view) =~= listed.map_values(view).push(view(text)));
            assert(items@.take(i + 1).map_values(numeral) =~= items@.take(i as int).map_values(
                numeral,
            ).push(numeral(items@[i as int])));
        }
        assert(items@.take(items.len() as int) =~= items@);
        let mut field = String::from(label);
        field.append("={");
        let list = join(&numerals, ", ");
        field.append(list.as_str());
        field.append("}");
        subsets.push(field);
        assert(subsets@.map_values(view) =~= before.map_values(view).push(view(field)));
    }
    assert(subsets@.map_values(view) =~= before.map_values(view) + number_field(label@, set@));
}

} // verus!
