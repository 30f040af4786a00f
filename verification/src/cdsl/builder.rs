//! A builder for sets of value types.

use vstd::prelude::*;

use crate::cdsl::interval::Interval;
use crate::cdsl::numset::{lemma_small_powers, range_set, range_to_set, Range, RangeBound};
use crate::cdsl::types::{is_float_width, is_int_width, is_ref_width, SpecialType};
use crate::cdsl::typeset::{TypeSet, TypeSetView, MAX_BITS, MAX_LANES};

verus! {

/// What a [`TypeSetBuilder`] has been told so far.
pub struct BuilderView {
    pub ints: Interval,
    pub floats: Interval,
    pub refs: Interval,
    pub includes_scalars: bool,
    pub simd_lanes: Interval,
    pub dynamic_simd_lanes: Interval,
    pub specials: Seq<SpecialType>,
}

impl BuilderView {
    /// The lane counts that `simd_lanes` may select from.
    pub open spec fn full_lanes(self) -> Range {
        Range {
            start: if self.includes_scalars {
                1
            } else {
                2
            },
            end: MAX_LANES,
        }
    }

    /// Whether every interval stays within what there is to select from.
    pub open spec fn buildable(self) -> bool {
        &&& self.simd_lanes.fits(self.full_lanes())
        &&& self.dynamic_simd_lanes.fits(Range { start: 2, end: MAX_LANES })
        &&& self.ints.fits(Range { start: 8, end: MAX_BITS })
        &&& self.floats.fits(Range { start: 32, end: 64 })
        &&& self.refs.fits(Range { start: 32, end: 64 })
    }

    /// The set that the builder describes. Without any lanes it is a set of scalars.
    pub open spec fn built(self) -> TypeSetView {
        TypeSetView {
            lanes: range_set(self.simd_lanes.spec_range(self.full_lanes(), Some(1))),
            dynamic_lanes: range_set(
                self.dynamic_simd_lanes.spec_range(Range { start: 2, end: MAX_LANES }, None),
            ),
            ints: range_set(self.ints.spec_range(Range { start: 8, end: MAX_BITS }, None)),
            floats: range_set(self.floats.spec_range(Range { start: 32, end: 64 }, None)),
            refs: range_set(self.refs.spec_range(Range { start: 32, end: 64 }, None)),
            specials: self.specials,
        }
    }
}

/// Builds a [`TypeSet`] out of intervals of lane counts and widths.
pub struct TypeSetBuilder {
    ints: Interval,
    floats: Interval,
    refs: Interval,
    includes_scalars: bool,
    simd_lanes: Interval,
    dynamic_simd_lanes: Interval,
    specials: Vec<SpecialType>,
}

impl View for TypeSetBuilder {
    type V = BuilderView;

    closed spec fn view(&self) -> BuilderView {
        BuilderView {
            ints: self.ints,
            floats: self.floats,
            refs: self.refs,
            includes_scalars: self.includes_scalars,
            simd_lanes: self.simd_lanes,
            dynamic_simd_lanes: self.dynamic_simd_lanes,
            specials: self.specials@,
        }
    }
}

impl TypeSetBuilder {
    /// Start with nothing but scalars allowed.
    pub fn new() -> (builder: TypeSetBuilder)
        ensures
            builder@ == (BuilderView {
                ints: Interval::Empty,
                floats: Interval::Empty,
                refs: Interval::Empty,
                includes_scalars: true,
                simd_lanes: Interval::Empty,
                dynamic_simd_lanes: Interval::Empty,
                specials: seq![],
            }),
    {
        TypeSetBuilder {
            ints: Interval::Empty,
            floats: Interval::Empty,
            refs: Interval::Empty,
            includes_scalars: true,
            simd_lanes: Interval::Empty,
            dynamic_simd_lanes: Interval::Empty,
            specials: Vec::new(),
        }
    }

    /// Choose the widths of the integer types. Can be called once.
    pub fn ints<I: Into<Interval>>(self, interval: I) -> (builder: TypeSetBuilder)
        requires
            self@.ints is Empty,
        ensures
            exists|ints: Interval| #[trigger]
                call_ensures(<I as Into<Interval>>::into, (interval,), ints) && builder@ == (
                BuilderView { ints, ..self@ }),
    {
        TypeSetBuilder { ints: interval.into(), ..self }
    }

    /// Choose the widths of the floating point types. Can be called once.
    pub fn floats<I: Into<Interval>>(self, interval: I) -> (builder: TypeSetBuilder)
        requires
            self@.floats is Empty,
        ensures
            exists|floats: Interval| #[trigger]
                call_ensures(<I as Into<Interval>>::into, (interval,), floats) && builder@ == (
                BuilderView { floats, ..self@ }),
    {
        TypeSetBuilder { floats: interval.into(), ..self }
    }

    /// Choose the widths of the reference types. Can be called once.
    pub fn refs<I: Into<Interval>>(self, interval: I) -> (builder: TypeSetBuilder)
        requires
            self@.refs is Empty,
        ensures
            exists|refs: Interval| #[trigger]
                call_ensures(<I as Into<Interval>>::into, (interval,), refs) && builder@ == (
                BuilderView { refs, ..self@ }),
    {
        TypeSetBuilder { refs: interval.into(), ..self }
    }

    /// Choose whether all lane counts include the single lane of a scalar.
    pub fn includes_scalars(self, includes_scalars: bool) -> (builder: TypeSetBuilder)
        ensures
            builder@ == (BuilderView { includes_scalars, ..self@ }),
    {
        TypeSetBuilder { includes_scalars, ..self }
    }

    /// Choose the lane counts of the vector types. Can be called once.
    pub fn simd_lanes<I: Into<Interval>>(self, interval: I) -> (builder: TypeSetBuilder)
        requires
            self@.simd_lanes is Empty,
        ensures
            exists|simd_lanes: Interval| #[trigger]
                call_ensures(<I as Into<Interval>>::into, (interval,), simd_lanes) && builder@ == (
                BuilderView { simd_lanes, ..self@ }),
    {
        TypeSetBuilder { simd_lanes: interval.into(), ..self }
    }

    /// Choose the minimum lane counts of the dynamic vector types. Can be called once.
    pub fn dynamic_simd_lanes<I: Into<Interval>>(self, interval: I) -> (builder: TypeSetBuilder)
        requires
            self@.dynamic_simd_lanes is Empty,
        ensures
            exists|dynamic_simd_lanes: Interval| #[trigger]
                call_ensures(<I as Into<Interval>>::into, (interval,), dynamic_simd_lanes)
                    && builder@ == (BuilderView { dynamic_simd_lanes, ..self@ }),
    {
        TypeSetBuilder { dynamic_simd_lanes: interval.into(), ..self }
    }

    /// Choose the special types. Can be called once.
    pub fn specials(self, specials: Vec<SpecialType>) -> (builder: TypeSetBuilder)
        requires
            self@.specials.len() == 0,
        ensures
            builder@ == (BuilderView { specials: specials@, ..self@ }),
    {
        TypeSetBuilder { specials, ..self }
    }

    /// Build the set, unless an interval leaves what there is to select from.
    pub fn try_build(self) -> (set: Option<TypeSet>)
        ensures
            set is Some <==> self@.buildable(),
            set matches Some(set) ==> set@ == self@.built() && set@.valid()
                && !set@.lanes.is_empty(),
    {
        let min_lanes: RangeBound = if self.includes_scalars {
            1
        } else {
            2
        };
        if self.simd_lanes.test_fits(min_lanes..MAX_LANES) && self.dynamic_simd_lanes.test_fits(
            2..MAX_LANES,
        ) && self.ints.test_fits(8..MAX_BITS) && self.floats.test_fits(32..64)
            && self.refs.test_fits(32..64) {
            Some(self.build())
        } else {
            None
        }
    }

    /// Build the set.
    pub fn build(self) -> (set: TypeSet)
        requires
            self@.buildable(),
        ensures
            set@ == self@.built(),
            set@.valid(),
            !set@.lanes.is_empty(),
    {
        let min_lanes: RangeBound = if self.includes_scalars {
            1
        } else {
            2
        };
        proof {
            lemma_small_powers(1);
            lemma_small_powers(2);
            lemma_small_powers(8);
            lemma_small_powers(32);
            lemma_small_powers(64);
            lemma_small_powers(128);
            lemma_small_powers(256);
            lemma_built_valid(self@);
        }
        TypeSet::new(
            range_to_set(self.simd_lanes.to_range(min_lanes..MAX_LANES, Some(1))),
            range_to_set(self.dynamic_simd_lanes.to_range(2..MAX_LANES, None)),
            range_to_set(self.ints.to_range(8..MAX_BITS, None)),
            range_to_set(self.floats.to_range(32..64, None)),
            range_to_set(self.refs.to_range(32..64, None)),
            self.specials,
        )
    }
}

/// What a builder describes is made of types that exist, and has some lane count.
proof fn lemma_built_valid(builder: BuilderView)
    requires
        builder.buildable(),
    ensures
        builder.built().valid(),
        !builder.built().lanes.is_empty(),
{
    let set = builder.built();
    assert forall|bits: RangeBound| #[trigger] set.ints.contains(bits) implies is_int_width(
        bits,
    ) by {
        lemma_small_powers(bits);
    }
    assert forall|bits: RangeBound| #[trigger] set.floats.contains(bits) implies is_float_width(
        bits,
    ) by {
        lemma_small_powers(bits);
    }
    assert forall|bits: RangeBound| #[trigger] set.refs.contains(bits) implies is_ref_width(
        bits,
    ) by {
        lemma_small_powers(bits);
    }
    lemma_small_powers(1);
    lemma_small_powers(256);
    match builder.simd_lanes {
        Interval::Empty => {
            assert(set.lanes.contains(1));
        },
        Interval::All => {
            assert(set.lanes.contains(256));
        },
        Interval::Range(range) => {
            assert(set.lanes.contains(range.start));
        },
    }
}

} // verus!
