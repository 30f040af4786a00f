//! Intervals of lane counts and bit widths.

use vstd::prelude::*;

use crate::cdsl::numset::{is_power_of_two, test_power_of_two, Range, RangeBound};

verus! {

/// An interval of lane counts or bit widths.
#[derive(Debug, PartialEq)]
pub enum Interval {
    /// Nothing, or a default where there is one.
    Empty,
    /// Everything that can be had.
    All,
    /// The powers of two in a range, whose bounds are included.
    Range(Range),
}

impl Interval {
    /// Whether the interval stays within `full_range`. Bounds must be powers of two, in order.
    pub open spec fn fits(self, full_range: Range) -> bool {
        match self {
            Interval::Empty => true,
            Interval::All => true,
            Interval::Range(range) => {
                &&& is_power_of_two(range.start)
                &&& is_power_of_two(range.end)
                &&& full_range.start <= range.start <= range.end <= full_range.end
            },
        }
    }

    /// The range that the interval selects from `full_range`.
    pub open spec fn spec_range(self, full_range: Range, default: Option<RangeBound>) -> Option<
        Range,
    > {
        match self {
            Interval::Empty => match default {
                Some(value) => Some(Range { start: value, end: value }),
                None => None,
            },
            Interval::All => Some(full_range),
            Interval::Range(range) => Some(range),
        }
    }

    /// Test whether the interval stays within `full_range`.
    pub fn test_fits(&self, full_range: Range) -> (fits: bool)
        ensures
            fits == self.fits(full_range),
    {
        match self {
            Interval::Empty => true,
            Interval::All => true,
            Interval::Range(range) => {
                let (low, high) = (range.start, range.end);
                test_power_of_two(low) && test_power_of_two(high) && low <= high && low
                    >= full_range.start && high <= full_range.end
            },
        }
    }

    /// Return the range that the interval selects from `full_range`; an empty interval selects
    /// the default alone.
    pub fn to_range(&self, full_range: Range, default: Option<RangeBound>) -> (range: Option<Range>)
        requires
            self.fits(full_range),
        ensures
            range == self.spec_range(full_range, default),
    {
        match self {
            Interval::Empty => {
                if let Some(default_val) = default {
                    Some(default_val..default_val)
                } else {
                    None
                }
            },
            Interval::All => Some(full_range),
            Interval::Range(range) => {
                let (low, high) = (range.start, range.end);
                Some(low..high)
            },
        }
    }
}

impl From<Range> for Interval {
    fn from(range: Range) -> (interval: Interval) {
        Interval::Range(range)
    }
}

impl vstd::std_specs::convert::FromSpecImpl<Range> for Interval {
    open spec fn obeys_from_spec() -> bool {
        true
    }

    open spec fn from_spec(range: Range) -> Interval {
        Interval::Range(range)
    }
}

/// The conversion of a value to its own type, [`From::from`]: it returns the value unchanged.
pub assume_specification<T>[ <T as From<T>>::from ](value: T) -> (converted: T)
    ensures
        converted == value,
;

} // verus!
