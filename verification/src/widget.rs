//! The configuration of one drag value, built step by step.

use vstd::prelude::*;
use crate::radix::Radix;
use crate::total_order::ClampRange;
use crate::total_order::ONE_BITS;
use crate::total_order::QUARTER_BITS;
use crate::total_order::INFINITY_BITS;
use crate::total_order::NEG_INFINITY_BITS;

verus! {

/// How the value becomes text.
#[derive(Clone, Copy, Debug, PartialEq, Eq, Structural)]
pub enum NumberFormat {
    /// Decimal text with the inferred number of decimals; zero is `0`.
    Decimal,
    /// A formatter supplied by the caller, which overrides everything.
    Custom,
    /// An integer in an alternate base.
    Radix { radix: Radix, min_width: usize, twos_complement: bool, upper: bool },
}

/// How typed text becomes a value.
#[derive(Clone, Copy, Debug, PartialEq, Eq, Structural)]
pub enum NumberParser {
    /// Plain decimal text.
    Decimal,
    /// A parser supplied by the caller.
    Custom,
    /// A signed 64-bit integer in an alternate base.
    Radix { radix: Radix },
}

/// A numeric value that is changed by dragging, by the arrow keys or by
/// typing. Values are binary64 bit patterns.
#[derive(Debug)]
pub struct DragValue {
    pub speed: u64,
    pub prefix: String,
    pub suffix: String,
    pub clamp_range: ClampRange,
    pub min_decimals: usize,
    pub max_decimals: Option<usize>,
    pub formatter: NumberFormat,
    pub parser: NumberParser,
}

impl DragValue {
    /// Everything but the formatter and the parser is as in `other`.
    pub open spec fn same_basics(self, other: DragValue) -> bool {
        &&& self.speed == other.speed
        &&& self.prefix == other.prefix
        &&& self.suffix == other.suffix
        &&& self.clamp_range == other.clamp_range
        &&& self.min_decimals == other.min_decimals
        &&& self.max_decimals == other.max_decimals
    }

    /// The configuration right after [`DragValue::from_get_set`].
    pub open spec fn is_default(self) -> bool {
        &&& self.speed == ONE_BITS
        &&& self.prefix@ == Seq::<char>::empty()
        &&& self.suffix@ == Seq::<char>::empty()
        &&& self.clamp_range == (ClampRange { start: NEG_INFINITY_BITS, end: INFINITY_BITS })
        &&& self.min_decimals == 0
        &&& self.max_decimals is None
        &&& self.formatter == NumberFormat::Decimal
        &&& self.parser == NumberParser::Decimal
    }

    /// A drag value for a number of some numeric type. For an integral type
    /// no decimals are shown, the range is that of the type (`min ..= max`)
    /// and the speed is a quarter; otherwise `min` and `max` are not used.
    pub fn new(integral: bool, min: u64, max: u64) -> (r: Self)
        ensures
            !integral ==> r.is_default(),
            integral ==> r.speed == QUARTER_BITS && r.max_decimals == Some(0usize) && r.clamp_range
                == (ClampRange { start: min, end: max }) && r.min_decimals == 0 && r.prefix@
                == Seq::<char>::empty() && r.suffix@ == Seq::<char>::empty() && r.formatter
                == NumberFormat::Decimal && r.parser == NumberParser::Decimal,
    {
        let slf = Self::from_get_set();
        if integral {
            slf.max_decimals(0).clamp_range(ClampRange { start: min, end: max }).speed(
                QUARTER_BITS,
            )
        } else {
            slf
        }
    }

    /// A drag value for a number reached through an accessor: speed one, no
    /// decoration, every value allowed, precision inferred, decimal text.
    pub fn from_get_set() -> (r: Self)
        ensures
            r.is_default(),
    {
        DragValue {
            speed: ONE_BITS,
            prefix: String::new(),
            suffix: String::new(),
            clamp_range: ClampRange::unbounded(),
            min_decimals: 0,
            max_decimals: None,
            formatter: NumberFormat::Decimal,
            parser: NumberParser::Decimal,
        }
    }

    /// How much the value changes per point of drag.
    pub fn speed(self, speed: u64) -> (r: Self)
        ensures
            r.speed == speed,
            r.prefix == self.prefix,
            r.suffix == self.suffix,
            r.clamp_range == self.clamp_range,
            r.min_decimals == self.min_decimals,
            r.max_decimals == self.max_decimals,
            r.formatter == self.formatter,
            r.parser == self.parser,
    {
        let mut slf = self;
        slf.speed = speed;
        slf
    }

    /// Values read and written are clamped to this range.
    pub fn clamp_range(self, clamp_range: ClampRange) -> (r: Self)
        ensures
            r.clamp_range == clamp_range,
            r.speed == self.speed,
            r.prefix == self.prefix,
            r.suffix == self.suffix,
            r.min_decimals == self.min_decimals,
            r.max_decimals == self.max_decimals,
            r.formatter == self.formatter,
            r.parser == self.parser,
    {
        let mut slf = self;
        slf.clamp_range = clamp_range;
        slf
    }

    /// Text shown before the number.
    pub fn prefix(self, prefix: String) -> (r: Self)
        ensures
            r.prefix == prefix,
            r.speed == self.speed,
            r.suffix == self.suffix,
            r.clamp_range == self.clamp_range,
            r.min_decimals == self.min_decimals,
            r.max_decimals == self.max_decimals,
            r.formatter == self.formatter,
            r.parser == self.parser,
    {
        let mut slf = self;
        slf.prefix = prefix;
        slf
    }

    /// Text shown after the number.
    pub fn suffix(self, suffix: String) -> (r: Self)
        ensures
            r.suffix == suffix,
            r.speed == self.speed,
            r.prefix == self.prefix,
            r.clamp_range == self.clamp_range,
            r.min_decimals == self.min_decimals,
            r.max_decimals == self.max_decimals,
            r.formatter == self.formatter,
            r.parser == self.parser,
    {
        let mut slf = self;
        slf.suffix = suffix;
        slf
    }

    /// The fewest decimals to show.
    pub fn min_decimals(self, min_decimals: usize) -> (r: Self)
        ensures
            r.min_decimals == min_decimals,
            r.speed == self.speed,
            r.prefix == self.prefix,
            r.suffix == self.suffix,
            r.clamp_range == self.clamp_range,
            r.max_decimals == self.max_decimals,
            r.formatter == self.formatter,
            r.parser == self.parser,
    {
        let mut slf = self;
        slf.min_decimals = min_decimals;
        slf
    }

    /// The most decimals to show and to round to.
    pub fn max_decimals(self, max_decimals: usize) -> (r: Self)
        ensures
            r.max_decimals == Some(max_decimals),
            r.speed == self.speed,
            r.prefix == self.prefix,
            r.suffix == self.suffix,
            r.clamp_range == self.clamp_range,
            r.min_decimals == self.min_decimals,
            r.formatter == self.formatter,
            r.parser == self.parser,
    {
        let mut slf = self;
        slf.max_decimals = Some(max_decimals);
        slf
    }

    /// The most decimals to show, or `None` to have it inferred.
    pub fn max_decimals_opt(self, max_decimals: Option<usize>) -> (r: Self)
        ensures
            r.max_decimals == max_decimals,
            r.speed == self.speed,
            r.prefix == self.prefix,
            r.suffix == self.suffix,
            r.clamp_range == self.clamp_range,
            r.min_decimals == self.min_decimals,
            r.formatter == self.formatter,
            r.parser == self.parser,
    {
        let mut slf = self;
        slf.max_decimals = max_decimals;
        slf
    }

    /// Exactly this many decimals are shown.
    pub fn fixed_decimals(self, num_decimals: usize) -> (r: Self)
        ensures
            r.min_decimals == num_decimals,
            r.max_decimals == Some(num_decimals),
            r.speed == self.speed,
            r.prefix == self.prefix,
            r.suffix == self.suffix,
            r.clamp_range == self.clamp_range,
            r.formatter == self.formatter,
            r.parser == self.parser,
    {
        let mut slf = self;
        slf.min_decimals = num_decimals;
        slf.max_decimals = Some(num_decimals);
        slf
    }

    /// The caller's own formatter is used from now on.
    pub fn custom_formatter(self) -> (r: Self)
        ensures
            r.formatter == NumberFormat::Custom,
            r.parser == self.parser,
            r.same_basics(self),
    {
        let mut slf = self;
        slf.formatter = NumberFormat::Custom;
        slf
    }

    /// The caller's own parser is used from now on.
    pub fn custom_parser(self) -> (r: Self)
        ensures
            r.parser == NumberParser::Custom,
            r.formatter == self.formatter,
            r.same_basics(self),
    {
        let mut slf = self;
        slf.parser = NumberParser::Custom;
        slf
    }

    /// Shows and parses the value as an integer in the given base, with at
    /// least `min_width` digits.
    pub fn radix(self, radix: Radix, min_width: usize, twos_complement: bool, upper: bool)
        -> (r: Self)
        requires
            min_width > 0,
        ensures
            r.formatter == (NumberFormat::Radix { radix, min_width, twos_complement, upper }),
            r.parser == (NumberParser::Radix { radix }),
            r.same_basics(self),
    {
        let mut slf = self;
        slf.formatter = NumberFormat::Radix { radix, min_width, twos_complement, upper };
        slf.parser = NumberParser::Radix { radix };
        slf
    }

    /// Shows and parses the value as a binary integer of at least
    /// `min_width` digits; negative values as their two's complement if
    /// `twos_complement`, else with a `-` in front.
    pub fn binary(self, min_width: usize, twos_complement: bool) -> (r: Self)
        requires
            min_width > 0,
        ensures
            r.formatter == (NumberFormat::Radix {
                radix: Radix::Binary,
                min_width,
                twos_complement,
                upper: false,
            }),
            r.parser == (NumberParser::Radix { radix: Radix::Binary }),
            r.same_basics(self),
    {
        self.radix(Radix::Binary, min_width, twos_complement, false)
    }

    /// Shows and parses the value as an octal integer of at least
    /// `min_width` digits; negative values as their two's complement if
    /// `twos_complement`, else with a `-` in front.
    pub fn octal(self, min_width: usize, twos_complement: bool) -> (r: Self)
        requires
            min_width > 0,
        ensures
            r.formatter == (NumberFormat::Radix {
                radix: Radix::Octal,
                min_width,
                twos_complement,
                upper: false,
            }),
            r.parser == (NumberParser::Radix { radix: Radix::Octal }),
            r.same_basics(self),
    {
        self.radix(Radix::Octal, min_width, twos_complement, false)
    }

    /// Shows and parses the value as a hexadecimal integer of at least
    /// `min_width` digits, in upper case if `upper`; negative values as
    /// their two's complement if `twos_complement`, else with a `-` in front.
    pub fn hexadecimal(self, min_width: usize, twos_complement: bool, upper: bool) -> (r: Self)
        requires
            min_width > 0,
        ensures
            r.formatter == (NumberFormat::Radix {
                radix: Radix::Hexadecimal,
                min_width,
                twos_complement,
                upper,
            }),
            r.parser == (NumberParser::Radix { radix: Radix::Hexadecimal }),
            r.same_basics(self),
    {
        self.radix(Radix::Hexadecimal, min_width, twos_complement, upper)
    }
}

} // verus!
