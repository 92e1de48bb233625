//! How many decimals to show and round to.

use vstd::prelude::*;

verus! {

/// The most decimals that are ever inferred from the drag speed alone.
pub const MAX_AUTO_DECIMALS: usize = 15;

/// Headroom above the inferred precision when no maximum was configured.
pub const DECIMAL_HEADROOM: usize = 2;

/// The decimals to round to (`min`) and the most to display (`max`).
#[derive(Clone, Copy, Debug, PartialEq, Eq, Structural)]
pub struct DecimalRange {
    pub min: usize,
    pub max: usize,
}

/// The inferred precision before the configured bounds apply:
/// `log_ceil` confined to `0..=15`, plus one in slow mode.
/// `log_ceil` is the ceiling of the decimal logarithm of aim radius over
/// absolute speed.
pub open spec fn raw_decimals(log_ceil: i64, is_slow_speed: bool) -> nat {
    let base: nat = if log_ceil < 0 {
        0
    } else if log_ceil > MAX_AUTO_DECIMALS {
        MAX_AUTO_DECIMALS as nat
    } else {
        log_ceil as nat
    };
    if is_slow_speed {
        (base + 1) as nat
    } else {
        base
    }
}

/// The most decimals to display: the configured maximum, or two more than
/// the inferred precision.
pub open spec fn effective_max_decimals(
    log_ceil: i64,
    is_slow_speed: bool,
    max_decimals: Option<usize>,
) -> nat {
    match max_decimals {
        Some(m) => m as nat,
        None => (raw_decimals(log_ceil, is_slow_speed) + DECIMAL_HEADROOM) as nat,
    }
}

/// The decimals to round to: the inferred precision confined to
/// `min_decimals ..= effective_max_decimals`.
pub open spec fn auto_decimals(
    log_ceil: i64,
    is_slow_speed: bool,
    min_decimals: usize,
    max_decimals: Option<usize>,
) -> nat {
    let raw = raw_decimals(log_ceil, is_slow_speed);
    let max = effective_max_decimals(log_ceil, is_slow_speed, max_decimals);
    if raw < min_decimals {
        min_decimals as nat
    } else if raw > max {
        max
    } else {
        raw
    }
}

/// Whether the configured bounds leave a precision to choose.
pub open spec fn bounds_consistent(
    log_ceil: i64,
    is_slow_speed: bool,
    min_decimals: usize,
    max_decimals: Option<usize>,
) -> bool {
    min_decimals <= effective_max_decimals(log_ceil, is_slow_speed, max_decimals)
}

/// Executable form of [`bounds_consistent`].
pub fn check_bounds(
    log_ceil: i64,
    is_slow_speed: bool,
    min_decimals: usize,
    max_decimals: Option<usize>,
) -> (r: bool)
    ensures
        r == bounds_consistent(log_ceil, is_slow_speed, min_decimals, max_decimals),
{
    match max_decimals {
        Some(m) => min_decimals <= m,
        None => min_decimals <= base_decimals(log_ceil, is_slow_speed) + DECIMAL_HEADROOM,
    }
}

/// Executable form of [`raw_decimals`].
pub fn base_decimals(log_ceil: i64, is_slow_speed: bool) -> (r: usize)
    ensures
        r == raw_decimals(log_ceil, is_slow_speed),
        r <= MAX_AUTO_DECIMALS + 1,
{
    let base: usize = if log_ceil < 0 {
        0
    } else if log_ceil > 15 {
        MAX_AUTO_DECIMALS
    } else {
        log_ceil as usize
    };
    if is_slow_speed {
        base + 1
    } else {
        base
    }
}

/// Chooses the precision for this frame.
pub fn infer_decimals(
    log_ceil: i64,
    is_slow_speed: bool,
    min_decimals: usize,
    max_decimals: Option<usize>,
) -> (r: DecimalRange)
    requires
        bounds_consistent(log_ceil, is_slow_speed, min_decimals, max_decimals),
    ensures
        r.min == auto_decimals(log_ceil, is_slow_speed, min_decimals, max_decimals),
        r.max == effective_max_decimals(log_ceil, is_slow_speed, max_decimals),
        min_decimals <= r.min <= r.max,
{
    let raw: usize = base_decimals(log_ceil, is_slow_speed);
    let max: usize = match max_decimals {
        Some(m) => m,
        None => raw + DECIMAL_HEADROOM,
    };
    let shown: usize = if raw < min_decimals {
        min_decimals
    } else if raw > max {
        max
    } else {
        raw
    };
    DecimalRange { min: shown, max }
}

/// A larger logarithm of aim radius over speed (a slower drag at the same aim
/// radius) never lowers the chosen precision.
pub proof fn lemma_decimals_monotone(
    slower: i64,
    faster: i64,
    is_slow_speed: bool,
    min_decimals: usize,
    max_decimals: Option<usize>,
)
    requires
        faster <= slower,
        bounds_consistent(faster, is_slow_speed, min_decimals, max_decimals),
    ensures
        bounds_consistent(slower, is_slow_speed, min_decimals, max_decimals),
        raw_decimals(faster, is_slow_speed) <= raw_decimals(slower, is_slow_speed),
        auto_decimals(faster, is_slow_speed, min_decimals, max_decimals) <= auto_decimals(
            slower,
            is_slow_speed,
            min_decimals,
            max_decimals,
        ),
{
}

/// Slow mode never lowers the chosen precision.
pub proof fn lemma_slow_mode_never_lowers(
    log_ceil: i64,
    min_decimals: usize,
    max_decimals: Option<usize>,
)
    requires
        bounds_consistent(log_ceil, false, min_decimals, max_decimals),
    ensures
        bounds_consistent(log_ceil, true, min_decimals, max_decimals),
        raw_decimals(log_ceil, true) == raw_decimals(log_ceil, false) + 1,
        auto_decimals(log_ceil, false, min_decimals, max_decimals) <= auto_decimals(
            log_ceil,
            true,
            min_decimals,
            max_decimals,
        ),
{
}

} // verus!
