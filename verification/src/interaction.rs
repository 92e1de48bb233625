//! What one drag value decides in one frame.
//!
//! The host reads the pointer, the keys and the focus, draws the control and
//! does the arithmetic on real numbers; every decision between those steps is
//! taken here.

use vstd::prelude::*;
use vstd::string::StringExecFns;
use crate::widget::DragValue;
use crate::precision::DecimalRange;
use crate::precision::auto_decimals;
use crate::precision::bounds_consistent;
use crate::precision::effective_max_decimals;
use crate::precision::infer_decimals;
use crate::integral::below_zero;
use crate::integral::integer_bits;
use crate::integral::integer_to_bits;
use crate::integral::lemma_integer_bits_exact;
use crate::integral::bits_below_zero;
use crate::integral::lemma_truncated_sign;
use crate::integral::truncate;
use crate::integral::truncate_abs;
use crate::integral::truncated;
use crate::integral::truncated_abs;
use crate::radix::Radix;
use crate::radix::lemma_signed_round_trip;
use crate::radix::parsed;
use crate::radix::parse_radix;
use crate::radix::bit_pattern;
use crate::radix::format_signed;
use crate::radix::format_twos_complement;
use crate::radix::padded_digits;
use crate::radix::signed_text;
use crate::session::MonoState;
use crate::total_order::ClampRange;
use crate::total_order::clamp_to_range;
use crate::total_order::bits_is_zero;
use crate::total_order::bits_numerically_equal;
use crate::total_order::is_zero;
use crate::total_order::numerically_equal;
use crate::total_order::ZERO_BITS;

verus! {

/// What the host saw of this widget in this frame.
#[derive(Clone, Copy, Debug, PartialEq, Eq, Structural)]
pub struct FrameInput {
    /// The widget holds the keyboard focus for text editing.
    pub is_kb_editing: bool,
    /// The label was clicked.
    pub clicked: bool,
    /// The label is being dragged.
    pub dragged: bool,
    /// The label holds the keyboard focus.
    pub has_focus: bool,
    /// Shift, and no other modifier, is held.
    pub shift_only: bool,
    /// This widget is the one being dragged.
    pub is_being_dragged: bool,
    /// Presses of the arrow keys in this frame.
    pub presses_up: usize,
    pub presses_right: usize,
    pub presses_down: usize,
    pub presses_left: usize,
}

/// What the widget does in this frame.
#[derive(Clone, Copy, Debug, PartialEq, Eq, Structural)]
pub enum Mode {
    /// Show the text field and take over what is typed.
    TextEditing,
    /// The label was clicked: ask for the focus, edit from the next frame on.
    EnterTextEditing,
    /// The label is dragged: accumulate the drag.
    Dragging,
    /// Arrow keys move the value by `change` steps.
    KeyboardNudge { change: i128 },
    /// Nothing happens to the value.
    Idle,
}

/// What is settled before the control is drawn.
#[derive(Clone, Copy, Debug, PartialEq, Eq, Structural)]
pub struct FramePlan {
    /// The value read, clamped to the range.
    pub value: u64,
    /// Whether the clamped value differs from the one read and is written back.
    pub write_back: bool,
    /// Whether the drag is slowed down tenfold.
    pub is_slow_speed: bool,
    /// The decimals to round to and the most to show.
    pub decimals: DecimalRange,
    /// The branch to take.
    pub mode: Mode,
}

/// Right and up count up, left and down count down.
pub open spec fn arrow_change_of(input: FrameInput) -> int {
    input.presses_up + input.presses_right - input.presses_down - input.presses_left
}

/// Slow mode: shift alone is held while this widget is dragged.
pub open spec fn slow_speed_of(input: FrameInput) -> bool {
    input.shift_only && input.is_being_dragged
}

/// The branch of the frame: editing wins, then a click, then a drag, then
/// arrow keys under focus if they add up to a change.
pub open spec fn mode_of(input: FrameInput) -> Mode {
    if input.is_kb_editing {
        Mode::TextEditing
    } else if input.clicked {
        Mode::EnterTextEditing
    } else if input.dragged {
        Mode::Dragging
    } else if input.has_focus && arrow_change_of(input) != 0 {
        Mode::KeyboardNudge { change: arrow_change_of(input) as i128 }
    } else {
        Mode::Idle
    }
}

/// The signed number of steps that the arrow keys ask for.
pub fn arrow_change(input: &FrameInput) -> (change: i128)
    ensures
        change == arrow_change_of(*input),
{
    let up: i128 = input.presses_up as i128;
    let right: i128 = input.presses_right as i128;
    let down: i128 = input.presses_down as i128;
    let left: i128 = input.presses_left as i128;
    up + right - down - left
}

/// Whether the drag is slowed down in this frame.
pub fn is_slow_speed(input: &FrameInput) -> (slow: bool)
    ensures
        slow == slow_speed_of(*input),
{
    input.shift_only && input.is_being_dragged
}

/// Chooses the branch of the frame.
pub fn select_mode(input: &FrameInput) -> (mode: Mode)
    ensures
        mode == mode_of(*input),
{
    if input.is_kb_editing {
        Mode::TextEditing
    } else if input.clicked {
        Mode::EnterTextEditing
    } else if input.dragged {
        Mode::Dragging
    } else if input.has_focus {
        let change: i128 = arrow_change(input);
        if change != 0 {
            Mode::KeyboardNudge { change }
        } else {
            Mode::Idle
        }
    } else {
        Mode::Idle
    }
}

/// Settles the frame from the configuration, the input and the value read:
/// the value is clamped (and written back if that changed it numerically),
/// the precision is inferred, the branch is chosen. `log_ceil` is the ceiling
/// of the decimal logarithm of aim radius over absolute speed.
pub fn begin_frame(config: &DragValue, input: &FrameInput, old_value: u64, log_ceil: i64) -> (plan:
    FramePlan)
    requires
        bounds_consistent(
            log_ceil,
            slow_speed_of(*input),
            config.min_decimals,
            config.max_decimals,
        ),
    ensures
        plan.value == config.clamp_range.clamped(old_value),
        config.clamp_range.contains(plan.value),
        plan.write_back == !numerically_equal(old_value, plan.value),
        plan.is_slow_speed == slow_speed_of(*input),
        plan.decimals.min == auto_decimals(
            log_ceil,
            plan.is_slow_speed,
            config.min_decimals,
            config.max_decimals,
        ),
        plan.decimals.max == effective_max_decimals(
            log_ceil,
            plan.is_slow_speed,
            config.max_decimals,
        ),
        plan.mode == mode_of(*input),
{
    let value: u64 = clamp_to_range(old_value, config.clamp_range);
    let is_slow_speed: bool = is_slow_speed(input);
    FramePlan {
        value,
        write_back: !bits_numerically_equal(old_value, value),
        is_slow_speed,
        decimals: infer_decimals(log_ceil, is_slow_speed, config.min_decimals, config.max_decimals),
        mode: select_mode(input),
    }
}

/// The text of a value under the default formatter: `0` for either zero,
/// whatever the decimals, else the decimal rendering handed in.
pub fn default_text(value: u64, rendered: String) -> (text: String)
    ensures
        is_zero(value) ==> text@ == seq!['0'],
        !is_zero(value) ==> text@ == rendered@,
{
    if bits_is_zero(value) {
        proof {
            reveal_strlit("0");
        }
        let zero: String = String::from_str("0");
        assert(zero@ =~= seq!['0']);
        zero
    } else {
        rendered
    }
}

/// The text of a value in an alternate base. In two's complement form it is
/// the bit pattern of the value cut to an integer. Otherwise it is a `-` if
/// the value is below zero, then the absolute value cut to an integer.
pub open spec fn value_text(
    value: u64,
    base: nat,
    min_width: nat,
    twos_complement: bool,
    upper: bool,
) -> Seq<char> {
    if twos_complement {
        padded_digits(bit_pattern(truncated(value) as i64), base, min_width, upper)
    } else {
        signed_text(below_zero(value), truncated_abs(value), base, min_width, upper)
    }
}

/// Formats a value in an alternate base.
pub fn radix_text(
    value: u64,
    radix: Radix,
    min_width: usize,
    twos_complement: bool,
    upper: bool,
) -> (text: String)
    ensures
        text@ == value_text(value, radix.base(), min_width as nat, twos_complement, upper),
{
    if twos_complement {
        format_twos_complement(truncate(value), radix, min_width, upper)
    } else {
        format_signed(bits_below_zero(value), truncate_abs(value), radix, min_width, upper)
    }
}

/// The alternate-base text of a value parses back to the value cut to an
/// integer. In two's complement form this holds for values that are not
/// negative; in sign-and-magnitude form for all but those at or below the
/// smallest 64-bit integer, whose magnitude does not fit.
pub proof fn lemma_value_text_round_trip(
    value: u64,
    radix: Radix,
    min_width: nat,
    twos_complement: bool,
    upper: bool,
)
    requires
        twos_complement ==> truncated(value) >= 0,
        !twos_complement ==> truncated(value) > i64::MIN,
    ensures
        parsed(value_text(value, radix.base(), min_width, twos_complement, upper), radix.base())
            == Some(truncated(value) as i64),
{
    lemma_truncated_sign(value);
    if twos_complement {
        lemma_signed_round_trip(false, bit_pattern(truncated(value) as i64), radix, min_width, upper);
    } else {
        lemma_signed_round_trip(below_zero(value), truncated_abs(value), radix, min_width, upper);
    }
}

/// The value that alternate-base text denotes: the integer it parses to, as
/// a binary64 bit pattern; `None` for text that does not parse.
pub open spec fn parsed_value(s: Seq<char>, base: nat) -> Option<u64> {
    match parsed(s, base) {
        Some(n) => Some(integer_bits(n)),
        None => None,
    }
}

/// Parses alternate-base text to a value.
pub fn parse_radix_value(text: &str, radix: Radix) -> (value: Option<u64>)
    ensures
        value == parsed_value(text@, radix.base()),
{
    match parse_radix(text, radix) {
        Some(n) => Some(integer_to_bits(n)),
        None => None,
    }
}

/// A whole value of at most 53 binary digits comes back unchanged when its
/// alternate-base text is parsed: for every padding, in sign-and-magnitude
/// form, and in two's complement form if it is not negative.
pub proof fn lemma_whole_value_round_trip(
    n: i64,
    radix: Radix,
    min_width: nat,
    twos_complement: bool,
    upper: bool,
)
    requires
        -0x20_0000_0000_0000 < n < 0x20_0000_0000_0000,
        twos_complement ==> n >= 0,
    ensures
        parsed_value(
            value_text(integer_bits(n), radix.base(), min_width, twos_complement, upper),
            radix.base(),
        ) == Some(integer_bits(n)),
{
    lemma_integer_bits_exact(n);
    lemma_value_text_round_trip(integer_bits(n), radix, min_width, twos_complement, upper);
}

/// The label of the control: prefix, value, suffix.
pub fn label_text(prefix: &str, value_text: &str, suffix: &str) -> (label: String)
    ensures
        label@ == prefix@ + value_text@ + suffix@,
{
    let mut label: String = String::from_str(prefix);
    label.append(value_text);
    label.append(suffix);
    label
}

/// The text that the text field starts the frame with: what was typed so
/// far, or the formatted value if nothing was carried over. The carried text
/// is used up.
pub fn seed_edit_text(state: &mut MonoState, value_text: String) -> (text: String)
    ensures
        old(state).edit_string is Some ==> text == old(state).edit_string->0,
        old(state).edit_string is None ==> text == value_text,
        final(state).edit_string is None,
        final(state).last_dragged_id == old(state).last_dragged_id,
        final(state).last_dragged_value == old(state).last_dragged_value,
{
    match state.take_edit_string() {
        Some(carried) => carried,
        None => value_text,
    }
}

/// Ends a frame of text editing. A parsed value is clamped and handed back
/// to be written; text that does not parse writes nothing. Enter drops the
/// text, otherwise it is kept for the next frame.
pub fn finish_text_edit(
    state: &mut MonoState,
    parsed_value: Option<u64>,
    enter_pressed: bool,
    text: String,
    range: ClampRange,
) -> (write: Option<u64>)
    ensures
        parsed_value is None ==> write is None,
        parsed_value is Some ==> write == Some(range.clamped(parsed_value->0)),
        write is Some ==> range.contains(write->0),
        enter_pressed ==> final(state).edit_string is None,
        !enter_pressed ==> final(state).edit_string == Some(text),
        final(state).last_dragged_id == old(state).last_dragged_id,
        final(state).last_dragged_value == old(state).last_dragged_value,
{
    let write: Option<u64> = match parsed_value {
        Some(v) => Some(clamp_to_range(v, range)),
        None => None,
    };
    if enter_pressed {
        state.store_edit_string(None);
    } else {
        state.store_edit_string(Some(text));
    }
    write
}

/// A click starts text editing: stale text is dropped, so that the field is
/// seeded from the value in the next frame.
pub fn begin_text_edit(state: &mut MonoState)
    ensures
        final(state).edit_string is None,
        final(state).last_dragged_id == old(state).last_dragged_id,
        final(state).last_dragged_value == old(state).last_dragged_value,
{
    state.store_edit_string(None);
}

/// Whether a drag of `delta_value` is accumulated: anything that is not
/// numerically zero. A frame without movement changes nothing.
pub fn drag_moves(delta_value: u64) -> (r: bool)
    ensures
        r == !numerically_equal(delta_value, ZERO_BITS),
{
    !bits_numerically_equal(delta_value, ZERO_BITS)
}

/// Whether the value was changed by the frame: the value read at its end is
/// not numerically equal to the one read at its start.
pub fn value_changed(before: u64, after: u64) -> (changed: bool)
    ensures
        changed == !numerically_equal(before, after),
{
    !bits_numerically_equal(before, after)
}

} // verus!
