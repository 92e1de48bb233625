//! Integers as binary, octal and hexadecimal text, and back.

use vstd::prelude::*;
use vstd::string::StrSliceExecFns;

verus! {

/// The bases in which an integer can be shown.
#[derive(Clone, Copy, Debug, PartialEq, Eq, Structural)]
pub enum Radix {
    Binary,
    Octal,
    Hexadecimal,
}

impl Radix {
    /// The number of distinct digits.
    pub open spec fn base(self) -> nat {
        match self {
            Radix::Binary => 2,
            Radix::Octal => 8,
            Radix::Hexadecimal => 16,
        }
    }

    /// Executable form of [`Radix::base`].
    pub fn base_value(self) -> (r: u64)
        ensures
            r == self.base(),
            2 <= r <= 16,
    {
        match self {
            Radix::Binary => 2,
            Radix::Octal => 8,
            Radix::Hexadecimal => 16,
        }
    }
}

/// The character for digit `d`; letters are in upper case if `upper`.
pub open spec fn digit_char(d: nat, upper: bool) -> char {
    if d == 0 {
        '0'
    } else if d == 1 {
        '1'
    } else if d == 2 {
        '2'
    } else if d == 3 {
        '3'
    } else if d == 4 {
        '4'
    } else if d == 5 {
        '5'
    } else if d == 6 {
        '6'
    } else if d == 7 {
        '7'
    } else if d == 8 {
        '8'
    } else if d == 9 {
        '9'
    } else if d == 10 {
        if upper { 'A' } else { 'a' }
    } else if d == 11 {
        if upper { 'B' } else { 'b' }
    } else if d == 12 {
        if upper { 'C' } else { 'c' }
    } else if d == 13 {
        if upper { 'D' } else { 'd' }
    } else if d == 14 {
        if upper { 'E' } else { 'e' }
    } else {
        if upper { 'F' } else { 'f' }
    }
}

/// The digit a character stands for, in either case; `None` for any other
/// character.
pub open spec fn digit_value(c: char) -> Option<nat> {
    if c == '0' {
        Some(0nat)
    } else if c == '1' {
        Some(1nat)
    } else if c == '2' {
        Some(2nat)
    } else if c == '3' {
        Some(3nat)
    } else if c == '4' {
        Some(4nat)
    } else if c == '5' {
        Some(5nat)
    } else if c == '6' {
        Some(6nat)
    } else if c == '7' {
        Some(7nat)
    } else if c == '8' {
        Some(8nat)
    } else if c == '9' {
        Some(9nat)
    } else if c == 'a' || c == 'A' {
        Some(10nat)
    } else if c == 'b' || c == 'B' {
        Some(11nat)
    } else if c == 'c' || c == 'C' {
        Some(12nat)
    } else if c == 'd' || c == 'D' {
        Some(13nat)
    } else if c == 'e' || c == 'E' {
        Some(14nat)
    } else if c == 'f' || c == 'F' {
        Some(15nat)
    } else {
        None
    }
}

/// Whether `c` is a digit of the given base.
pub open spec fn is_digit_of(c: char, base: nat) -> bool {
    digit_value(c) is Some && digit_value(c)->0 < base
}

/// Whether every character is a digit of the given base.
pub open spec fn all_digits(s: Seq<char>, base: nat) -> bool {
    forall|i: int| 0 <= i < s.len() ==> is_digit_of(#[trigger] s[i], base)
}

/// The digits of `v`, most significant first, without leading zeros (a lone
/// `0` for zero).
pub open spec fn digits(v: nat, base: nat, upper: bool) -> Seq<char>
    decreases v,
    when base >= 2
    via digits_decreases
{
    if v < base {
        seq![digit_char(v, upper)]
    } else {
        digits(v / base, base, upper).push(digit_char(v % base, upper))
    }
}

#[via_fn]
proof fn digits_decreases(v: nat, base: nat, upper: bool) {
    if v >= base {
        assert(v / base < v) by (nonlinear_arith)
            requires
                base >= 2,
                v >= base,
        ;
    }
}

/// `n` zero characters.
pub open spec fn zeros(n: nat) -> Seq<char> {
    Seq::new(n, |i: int| '0')
}

/// The digits of `v`, with zeros in front where they are fewer than
/// `min_width`.
pub open spec fn padded_digits(v: nat, base: nat, min_width: nat, upper: bool) -> Seq<char> {
    let d = digits(v, base, upper);
    if d.len() >= min_width {
        d
    } else {
        zeros((min_width - d.len()) as nat) + d
    }
}

/// Sign-and-magnitude text: a `-` for a negative value, then the padded
/// digits of the magnitude.
pub open spec fn signed_text(
    negative: bool,
    magnitude: nat,
    base: nat,
    min_width: nat,
    upper: bool,
) -> Seq<char> {
    if negative {
        seq!['-'] + padded_digits(magnitude, base, min_width, upper)
    } else {
        padded_digits(magnitude, base, min_width, upper)
    }
}

/// The 64-bit two's complement pattern of `n`, as a number.
pub open spec fn bit_pattern(n: i64) -> nat {
    if n >= 0 {
        n as nat
    } else {
        (n + 0x1_0000_0000_0000_0000) as nat
    }
}

/// The absolute value of `n`.
pub open spec fn abs_value(n: i64) -> nat {
    if n >= 0 {
        n as nat
    } else {
        (-n) as nat
    }
}

/// The text of the integer `n`: its bit pattern if `twos_complement`, else
/// sign and magnitude.
pub open spec fn integer_text(
    n: i64,
    base: nat,
    min_width: nat,
    twos_complement: bool,
    upper: bool,
) -> Seq<char> {
    if twos_complement {
        padded_digits(bit_pattern(n), base, min_width, upper)
    } else {
        signed_text(n < 0, abs_value(n), base, min_width, upper)
    }
}

/// The number that a sequence of digits denotes.
pub open spec fn digits_value(s: Seq<char>, base: nat) -> nat
    decreases s.len(),
{
    if s.len() == 0 {
        0
    } else {
        digits_value(s.drop_last(), base) * base + digit_value(s.last()).unwrap_or(0)
    }
}

/// What is left of the text once one leading sign is removed.
pub open spec fn unsigned_part(s: Seq<char>) -> Seq<char> {
    if s.len() > 0 && (s[0] == '-' || s[0] == '+') {
        s.subrange(1, s.len() as int)
    } else {
        s
    }
}

/// The signed 64-bit integer that the text denotes: an optional `+` or `-`,
/// then at least one digit of the base and nothing else; `None` for any
/// other text and for a number that does not fit.
pub open spec fn parsed(s: Seq<char>, base: nat) -> Option<i64> {
    let negative = s.len() > 0 && s[0] == '-';
    let body = unsigned_part(s);
    if body.len() == 0 || !all_digits(body, base) {
        None
    } else {
        let m = digits_value(body, base);
        let v: int = if negative {
            -m
        } else {
            m as int
        };
        if i64::MIN <= v <= i64::MAX {
            Some(v as i64)
        } else {
            None
        }
    }
}

/// Calls `String::push`, which appends one character to the string.
#[verifier::external_body]
fn push_char(out: &mut String, c: char)
    ensures
        final(out)@ == old(out)@.push(c),
{
    out.push(c)
}

/// Executable form of [`digit_char`].
pub fn digit_to_char(d: u64, upper: bool) -> (c: char)
    requires
        d < 16,
    ensures
        c == digit_char(d as nat, upper),
{
    if d == 0 {
        '0'
    } else if d == 1 {
        '1'
    } else if d == 2 {
        '2'
    } else if d == 3 {
        '3'
    } else if d == 4 {
        '4'
    } else if d == 5 {
        '5'
    } else if d == 6 {
        '6'
    } else if d == 7 {
        '7'
    } else if d == 8 {
        '8'
    } else if d == 9 {
        '9'
    } else if d == 10 {
        if upper { 'A' } else { 'a' }
    } else if d == 11 {
        if upper { 'B' } else { 'b' }
    } else if d == 12 {
        if upper { 'C' } else { 'c' }
    } else if d == 13 {
        if upper { 'D' } else { 'd' }
    } else if d == 14 {
        if upper { 'E' } else { 'e' }
    } else {
        if upper { 'F' } else { 'f' }
    }
}

/// Executable form of [`digit_value`].
pub fn char_to_digit(c: char) -> (r: Option<u64>)
    ensures
        r is Some <==> digit_value(c) is Some,
        r is Some ==> r->0 == digit_value(c)->0 && r->0 < 16,
{
    if c == '0' {
        Some(0)
    } else if c == '1' {
        Some(1)
    } else if c == '2' {
        Some(2)
    } else if c == '3' {
        Some(3)
    } else if c == '4' {
        Some(4)
    } else if c == '5' {
        Some(5)
    } else if c == '6' {
        Some(6)
    } else if c == '7' {
        Some(7)
    } else if c == '8' {
        Some(8)
    } else if c == '9' {
        Some(9)
    } else if c == 'a' || c == 'A' {
        Some(10)
    } else if c == 'b' || c == 'B' {
        Some(11)
    } else if c == 'c' || c == 'C' {
        Some(12)
    } else if c == 'd' || c == 'D' {
        Some(13)
    } else if c == 'e' || c == 'E' {
        Some(14)
    } else if c == 'f' || c == 'F' {
        Some(15)
    } else {
        None
    }
}

/// The number of digits of `v` does not exceed `v` itself (one for zero).
pub proof fn lemma_digits_len(v: nat, base: nat, upper: bool)
    requires
        base >= 2,
    ensures
        1 <= digits(v, base, upper).len(),
        digits(v, base, upper).len() <= v || v == 0,
        digits(v, base, upper).len() == digits(v, base, !upper).len(),
    decreases v,
{
    if v >= base {
        assert(1 <= v / base < v && v / base + 1 <= v) by (nonlinear_arith)
            requires
                base >= 2,
                v >= base,
        ;
        lemma_digits_len(v / base, base, upper);
    }
}

/// Counts the digits of `v`.
pub fn digit_count(v: u64, base: u64) -> (n: u64)
    requires
        2 <= base <= 16,
    ensures
        n == digits(v as nat, base as nat, true).len(),
        n == digits(v as nat, base as nat, false).len(),
        n >= 1,
    decreases v,
{
    proof {
        lemma_digits_len(v as nat, base as nat, true);
    }
    if v < base {
        1
    } else {
        assert(v / base < v) by (nonlinear_arith)
            requires
                base >= 2,
                v >= base,
        ;
        proof {
            lemma_digits_len((v / base) as nat, base as nat, true);
        }
        digit_count(v / base, base) + 1
    }
}

/// Appends the digits of `v` to `out`.
pub fn push_digits(out: &mut String, v: u64, base: u64, upper: bool)
    requires
        2 <= base <= 16,
    ensures
        final(out)@ == old(out)@ + digits(v as nat, base as nat, upper),
    decreases v,
{
    if v >= base {
        assert(v / base < v) by (nonlinear_arith)
            requires
                base >= 2,
                v >= base,
        ;
        push_digits(out, v / base, base, upper);
    }
    push_char(out, digit_to_char(v % base, upper));
    proof {
        if v >= base {
            let high = digits((v / base) as nat, base as nat, upper);
            let c = digit_char((v % base) as nat, upper);
            assert((old(out)@ + high).push(c) =~= old(out)@ + high.push(c));
        } else {
            assert(v % base == v) by (nonlinear_arith)
                requires
                    v < base,
            ;
            assert(old(out)@.push(digit_char(v as nat, upper)) =~= old(out)@ + seq![
                digit_char(v as nat, upper),
            ]);
        }
    }
}

/// Appends the digits of `v` to `out`, after as many zeros as make them
/// `min_width` characters.
pub fn push_padded(out: &mut String, v: u64, base: u64, min_width: usize, upper: bool)
    requires
        2 <= base <= 16,
    ensures
        final(out)@ == old(out)@ + padded_digits(v as nat, base as nat, min_width as nat, upper),
{
    let count: u64 = digit_count(v, base);
    let width: u64 = min_width as u64;
    let mut written: u64 = count;
    while written < width
        invariant
            count <= written,
            written <= width || written == count,
            out@ == old(out)@ + zeros((written - count) as nat),
        decreases width - written,
    {
        push_char(out, '0');
        written = written + 1;
        assert(out@ =~= old(out)@ + zeros((written - count) as nat));
    }
    let ghost padding = zeros((written - count) as nat);
    push_digits(out, v, base, upper);
    proof {
        let d = digits(v as nat, base as nat, upper);
        assert(out@ == old(out)@ + padding + d);
        if d.len() >= min_width {
            assert(padding =~= Seq::<char>::empty());
            assert(old(out)@ + padding + d =~= old(out)@ + d);
        } else {
            assert(old(out)@ + padding + d =~= old(out)@ + (padding + d));
        }
    }
}

/// Sign-and-magnitude text of a value.
pub fn format_signed(negative: bool, magnitude: u64, radix: Radix, min_width: usize, upper: bool)
    -> (text: String)
    ensures
        text@ == signed_text(negative, magnitude as nat, radix.base(), min_width as nat, upper),
{
    let mut out: String = String::new();
    if negative {
        push_char(&mut out, '-');
    }
    let ghost sign = out@;
    push_padded(&mut out, magnitude, radix.base_value(), min_width, upper);
    proof {
        let body = padded_digits(magnitude as nat, radix.base(), min_width as nat, upper);
        if negative {
            assert(sign =~= seq!['-']);
        } else {
            assert(sign + body =~= body);
        }
    }
    out
}

/// The two's complement pattern of `n`.
pub fn to_bit_pattern(n: i64) -> (r: u64)
    ensures
        r == bit_pattern(n),
{
    if n >= 0 {
        n as u64
    } else {
        let low: i64 = n - i64::MIN;
        low as u64 + 0x8000_0000_0000_0000u64
    }
}

/// Two's complement text of an integer: the digits of its 64-bit pattern,
/// with no sign character.
pub fn format_twos_complement(n: i64, radix: Radix, min_width: usize, upper: bool) -> (text:
    String)
    ensures
        text@ == padded_digits(bit_pattern(n), radix.base(), min_width as nat, upper),
{
    let mut out: String = String::new();
    let ghost start = out@;
    push_padded(&mut out, to_bit_pattern(n), radix.base_value(), min_width, upper);
    proof {
        let body = padded_digits(bit_pattern(n), radix.base(), min_width as nat, upper);
        assert(start + body =~= body);
    }
    out
}

/// The text of an integer in the given base.
pub fn format_integer(n: i64, radix: Radix, min_width: usize, twos_complement: bool, upper: bool)
    -> (text: String)
    ensures
        text@ == integer_text(n, radix.base(), min_width as nat, twos_complement, upper),
{
    if twos_complement {
        format_twos_complement(n, radix, min_width, upper)
    } else {
        let magnitude: u64 = if n >= 0 {
            n as u64
        } else if n == i64::MIN {
            0x8000_0000_0000_0000u64
        } else {
            (-n) as u64
        };
        format_signed(n < 0, magnitude, radix, min_width, upper)
    }
}

/// The value of the first `k` digits never exceeds the value of all of them.
pub proof fn lemma_prefix_value(s: Seq<char>, k: int, base: nat)
    requires
        0 <= k <= s.len(),
        base >= 1,
    ensures
        digits_value(s.subrange(0, k), base) <= digits_value(s, base),
    decreases s.len(),
{
    if k == s.len() {
        assert(s.subrange(0, k) =~= s);
    } else {
        let front = s.drop_last();
        lemma_prefix_value(front, k, base);
        assert(front.subrange(0, k) =~= s.subrange(0, k));
        assert(digits_value(front, base) * base >= digits_value(front, base))
            by (nonlinear_arith)
            requires
                base >= 1,
        ;
    }
}

/// Parses the text of a signed 64-bit integer in the given base.
pub fn parse_radix(text: &str, radix: Radix) -> (r: Option<i64>)
    ensures
        r == parsed(text@, radix.base()),
{
    let base: u64 = radix.base_value();
    let n: usize = text.unicode_len();
    if n == 0 {
        return None;
    }
    let first: char = text.get_char(0);
    let negative: bool = first == '-';
    let start: usize = if first == '-' || first == '+' {
        1
    } else {
        0
    };
    let ghost body = unsigned_part(text@);
    assert(body =~= text@.subrange(start as int, n as int));
    if start == n {
        return None;
    }
    let limit: u64 = 0x8000_0000_0000_0000u64;
    let mut acc: u64 = 0;
    let mut i: usize = start;
    assert(body.subrange(0, 0) =~= Seq::<char>::empty());
    while i < n
        invariant
            start <= i <= n,
            n == text@.len(),
            body == text@.subrange(start as int, n as int),
            body == unsigned_part(text@),
            negative == (text@[0] == '-'),
            start < n,
            base == radix.base(),
            2 <= base <= 16,
            limit == 0x8000_0000_0000_0000u64,
            all_digits(body.subrange(0, i - start), base as nat),
            acc == digits_value(body.subrange(0, i - start), base as nat),
            acc <= limit,
        ensures
            i == n,
        decreases n - i,
    {
        let c: char = text.get_char(i);
        let ghost k = i - start;
        assert(body[k] == c);
        let digit: u64 = match char_to_digit(c) {
            Some(d) => d,
            None => {
                assert(!is_digit_of(body[k], base as nat));
                return None;
            },
        };
        if digit >= base {
            assert(!is_digit_of(body[k], base as nat));
            return None;
        }
        proof {
            let next_prefix = body.subrange(0, k + 1);
            assert(next_prefix.drop_last() =~= body.subrange(0, k));
            assert(next_prefix.last() == c);
            assert(all_digits(next_prefix, base as nat)) by {
                assert forall|j: int| 0 <= j < next_prefix.len() implies is_digit_of(
                    #[trigger] next_prefix[j],
                    base as nat,
                ) by {
                    if j < k {
                        assert(next_prefix[j] == body.subrange(0, k)[j]);
                    }
                }
            }
            assert(acc * base <= 0x8000_0000_0000_0000 * 16) by (nonlinear_arith)
                requires
                    acc <= 0x8000_0000_0000_0000,
                    base <= 16,
            ;
        }
        let next: u128 = (acc as u128) * (base as u128) + (digit as u128);
        assert(next == digits_value(body.subrange(0, k + 1), base as nat));
        if next > limit as u128 {
            proof {
                if all_digits(body, base as nat) {
                    lemma_prefix_value(body, k + 1, base as nat);
                }
            }
            return None;
        }
        acc = next as u64;
        i = i + 1;
    }
    assert(body.subrange(0, n - start) =~= body);
    if negative {
        if acc == limit {
            Some(i64::MIN)
        } else {
            Some(-(acc as i64))
        }
    } else {
        if acc == limit {
            None
        } else {
            Some(acc as i64)
        }
    }
}

/// The digits of a number are digits of the base, and denote that number.
pub proof fn lemma_digits_denote(v: nat, base: nat, upper: bool)
    requires
        2 <= base <= 16,
    ensures
        all_digits(digits(v, base, upper), base),
        digits_value(digits(v, base, upper), base) == v,
        digits(v, base, upper).len() >= 1,
    decreases v,
{
    let d = digits(v, base, upper);
    if v < base {
        assert(d.drop_last() =~= Seq::<char>::empty());
        assert(d.last() == digit_char(v, upper));
        assert(digits_value(d.drop_last(), base) == 0);
        assert(digits_value(d, base) == 0 * base + digit_value(d.last()).unwrap_or(0));
    } else {
        assert(v / base < v && v == (v / base) * base + v % base && v % base < base)
            by (nonlinear_arith)
            requires
                base >= 2,
                v >= base,
        ;
        let high = digits(v / base, base, upper);
        lemma_digits_denote(v / base, base, upper);
        assert(d.drop_last() =~= high);
        assert(d.last() == digit_char(v % base, upper));
        assert forall|i: int| 0 <= i < d.len() implies is_digit_of(#[trigger] d[i], base) by {
            if i < high.len() {
                assert(d[i] == high[i]);
            }
        }
    }
}

/// The digits of a number start with a zero only if the number is zero.
pub proof fn lemma_digits_canonical(v: nat, base: nat, upper: bool)
    requires
        2 <= base <= 16,
    ensures
        (digits(v, base, upper)[0] == '0') == (v == 0),
    decreases v,
{
    if v >= base {
        assert(1 <= v / base < v) by (nonlinear_arith)
            requires
                base >= 2,
                v >= base,
        ;
        lemma_digits_canonical(v / base, base, upper);
        lemma_digits_len(v / base, base, upper);
        let high = digits(v / base, base, upper);
        assert(digits(v, base, upper)[0] == high[0]);
    }
}

/// Zeros in front change neither whether a text is all digits nor the number
/// it denotes.
pub proof fn lemma_leading_zeros(n: nat, s: Seq<char>, base: nat)
    requires
        base >= 2,
        all_digits(s, base),
    ensures
        all_digits(zeros(n) + s, base),
        digits_value(zeros(n) + s, base) == digits_value(s, base),
    decreases s.len(), n,
{
    let whole = zeros(n) + s;
    assert forall|i: int| 0 <= i < whole.len() implies is_digit_of(#[trigger] whole[i], base) by {
        if i >= n {
            assert(whole[i] == s[i - n]);
        }
    }
    if s.len() > 0 {
        lemma_leading_zeros(n, s.drop_last(), base);
        assert(whole.drop_last() =~= zeros(n) + s.drop_last());
        assert(whole.last() == s.last());
    } else if n > 0 {
        lemma_leading_zeros((n - 1) as nat, s, base);
        assert(whole.drop_last() =~= zeros((n - 1) as nat) + s);
        assert(whole.last() == '0');
        assert(digits_value(whole, base) == digits_value(whole.drop_last(), base) * base + 0);
        assert(digits_value(s, base) == 0);
        assert(0 * base == 0) by (nonlinear_arith);
    } else {
        assert(whole =~= s);
    }
}

/// Padded digits are as wide as asked for, or as wide as the number needs,
/// whichever is more; they are digits of the base and denote the number.
pub proof fn lemma_padded_digits(v: nat, base: nat, min_width: nat, upper: bool)
    requires
        2 <= base <= 16,
    ensures
        padded_digits(v, base, min_width, upper).len() == if digits(v, base, upper).len()
            >= min_width {
            digits(v, base, upper).len()
        } else {
            min_width
        },
        all_digits(padded_digits(v, base, min_width, upper), base),
        digits_value(padded_digits(v, base, min_width, upper), base) == v,
        padded_digits(v, base, min_width, upper).len() >= 1,
{
    let d = digits(v, base, upper);
    lemma_digits_denote(v, base, upper);
    if d.len() < min_width {
        lemma_leading_zeros((min_width - d.len()) as nat, d, base);
    }
}

/// Sign-and-magnitude text parses back to the value it was made from,
/// whatever the padding, as long as the value fits a signed 64-bit integer.
pub proof fn lemma_signed_round_trip(
    negative: bool,
    magnitude: nat,
    radix: Radix,
    min_width: nat,
    upper: bool,
)
    requires
        magnitude <= i64::MAX || (negative && magnitude == i64::MAX + 1),
    ensures
        parsed(signed_text(negative, magnitude, radix.base(), min_width, upper), radix.base())
            == Some(
            (if negative {
                -(magnitude as int)
            } else {
                magnitude as int
            }) as i64,
        ),
{
    let base = radix.base();
    let body = padded_digits(magnitude, base, min_width, upper);
    let text = signed_text(negative, magnitude, base, min_width, upper);
    lemma_padded_digits(magnitude, base, min_width, upper);
    if negative {
        assert(text[0] == '-');
        assert(unsigned_part(text) =~= body);
    } else {
        assert(is_digit_of(body[0], base));
        assert(unsigned_part(text) == body);
    }
}

/// An integer's text parses back to that integer: always in
/// sign-and-magnitude form, and for non-negative integers in two's
/// complement form.
pub proof fn lemma_integer_round_trip(
    n: i64,
    radix: Radix,
    min_width: nat,
    twos_complement: bool,
    upper: bool,
)
    requires
        twos_complement ==> n >= 0,
    ensures
        parsed(integer_text(n, radix.base(), min_width, twos_complement, upper), radix.base())
            == Some(n),
{
    if twos_complement {
        lemma_signed_round_trip(false, bit_pattern(n), radix, min_width, upper);
    } else {
        lemma_signed_round_trip(n < 0, abs_value(n), radix, min_width, upper);
    }
}

/// The two's complement text of a negative integer denotes a number above
/// the signed 64-bit range, so it does not parse.
pub proof fn lemma_negative_pattern_unparsed(n: i64, radix: Radix, min_width: nat, upper: bool)
    requires
        n < 0,
    ensures
        parsed(padded_digits(bit_pattern(n), radix.base(), min_width, upper), radix.base())
            is None,
{
    let base = radix.base();
    let body = padded_digits(bit_pattern(n), base, min_width, upper);
    lemma_padded_digits(bit_pattern(n), base, min_width, upper);
    assert(is_digit_of(body[0], base));
    assert(unsigned_part(body) == body);
}

} // verus!
