//! Decimal numbers as text: reading whole numbers and thousandths from
//! their digits, and writing a whole number out.

use vstd::prelude::*;
use vstd::string::StringExecFns;

verus! {

/// Whether `b` is an ASCII digit.
pub open spec fn is_digit(b: u8) -> bool {
    0x30 <= b <= 0x39
}

/// Whether `s` holds nothing but ASCII digits.
pub open spec fn all_digits(s: Seq<u8>) -> bool {
    forall|i: int| 0 <= i < s.len() ==> is_digit(#[trigger] s[i])
}

/// The number that the decimal digits `s` spell; zero for no digits.
pub open spec fn digits_value(s: Seq<u8>) -> nat
    decreases s.len(),
{
    if s.len() == 0 {
        0
    } else {
        digits_value(s.drop_last()) * 10 + (s.last() - 0x30) as nat
    }
}

/// Ten to the power of `e`.
pub open spec fn pow10(e: nat) -> nat
    decreases e,
{
    if e == 0 {
        1
    } else {
        10 * pow10((e - 1) as nat)
    }
}

/// `x`, or the largest `u64` where `x` is larger.
pub open spec fn saturated(x: nat) -> u64 {
    if x > u64::MAX {
        u64::MAX
    } else {
        x as u64
    }
}

/// The unsigned number that `s` spells: one digit or more and nothing else,
/// with a value that fits 64 bits.
pub open spec fn u64_of_text(s: Seq<u8>) -> Option<u64> {
    if s.len() > 0 && all_digits(s) && digits_value(s) <= u64::MAX {
        Some(digits_value(s) as u64)
    } else {
        None
    }
}

/// The signed number that `s` spells: an optional minus sign, then one digit
/// or more and nothing else, with a value that fits 32 bits.
pub open spec fn i32_of_text(s: Seq<u8>) -> Option<i32> {
    if s.len() > 0 && s[0] == 0x2d {
        let rest = s.skip(1);
        if rest.len() > 0 && all_digits(rest) && digits_value(rest) <= 0x8000_0000 {
            Some((0 - digits_value(rest)) as i32)
        } else {
            None
        }
    } else if s.len() > 0 && all_digits(s) && digits_value(s) <= i32::MAX {
        Some(digits_value(s) as i32)
    } else {
        None
    }
}

/// The index of the first byte of `s` from `from` on that is no digit; the
/// length of `s` where there is none.
pub open spec fn digits_end(s: Seq<u8>, from: int) -> int
    decreases s.len() - from,
{
    if 0 <= from < s.len() && is_digit(s[from]) {
        digits_end(s, from + 1)
    } else {
        from
    }
}

/// A decimal number taken apart: the digits before and after the point,
/// joined; how many of them stood after the point; and the exponent of ten.
pub struct Decimal {
    pub digits: Seq<u8>,
    pub fraction: nat,
    pub exponent: int,
}

/// Where the fraction of the number `s` ends: behind the digits that follow
/// a point, or behind the whole part where there is no point.
pub open spec fn fraction_end(s: Seq<u8>) -> int {
    let whole = digits_end(s, 0);
    if whole < s.len() && s[whole] == 0x2e {
        digits_end(s, whole + 1)
    } else {
        whole
    }
}

/// Where the digits of the exponent of the number `s` begin: behind the
/// letter and an optional sign.
pub open spec fn exponent_start(s: Seq<u8>) -> int {
    let letter = fraction_end(s);
    if letter + 1 < s.len() && (s[letter + 1] == 0x2b || s[letter + 1] == 0x2d) {
        letter + 2
    } else {
        letter + 1
    }
}

/// Whether `s` is a decimal number without a sign: one digit or more; then,
/// if at all, a point and one digit or more; then, if at all, the letter `e`
/// in either case, an optional sign, and one to three digits.
pub open spec fn is_decimal(s: Seq<u8>) -> bool {
    let whole = digits_end(s, 0);
    let end = fraction_end(s);
    &&& whole > 0
    &&& whole < s.len() && s[whole] == 0x2e ==> end > whole + 1
    &&& end < s.len() ==> {
        &&& s[end] == 0x65 || s[end] == 0x45
        &&& 1 <= s.len() - exponent_start(s) <= 3
        &&& all_digits(s.skip(exponent_start(s)))
    }
}

/// The parts of the decimal number `s`.
pub open spec fn decimal_of(s: Seq<u8>) -> Decimal {
    let whole = digits_end(s, 0);
    let end = fraction_end(s);
    let fraction = if end > whole {
        s.subrange(whole + 1, end)
    } else {
        Seq::empty()
    };
    let size = if end < s.len() {
        digits_value(s.skip(exponent_start(s))) as int
    } else {
        0
    };
    Decimal {
        digits: s.take(whole) + fraction,
        fraction: fraction.len(),
        exponent: if end + 1 < s.len() && s[end + 1] == 0x2d {
            -size
        } else {
            size
        },
    }
}

/// A decimal number in thousandths, rounded down.
pub open spec fn thousandths(d: Decimal) -> nat {
    let shift = 3 + d.exponent - d.fraction;
    if shift >= 0 {
        digits_value(d.digits) * pow10(shift as nat)
    } else {
        digits_value(d.digits) / pow10((-shift) as nat)
    }
}

/// The number that `s` spells, in thousandths, rounded down and cut at the
/// largest `u64`; nothing where `s` is no decimal number without a sign.
pub open spec fn millis_of_text(s: Seq<u8>) -> Option<u64> {
    if is_decimal(s) {
        Some(saturated(thousandths(decimal_of(s))))
    } else {
        None
    }
}

/// The digits of a number grow by one digit as the number is multiplied by
/// ten and the digit added.
pub proof fn lemma_digits_push(s: Seq<u8>, d: u8)
    ensures
        digits_value(s.push(d)) == digits_value(s) * 10 + (d - 0x30) as nat,
{
    assert(s.push(d).drop_last() =~= s);
}

/// The start of a run of digits spells no more than the whole run.
pub proof fn lemma_digits_prefix(s: Seq<u8>, n: int)
    requires
        0 <= n <= s.len(),
    ensures
        digits_value(s.take(n)) <= digits_value(s),
    decreases s.len() - n,
{
    if n == s.len() {
        assert(s.take(n) =~= s);
    } else {
        lemma_digits_prefix(s, n + 1);
        assert(s.take(n + 1).drop_last() =~= s.take(n));
    }
}

/// A run of `n` digits spells less than ten to the power of `n`.
pub proof fn lemma_digits_bound(s: Seq<u8>)
    requires
        all_digits(s),
    ensures
        digits_value(s) < pow10(s.len()),
    decreases s.len(),
{
    if s.len() > 0 {
        assert(all_digits(s.drop_last())) by {
            assert forall|i: int| 0 <= i < s.drop_last().len() implies is_digit(
                #[trigger] s.drop_last()[i],
            ) by {
                assert(s.drop_last()[i] == s[i]);
            }
        }
        lemma_digits_bound(s.drop_last());
        assert(is_digit(s[s.len() - 1]));
    }
}

/// Ten to any power is at least one, and each power is ten times the one
/// before.
pub proof fn lemma_pow10_positive(e: nat)
    ensures
        pow10(e) >= 1,
        pow10(e + 1) == 10 * pow10(e),
    decreases e,
{
    if e > 0 {
        lemma_pow10_positive((e - 1) as nat);
    }
}

/// Dropping the last `k` of a run of digits divides the number they spell by
/// ten to the power of `k`, rounding down.
pub proof fn lemma_digits_drop(s: Seq<u8>, k: nat)
    requires
        all_digits(s),
        k <= s.len(),
    ensures
        digits_value(s) / pow10(k) == digits_value(s.take(s.len() - k)),
    decreases k,
{
    if k == 0 {
        assert(s.take(s.len() as int) =~= s);
        assert(pow10(0) == 1);
    } else {
        let shorter = s.drop_last();
        assert(all_digits(shorter)) by {
            assert forall|i: int| 0 <= i < shorter.len() implies is_digit(#[trigger] shorter[i]) by {
                assert(shorter[i] == s[i]);
            }
        }
        lemma_digits_drop(shorter, (k - 1) as nat);
        assert(shorter.take(shorter.len() - (k - 1)) =~= s.take(s.len() - k));
        let v = digits_value(s) as int;
        let d = (s.last() - 0x30) as int;
        let p = pow10((k - 1) as nat) as int;
        assert(is_digit(s[s.len() - 1]));
        assert(v == digits_value(shorter) * 10 + d);
        assert(v / 10 == digits_value(shorter)) by {
            vstd::arithmetic::div_mod::lemma_fundamental_div_mod_converse(
                v,
                10,
                digits_value(shorter) as int,
                d,
            );
        }
        lemma_pow10_positive((k - 1) as nat);
        assert(pow10(k) as int == 10 * p);
        vstd::arithmetic::div_mod::lemma_div_denominator(v, 10, p);
        assert((v / 10) / p == v / (10 * p));
        assert(digits_value(shorter) as int / p == digits_value(s.take(s.len() - k)));
    }
}

/// The index of the first byte of `text` from `from` on that is no digit.
fn scan_digits(text: &[u8], from: usize) -> (end: usize)
    requires
        from <= text.len(),
    ensures
        end == digits_end(text@, from as int),
        from <= end <= text.len(),
        all_digits(text@.subrange(from as int, end as int)),
        end < text.len() ==> !is_digit(text@[end as int]),
{
    let mut i: usize = from;
    while i < text.len() && text[i] >= 0x30 && text[i] <= 0x39
        invariant
            from <= i <= text.len(),
            digits_end(text@, from as int) == digits_end(text@, i as int),
            forall|k: int| from <= k < i ==> is_digit(#[trigger] text@[k]),
        decreases text.len() - i,
    {
        i = i + 1;
    }
    assert(all_digits(text@.subrange(from as int, i as int))) by {
        assert forall|k: int| 0 <= k < i - from implies is_digit(
            #[trigger] text@.subrange(from as int, i as int)[k],
        ) by {
            assert(is_digit(text@[from + k]));
        }
    }
    i
}

/// The number that a run of digits spells, cut at the largest `u64`.
fn read_digits(digits: &[u8]) -> (value: u64)
    requires
        all_digits(digits@),
    ensures
        value == saturated(digits_value(digits@)),
{
    let mut acc: u64 = 0;
    let mut i: usize = 0;
    assert(digits@.take(0) =~= Seq::empty());
    while i < digits.len()
        invariant
            0 <= i <= digits.len(),
            all_digits(digits@),
            acc == saturated(digits_value(digits@.take(i as int))),
        decreases digits.len() - i,
    {
        let d: u8 = digits[i] - 0x30;
        proof {
            assert(is_digit(digits@[i as int]));
            assert(digits@.take(i as int + 1) =~= digits@.take(i as int).push(digits@[i as int]));
            lemma_digits_push(digits@.take(i as int), digits@[i as int]);
        }
        let wide: u128 = acc as u128 * 10 + d as u128;
        acc = if wide > u64::MAX as u128 {
            u64::MAX
        } else {
            wide as u64
        };
        i = i + 1;
    }
    assert(digits@.take(i as int) =~= digits@);
    acc
}

/// Reads an unsigned whole number from its decimal digits.
pub fn parse_u64(text: &[u8]) -> (r: Option<u64>)
    ensures
        r == u64_of_text(text@),
{
    if text.len() == 0 {
        return None;
    }
    let end = scan_digits(text, 0);
    if end < text.len() {
        return None;
    }
    assert(text@.subrange(0, end as int) =~= text@);
    let mut acc: u64 = 0;
    let mut i: usize = 0;
    assert(text@.take(0) =~= Seq::empty());
    while i < text.len()
        invariant
            0 <= i <= text.len(),
            all_digits(text@),
            acc == digits_value(text@.take(i as int)),
        decreases text.len() - i,
    {
        let d: u8 = text[i] - 0x30;
        proof {
            assert(is_digit(text@[i as int]));
            assert(text@.take(i as int + 1) =~= text@.take(i as int).push(text@[i as int]));
            lemma_digits_push(text@.take(i as int), text@[i as int]);
            lemma_digits_prefix(text@, i as int + 1);
        }
        let wide: u128 = acc as u128 * 10 + d as u128;
        if wide > u64::MAX as u128 {
            return None;
        }
        acc = wide as u64;
        i = i + 1;
    }
    assert(text@.take(i as int) =~= text@);
    Some(acc)
}

/// Reads a signed whole number of 32 bits from its decimal digits.
pub fn parse_i32(text: &[u8]) -> (r: Option<i32>)
    ensures
        r == i32_of_text(text@),
{
    if text.len() == 0 {
        return None;
    }
    if text[0] == 0x2d {
        let rest = vstd::slice::slice_subrange(text, 1, text.len());
        assert(rest@ =~= text@.skip(1));
        match parse_u64(rest) {
            Some(n) => {
                if n <= 0x8000_0000 {
                    Some((0 - n as i64) as i32)
                } else {
                    None
                }
            },
            None => None,
        }
    } else {
        match parse_u64(text) {
            Some(n) => {
                if n <= 0x7fff_ffff {
                    Some(n as i32)
                } else {
                    None
                }
            },
            None => None,
        }
    }
}

/// Takes a decimal number without a sign apart: its digits, how many of
/// them stood behind the point, and its exponent.
fn read_decimal(text: &[u8]) -> (r: Option<(Vec<u8>, usize, i32)>)
    ensures
        match r {
            Some((digits, fraction, exponent)) => {
                &&& is_decimal(text@)
                &&& digits@ == decimal_of(text@).digits
                &&& fraction == decimal_of(text@).fraction
                &&& exponent == decimal_of(text@).exponent
                &&& all_digits(digits@)
                &&& fraction < digits@.len()
                &&& -1000 < exponent < 1000
            },
            None => !is_decimal(text@),
        },
{
    let n = text.len();
    let whole = scan_digits(text, 0);
    if whole == 0 {
        return None;
    }
    let end = if whole < n && text[whole] == 0x2e {
        scan_digits(text, whole + 1)
    } else {
        whole
    };
    if whole < n && text[whole] == 0x2e && end == whole + 1 {
        return None;
    }
    assert(end == fraction_end(text@));
    let mut exponent: i32 = 0;
    if end < n {
        if text[end] != 0x65 && text[end] != 0x45 {
            return None;
        }
        let mut start = end + 1;
        let mut negative = false;
        if start < n && (text[start] == 0x2b || text[start] == 0x2d) {
            negative = text[start] == 0x2d;
            start = start + 1;
        }
        assert(start == exponent_start(text@));
        if start >= n || n - start > 3 {
            return None;
        }
        let stop = scan_digits(text, start);
        assert(text@.subrange(start as int, n as int) =~= text@.skip(start as int));
        if stop < n {
            assert(text@.skip(start as int)[stop - start] == text@[stop as int]);
            return None;
        }
        let tail = vstd::slice::slice_subrange(text, start, n);
        let size = read_digits(tail);
        proof {
            lemma_digits_bound(tail@);
            assert(pow10(tail@.len()) <= 1000) by {
                reveal_with_fuel(pow10, 4);
            }
        }
        exponent = if negative {
            0 - size as i32
        } else {
            size as i32
        };
    }
    let mut digits: Vec<u8> = vstd::slice::slice_to_vec(vstd::slice::slice_subrange(text, 0, whole));
    assert(digits@ =~= text@.take(whole as int));
    if end > whole {
        digits.extend_from_slice(vstd::slice::slice_subrange(text, whole + 1, end));
    }
    let fraction: usize = if end > whole {
        end - whole - 1
    } else {
        0
    };
    assert(digits@ =~= decimal_of(text@).digits);
    assert(all_digits(digits@)) by {
        assert forall|i: int| 0 <= i < digits@.len() implies is_digit(#[trigger] digits@[i]) by {
            if i < whole {
                assert(digits@[i] == text@.subrange(0, whole as int)[i]);
            } else {
                assert(digits@[i] == text@.subrange(whole as int + 1, end as int)[i - whole]);
            }
        }
    }
    Some((digits, fraction, exponent))
}

/// A number, given by its parts, in thousandths, rounded down and cut at the
/// largest `u64`.
fn scale_thousandths(digits: &[u8], fraction: usize, exponent: i32) -> (r: u64)
    requires
        all_digits(digits@),
        fraction <= digits@.len(),
        -1000 < exponent < 1000,
    ensures
        r == saturated(
            thousandths(
                Decimal { digits: digits@, fraction: fraction as nat, exponent: exponent as int },
            ),
        ),
{
    // How many of the digits stand before the point once the number is
    // taken a thousandfold and the exponent applied.
    let keep: i128 = digits.len() as i128 - fraction as i128 + 3 + exponent as i128;
    let ghost shift: int = 3 + exponent - fraction;
    if keep <= 0 {
        proof {
            lemma_digits_bound(digits@);
            lemma_pow10_grows(digits@.len(), (-shift) as nat);
            vstd::arithmetic::div_mod::lemma_basic_div(
                digits_value(digits@) as int,
                pow10((-shift) as nat) as int,
            );
        }
        return 0;
    }
    if keep <= digits.len() as i128 {
        let kept = vstd::slice::slice_subrange(digits, 0, keep as usize);
        proof {
            assert(kept@ =~= digits@.take(keep as int));
            assert(all_digits(kept@)) by {
                assert forall|i: int| 0 <= i < kept@.len() implies is_digit(#[trigger] kept@[i]) by {
                    assert(kept@[i] == digits@[i]);
                }
            }
            if shift == 0 {
                assert(pow10(0) == 1);
                assert(digits_value(digits@) * 1 == digits_value(digits@)) by (nonlinear_arith);
                assert(kept@ =~= digits@);
            } else {
                lemma_digits_drop(digits@, (-shift) as nat);
            }
        }
        return read_digits(kept);
    }
    let mut acc: u64 = read_digits(digits);
    let pad: u64 = (keep - digits.len() as i128) as u64;
    let mut i: u64 = 0;
    assert(pow10(0) == 1);
    assert(digits_value(digits@) * 1 == digits_value(digits@)) by (nonlinear_arith);
    while i < pad
        invariant
            0 <= i <= pad,
            acc == saturated(digits_value(digits@) * pow10(i as nat)),
        decreases pad - i,
    {
        proof {
            lemma_pow10_positive(i as nat);
            let v = digits_value(digits@);
            let p = pow10(i as nat);
            assert(v * (10 * p) == (v * p) * 10) by (nonlinear_arith);
        }
        let wide: u128 = acc as u128 * 10;
        acc = if wide > u64::MAX as u128 {
            u64::MAX
        } else {
            wide as u64
        };
        i = i + 1;
    }
    acc
}

/// Reads a decimal number without a sign and returns it in thousandths,
/// rounded down and cut at the largest `u64`.
pub fn parse_millis(text: &[u8]) -> (r: Option<u64>)
    ensures
        r == millis_of_text(text@),
{
    match read_decimal(text) {
        Some((digits, fraction, exponent)) => Some(
            scale_thousandths(digits.as_slice(), fraction, exponent),
        ),
        None => None,
    }
}

/// Ten to a larger power is no smaller.
pub proof fn lemma_pow10_grows(a: nat, b: nat)
    requires
        a <= b,
    ensures
        pow10(a) <= pow10(b),
    decreases b,
{
    if a < b {
        lemma_pow10_grows(a, (b - 1) as nat);
        lemma_pow10_positive((b - 1) as nat);
    }
}

/// The character of the decimal digit `d`.
pub open spec fn digit_char(d: nat) -> char {
    if d == 0 {
        '0'
    } else if d == 1 {
        '1'
    } else if d == 2 {
        '2'
    } else if d == 3 {
        '3'
    } else if d == 4 {
        '4'
    } else if d == 5 {
        '5'
    } else if d == 6 {
        '6'
    } else if d == 7 {
        '7'
    } else if d == 8 {
        '8'
    } else {
        '9'
    }
}

/// The decimal digits of `n`, without leading zeros.
pub open spec fn decimal_text(n: nat) -> Seq<char>
    decreases n,
{
    if n < 10 {
        seq![digit_char(n)]
    } else {
        decimal_text(n / 10).push(digit_char(n % 10))
    }
}

/// The decimal digits of `n`, behind a minus sign where `n` is negative.
pub open spec fn integer_text(n: int) -> Seq<char> {
    if n < 0 {
        seq!['-'] + decimal_text((-n) as nat)
    } else {
        decimal_text(n as nat)
    }
}

/// The decimal digit `d` as text.
fn digit_text(d: u64) -> (s: &'static str)
    requires
        d < 10,
    ensures
        s@ == seq![digit_char(d as nat)],
{
    proof {
        reveal_strlit("0");
        reveal_strlit("1");
        reveal_strlit("2");
        reveal_strlit("3");
        reveal_strlit("4");
        reveal_strlit("5");
        reveal_strlit("6");
        reveal_strlit("7");
        reveal_strlit("8");
        reveal_strlit("9");
    }
    let s = if d == 0 {
        "0"
    } else if d == 1 {
        "1"
    } else if d == 2 {
        "2"
    } else if d == 3 {
        "3"
    } else if d == 4 {
        "4"
    } else if d == 5 {
        "5"
    } else if d == 6 {
        "6"
    } else if d == 7 {
        "7"
    } else if d == 8 {
        "8"
    } else {
        "9"
    };
    assert(s@ =~= seq![digit_char(d as nat)]);
    s
}

/// Writes an unsigned number in decimal.
pub fn format_u64(n: u64) -> (s: String)
    ensures
        s@ == decimal_text(n as nat),
    decreases n,
{
    if n < 10 {
        String::from_str(digit_text(n))
    } else {
        let mut s = format_u64(n / 10);
        s.append(digit_text(n % 10));
        assert(s@ =~= decimal_text(n as nat));
        s
    }
}

/// Writes a signed number in decimal.
pub fn format_i32(n: i32) -> (s: String)
    ensures
        s@ == integer_text(n as int),
{
    if n < 0 {
        proof {
            reveal_strlit("-");
        }
        let magnitude: u64 = (0 - n as i64) as u64;
        let digits = format_u64(magnitude);
        let s = String::from_str("-").concat(digits.as_str());
        assert(s@ =~= integer_text(n as int));
        s
    } else {
        format_u64(n as u64)
    }
}

} // verus!
