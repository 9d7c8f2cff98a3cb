//! Numerals: which texts are numbers, and what an integer text is worth.
//!
//! A number with a fraction or an exponent is kept as it was written, in a
//! [`Numeral`], whose invariant is the grammar below. Turning a numeral into
//! a binary floating-point value is left to the caller.
//!
//! ```text
//! Float   ::= Sign? ( Decimal | "inf" | "infinity" | "nan" )
//! Decimal ::= ( Digit+ | Digit+ "." Digit* | Digit* "." Digit+ ) Exp?
//! Exp     ::= ("e" | "E") Sign? Digit+
//! Sign    ::= "+" | "-"
//! ```
//!
//! The three words are matched without regard to ASCII case.

use crate::text::{append, ascii_lowercase, lowercase_is, slice, to_chars, to_text};
use vstd::prelude::*;

verus! {

/// Whether `c` is an ASCII decimal digit.
pub open spec fn is_digit(c: char) -> bool {
    '0' <= c <= '9'
}

/// Whether `c` is a plus or minus sign.
pub open spec fn is_sign(c: char) -> bool {
    c == '+' || c == '-'
}

/// The first index at or after `i` that holds no digit, or the length.
pub open spec fn digits_end(s: Seq<char>, i: int) -> int
    decreases s.len() - i,
{
    if 0 <= i < s.len() && is_digit(s[i]) {
        digits_end(s, i + 1)
    } else {
        i
    }
}

/// The text after its sign, if it has one.
pub open spec fn unsigned_part(s: Seq<char>) -> Seq<char> {
    if s.len() > 0 && is_sign(s[0]) {
        s.skip(1)
    } else {
        s
    }
}

/// Whether `b` is an exponent: a marker at `j`, an optional sign, and digits
/// up to the end of the text.
pub open spec fn is_exponent_at(b: Seq<char>, j: int) -> bool {
    &&& 0 <= j < b.len()
    &&& (b[j] == 'e' || b[j] == 'E')
    &&& {
        let k = if j + 1 < b.len() && is_sign(b[j + 1]) {
            j + 2
        } else {
            j + 1
        };
        k < b.len() && digits_end(b, k) == b.len()
    }
}

/// Whether `b` is an unsigned decimal number: digits with at most one point
/// among them, at least one digit in all, and an optional exponent.
pub open spec fn is_decimal_body(b: Seq<char>) -> bool {
    let i = digits_end(b, 0);
    let has_point = i < b.len() && b[i] == '.';
    let j = if has_point {
        digits_end(b, i + 1)
    } else {
        i
    };
    let digits = if has_point {
        j - 1
    } else {
        j
    };
    digits >= 1 && (j == b.len() || is_exponent_at(b, j))
}

/// Whether `b` is one of the words for an infinite value or for no number.
pub open spec fn is_special_body(b: Seq<char>) -> bool {
    let word = ascii_lowercase(b);
    word == "inf"@ || word == "infinity"@ || word == "nan"@
}

/// Whether `s` is a finite decimal number with an optional sign.
pub open spec fn is_decimal_literal(s: Seq<char>) -> bool {
    is_decimal_body(unsigned_part(s))
}

/// Whether `s` is a floating-point literal: a decimal number, an infinity or
/// a not-a-number, with an optional sign.
pub open spec fn is_float_literal(s: Seq<char>) -> bool {
    is_decimal_body(unsigned_part(s)) || is_special_body(unsigned_part(s))
}

/// The digits of two to the 1024th less two to the 970th. A number of this
/// size or more is nearer to what would follow the greatest double than to
/// the greatest double itself, and so stands for no finite double.
pub open spec fn double_limit() -> Seq<char> {
    "179769313486231580793728971405303415079934132710037826936173778980444968292764750946649017977587207096330286416692887910946555547851940402630657488671505820681908902000708383676273854845817711531764475730270069855571366959622842914819860834936475292719074168444365510704342711559699508093042880177904174497792"@
}

/// The digit of `s` at `i`, or zero past its end.
pub open spec fn digit_or_zero(s: Seq<char>, i: int) -> char {
    if 0 <= i < s.len() {
        s[i]
    } else {
        '0'
    }
}

/// Whether the digits of `a`, read from index `i` on as the digits after a
/// decimal point, make less than those of `limit`: at the first place where
/// the two differ, `a` has the lesser digit.
pub open spec fn digits_below(a: Seq<char>, limit: Seq<char>, i: int) -> bool
    decreases limit.len() - i,
{
    if i < 0 || i >= limit.len() {
        false
    } else if digit_or_zero(a, i) != limit[i] {
        digit_or_zero(a, i) < limit[i]
    } else {
        digits_below(a, limit, i + 1)
    }
}

/// The first index at or after `i` that holds no zero, or the length.
pub open spec fn zeros_end(s: Seq<char>, i: int) -> int
    decreases s.len() - i,
{
    if 0 <= i < s.len() && s[i] == '0' {
        zeros_end(s, i + 1)
    } else {
        i
    }
}

/// Whether the decimal number `b` has a point after its leading digits.
pub open spec fn has_point(b: Seq<char>) -> bool {
    digits_end(b, 0) < b.len() && b[digits_end(b, 0)] == '.'
}

/// Where the digits and the point of the decimal number `b` end, and its
/// exponent begins if it has one.
pub open spec fn mantissa_end(b: Seq<char>) -> int {
    if has_point(b) {
        digits_end(b, digits_end(b, 0) + 1)
    } else {
        digits_end(b, 0)
    }
}

/// The digits of the decimal number `b` before its exponent, without the
/// point.
pub open spec fn mantissa_digits(b: Seq<char>) -> Seq<char> {
    if has_point(b) {
        b.subrange(0, digits_end(b, 0)) + b.subrange(digits_end(b, 0) + 1, mantissa_end(b))
    } else {
        b.subrange(0, mantissa_end(b))
    }
}

/// The number of digits of the decimal number `b` after its point.
pub open spec fn fraction_len(b: Seq<char>) -> int {
    if has_point(b) {
        mantissa_end(b) - digits_end(b, 0) - 1
    } else {
        0
    }
}

/// The digits of the exponent of the decimal number `b`, without its sign.
pub open spec fn exponent_digits(b: Seq<char>) -> Seq<char> {
    let j = mantissa_end(b);
    if j + 1 < b.len() && is_sign(b[j + 1]) {
        b.subrange(j + 2, b.len() as int)
    } else if j < b.len() {
        b.subrange(j + 1, b.len() as int)
    } else {
        Seq::empty()
    }
}

/// The exponent of the decimal number `b`, or zero where it has none.
pub open spec fn exponent_value(b: Seq<char>) -> int {
    let j = mantissa_end(b);
    let worth = digits_value(exponent_digits(b), exponent_digits(b).len() as int);
    if j + 1 < b.len() && b[j + 1] == '-' {
        -worth
    } else {
        worth
    }
}

/// The digits of the decimal number `b` from its first digit that is not
/// zero.
pub open spec fn significant_digits(b: Seq<char>) -> Seq<char> {
    mantissa_digits(b).skip(zeros_end(mantissa_digits(b), 0))
}

/// The power of ten just above the decimal number `b`: the number of its
/// significant digits that stand before the point once the exponent has
/// moved it.
pub open spec fn magnitude(b: Seq<char>) -> int {
    significant_digits(b).len() - fraction_len(b) + exponent_value(b)
}

/// Whether the decimal number `b` is as large as [`double_limit`] or
/// larger: it is not zero, and it has more digits before the point than the
/// limit, or as many and digits that are not below those of the limit.
pub open spec fn exceeds_double(b: Seq<char>) -> bool {
    significant_digits(b).len() > 0 && (magnitude(b) > double_limit().len() || (magnitude(b)
        == double_limit().len() && !digits_below(significant_digits(b), double_limit(), 0)))
}

/// Whether `s` is a decimal number, with an optional sign, that a finite
/// double can stand for.
pub open spec fn is_finite_literal(s: Seq<char>) -> bool {
    is_decimal_literal(s) && !exceeds_double(unsigned_part(s))
}

/// The worth of the digit `c`.
pub open spec fn digit_value(c: char) -> int {
    c as int - '0' as int
}

/// The worth of the first `n` characters of `s`, read as decimal digits.
pub open spec fn digits_value(s: Seq<char>, n: int) -> int
    decreases n,
{
    if n <= 0 {
        0
    } else {
        digits_value(s, n - 1) * 10 + digit_value(s[n - 1])
    }
}

/// The integer that `s` denotes: an optional sign and at least one digit,
/// with a worth that a signed 64-bit integer can hold.
pub open spec fn integer_value(s: Seq<char>) -> Option<i64> {
    let b = unsigned_part(s);
    if b.len() == 0 || digits_end(b, 0) != b.len() {
        None
    } else {
        let size = digits_value(b, b.len() as int);
        let worth = if s[0] == '-' {
            -size
        } else {
            size
        };
        if i64::MIN <= worth <= i64::MAX {
            Some(worth as i64)
        } else {
            None
        }
    }
}

/// The run of digits from `i` ends within the text.
pub proof fn lemma_digits_end_bounds(s: Seq<char>, i: int)
    requires
        0 <= i <= s.len(),
    ensures
        i <= digits_end(s, i) <= s.len(),
        forall|k: int| i <= k < digits_end(s, i) ==> is_digit(s[k]),
        digits_end(s, i) < s.len() ==> !is_digit(s[digits_end(s, i)]),
    decreases s.len() - i,
{
    if i < s.len() && is_digit(s[i]) {
        lemma_digits_end_bounds(s, i + 1);
    }
}

/// Reading more digits never lowers the worth.
pub proof fn lemma_digits_value_grows(s: Seq<char>, m: int, n: int)
    requires
        0 <= m <= n <= s.len(),
        forall|k: int| 0 <= k < n ==> is_digit(s[k]),
    ensures
        0 <= digits_value(s, m) <= digits_value(s, n),
    decreases n,
{
    if m < n {
        lemma_digits_value_grows(s, m, n - 1);
    } else if n > 0 {
        lemma_digits_value_grows(s, m - 1, n - 1);
    }
}

/// Whether `c` is an ASCII decimal digit.
pub fn is_digit_char(c: char) -> (r: bool)
    ensures
        r == is_digit(c),
{
    '0' <= c && c <= '9'
}

/// The first index at or after `from` that holds no digit, or the length.
pub fn scan_digits(v: &Vec<char>, from: usize) -> (r: usize)
    requires
        from <= v.len(),
    ensures
        r == digits_end(v@, from as int),
        from <= r <= v.len(),
{
    let mut i: usize = from;
    while i < v.len() && is_digit_char(v[i])
        invariant
            from <= i <= v.len(),
            digits_end(v@, i as int) == digits_end(v@, from as int),
        decreases v.len() - i,
    {
        i += 1;
    }
    i
}

/// The text after its sign, if it has one.
pub fn without_sign(v: &Vec<char>) -> (r: Vec<char>)
    ensures
        r@ == unsigned_part(v@),
{
    let start: usize = if v.len() > 0 && (v[0] == '+' || v[0] == '-') {
        1
    } else {
        0
    };
    let r = slice(v, start, v.len());
    assert(v@.subrange(start as int, v@.len() as int) == v@.skip(start as int));
    assert(v@.skip(0) == v@);
    r
}

/// Whether `b` is an unsigned decimal number.
pub fn check_decimal_body(b: &Vec<char>) -> (r: bool)
    ensures
        r == is_decimal_body(b@),
{
    let n = b.len();
    let i = scan_digits(b, 0);
    let has_point = i < n && b[i] == '.';
    let j = if has_point {
        scan_digits(b, i + 1)
    } else {
        i
    };
    let digits = if has_point {
        j - 1
    } else {
        j
    };
    if digits < 1 {
        return false;
    }
    if j == n {
        return true;
    }
    if b[j] != 'e' && b[j] != 'E' {
        return false;
    }
    let k = if j + 1 < n && (b[j + 1] == '+' || b[j + 1] == '-') {
        j + 2
    } else {
        j + 1
    };
    k < n && scan_digits(b, k) == n
}

/// Whether `b` is one of the words for an infinite value or for no number.
pub fn check_special_body(b: &Vec<char>) -> (r: bool)
    ensures
        r == is_special_body(b@),
{
    let inf = to_chars("inf");
    let infinity = to_chars("infinity");
    let nan = to_chars("nan");
    lowercase_is(b, &inf) || lowercase_is(b, &infinity) || lowercase_is(b, &nan)
}

/// Whether `v` is a finite decimal number with an optional sign.
pub fn check_decimal_literal(v: &Vec<char>) -> (r: bool)
    ensures
        r == is_decimal_literal(v@),
{
    let b = without_sign(v);
    check_decimal_body(&b)
}

/// Whether `v` is a floating-point literal.
pub fn check_float_literal(v: &Vec<char>) -> (r: bool)
    ensures
        r == is_float_literal(v@),
{
    let b = without_sign(v);
    check_decimal_body(&b) || check_special_body(&b)
}

/// The worth of a text of digits where it is less than ten to the 30th;
/// else that it is not.
fn bounded_digits_value(e: &Vec<char>) -> (r: Option<u128>)
    requires
        forall|k: int| 0 <= k < e.len() ==> is_digit(e@[k]),
    ensures
        match r {
            Some(worth) => worth == digits_value(e@, e.len() as int) && worth
                < 1_000_000_000_000_000_000_000_000_000_000,
            None => digits_value(e@, e.len() as int)
                >= 1_000_000_000_000_000_000_000_000_000_000,
        },
{
    let n = e.len();
    let mut worth: u128 = 0;
    let mut i: usize = 0;
    while i < n
        invariant
            i <= n,
            n == e.len(),
            forall|k: int| 0 <= k < n ==> is_digit(e@[k]),
            worth == digits_value(e@, i as int),
            worth < 1_000_000_000_000_000_000_000_000_000_000,
        decreases n - i,
    {
        let d: u128 = (e[i] as u32 - '0' as u32) as u128;
        assert(digits_value(e@, i + 1) == worth * 10 + d);
        let next: u128 = worth * 10 + d;
        if next >= 1_000_000_000_000_000_000_000_000_000_000 {
            proof {
                lemma_digits_value_grows(e@, i + 1, n as int);
            }
            return None;
        }
        worth = next;
        i += 1;
    }
    Some(worth)
}

/// Whether the digits of `a`, read as the digits after a decimal point,
/// make less than those of `limit`.
fn check_digits_below(a: &Vec<char>, limit: &Vec<char>) -> (r: bool)
    ensures
        r == digits_below(a@, limit@, 0),
{
    let mut i: usize = 0;
    while i < limit.len()
        invariant
            i <= limit.len(),
            digits_below(a@, limit@, i as int) == digits_below(a@, limit@, 0),
        decreases limit.len() - i,
    {
        let digit = if i < a.len() {
            a[i]
        } else {
            '0'
        };
        if digit != limit[i] {
            return digit < limit[i];
        }
        i += 1;
    }
    false
}

/// Whether the decimal number `b` is as large as the limit of the doubles
/// or larger.
fn check_exceeds_double(b: &Vec<char>) -> (r: bool)
    requires
        is_decimal_body(b@),
    ensures
        r == exceeds_double(b@),
{
    let n = b.len();
    let i = scan_digits(b, 0);
    let pointed = i < n && b[i] == '.';
    let j = if pointed {
        scan_digits(b, i + 1)
    } else {
        i
    };
    let mut mantissa = slice(b, 0, i);
    if pointed {
        append(&mut mantissa, &slice(b, i + 1, j));
    }
    assert(mantissa@ == mantissa_digits(b@));
    let mut z: usize = 0;
    while z < mantissa.len() && mantissa[z] == '0'
        invariant
            z <= mantissa.len(),
            zeros_end(mantissa@, z as int) == zeros_end(mantissa@, 0),
        decreases mantissa.len() - z,
    {
        z += 1;
    }
    let significant = slice(&mantissa, z, mantissa.len());
    assert(significant@ == significant_digits(b@));
    if significant.len() == 0 {
        return false;
    }
    let fraction: usize = if pointed {
        j - i - 1
    } else {
        0
    };
    let signed = j < n && j + 1 < n && (b[j + 1] == '+' || b[j + 1] == '-');
    let negative = signed && b[j + 1] == '-';
    let start = if signed {
        j + 2
    } else if j < n {
        j + 1
    } else {
        n
    };
    let exponent = slice(b, start, n);
    assert(exponent@ == exponent_digits(b@));
    proof {
        if j < n {
            lemma_digits_end_bounds(b@, start as int);
        }
        assert forall|k: int| 0 <= k < exponent.len() implies is_digit(exponent@[k]) by {
            assert(exponent@[k] == b@[start + k]);
        }
    }
    assert(fraction == fraction_len(b@));
    assert(negative == (mantissa_end(b@) + 1 < b@.len() && b@[mantissa_end(b@) + 1] == '-'));
    let limit = to_chars(
        "179769313486231580793728971405303415079934132710037826936173778980444968292764750946649017977587207096330286416692887910946555547851940402630657488671505820681908902000708383676273854845817711531764475730270069855571366959622842914819860834936475292719074168444365510704342711559699508093042880177904174497792",
    );
    let digits: i128 = significant.len() as i128 - fraction as i128;
    let places = limit.len();
    assert(double_limit().len() == places);
    match bounded_digits_value(&exponent) {
        None => {
            assert(usize::MAX <= 0xffff_ffff_ffff_ffff);
            assert(fraction_len(b@) <= usize::MAX);
            assert(significant_digits(b@).len() <= usize::MAX);
            assert(places <= usize::MAX);
            !negative
        },
        Some(worth) => {
            let shift: i128 = if negative {
                -(worth as i128)
            } else {
                worth as i128
            };
            let size: i128 = digits + shift;
            assert(size == magnitude(b@));
            let most: i128 = places as i128;
            size > most || (size == most && !check_digits_below(&significant, &limit))
        },
    }
}

/// Whether `v` is a decimal number, with an optional sign, that a finite
/// double can stand for.
pub fn check_finite_literal(v: &Vec<char>) -> (r: bool)
    ensures
        r == is_finite_literal(v@),
{
    let b = without_sign(v);
    check_decimal_body(&b) && !check_exceeds_double(&b)
}

/// The integer that `v` denotes, if it denotes one.
pub fn parse_integer(v: &Vec<char>) -> (r: Option<i64>)
    ensures
        r == integer_value(v@),
{
    let b = without_sign(v);
    let n = b.len();
    if n == 0 || scan_digits(&b, 0) != n {
        return None;
    }
    proof {
        lemma_digits_end_bounds(b@, 0);
    }
    let negative = v[0] == '-';
    let mut magnitude: u64 = 0;
    let mut i: usize = 0;
    while i < n
        invariant
            i <= n,
            0 < n == b.len(),
            b@ == unsigned_part(v@),
            digits_end(b@, 0) == n,
            forall|k: int| 0 <= k < n ==> is_digit(b@[k]),
            magnitude == digits_value(b@, i as int),
            magnitude <= 0x8000_0000_0000_0000,
        decreases n - i,
    {
        let d: u64 = (b[i] as u32 - '0' as u32) as u64;
        assert(digits_value(b@, i + 1) == magnitude * 10 + d);
        if magnitude > 922337203685477580 {
            proof {
                lemma_digits_value_grows(b@, i + 1, n as int);
            }
            return None;
        }
        let next: u64 = magnitude * 10 + d;
        if next > 0x8000_0000_0000_0000 {
            proof {
                lemma_digits_value_grows(b@, i + 1, n as int);
            }
            return None;
        }
        magnitude = next;
        i += 1;
    }
    if negative {
        if magnitude == 0x8000_0000_0000_0000 {
            Some(i64::MIN)
        } else {
            Some(-(magnitude as i64))
        }
    } else if magnitude <= 0x7fff_ffff_ffff_ffff {
        Some(magnitude as i64)
    } else {
        None
    }
}

/// The character of the digit `d`.
pub open spec fn digit_char(d: int) -> char {
    (d + '0' as int) as char
}

/// The decimal digits of `n`, without leading zeros.
pub open spec fn digits_of(n: nat) -> Seq<char>
    decreases n,
{
    if n < 10 {
        seq![digit_char(n as int)]
    } else {
        digits_of(n / 10).push(digit_char((n % 10) as int))
    }
}

/// The text of the integer `i`: a minus sign where it is negative, and its
/// decimal digits.
pub open spec fn integer_digits(i: int) -> Seq<char> {
    if i < 0 {
        seq!['-'] + digits_of((-i) as nat)
    } else {
        digits_of(i as nat)
    }
}

/// The worth of the first digits of a text does not depend on what follows
/// them.
pub proof fn lemma_digits_value_prefix(s: Seq<char>, t: Seq<char>, n: int)
    requires
        0 <= n <= s.len(),
        n <= t.len(),
        forall|k: int| 0 <= k < n ==> s[k] == t[k],
    ensures
        digits_value(s, n) == digits_value(t, n),
    decreases n,
{
    if n > 0 {
        lemma_digits_value_prefix(s, t, n - 1);
    }
}

/// A text of digits is one run of digits.
pub proof fn lemma_all_digits(s: Seq<char>, i: int)
    requires
        0 <= i <= s.len(),
        forall|k: int| i <= k < s.len() ==> is_digit(s[k]),
    ensures
        digits_end(s, i) == s.len(),
    decreases s.len() - i,
{
    if i < s.len() {
        lemma_all_digits(s, i + 1);
    }
}

/// The digits of a number are digits, and are worth the number.
pub proof fn lemma_digits_of(n: nat)
    ensures
        digits_of(n).len() >= 1,
        forall|k: int| 0 <= k < digits_of(n).len() ==> is_digit(#[trigger] digits_of(n)[k]),
        digits_value(digits_of(n), digits_of(n).len() as int) == n,
    decreases n,
{
    if n < 10 {
        let s = digits_of(n);
        assert(s[0] == digit_char(n as int));
        assert(digits_value(s, 0) == 0);
        assert(digits_value(s, 1) == digits_value(s, 0) * 10 + digit_value(s[0]));
    } else {
        let head = digits_of(n / 10);
        let s = digits_of(n);
        lemma_digits_of(n / 10);
        assert(s == head.push(digit_char((n % 10) as int)));
        lemma_digits_value_prefix(s, head, head.len() as int);
        assert(digits_value(s, s.len() as int) == digits_value(s, s.len() - 1) * 10 + digit_value(
            s[s.len() - 1],
        ));
        assert forall|k: int| 0 <= k < s.len() implies is_digit(#[trigger] s[k]) by {
            if k < head.len() {
                assert(s[k] == head[k]);
            }
        }
    }
}

/// The text of an integer denotes that integer.
pub proof fn lemma_integer_digits(i: i64)
    ensures
        integer_value(integer_digits(i as int)) == Some(i),
{
    let m: nat = if i < 0 {
        (-i) as nat
    } else {
        i as nat
    };
    lemma_digits_of(m);
    let d = digits_of(m);
    let s = integer_digits(i as int);
    if i < 0 {
        assert(s[0] == '-');
        assert(s.skip(1) =~= d);
    } else {
        assert(is_digit(d[0]));
    }
    assert(unsigned_part(s) == d);
    lemma_all_digits(d, 0);
}

/// Appends the decimal digits of `n`.
fn push_digits(n: u64, out: &mut Vec<char>)
    ensures
        final(out)@ == old(out)@ + digits_of(n as nat),
    decreases n,
{
    if n >= 10 {
        push_digits(n / 10, out);
    }
    let d: u8 = (n % 10) as u8;
    let c: char = (d + 48) as char;
    assert(c == digit_char((n % 10) as int));
    let ghost before = out@;
    out.push(c);
    proof {
        if n >= 10 {
            assert(old(out)@ + digits_of((n / 10) as nat).push(c) == (old(out)@ + digits_of(
                (n / 10) as nat,
            )).push(c));
        } else {
            assert(old(out)@ + seq![c] == old(out)@.push(c));
        }
    }
}

/// The text of the integer `i`, which denotes `i` again.
pub fn integer_text(i: i64) -> (r: String)
    ensures
        r@ == integer_digits(i as int),
        integer_value(r@) == Some(i),
{
    let mut out: Vec<char> = Vec::new();
    let magnitude: u64 = if i < 0 {
        out.push('-');
        if i == i64::MIN {
            0x8000_0000_0000_0000
        } else {
            (-i) as u64
        }
    } else {
        i as u64
    };
    push_digits(magnitude, &mut out);
    proof {
        lemma_integer_digits(i);
        if i < 0 {
            assert(out@ == seq!['-'] + digits_of(magnitude as nat));
        } else {
            assert(Seq::<char>::empty() + digits_of(magnitude as nat) == digits_of(
                magnitude as nat,
            ));
        }
    }
    to_text(&out)
}

/// A floating-point literal, kept as it was written.
#[derive(Debug, PartialEq, Eq)]
pub struct Numeral {
    text: String,
}

impl View for Numeral {
    type V = Seq<char>;

    closed spec fn view(&self) -> Seq<char> {
        self.text@
    }
}

impl Numeral {
    #[verifier::type_invariant]
    spec fn well_formed(&self) -> bool {
        is_float_literal(self.text@)
    }

    /// The numeral that `text` spells, if it spells one.
    pub fn parse(text: &str) -> (r: Option<Numeral>)
        ensures
            r is Some <==> is_float_literal(text@),
            r matches Some(n) ==> n@ == text@,
    {
        let v = to_chars(text);
        Numeral::from_chars(&v)
    }

    /// The numeral that the characters spell, if they spell one.
    pub fn from_chars(v: &Vec<char>) -> (r: Option<Numeral>)
        ensures
            r is Some <==> is_float_literal(v@),
            r matches Some(n) ==> n@ == v@,
    {
        if check_float_literal(v) {
            Some(Numeral { text: to_text(v) })
        } else {
            None
        }
    }

    /// The numeral of a decimal number.
    pub(crate) fn of_decimal(v: &Vec<char>) -> (r: Numeral)
        requires
            is_decimal_literal(v@),
        ensures
            r@ == v@,
    {
        Numeral { text: to_text(v) }
    }

    /// The numeral as it was written.
    pub fn as_str(&self) -> (r: &str)
        ensures
            r@ == self@,
            is_float_literal(r@),
    {
        proof {
            use_type_invariant(self);
        }
        self.text.as_str()
    }

    /// Whether the numeral is a decimal number, of whatever size, and so
    /// neither an infinity nor a not-a-number.
    pub fn is_decimal(&self) -> (r: bool)
        ensures
            r == is_decimal_literal(self@),
    {
        let v = to_chars(self.text.as_str());
        check_decimal_literal(&v)
    }

    /// Whether the numeral is a decimal number that a finite double can
    /// stand for.
    pub fn is_finite(&self) -> (r: bool)
        ensures
            r == is_finite_literal(self@),
    {
        let v = to_chars(self.text.as_str());
        check_finite_literal(&v)
    }
}

impl Clone for Numeral {
    fn clone(&self) -> (r: Self)
        ensures
            r@ == self@,
    {
        proof {
            use_type_invariant(self);
        }
        Numeral { text: self.text.clone() }
    }
}

} // verus!
