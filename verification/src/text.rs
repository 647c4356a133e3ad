use vstd::prelude::*;
use vstd::std_specs::iter::IteratorSpec;

verus! {

/// Copies the characters of `s` into a vector, in order.
pub fn chars_of(s: &str) -> (v: Vec<char>)
    ensures
        v@ == s@,
{
    let mut v: Vec<char> = Vec::new();
    for c in it: s.chars()
        invariant
            v@ == it.seq().take(it.index() as int),
            it.seq() == s@,
    {
        v.push(c);
    }
    v
}

/// Whether two strings hold the same characters.
pub fn str_eq(a: &str, b: &str) -> (r: bool)
    ensures
        r == (a@ == b@),
{
    let mut x = a.chars();
    let mut y = b.chars();
    let ghost mut i: int = 0;
    loop
        invariant
            0 <= i <= a@.len(),
            i <= b@.len(),
            a@.take(i) == b@.take(i),
            x.remaining() == a@.skip(i),
            y.remaining() == b@.skip(i),
        decreases a@.len() - i,
    {
        let p = x.next();
        let q = y.next();
        proof {
            if i == a@.len() && i == b@.len() {
                assert(a@.take(i) == a@);
                assert(b@.take(i) == b@);
            }
        }
        match (p, q) {
            (None, None) => {
                return true;
            },
            (Some(c), Some(d)) => {
                if c != d {
                    return false;
                }
                proof {
                    i = i + 1;
                }
            },
            _ => {
                return false;
            },
        }
    }
}

/// A decimal digit.
pub open spec fn is_digit(c: char) -> bool {
    '0' <= c && c <= '9'
}

/// The number that a decimal digit stands for.
pub open spec fn digit_value(c: char) -> nat {
    (c as int - '0' as int) as nat
}

/// Every character of `s` is a decimal digit.
pub open spec fn all_digits(s: Seq<char>) -> bool {
    forall|i: int| 0 <= i < s.len() ==> is_digit(#[trigger] s[i])
}

/// The number that a string of decimal digits stands for, most significant digit first.
pub open spec fn decimal_value(s: Seq<char>) -> nat
    decreases s.len(),
{
    if s.len() == 0 {
        0
    } else {
        decimal_value(s.drop_last()) * 10 + digit_value(s.last())
    }
}

/// The digits of a number text without its sign.
pub open spec fn unsigned_part(s: Seq<char>, minus_allowed: bool) -> Seq<char> {
    if s.len() > 0 && (s[0] == '+' || (minus_allowed && s[0] == '-')) {
        s.skip(1)
    } else {
        s
    }
}

/// The value of a decimal text for an unsigned type with the largest value `max`: an
/// optional `+`, then at least one digit and nothing else; `None` when the text has
/// another form or the value is above `max`.
pub open spec fn unsigned_decimal(s: Seq<char>, max: nat) -> Option<nat> {
    let digits = unsigned_part(s, false);
    if digits.len() > 0 && all_digits(digits) && decimal_value(digits) <= max {
        Some(decimal_value(digits))
    } else {
        None
    }
}

/// The value of a decimal text for a signed type with the range `min..=max`: an optional
/// `+` or `-`, then at least one digit and nothing else.
pub open spec fn signed_decimal(s: Seq<char>, min: int, max: int) -> Option<int> {
    let digits = unsigned_part(s, true);
    let value = if s.len() > 0 && s[0] == '-' {
        -(decimal_value(digits) as int)
    } else {
        decimal_value(digits) as int
    };
    if digits.len() > 0 && all_digits(digits) && min <= value <= max {
        Some(value)
    } else {
        None
    }
}

/// The `u8` that a decimal text stands for.
pub open spec fn decimal_u8(s: Seq<char>) -> Option<u8> {
    match unsigned_decimal(s, u8::MAX as nat) {
        Some(v) => Some(v as u8),
        None => None,
    }
}

/// The `u16` that a decimal text stands for.
pub open spec fn decimal_u16(s: Seq<char>) -> Option<u16> {
    match unsigned_decimal(s, u16::MAX as nat) {
        Some(v) => Some(v as u16),
        None => None,
    }
}

/// The `u32` that a decimal text stands for.
pub open spec fn decimal_u32(s: Seq<char>) -> Option<u32> {
    match unsigned_decimal(s, u32::MAX as nat) {
        Some(v) => Some(v as u32),
        None => None,
    }
}

/// The `i64` that a decimal text stands for.
pub open spec fn decimal_i64(s: Seq<char>) -> Option<i64> {
    match signed_decimal(s, i64::MIN as int, i64::MAX as int) {
        Some(v) => Some(v as i64),
        None => None,
    }
}

/// A longer string of digits stands for a number at least as large as each of its prefixes.
pub proof fn lemma_decimal_value_prefix(s: Seq<char>, k: int)
    requires
        0 <= k <= s.len(),
    ensures
        decimal_value(s.take(k)) <= decimal_value(s),
    decreases s.len(),
{
    if k == s.len() {
        assert(s.take(k) == s);
    } else {
        assert(s.drop_last().take(k) == s.take(k));
        lemma_decimal_value_prefix(s.drop_last(), k);
    }
}

/// Reads the digits `chars[from..]` as a number up to `max`.
fn read_digits(chars: &Vec<char>, from: usize, max: u64) -> (r: Option<u64>)
    requires
        from <= chars.len(),
    ensures
        r is Some <==> from < chars.len() && all_digits(chars@.skip(from as int)) && decimal_value(
            chars@.skip(from as int),
        ) <= max,
        r is Some ==> r->Some_0 == decimal_value(chars@.skip(from as int)),
{
    let ghost digits = chars@.skip(from as int);
    if from == chars.len() {
        return None;
    }
    let mut acc: u64 = 0;
    let mut i: usize = from;
    while i < chars.len()
        invariant
            from <= i <= chars.len(),
            digits == chars@.skip(from as int),
            all_digits(digits.take(i - from)),
            acc == decimal_value(digits.take(i - from)),
            acc <= max,
        decreases chars.len() - i,
    {
        let c = chars[i];
        let ghost k = i - from;
        assert(digits.take(k + 1).drop_last() == digits.take(k));
        assert(digits.take(k + 1).last() == c);
        if !('0' <= c && c <= '9') {
            return None;
        }
        let d: u64 = (c as u32 - '0' as u32) as u64;
        proof {
            lemma_decimal_value_prefix(digits, k + 1);
        }
        if acc > max / 10 {
            return None;
        }
        let shifted: u64 = acc * 10;
        if d > max - shifted {
            return None;
        }
        acc = shifted + d;
        i += 1;
    }
    assert(digits.take(i - from) == digits);
    Some(acc)
}

/// Reads a text as an unsigned decimal number up to `max`.
fn read_unsigned(s: &str, max: u64) -> (r: Option<u64>)
    ensures
        r is Some <==> unsigned_decimal(s@, max as nat) is Some,
        r is Some ==> r->Some_0 == unsigned_decimal(s@, max as nat)->Some_0,
{
    let chars = chars_of(s);
    let from: usize = if chars.len() > 0 && chars[0] == '+' {
        1
    } else {
        0
    };
    assert(chars@.skip(0) == chars@);
    read_digits(&chars, from, max)
}

/// Reads a decimal text as a `u8`.
pub fn parse_u8(s: &str) -> (r: Option<u8>)
    ensures
        r == decimal_u8(s@),
{
    match read_unsigned(s, 255) {
        Some(v) => Some(v as u8),
        None => None,
    }
}

/// Reads a decimal text as a `u16`.
pub fn parse_u16(s: &str) -> (r: Option<u16>)
    ensures
        r == decimal_u16(s@),
{
    match read_unsigned(s, 65535) {
        Some(v) => Some(v as u16),
        None => None,
    }
}

/// Reads a decimal text as a `u32`.
pub fn parse_u32(s: &str) -> (r: Option<u32>)
    ensures
        r == decimal_u32(s@),
{
    match read_unsigned(s, 4294967295) {
        Some(v) => Some(v as u32),
        None => None,
    }
}

/// Reads a decimal text as an `i64`.
pub fn parse_i64(s: &str) -> (r: Option<i64>)
    ensures
        r == decimal_i64(s@),
{
    let chars = chars_of(s);
    let negative = chars.len() > 0 && chars[0] == '-';
    let from: usize = if chars.len() > 0 && (chars[0] == '+' || chars[0] == '-') {
        1
    } else {
        0
    };
    assert(chars@.skip(0) == chars@);
    if negative {
        match read_digits(&chars, from, 9223372036854775808) {
            Some(v) => {
                if v == 9223372036854775808 {
                    Some(i64::MIN)
                } else {
                    Some(-(v as i64))
                }
            },
            None => None,
        }
    } else {
        match read_digits(&chars, from, 9223372036854775807) {
            Some(v) => Some(v as i64),
            None => None,
        }
    }
}

/// The truth value that a text names: `true` or `false`, spelled exactly so.
pub open spec fn boolean(s: Seq<char>) -> Option<bool> {
    if s == "true"@ {
        Some(true)
    } else if s == "false"@ {
        Some(false)
    } else {
        None
    }
}

/// Reads a text as a truth value.
pub fn parse_bool(s: &str) -> (r: Option<bool>)
    ensures
        r == boolean(s@),
{
    if str_eq(s, "true") {
        Some(true)
    } else if str_eq(s, "false") {
        Some(false)
    } else {
        None
    }
}

/// How many decimal digits `s` begins with.
pub open spec fn leading_digits(s: Seq<char>) -> nat
    decreases s.len(),
{
    if s.len() > 0 && is_digit(s[0]) {
        1 + leading_digits(s.skip(1))
    } else {
        0
    }
}

/// `s` spells a word letter by letter, each in its small or in its capital form; the
/// word is given in both.
pub open spec fn spells(s: Seq<char>, small: Seq<char>, capital: Seq<char>) -> bool {
    s.len() == small.len() && s.len() == capital.len() && forall|i: int|
        0 <= i < s.len() ==> (#[trigger] s[i] == small[i] || s[i] == capital[i])
}

/// An exponent: the letter `e`, small or capital, an optional sign, and digits to the end.
pub open spec fn is_exponent(s: Seq<char>) -> bool {
    s.len() > 0 && (s[0] == 'e' || s[0] == 'E') && {
        let digits = unsigned_part(s.skip(1), true);
        digits.len() > 0 && leading_digits(digits) == digits.len()
    }
}

/// A decimal number: digits with at most one point among them, before it or after it at
/// least one digit, and after them an exponent or nothing.
pub open spec fn is_number(s: Seq<char>) -> bool {
    let whole = leading_digits(s);
    let pointed = s.len() > whole && s[whole as int] == '.';
    let fraction = if pointed {
        leading_digits(s.skip(whole as int + 1))
    } else {
        0
    };
    let used = if pointed {
        whole + 1 + fraction
    } else {
        whole
    };
    whole + fraction > 0 && (used == s.len() || is_exponent(s.skip(used as int)))
}

/// The texts that stand for a floating-point number: after an optional sign, `inf`,
/// `infinity` or `nan` in small or capital letters, or a decimal number.
pub open spec fn is_float_literal(s: Seq<char>) -> bool {
    let body = unsigned_part(s, true);
    spells(body, "inf"@, "INF"@) || spells(body, "infinity"@, "INFINITY"@) || spells(
        body,
        "nan"@,
        "NAN"@,
    ) || is_number(body)
}

/// Counts the decimal digits that `chars[from..]` begins with.
fn count_digits(chars: &Vec<char>, from: usize) -> (n: usize)
    requires
        from <= chars.len(),
    ensures
        n == leading_digits(chars@.skip(from as int)),
        from + n <= chars.len(),
{
    let mut i: usize = from;
    while i < chars.len() && '0' <= chars[i] && chars[i] <= '9'
        invariant
            from <= i <= chars.len(),
            leading_digits(chars@.skip(from as int)) == (i - from) + leading_digits(
                chars@.skip(i as int),
            ),
        decreases chars.len() - i,
    {
        assert(chars@.skip(i as int).skip(1) == chars@.skip(i + 1));
        i += 1;
    }
    i - from
}

/// Whether `chars[from..]` spells the word given in small and in capital letters.
fn spells_from(chars: &Vec<char>, from: usize, small: &str, capital: &str) -> (r: bool)
    requires
        from <= chars.len(),
    ensures
        r == spells(chars@.skip(from as int), small@, capital@),
{
    let lower = chars_of(small);
    let upper = chars_of(capital);
    if chars.len() - from != lower.len() || lower.len() != upper.len() {
        return false;
    }
    let ghost body = chars@.skip(from as int);
    let mut i: usize = 0;
    while i < lower.len()
        invariant
            i <= lower.len(),
            lower@ == small@,
            upper@ == capital@,
            lower.len() == upper.len(),
            body == chars@.skip(from as int),
            body.len() == lower.len(),
            from + lower.len() == chars.len(),
            forall|k: int|
                0 <= k < i ==> (#[trigger] body[k] == small@[k] || body[k] == capital@[k]),
        decreases lower.len() - i,
    {
        let c = chars[from + i];
        assert(body[i as int] == c);
        if !(c == lower[i] || c == upper[i]) {
            return false;
        }
        i += 1;
    }
    true
}

/// Whether `chars[at..]` is an exponent.
fn exponent_from(chars: &Vec<char>, at: usize) -> (r: bool)
    requires
        at <= chars.len(),
    ensures
        r == is_exponent(chars@.skip(at as int)),
{
    if at == chars.len() || !(chars[at] == 'e' || chars[at] == 'E') {
        return false;
    }
    let ghost tail = chars@.skip(at as int).skip(1);
    assert(tail == chars@.skip(at + 1));
    let mut from: usize = at + 1;
    if from < chars.len() && (chars[from] == '+' || chars[from] == '-') {
        assert(tail.skip(1) == chars@.skip(from + 1));
        from = from + 1;
    }
    let digits = count_digits(&chars, from);
    digits > 0 && from + digits == chars.len()
}

/// Whether `chars[from..]` is a decimal number.
fn number_from(chars: &Vec<char>, from: usize) -> (r: bool)
    requires
        from <= chars.len(),
    ensures
        r == is_number(chars@.skip(from as int)),
{
    let ghost body = chars@.skip(from as int);
    let whole = count_digits(&chars, from);
    let mut at: usize = from + whole;
    let mut fraction: usize = 0;
    if at < chars.len() && chars[at] == '.' {
        assert(body.skip(whole as int + 1) == chars@.skip(at + 1));
        fraction = count_digits(&chars, at + 1);
        at = at + 1 + fraction;
    }
    if whole + fraction == 0 {
        return false;
    }
    if at == chars.len() {
        return true;
    }
    assert(body.skip(at - from) == chars@.skip(at as int));
    exponent_from(chars, at)
}

/// Whether a text stands for a floating-point number.
pub fn is_float_text(s: &str) -> (r: bool)
    ensures
        r == is_float_literal(s@),
{
    let chars = chars_of(s);
    let from: usize = if chars.len() > 0 && (chars[0] == '+' || chars[0] == '-') {
        1
    } else {
        0
    };
    assert(chars@.skip(0) == chars@);
    spells_from(&chars, from, "inf", "INF") || spells_from(&chars, from, "infinity", "INFINITY")
        || spells_from(&chars, from, "nan", "NAN") || number_from(&chars, from)
}

} // verus!
