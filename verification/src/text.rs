//! Text as sequences of characters: comparison, search, and decimal numerals.

use vstd::prelude::*;
use vstd::string::{StrSliceExecFns, StringExecFns};

verus! {

/// `pattern` stands in `s` at offset `at`.
pub open spec fn occurs_at(pattern: Seq<char>, s: Seq<char>, at: int) -> bool {
    &&& 0 <= at
    &&& at + pattern.len() <= s.len()
    &&& s.subrange(at, at + pattern.len()) == pattern
}

/// `pattern` stands somewhere in `s`.
pub open spec fn occurs_in(pattern: Seq<char>, s: Seq<char>) -> bool {
    exists|at: int| occurs_at(pattern, s, at)
}

/// The characters of a string, in order.
pub fn chars_of(s: &str) -> (r: Vec<char>)
    ensures
        r@ == s@,
{
    let mut out: Vec<char> = Vec::new();
    for c in iter: s.chars()
        invariant
            out@ == iter.history(),
            iter.seq() == s@,
    {
        out.push(c);
    }
    out
}

/// Whether `pattern` stands in `s` at offset `at`.
fn matches_at(s: &Vec<char>, pattern: &Vec<char>, at: usize) -> (r: bool)
    requires
        at + pattern@.len() <= s@.len(),
    ensures
        r == occurs_at(pattern@, s@, at as int),
{
    let mut k: usize = 0;
    assert(s@.len() == s.len());
    while k < pattern.len()
        invariant
            k <= pattern@.len(),
            at + pattern@.len() <= s@.len(),
            s@.len() <= usize::MAX,
            forall|j: int| 0 <= j < k ==> s@[at + j] == pattern@[j],
        decreases pattern@.len() - k,
    {
        if s[at + k] != pattern[k] {
            proof {
                let window = s@.subrange(at as int, at + pattern@.len());
                assert(window[k as int] == s@[at + k]);
            }
            return false;
        }
        k += 1;
    }
    assert(s@.subrange(at as int, at + pattern@.len()) =~= pattern@);
    true
}

/// Whether a string holds exactly the given characters.
pub fn text_is(s: &str, chars: &Vec<char>) -> (r: bool)
    ensures
        r == (s@ == chars@),
{
    let mut seen: usize = 0;
    for c in iter: s.chars()
        invariant
            iter.seq() == s@,
            seen == iter.index(),
            seen <= chars@.len(),
            forall|j: int| 0 <= j < seen ==> s@[j] == chars@[j],
    {
        if seen >= chars.len() || chars[seen] != c {
            return false;
        }
        seen += 1;
    }
    assert(seen == chars@.len() ==> s@ =~= chars@);
    seen == chars.len()
}

/// Whether two strings hold the same characters.
pub fn same_text(a: &str, b: &str) -> (r: bool)
    ensures
        r == (a@ == b@),
{
    let right = chars_of(b);
    text_is(a, &right)
}

/// Whether `s` begins with `prefix`.
pub fn starts_with(s: &str, prefix: &str) -> (r: bool)
    ensures
        r == prefix@.is_prefix_of(s@),
{
    let whole = chars_of(s);
    let head = chars_of(prefix);
    if head.len() > whole.len() {
        return false;
    }
    matches_at(&whole, &head, 0)
}

/// Whether `pattern` stands somewhere in `s`.
pub fn contains(s: &str, pattern: &str) -> (r: bool)
    ensures
        r == occurs_in(pattern@, s@),
{
    let whole = chars_of(s);
    let part = chars_of(pattern);
    if part.len() > whole.len() {
        return false;
    }
    let last: usize = whole.len() - part.len();
    let mut at: usize = 0;
    loop
        invariant
            at <= last,
            last == whole@.len() - part@.len(),
            whole@ == s@,
            part@ == pattern@,
            forall|j: int| 0 <= j < at ==> !occurs_at(part@, whole@, j),
        decreases last - at,
    {
        if matches_at(&whole, &part, at) {
            return true;
        }
        if at == last {
            return false;
        }
        at += 1;
    }
}

/// The character that writes the digit `d`.
pub open spec fn digit_char(d: int) -> char {
    "0123456789"@[d]
}

/// The decimal numeral of a natural number, without leading zeros.
pub open spec fn decimal_digits(n: nat) -> Seq<char>
    decreases n,
{
    if n < 10 {
        seq![digit_char(n as int)]
    } else {
        decimal_digits(n / 10).push(digit_char((n % 10) as int))
    }
}

/// The decimal numeral of an integer: a minus sign where it is negative,
/// then the numeral of its magnitude.
pub open spec fn decimal(i: int) -> Seq<char> {
    if i < 0 {
        seq!['-'] + decimal_digits((-i) as nat)
    } else {
        decimal_digits(i as nat)
    }
}

/// The one-character string of a digit.
fn digit_str(d: u64) -> (r: &'static str)
    requires
        d < 10,
    ensures
        r@ == seq![digit_char(d as int)],
{
    let digits = "0123456789";
    proof {
        reveal_strlit("0123456789");
    }
    let at = d as usize;
    let r = digits.substring_ascii(at, at + 1);
    assert(r@ =~= seq![digit_char(d as int)]);
    r
}

/// Appends the decimal numeral of `n` to `out`.
pub fn push_digits(out: &mut String, n: u64)
    ensures
        final(out)@ == old(out)@ + decimal_digits(n as nat),
    decreases n,
{
    if n >= 10 {
        push_digits(out, n / 10);
    }
    out.append(digit_str(n % 10));
    assert(out@ =~= old(out)@ + decimal_digits(n as nat));
}

/// Appends the decimal numeral of `i` to `out`.
pub fn push_decimal(out: &mut String, i: i64)
    ensures
        final(out)@ == old(out)@ + decimal(i as int),
{
    if i < 0 {
        proof { reveal_strlit("-"); }
        out.append("-");
        let magnitude: u64 = ((-(i + 1)) as u64) + 1;
        push_digits(out, magnitude);
        assert(out@ =~= old(out)@ + decimal(i as int));
    } else {
        push_digits(out, i as u64);
    }
}

/// The decimal numeral of `i` as a string.
pub fn decimal_string(i: i64) -> (r: String)
    ensures
        r@ == decimal(i as int),
{
    let mut out = String::new();
    push_decimal(&mut out, i);
    assert(out@ =~= decimal(i as int));
    out
}

/// Whether a character is white space.
pub open spec fn is_space(c: char) -> bool {
    let u = c as int;
    ||| 0x09 <= u <= 0x0d
    ||| u == 0x20
    ||| u == 0x85
    ||| u == 0xa0
    ||| u == 0x1680
    ||| 0x2000 <= u <= 0x200a
    ||| u == 0x2028
    ||| u == 0x2029
    ||| u == 0x202f
    ||| u == 0x205f
    ||| u == 0x3000
}

/// Where the white space that begins at `from` ends.
pub open spec fn skip_spaces(s: Seq<char>, from: int) -> int
    decreases s.len() - from,
{
    if 0 <= from < s.len() && is_space(s[from]) {
        skip_spaces(s, from + 1)
    } else {
        from
    }
}

/// Where the white space that ends at `upto` begins.
pub open spec fn drop_spaces(s: Seq<char>, upto: int) -> int
    decreases upto,
{
    if 0 < upto <= s.len() && is_space(s[upto - 1]) {
        drop_spaces(s, upto - 1)
    } else {
        upto
    }
}

/// A text without the white space at its ends.
pub open spec fn trimmed(s: Seq<char>) -> Seq<char> {
    let from = skip_spaces(s, 0);
    let upto = drop_spaces(s, s.len() as int);
    if from < upto {
        s.subrange(from, upto)
    } else {
        Seq::empty()
    }
}

/// Whether a character is a decimal digit.
pub open spec fn is_digit(c: char) -> bool {
    '0' <= c <= '9'
}

/// The number that the first `upto` characters write, where they are
/// digits.
pub open spec fn digits_value(s: Seq<char>, upto: int) -> int
    decreases upto,
{
    if upto <= 0 {
        0
    } else {
        digits_value(s, upto - 1) * 10 + (s[upto - 1] as int - '0' as int)
    }
}

/// Every character is a digit.
pub open spec fn all_digits(s: Seq<char>) -> bool {
    forall|i: int| 0 <= i < s.len() ==> is_digit(#[trigger] s[i])
}

/// The number up to `max` that digits write: there is one digit or more.
pub open spec fn digits_number(digits: Seq<char>, max: int) -> Option<int> {
    if digits.len() > 0 && all_digits(digits) && digits_value(digits, digits.len() as int) <= max {
        Some(digits_value(digits, digits.len() as int))
    } else {
        None
    }
}

/// The number up to `max` that a numeral writes: one digit or more, after
/// a plus sign or none.
pub open spec fn unsigned_value(s: Seq<char>, max: int) -> Option<int> {
    if s.len() > 0 && s[0] == '+' {
        digits_number(s.subrange(1, s.len() as int), max)
    } else {
        digits_number(s, max)
    }
}

/// Whether a character is white space.
pub fn is_whitespace(c: char) -> (r: bool)
    ensures
        r == is_space(c),
{
    let u: u32 = c as u32;
    (0x09 <= u && u <= 0x0d) || u == 0x20 || u == 0x85 || u == 0xa0 || u == 0x1680 || (0x2000 <= u
        && u <= 0x200a) || u == 0x2028 || u == 0x2029 || u == 0x202f || u == 0x205f || u == 0x3000
}

/// The number that more digits write is no smaller.
proof fn lemma_digits_grow(s: Seq<char>, from: int, upto: int)
    requires
        0 <= from <= upto <= s.len(),
        all_digits(s),
    ensures
        0 <= digits_value(s, from) <= digits_value(s, upto),
    decreases upto,
{
    if upto > from {
        lemma_digits_grow(s, from, upto - 1);
        assert(is_digit(s[upto - 1]));
    } else if from > 0 {
        lemma_digits_grow(s, from - 1, from - 1);
        assert(is_digit(s[from - 1]));
    }
}

/// The number up to `max` that the characters from `from` to `upto` write,
/// after a plus sign or none.
fn unsigned_between(chars: &Vec<char>, from: usize, upto: usize, max: u64) -> (r: Option<u64>)
    requires
        from <= upto <= chars@.len(),
    ensures
        match r {
            Some(v) => unsigned_value(chars@.subrange(from as int, upto as int), max as int) == Some(
                v as int,
            ),
            None => unsigned_value(chars@.subrange(from as int, upto as int), max as int) is None,
        },
{
    let ghost numeral = chars@.subrange(from as int, upto as int);
    let start: usize = if from < upto && chars[from] == '+' {
        from + 1
    } else {
        from
    };
    let ghost digits = chars@.subrange(start as int, upto as int);
    proof {
        if from < upto {
            assert(numeral[0] == chars@[from as int]);
        }
        if start > from {
            assert(numeral.subrange(1, numeral.len() as int) =~= digits);
        } else {
            assert(numeral =~= digits);
        }
    }
    assert(unsigned_value(numeral, max as int) == digits_number(digits, max as int));
    if start == upto {
        return None;
    }
    let mut value: u64 = 0;
    let mut i: usize = start;
    while i < upto
        invariant
            start <= i <= upto <= chars@.len(),
            digits == chars@.subrange(start as int, upto as int),
            numeral == chars@.subrange(from as int, upto as int),
            unsigned_value(numeral, max as int) == digits_number(digits, max as int),
            forall|j: int| 0 <= j < i - start ==> is_digit(#[trigger] digits[j]),
            value == digits_value(digits, i - start),
            value <= max,
        decreases upto - i,
    {
        let c = chars[i];
        assert(c == digits[i - start]);
        if c < '0' || c > '9' {
            return None;
        }
        let digit: u64 = (c as u32 - '0' as u32) as u64;
        if value > max / 10 || digit > max - value * 10 {
            proof {
                assert(digits_value(digits, i - start + 1) > max);
                if all_digits(digits) {
                    lemma_digits_grow(digits, i - start + 1, digits.len() as int);
                }
            }
            return None;
        }
        value = value * 10 + digit;
        i += 1;
    }
    Some(value)
}

/// Reads the number up to `max` that a text writes: one digit or more,
/// after a plus sign or none.
pub fn parse_unsigned(text: &str, max: u64) -> (r: Option<u64>)
    ensures
        match r {
            Some(v) => unsigned_value(text@, max as int) == Some(v as int),
            None => unsigned_value(text@, max as int) is None,
        },
{
    let chars = chars_of(text);
    assert(chars@.subrange(0, chars@.len() as int) =~= text@);
    unsigned_between(&chars, 0, chars.len(), max)
}

/// Reads the number up to `max` that a text writes, white space at its
/// ends aside.
pub fn parse_trimmed_unsigned(text: &str, max: u64) -> (r: Option<u64>)
    ensures
        match r {
            Some(v) => unsigned_value(trimmed(text@), max as int) == Some(v as int),
            None => unsigned_value(trimmed(text@), max as int) is None,
        },
{
    let chars = chars_of(text);
    let mut from: usize = 0;
    while from < chars.len() && is_whitespace(chars[from])
        invariant
            from <= chars@.len(),
            skip_spaces(chars@, 0) == skip_spaces(chars@, from as int),
        decreases chars@.len() - from,
    {
        from += 1;
    }
    let mut upto: usize = chars.len();
    while upto > 0 && is_whitespace(chars[upto - 1])
        invariant
            upto <= chars@.len(),
            drop_spaces(chars@, chars@.len() as int) == drop_spaces(chars@, upto as int),
        decreases upto,
    {
        upto -= 1;
    }
    if from >= upto {
        assert(trimmed(text@) =~= Seq::empty());
        return None;
    }
    assert(chars@.subrange(from as int, upto as int) == trimmed(text@));
    unsigned_between(&chars, from, upto, max)
}

} // verus!
