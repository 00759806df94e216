//! Operations on text.
//!
//! Text is a sequence of characters. What the standard library decides of
//! letter case and of escapes in quoted text is named and not spelled out;
//! everything else is stated in full.
use vstd::prelude::*;

use crate::geometry::{magnitude, step_ok, STEP_MAX};
use crate::search::{lemma_first_hit, lemma_first_miss};

verus! {

/// Whether Unicode counts `c` as white space.
pub open spec fn white_space(c: char) -> bool {
    ||| '\u{0009}' <= c <= '\u{000d}'
    ||| c == '\u{0020}'
    ||| c == '\u{0085}'
    ||| c == '\u{00a0}'
    ||| c == '\u{1680}'
    ||| '\u{2000}' <= c <= '\u{200a}'
    ||| c == '\u{2028}'
    ||| c == '\u{2029}'
    ||| c == '\u{202f}'
    ||| c == '\u{205f}'
    ||| c == '\u{3000}'
}

/// What the standard library's `to_lowercase` makes of `s`.
pub uninterp spec fn lowercase(s: Seq<char>) -> Seq<char>;

/// What the standard library's `to_uppercase` makes of `c`.
pub uninterp spec fn uppercase(c: char) -> Seq<char>;

/// Half of a surrogate pair.
pub open spec fn is_surrogate(unit: u16) -> bool {
    0xd800 <= unit <= 0xdfff
}

/// Two units that stand for one character.
pub open spec fn is_pair(first: u16, second: u16) -> bool {
    0xd800 <= first <= 0xdbff && 0xdc00 <= second <= 0xdfff
}

/// The character that a surrogate pair stands for.
pub open spec fn paired(first: u16, second: u16) -> char {
    (0x1_0000 + (first - 0xd800) * 0x400 + (second - 0xdc00)) as char
}

/// The text that UTF-16 `units` spell, with a replacement character for each
/// half of a pair that has no other half.
pub open spec fn utf16_lossy(units: Seq<u16>) -> Seq<char>
    decreases units.len(),
{
    if units.len() == 0 {
        seq![]
    } else if !is_surrogate(units[0]) {
        seq![units[0] as char] + utf16_lossy(units.skip(1))
    } else if units.len() > 1 && is_pair(units[0], units[1]) {
        seq![paired(units[0], units[1])] + utf16_lossy(units.skip(2))
    } else {
        seq!['\u{fffd}'] + utf16_lossy(units.skip(1))
    }
}

fn is_whitespace(c: char) -> (r: bool)
    ensures
        r == white_space(c),
{
    ('\u{0009}' <= c && c <= '\u{000d}') || c == '\u{0020}' || c == '\u{0085}' || c == '\u{00a0}'
        || c == '\u{1680}' || ('\u{2000}' <= c && c <= '\u{200a}') || c == '\u{2028}' || c
        == '\u{2029}' || c == '\u{202f}' || c == '\u{205f}' || c == '\u{3000}'
}

/// What the standard library's `Debug` makes of a text: in quotes, with escapes.
pub uninterp spec fn quoted(s: Seq<char>) -> Seq<char>;

/// `Debug` of `str`: its result depends on the text alone. Which characters it
/// escapes is left unsaid.
#[verifier::external_body]
pub(crate) fn quoted_text(s: &str) -> (r: String)
    ensures
        r@ == quoted(s@),
{
    format!("{s:?}")
}

/// `str::to_lowercase`: its result depends on the text alone.
#[verifier::external_body]
fn to_lowercase(s: &str) -> (r: String)
    ensures
        r@ == lowercase(s@),
{
    s.to_lowercase()
}

/// `char::to_uppercase`: its result, one or more characters, depends on the
/// character alone.
#[verifier::external_body]
fn to_uppercase(c: char) -> (r: String)
    ensures
        r@ == uppercase(c),
{
    c.to_uppercase().to_string()
}

/// `String::from_utf16_lossy`: units outside the surrogate range are their
/// characters, surrogate pairs are decoded, and every other surrogate becomes
/// U+FFFD.
#[verifier::external_body]
fn from_utf16_lossy(units: &[u16]) -> (r: String)
    ensures
        r@ == utf16_lossy(units@),
{
    String::from_utf16_lossy(units)
}

/// Decodes UTF-16 units, replacing what cannot be decoded.
pub fn decode_utf16(units: &[u16]) -> (r: String)
    ensures
        r@ == utf16_lossy(units@),
{
    from_utf16_lossy(units)
}

/// The characters of `s`.
pub fn chars_of(s: &str) -> (r: Vec<char>)
    ensures
        r@ == s@,
{
    let mut out: Vec<char> = Vec::new();
    for c in it: s.chars()
        invariant
            out@.len() == it.index(),
            it.seq() == s@,
            forall|i: int| 0 <= i < out@.len() ==> out@[i] == s@[i],
    {
        out.push(c);
    }
    out
}

pub fn same(a: &str, b: &str) -> (r: bool)
    ensures
        r == (a@ == b@),
{
    a.to_owned() == b.to_owned()
}

/// Whether `list` holds `s`.
pub fn holds(list: &Vec<String>, s: &str) -> (r: bool)
    ensures
        r == exists|i: int| 0 <= i < list@.len() && #[trigger] list@[i]@ == s@,
{
    let mut i: usize = 0;
    while i < list.len()
        invariant
            i <= list.len(),
            forall|j: int| 0 <= j < i ==> #[trigger] list@[j]@ != s@,
        decreases list.len() - i,
    {
        if same(list[i].as_str(), s) {
            return true;
        }
        i = i + 1;
    }
    false
}

pub open spec fn occurs_at(hay: Seq<char>, needle: Seq<char>, at: int) -> bool {
    &&& 0 <= at
    &&& at + needle.len() <= hay.len()
    &&& hay.subrange(at, at + needle.len()) == needle
}

/// Whether `needle` is a part of `hay`.
pub open spec fn occurs_in(hay: Seq<char>, needle: Seq<char>) -> bool {
    exists|at: int| occurs_at(hay, needle, at)
}

fn found_at(hay: &Vec<char>, needle: &Vec<char>, at: usize) -> (r: bool)
    requires
        at + needle.len() <= hay.len(),
    ensures
        r == occurs_at(hay@, needle@, at as int),
{
    let mut i: usize = 0;
    while i < needle.len()
        invariant
            i <= needle.len(),
            at + needle.len() <= hay.len(),
            forall|j: int| 0 <= j < i ==> hay@[at + j] == needle@[j],
        decreases needle.len() - i,
    {
        if hay[at + i] != needle[i] {
            proof {
                assert(hay@.subrange(at as int, at + needle@.len())[i as int] != needle@[i as int]);
            }
            return false;
        }
        i = i + 1;
    }
    assert(hay@.subrange(at as int, at + needle@.len()) =~= needle@);
    true
}

pub fn contains(hay: &str, needle: &str) -> (r: bool)
    ensures
        r == occurs_in(hay@, needle@),
{
    let h: Vec<char> = chars_of(hay);
    let n: Vec<char> = chars_of(needle);
    if n.len() > h.len() {
        return false;
    }
    let last: usize = h.len() - n.len();
    let mut at: usize = 0;
    while at <= last
        invariant
            h@ == hay@,
            n@ == needle@,
            last + n@.len() == h@.len(),
            at <= last + 1,
            forall|k: int| 0 <= k < at ==> !occurs_at(hay@, needle@, k),
        decreases last + 1 - at,
    {
        if found_at(&h, &n, at) {
            return true;
        }
        if at == last {
            return false;
        }
        at = at + 1;
    }
    false
}

pub fn starts_with(s: &str, prefix: &str) -> (r: bool)
    ensures
        r == prefix@.is_prefix_of(s@),
{
    let h: Vec<char> = chars_of(s);
    let n: Vec<char> = chars_of(prefix);
    if n.len() > h.len() {
        return false;
    }
    found_at(&h, &n, 0)
}

pub fn ends_with(s: &str, suffix: &str) -> (r: bool)
    ensures
        r == suffix@.is_suffix_of(s@),
{
    let h: Vec<char> = chars_of(s);
    let n: Vec<char> = chars_of(suffix);
    if n.len() > h.len() {
        return false;
    }
    found_at(&h, &n, h.len() - n.len())
}

/// The part of `s` from character `from` up to character `to`.
pub fn part(s: &str, from: usize, to: usize) -> (r: String)
    requires
        from <= to <= s@.len(),
    ensures
        r@ == s@.subrange(from as int, to as int),
{
    s.substring_char(from, to).to_owned()
}

pub open spec fn char_mask(s: Seq<char>, c: char) -> Seq<bool> {
    Seq::new(s.len(), |i: int| s[i] == c)
}

/// Where `c` stands in `s` for the first time.
pub open spec fn first_char(s: Seq<char>, c: char) -> Option<int> {
    crate::search::first_true(char_mask(s, c))
}

pub fn find_char(s: &str, c: char) -> (r: Option<usize>)
    ensures
        match r {
            Some(i) => i < s@.len() && first_char(s@, c) == Some(i as int),
            None => first_char(s@, c) is None,
        },
{
    let v: Vec<char> = chars_of(s);
    let mut i: usize = 0;
    while i < v.len()
        invariant
            i <= v.len(),
            v@ == s@,
            forall|j: int| 0 <= j < i ==> s@[j] != c,
        decreases v.len() - i,
    {
        if v[i] == c {
            proof {
                lemma_first_hit(char_mask(s@, c), i as int);
            }
            return Some(i);
        }
        i = i + 1;
    }
    proof {
        lemma_first_miss(char_mask(s@, c));
    }
    None
}

pub open spec fn ascii_lower(c: char) -> char {
    if 'A' <= c <= 'Z' {
        ((c as u32 + 32) as u32) as char
    } else {
        c
    }
}

/// Equality in which ASCII letters match in either case.
pub open spec fn same_ignoring_ascii_case(a: Seq<char>, b: Seq<char>) -> bool {
    &&& a.len() == b.len()
    &&& forall|i: int| 0 <= i < a.len() ==> ascii_lower(#[trigger] a[i]) == ascii_lower(b[i])
}

fn lower_code(c: char) -> (r: u32)
    ensures
        r == ascii_lower(c) as u32,
{
    let code: u32 = c as u32;
    if 65 <= code && code <= 90 {
        code + 32
    } else {
        code
    }
}

pub fn eq_ignore_ascii_case(a: &str, b: &str) -> (r: bool)
    ensures
        r == same_ignoring_ascii_case(a@, b@),
{
    let x: Vec<char> = chars_of(a);
    let y: Vec<char> = chars_of(b);
    if x.len() != y.len() {
        return false;
    }
    let mut i: usize = 0;
    while i < x.len()
        invariant
            i <= x.len(),
            x@ == a@,
            y@ == b@,
            x@.len() == y@.len(),
            forall|j: int| 0 <= j < i ==> ascii_lower(#[trigger] a@[j]) == ascii_lower(b@[j]),
        decreases x.len() - i,
    {
        if lower_code(x[i]) != lower_code(y[i]) {
            assert(ascii_lower(a@[i as int]) != ascii_lower(b@[i as int]));
            return false;
        }
        assert(ascii_lower(a@[i as int]) == ascii_lower(b@[i as int]));
        i = i + 1;
    }
    true
}

/// Substring search in which letters match in either case.
pub fn contains_ignoring_case(hay: &str, needle: &str) -> (r: bool)
    ensures
        r == occurs_in(lowercase(hay@), lowercase(needle@)),
{
    contains(to_lowercase(hay).as_str(), to_lowercase(needle).as_str())
}

pub open spec fn trimmed_start(s: Seq<char>) -> Seq<char>
    decreases s.len(),
{
    if s.len() > 0 && white_space(s[0]) {
        trimmed_start(s.drop_first())
    } else {
        s
    }
}

pub open spec fn trimmed_end(s: Seq<char>) -> Seq<char>
    decreases s.len(),
{
    if s.len() > 0 && white_space(s.last()) {
        trimmed_end(s.drop_last())
    } else {
        s
    }
}

/// `s` without the white space at its two ends.
pub open spec fn trimmed(s: Seq<char>) -> Seq<char> {
    trimmed_end(trimmed_start(s))
}

pub fn trim(s: &str) -> (r: String)
    ensures
        r@ == trimmed(s@),
{
    let v: Vec<char> = chars_of(s);
    let mut from: usize = 0;
    assert(s@.subrange(0, s@.len() as int) =~= s@);
    while from < v.len() && is_whitespace(v[from])
        invariant
            from <= v.len(),
            v@ == s@,
            trimmed_start(s@.subrange(from as int, s@.len() as int)) == trimmed_start(s@),
        decreases v.len() - from,
    {
        assert(s@.subrange(from as int, s@.len() as int).drop_first() =~= s@.subrange(
            from + 1,
            s@.len() as int,
        ));
        from = from + 1;
    }
    let ghost start = s@.subrange(from as int, s@.len() as int);
    assert(trimmed_start(s@) == start);
    let mut to: usize = v.len();
    while to > from && is_whitespace(v[to - 1])
        invariant
            from <= to <= v.len(),
            v@ == s@,
            trimmed_end(s@.subrange(from as int, to as int)) == trimmed_end(start),
        decreases to,
    {
        assert(s@.subrange(from as int, to as int).drop_last() =~= s@.subrange(
            from as int,
            to - 1,
        ));
        assert(s@.subrange(from as int, to as int).last() == v@[to - 1]);
        to = to - 1;
    }
    assert(trimmed_end(s@.subrange(from as int, to as int)) == s@.subrange(from as int, to as int));
    part(s, from, to)
}

pub open spec fn is_digit(c: char) -> bool {
    '0' <= c <= '9'
}

pub open spec fn digit_value(c: char) -> nat {
    (c as nat - '0' as nat) as nat
}

pub open spec fn all_digits(s: Seq<char>) -> bool {
    forall|i: int| 0 <= i < s.len() ==> is_digit(#[trigger] s[i])
}

/// The number that decimal digits spell.
pub open spec fn digits_value(s: Seq<char>) -> nat
    decreases s.len(),
{
    if s.len() == 0 {
        0
    } else {
        digits_value(s.drop_last()) * 10 + digit_value(s.last())
    }
}

/// The natural number that `s` spells in decimal, with or without a plus sign.
pub open spec fn number(s: Seq<char>) -> Option<nat> {
    let d = if s.len() > 0 && s[0] == '+' {
        s.drop_first()
    } else {
        s
    };
    if d.len() > 0 && all_digits(d) {
        Some(digits_value(d))
    } else {
        None
    }
}

/// The natural number up to `max` that `s` spells.
pub open spec fn number_up_to(s: Seq<char>, max: nat) -> Option<nat> {
    match number(s) {
        Some(n) if n <= max => Some(n),
        _ => None,
    }
}

proof fn lemma_digits_grow(s: Seq<char>, k: int)
    requires
        0 <= k <= s.len(),
    ensures
        digits_value(s.take(k)) <= digits_value(s),
    decreases s.len() - k,
{
    if k == s.len() {
        assert(s.take(k) =~= s);
    } else {
        assert(s.take(k + 1).drop_last() =~= s.take(k));
        lemma_digits_grow(s, k + 1);
    }
}

fn digit_of(c: char) -> (r: Option<u32>)
    ensures
        r == (if is_digit(c) {
            Some(digit_value(c) as u32)
        } else {
            None
        }),
        r matches Some(d) ==> d < 10,
{
    let code: u32 = c as u32;
    if code < 48 || code > 57 {
        None
    } else {
        Some(code - 48)
    }
}

fn parse_up_to(s: &str, max: u64) -> (r: Option<u64>)
    ensures
        match number_up_to(s@, max as nat) {
            Some(n) => r == Some(n as u64),
            None => r is None,
        },
        r matches Some(n) ==> n <= max,
{
    let v: Vec<char> = chars_of(s);
    let start: usize = if v.len() > 0 && v[0] == '+' {
        1
    } else {
        0
    };
    let ghost d = s@.subrange(start as int, s@.len() as int);
    proof {
        if start == 1 {
            assert(d =~= s@.drop_first());
        } else {
            assert(d =~= s@);
        }
    }
    if start == v.len() {
        return None;
    }
    let mut value: u64 = 0;
    let mut i: usize = start;
    assert(d.take(0) =~= Seq::<char>::empty());
    while i < v.len()
        invariant
            start <= i <= v.len(),
            start < v.len(),
            v@ == s@,
            d == s@.subrange(start as int, s@.len() as int),
            number(s@) == (if d.len() > 0 && all_digits(d) {
                Some(digits_value(d))
            } else {
                None
            }),
            value <= max,
            value == digits_value(d.take(i - start)),
            forall|j: int| 0 <= j < i - start ==> is_digit(#[trigger] d[j]),
        decreases v.len() - i,
    {
        let ghost k = i - start;
        assert(d[k] == v@[i as int]);
        let digit: u32 = match digit_of(v[i]) {
            Some(digit) => digit,
            None => {
                return None;
            },
        };
        let next: u128 = value as u128 * 10 + digit as u128;
        proof {
            assert(is_digit(d[k]));
            assert(d.take(k + 1).drop_last() =~= d.take(k));
            assert(d.take(k + 1).last() == d[k]);
            assert(digit_value(d[k]) == digit);
            assert(digits_value(d.take(k + 1)) == next);
            lemma_digits_grow(d, k + 1);
        }
        if next > max as u128 {
            return None;
        }
        value = next as u64;
        i = i + 1;
    }
    assert(d.take(i - start) =~= d);
    Some(value)
}

pub fn parse_u64(s: &str) -> (r: Option<u64>)
    ensures
        match number_up_to(s@, u64::MAX as nat) {
            Some(n) => r == Some(n as u64),
            None => r is None,
        },
{
    parse_up_to(s, u64::MAX)
}

pub fn parse_u32(s: &str) -> (r: Option<u32>)
    ensures
        match number_up_to(s@, u32::MAX as nat) {
            Some(n) => r == Some(n as u32),
            None => r is None,
        },
{
    match parse_up_to(s, u32::MAX as u64) {
        Some(n) => Some(n as u32),
        None => None,
    }
}

pub open spec fn digit_char(d: nat) -> char {
    (('0' as u32 + d) as u32) as char
}

/// `n` in decimal.
pub open spec fn decimal(n: nat) -> Seq<char>
    decreases n,
{
    if n < 10 {
        seq![digit_char(n)]
    } else {
        decimal(n / 10).push(digit_char(n % 10))
    }
}

fn digit_text(d: u64) -> (r: &'static str)
    requires
        d < 10,
    ensures
        r@ == seq![digit_char(d as nat)],
{
    proof {
        reveal_strlit("0");
        reveal_strlit("1");
        reveal_strlit("2");
        reveal_strlit("3");
        reveal_strlit("4");
        reveal_strlit("5");
        reveal_strlit("6");
        reveal_strlit("7");
        reveal_strlit("8");
        reveal_strlit("9");
    }
    let r = match d {
        0 => "0",
        1 => "1",
        2 => "2",
        3 => "3",
        4 => "4",
        5 => "5",
        6 => "6",
        7 => "7",
        8 => "8",
        _ => "9",
    };
    assert(r@ =~= seq![digit_char(d as nat)]);
    r
}

pub fn decimal_text(n: u64) -> (r: String)
    ensures
        r@ == decimal(n as nat),
    decreases n,
{
    if n < 10 {
        digit_text(n).to_owned()
    } else {
        let mut out: String = decimal_text(n / 10);
        let ghost head = out@;
        let last: &str = digit_text(n % 10);
        out.append(last);
        assert(out@ =~= head.push(digit_char(n as nat % 10)));
        out
    }
}

/// A digit of a hexadecimal number, in lower case.
pub open spec fn hex_char(d: nat) -> char {
    if d < 10 {
        digit_char(d)
    } else {
        (('a' as u32 + d - 10) as u32) as char
    }
}

/// `n` in hexadecimal.
pub open spec fn hexadecimal(n: nat) -> Seq<char>
    decreases n,
{
    if n < 16 {
        seq![hex_char(n)]
    } else {
        hexadecimal(n / 16).push(hex_char(n % 16))
    }
}

fn hex_text(d: u64) -> (r: &'static str)
    requires
        d < 16,
    ensures
        r@ == seq![hex_char(d as nat)],
{
    if d < 10 {
        return digit_text(d);
    }
    proof {
        reveal_strlit("a");
        reveal_strlit("b");
        reveal_strlit("c");
        reveal_strlit("d");
        reveal_strlit("e");
        reveal_strlit("f");
    }
    let r = match d {
        10 => "a",
        11 => "b",
        12 => "c",
        13 => "d",
        14 => "e",
        _ => "f",
    };
    assert(r@ =~= seq![hex_char(d as nat)]);
    r
}

pub fn hexadecimal_text(n: u64) -> (r: String)
    ensures
        r@ == hexadecimal(n as nat),
    decreases n,
{
    if n < 16 {
        hex_text(n).to_owned()
    } else {
        let mut out: String = hexadecimal_text(n / 16);
        let ghost head = out@;
        out.append(hex_text(n % 16));
        assert(out@ =~= head.push(hex_char(n as nat % 16)));
        out
    }
}

/// Reading back the decimal form of a number gives the number.
pub proof fn law_decimal_reads_back(n: nat)
    ensures
        number(decimal(n)) == Some(n),
{
    lemma_decimal(n);
    assert(is_digit(decimal(n)[0]));
}

proof fn lemma_decimal(n: nat)
    ensures
        decimal(n).len() > 0,
        all_digits(decimal(n)),
        digits_value(decimal(n)) == n,
    decreases n,
{
    if n < 10 {
        let s = decimal(n);
        assert(s.drop_last() =~= Seq::<char>::empty());
        assert(digits_value(s.drop_last()) == 0);
        assert(digit_value(s.last()) == n);
    } else {
        lemma_decimal(n / 10);
        let s = decimal(n);
        assert(s.drop_last() =~= decimal(n / 10));
        assert(digit_value(s.last()) == n % 10);
        assert forall|i: int| 0 <= i < s.len() implies is_digit(#[trigger] s[i]) by {
            if i < s.len() - 1 {
                assert(s[i] == decimal(n / 10)[i]);
            }
        }
    }
}

/// The thousandths below `PX` as decimal places, without trailing zeros.
pub open spec fn places(thousandths: nat) -> Seq<char> {
    let a = digit_char(thousandths / 100);
    let b = digit_char(thousandths / 10 % 10);
    let c = digit_char(thousandths % 10);
    if thousandths == 0 {
        seq![]
    } else if thousandths % 100 == 0 {
        seq!['.', a]
    } else if thousandths % 10 == 0 {
        seq!['.', a, b]
    } else {
        seq!['.', a, b, c]
    }
}

/// A length as a decimal number of pixels.
pub open spec fn pixels_decimal(v: int) -> Seq<char> {
    let m = magnitude(v) as nat;
    let body = decimal(m / 1000) + places(m % 1000);
    if v < 0 {
        seq!['-'] + body
    } else {
        body
    }
}

pub fn pixels_text(v: i64) -> (r: String)
    ensures
        r@ == pixels_decimal(v as int),
{
    let wide: i128 = v as i128;
    let m: u64 = if wide < 0 {
        (-wide) as u64
    } else {
        wide as u64
    };
    proof {
        reveal_strlit("-");
        reveal_strlit("");
        reveal_strlit(".");
    }
    let mut out: String = if v < 0 {
        "-".to_owned()
    } else {
        "".to_owned()
    };
    let whole: String = decimal_text(m / 1000);
    out.append(whole.as_str());
    let ghost head = out@;
    let frac: u64 = m % 1000;
    if frac != 0 {
        out.append(".");
        out.append(digit_text(frac / 100));
        if frac % 100 != 0 {
            out.append(digit_text(frac / 10 % 10));
            if frac % 10 != 0 {
                out.append(digit_text(frac % 10));
            }
        }
    }
    assert(out@ =~= head + places(frac as nat));
    assert(out@ =~= pixels_decimal(v as int));
    out
}

/// The thousandths that one to three decimal places spell.
pub open spec fn places_value(s: Seq<char>) -> nat {
    if s.len() == 1 {
        digits_value(s) * 100
    } else if s.len() == 2 {
        digits_value(s) * 10
    } else {
        digits_value(s)
    }
}

/// The thousandths that `s` spells as a decimal number without a sign: one or
/// more digits, and after a point one to three more.
pub open spec fn plain_thousandths(s: Seq<char>) -> Option<nat> {
    match first_char(s, '.') {
        None => if s.len() > 0 && all_digits(s) {
            Some(digits_value(s) * 1000)
        } else {
            None
        },
        Some(i) => {
            let whole = s.subrange(0, i);
            let part = s.subrange(i + 1, s.len() as int);
            if whole.len() > 0 && all_digits(whole) && 1 <= part.len() <= 3 && all_digits(part) {
                Some(digits_value(whole) * 1000 + places_value(part))
            } else {
                None
            }
        },
    }
}

/// The length that `s` spells as a decimal number of pixels, with or without a
/// minus sign.
pub open spec fn plain_pixels(s: Seq<char>) -> Option<int> {
    if s.len() > 0 && s[0] == '-' {
        match plain_thousandths(s.subrange(1, s.len() as int)) {
            Some(n) => Some(-(n as int)),
            None => None,
        }
    } else {
        match plain_thousandths(s) {
            Some(n) => Some(n as int),
            None => None,
        }
    }
}

/// The length that `s` spells, if it is no longer than a step can be.
pub open spec fn plain_step(s: Seq<char>) -> Option<i64> {
    match plain_pixels(s) {
        Some(v) if -STEP_MAX <= v <= STEP_MAX => Some(v as i64),
        _ => None,
    }
}

/// The number up to `max` that the digits of `s` spell.
fn parse_digits(s: &str, max: u64) -> (r: Option<u64>)
    ensures
        r == (if s@.len() > 0 && all_digits(s@) && digits_value(s@) <= max {
            Some(digits_value(s@) as u64)
        } else {
            None
        }),
        r matches Some(n) ==> n <= max,
{
    if s.unicode_len() == 0 {
        return None;
    }
    if s.get_char(0) == '+' {
        assert(!is_digit(s@[0]));
        return None;
    }
    parse_up_to(s, max)
}

fn read_thousandths(s: &str) -> (r: Option<i64>)
    ensures
        r == (match plain_thousandths(s@) {
            Some(n) if n <= STEP_MAX => Some(n as i64),
            _ => None,
        }),
        r matches Some(n) ==> 0 <= n <= STEP_MAX,
{
    let most: u64 = STEP_MAX as u64;
    match find_char(s, '.') {
        None => match parse_digits(s, most / 1000) {
            Some(n) => Some((n * 1000) as i64),
            None => None,
        },
        Some(i) => {
            let len: usize = s.unicode_len();
            let whole: String = part(s, 0, i);
            let places: String = part(s, i + 1, len);
            let count: usize = places.as_str().unicode_len();
            if count < 1 || count > 3 {
                return None;
            }
            let small: u64 = match parse_digits(places.as_str(), 999) {
                Some(n) => n,
                None => {
                    proof {
                        lemma_three_digits(places@);
                    }
                    return None;
                },
            };
            let thousandths: u64 = if count == 1 {
                small * 100
            } else if count == 2 {
                small * 10
            } else {
                small
            };
            proof {
                lemma_three_digits(places@);
            }
            match parse_digits(whole.as_str(), most / 1000) {
                Some(n) => {
                    let all: u64 = n * 1000 + thousandths;
                    if all <= most {
                        Some(all as i64)
                    } else {
                        None
                    }
                },
                None => None,
            }
        },
    }
}

/// Up to three digits spell less than a thousand, whole units included.
proof fn lemma_three_digits(s: Seq<char>)
    requires
        1 <= s.len() <= 3,
    ensures
        all_digits(s) ==> places_value(s) <= 999,
        all_digits(s) ==> digits_value(s) <= 999,
{
    reveal_with_fuel(digits_value, 4);
    if all_digits(s) {
        assert(is_digit(s[0]));
        if s.len() > 1 {
            assert(is_digit(s[1]));
            assert(s.drop_last().last() == s[s.len() - 2]);
        }
        if s.len() > 2 {
            assert(is_digit(s[2]));
            assert(s.drop_last().drop_last().last() == s[0]);
        }
    }
}

/// The length that `s` spells as a plain decimal number of pixels, if it is no
/// longer than a step can be.
pub fn read_step(s: &str) -> (r: Option<i64>)
    ensures
        r == plain_step(s@),
{
    let len: usize = s.unicode_len();
    if len > 0 && s.get_char(0) == '-' {
        let rest: String = part(s, 1, len);
        match read_thousandths(rest.as_str()) {
            Some(n) => Some(-n),
            None => None,
        }
    } else {
        read_thousandths(s)
    }
}

proof fn lemma_places(t: nat)
    requires
        0 < t < 1000,
    ensures
        ({
            let p = places(t).drop_first();
            &&& places(t)[0] == '.'
            &&& 1 <= p.len() <= 3
            &&& all_digits(p)
            &&& places_value(p) == t
        }),
{
    let p = places(t).drop_first();
    let none = Seq::<char>::empty();
    let a = digit_char(t / 100);
    let b = digit_char(t / 10 % 10);
    let c = digit_char(t % 10);
    assert(digit_value(a) == t / 100 && is_digit(a));
    assert(digit_value(b) == t / 10 % 10 && is_digit(b));
    assert(digit_value(c) == t % 10 && is_digit(c));
    assert(seq![a].drop_last() =~= none);
    assert(seq![a, b].drop_last() =~= seq![a]);
    assert(seq![a, b, c].drop_last() =~= seq![a, b]);
    assert(digits_value(none) == 0);
    assert(digits_value(seq![a]) == t / 100);
    assert(digits_value(seq![a, b]) == t / 100 * 10 + t / 10 % 10);
    assert(digits_value(seq![a, b, c]) == (t / 100 * 10 + t / 10 % 10) * 10 + t % 10);
    if t % 100 == 0 {
        assert(p =~= seq![a]);
    } else if t % 10 == 0 {
        assert(p =~= seq![a, b]);
    } else {
        assert(p =~= seq![a, b, c]);
    }
}

proof fn lemma_body_reads_back(m: nat)
    ensures
        plain_thousandths(decimal(m / 1000) + places(m % 1000)) == Some(m),
        (decimal(m / 1000) + places(m % 1000)).len() > 0,
        is_digit((decimal(m / 1000) + places(m % 1000))[0]),
        is_digit((decimal(m / 1000) + places(m % 1000)).last()),
{
    let whole = decimal(m / 1000);
    let t = m % 1000;
    let body = whole + places(t);
    lemma_decimal(m / 1000);
    assert(is_digit(whole[0]));
    assert(is_digit(whole[whole.len() - 1]));
    if t == 0 {
        assert(body =~= whole);
        assert forall|i: int| 0 <= i < body.len() implies !char_mask(body, '.')[i] by {
            assert(is_digit(whole[i]));
        }
        lemma_first_miss(char_mask(body, '.'));
    } else {
        lemma_places(t);
        let p = places(t).drop_first();
        let at = whole.len() as int;
        assert forall|i: int| 0 <= i < at implies !char_mask(body, '.')[i] by {
            assert(is_digit(whole[i]));
        }
        assert(body[at] == places(t)[0]);
        lemma_first_hit(char_mask(body, '.'), at);
        assert(body.subrange(0, at) =~= whole);
        assert(body.subrange(at + 1, body.len() as int) =~= p);
        assert(body.last() == p[p.len() - 1]);
    }
}

/// A length that is shown as a decimal number of pixels reads back as that
/// length, with or without white space cut off.
pub proof fn law_pixels_read_back(v: i64)
    requires
        step_ok(v),
    ensures
        plain_step(trimmed(pixels_decimal(v as int))) == Some(v),
{
    let m = magnitude(v as int) as nat;
    let body = decimal(m / 1000) + places(m % 1000);
    let s = pixels_decimal(v as int);
    lemma_body_reads_back(m);
    if v < 0 {
        assert(s.subrange(1, s.len() as int) =~= body);
    }
    assert(s.last() == body.last());
    assert(trimmed_start(s) == s);
    assert(trimmed_end(s) == s);
}

pub open spec fn exe_stem(process: Seq<char>) -> Seq<char> {
    if process.len() >= 4 && (process.subrange(process.len() - 4, process.len() as int)
        == seq!['.', 'e', 'x', 'e'] || process.subrange(process.len() - 4, process.len() as int)
        == seq!['.', 'E', 'X', 'E']) {
        process.subrange(0, process.len() - 4)
    } else {
        process
    }
}

pub open spec fn capitalized(s: Seq<char>) -> Seq<char> {
    if s.len() == 0 {
        s
    } else {
        uppercase(s[0]) + s.drop_first()
    }
}

/// The name an executable is shown under: its file name without `.exe`, with
/// the first letter in upper case.
pub fn display_name_from_process(process_name: &str) -> (r: String)
    ensures
        r@ == capitalized(exe_stem(process_name@)),
{
    let v: Vec<char> = chars_of(process_name);
    proof {
        reveal_strlit(".exe");
        reveal_strlit(".EXE");
        assert(".exe"@ =~= seq!['.', 'e', 'x', 'e']);
        assert(".EXE"@ =~= seq!['.', 'E', 'X', 'E']);
    }
    let n: usize = v.len();
    let stem: String = if ends_with(process_name, ".exe") || ends_with(process_name, ".EXE") {
        part(process_name, 0, n - 4)
    } else {
        process_name.to_owned()
    };
    assert(stem@ == exe_stem(process_name@));
    let stem_len: usize = stem.as_str().unicode_len();
    if stem_len == 0 {
        stem
    } else {
        let mut out: String = to_uppercase(stem.as_str().get_char(0));
        let rest: String = part(stem.as_str(), 1, stem_len);
        assert(rest@ =~= stem@.drop_first());
        out.append(rest.as_str());
        out
    }
}

/// `s` cut to at most `max` characters; a cut text ends in an ellipsis.
pub open spec fn shortened(s: Seq<char>, max: nat) -> Seq<char> {
    if s.len() > max {
        s.subrange(0, max - 1).push('\u{2026}')
    } else {
        s
    }
}

pub fn shorten(s: &str, max: usize) -> (r: String)
    requires
        max > 0,
    ensures
        r@ == shortened(s@, max as nat),
        r@.len() <= max,
{
    if s.unicode_len() > max {
        let mut out: String = part(s, 0, max - 1);
        let ghost head = out@;
        proof {
            reveal_strlit("\u{2026}");
        }
        out.append("\u{2026}");
        assert(out@ =~= head.push('\u{2026}'));
        out
    } else {
        s.to_owned()
    }
}

/// What follows the last backslash of a path; all of it where there is none.
pub open spec fn file_name(path: Seq<char>) -> Seq<char>
    decreases path.len(),
{
    if path.len() == 0 || path.last() == '\\' {
        seq![]
    } else {
        file_name(path.drop_last()).push(path.last())
    }
}

/// The file name at the end of a path.
pub fn file_name_of(path: &str) -> (r: String)
    ensures
        r@ == file_name(path@),
{
    let end: usize = path.unicode_len();
    let mut from: usize = end;
    proof {
        assert(path@.subrange(0, end as int) =~= path@);
        assert(file_name(path@) + seq![] =~= file_name(path@));
        assert(path@.subrange(end as int, end as int) =~= seq![]);
    }
    while from > 0 && path.get_char(from - 1) != '\\'
        invariant
            from <= end,
            end == path@.len(),
            file_name(path@) == file_name(path@.subrange(0, from as int)) + path@.subrange(
                from as int,
                end as int,
            ),
        decreases from,
    {
        proof {
            let head = path@.subrange(0, from as int);
            assert(head.drop_last() =~= path@.subrange(0, from - 1));
            assert(head.last() == path@[from - 1]);
            assert(file_name(head) + path@.subrange(from as int, end as int) =~= file_name(
                path@.subrange(0, from - 1),
            ) + path@.subrange(from - 1, end as int));
        }
        from = from - 1;
    }
    proof {
        let head = path@.subrange(0, from as int);
        if from > 0 {
            assert(head.last() == path@[from - 1]);
        }
        assert(file_name(head) =~= seq![]);
        assert(file_name(path@) =~= path@.subrange(from as int, end as int));
    }
    part(path, from, end)
}

/// `path` with forward slashes in place of backslashes.
pub open spec fn slashes_forward(path: Seq<char>) -> Seq<char> {
    Seq::new(
        path.len(),
        |i: int|
            if path[i] == '\\' {
                '/'
            } else {
                path[i]
            },
    )
}

pub fn with_forward_slashes(path: &str) -> (r: String)
    ensures
        r@ == slashes_forward(path@),
{
    let n: usize = path.unicode_len();
    let mut out: String = String::new();
    let mut i: usize = 0;
    proof {
        assert(out@ =~= slashes_forward(path@).subrange(0, 0));
        reveal_strlit("/");
    }
    while i < n
        invariant
            i <= n,
            n == path@.len(),
            out@ == slashes_forward(path@).subrange(0, i as int),
            "/"@ == seq!['/'],
        decreases n - i,
    {
        let ghost before = out@;
        if path.get_char(i) == '\\' {
            out.append("/");
        } else {
            let c: String = part(path, i, i + 1);
            out.append(c.as_str());
        }
        proof {
            assert(out@ =~= slashes_forward(path@).subrange(0, i + 1));
        }
        i = i + 1;
    }
    proof {
        assert(slashes_forward(path@).subrange(0, n as int) =~= slashes_forward(path@));
    }
    out
}

/// Two texts are the same but for ASCII capitals where letter stands against
/// letter, equal or one the capital of the other.
pub proof fn law_ascii_capitals_do_not_matter(a: Seq<char>, b: Seq<char>)
    ensures
        same_ignoring_ascii_case(a, b) <==> a.len() == b.len() && forall|i: int|
            0 <= i < a.len() ==> {
                ||| #[trigger] a[i] == b[i]
                ||| 'A' <= a[i] <= 'Z' && b[i] as int == a[i] as int + 32
                ||| 'A' <= b[i] <= 'Z' && a[i] as int == b[i] as int + 32
            },
{
    assert forall|x: char, y: char| #[trigger] ascii_lower(x) == #[trigger] ascii_lower(y) <==> {
        ||| x == y
        ||| 'A' <= x <= 'Z' && y as int == x as int + 32
        ||| 'A' <= y <= 'Z' && x as int == y as int + 32
    } by {
        lemma_lower(x);
        lemma_lower(y);
    }
    if a.len() == b.len() {
        assert forall|i: int| 0 <= i < a.len() implies (ascii_lower(#[trigger] a[i]) == ascii_lower(
            b[i],
        ) <==> {
            ||| a[i] == b[i]
            ||| 'A' <= a[i] <= 'Z' && b[i] as int == a[i] as int + 32
            ||| 'A' <= b[i] <= 'Z' && a[i] as int == b[i] as int + 32
        }) by {}
    }
}

proof fn lemma_lower(c: char)
    ensures
        ascii_lower(c) as int == (if 'A' <= c <= 'Z' {
            c as int + 32
        } else {
            c as int
        }),
{
}

/// Trimming takes white space off the two ends and nothing else, and leaves none
/// there.
pub proof fn law_trimming_takes_white_space_off_the_ends(s: Seq<char>) -> (r: (int, int))
    ensures
        0 <= r.0 <= r.1 <= s.len(),
        trimmed(s) == s.subrange(r.0, r.1),
        forall|k: int| 0 <= k < r.0 ==> white_space(#[trigger] s[k]),
        forall|k: int| r.1 <= k < s.len() ==> white_space(#[trigger] s[k]),
        r.0 < r.1 ==> !white_space(s[r.0]) && !white_space(s[r.1 - 1]),
{
    let from = lemma_trimmed_start(s);
    let t = s.subrange(from, s.len() as int);
    let to = lemma_trimmed_end(t);
    assert(t.subrange(0, to) =~= s.subrange(from, from + to));
    assert forall|k: int| from + to <= k < s.len() implies white_space(#[trigger] s[k]) by {
        assert(t[k - from] == s[k]);
    }
    if 0 < to {
        assert(t[0] == s[from]);
        assert(t[to - 1] == s[from + to - 1]);
    }
    (from, from + to)
}

proof fn lemma_trimmed_start(s: Seq<char>) -> (from: int)
    ensures
        0 <= from <= s.len(),
        trimmed_start(s) == s.subrange(from, s.len() as int),
        forall|k: int| 0 <= k < from ==> white_space(#[trigger] s[k]),
        from < s.len() ==> !white_space(s[from]),
    decreases s.len(),
{
    if s.len() > 0 && white_space(s[0]) {
        let rest = s.drop_first();
        let f = lemma_trimmed_start(rest);
        assert(rest.subrange(f, rest.len() as int) =~= s.subrange(f + 1, s.len() as int));
        assert forall|k: int| 0 <= k < f + 1 implies white_space(#[trigger] s[k]) by {
            if k > 0 {
                assert(rest[k - 1] == s[k]);
            }
        }
        f + 1
    } else {
        assert(s.subrange(0, s.len() as int) =~= s);
        0
    }
}

proof fn lemma_trimmed_end(s: Seq<char>) -> (to: int)
    ensures
        0 <= to <= s.len(),
        trimmed_end(s) == s.subrange(0, to),
        forall|k: int| to <= k < s.len() ==> white_space(#[trigger] s[k]),
        0 < to ==> !white_space(s[to - 1]),
    decreases s.len(),
{
    if s.len() > 0 && white_space(s.last()) {
        let rest = s.drop_last();
        let t = lemma_trimmed_end(rest);
        assert(rest.subrange(0, t) =~= s.subrange(0, t));
        assert forall|k: int| t <= k < s.len() implies white_space(#[trigger] s[k]) by {
            if k < rest.len() {
                assert(rest[k] == s[k]);
            }
        }
        t
    } else {
        assert(s.subrange(0, s.len() as int) =~= s);
        s.len() as int
    }
}

/// The name of a program is what stands before `.exe`, in small letters or in
/// capitals. A name that ends otherwise is taken whole.
pub proof fn law_program_names_lose_their_ending(stem: Seq<char>)
    ensures
        exe_stem(stem + seq!['.', 'e', 'x', 'e']) == stem,
        exe_stem(stem + seq!['.', 'E', 'X', 'E']) == stem,
        exe_stem(stem) == stem || stem == exe_stem(stem) + seq!['.', 'e', 'x', 'e'] || stem
            == exe_stem(stem) + seq!['.', 'E', 'X', 'E'],
{
    let a = stem + seq!['.', 'e', 'x', 'e'];
    let b = stem + seq!['.', 'E', 'X', 'E'];
    assert(a.subrange(a.len() - 4, a.len() as int) =~= seq!['.', 'e', 'x', 'e']);
    assert(b.subrange(b.len() - 4, b.len() as int) =~= seq!['.', 'E', 'X', 'E']);
    assert(a.subrange(0, a.len() - 4) =~= stem);
    assert(b.subrange(0, b.len() - 4) =~= stem);
    if stem.len() >= 4 {
        let end = stem.subrange(stem.len() - 4, stem.len() as int);
        assert(stem =~= stem.subrange(0, stem.len() - 4) + end);
    }
}

/// Only the first letter of a shown name changes.
pub proof fn law_names_are_shown_with_a_capital(first: char, rest: Seq<char>)
    ensures
        capitalized(seq![first] + rest) == uppercase(first) + rest,
{
    let s = seq![first] + rest;
    assert(s.drop_first() =~= rest);
}

/// A text that fits is left alone. One that is too long keeps its beginning, has
/// an ellipsis at its end, and is then as long as is allowed.
pub proof fn law_long_texts_end_in_an_ellipsis(s: Seq<char>, max: nat)
    requires
        max > 0,
    ensures
        s.len() <= max ==> shortened(s, max) == s,
        s.len() > max ==> {
            let r = shortened(s, max);
            &&& r.len() == max
            &&& r[max - 1] == '\u{2026}'
            &&& forall|k: int| 0 <= k < max - 1 ==> #[trigger] r[k] == s[k]
        },
{
}

/// The file name is what follows the last backslash of a path.
pub proof fn law_file_name_follows_the_last_backslash(dir: Seq<char>, name: Seq<char>)
    requires
        forall|k: int| 0 <= k < name.len() ==> #[trigger] name[k] != '\\',
    ensures
        file_name(name) == name,
        file_name(dir + seq!['\\'] + name) == name,
    decreases name.len(),
{
    let whole = dir + seq!['\\'] + name;
    if name.len() > 0 {
        let init = name.drop_last();
        assert forall|k: int| 0 <= k < init.len() implies #[trigger] init[k] != '\\' by {
            assert(name[k] != '\\');
        }
        law_file_name_follows_the_last_backslash(dir, init);
        assert(whole.drop_last() =~= dir + seq!['\\'] + init);
        assert(whole.last() == name.last());
        assert(name.last() == name[name.len() - 1]);
        assert(init.push(name.last()) =~= name);
    } else {
        assert(whole.last() == '\\');
        assert(file_name(whole) =~= name);
    }
}

/// Forward slashes stand where backslashes stood, and nothing else changes.
pub proof fn law_slashes_are_turned(path: Seq<char>, i: int)
    requires
        0 <= i < path.len(),
    ensures
        slashes_forward(path).len() == path.len(),
        path[i] == '\\' ==> slashes_forward(path)[i] == '/',
        path[i] != '\\' ==> slashes_forward(path)[i] == path[i],
{
}

/// UTF-16 units outside the range of surrogates are the characters they number.
pub proof fn law_plain_units_are_characters(units: Seq<u16>, i: int)
    requires
        forall|k: int| 0 <= k < units.len() ==> !(0xd800 <= #[trigger] units[k] <= 0xdfff),
        0 <= i < units.len(),
    ensures
        utf16_lossy(units).len() == units.len(),
        utf16_lossy(units)[i] as int == units[i],
    decreases units.len(),
{
    let rest = units.skip(1);
    assert forall|k: int| 0 <= k < rest.len() implies !(0xd800 <= #[trigger] rest[k]
        <= 0xdfff) by {
        assert(rest[k] == units[k + 1]);
    }
    assert(!(0xd800 <= units[0] <= 0xdfff));
    if rest.len() > 0 {
        let j = if i > 0 {
            i - 1
        } else {
            0
        };
        law_plain_units_are_characters(rest, j);
        assert(rest[j] == units[j + 1]);
    } else {
        assert(utf16_lossy(rest).len() == 0);
    }
}

/// A high surrogate and a low one behind it make one character, numbered by the
/// ten bits of each. A surrogate that is not part of a pair becomes the
/// replacement character.
pub proof fn law_surrogates_come_in_pairs(first: u16, second: u16, rest: Seq<u16>)
    requires
        0xd800 <= first <= 0xdfff,
    ensures
        ({
            let text = utf16_lossy(seq![first, second] + rest);
            if first <= 0xdbff && 0xdc00 <= second <= 0xdfff {
                &&& text.len() > 0
                &&& text[0] as int == 0x1_0000 + (first - 0xd800) * 1024 + (second - 0xdc00)
                &&& text.skip(1) == utf16_lossy(rest)
            } else {
                &&& text.len() > 0
                &&& text[0] == '\u{fffd}'
                &&& text.skip(1) == utf16_lossy(seq![second] + rest)
            }
        }),
{
    let units = seq![first, second] + rest;
    assert(units.skip(2) =~= rest);
    assert(units.skip(1) =~= seq![second] + rest);
    let text = utf16_lossy(units);
    if first <= 0xdbff && 0xdc00 <= second <= 0xdfff {
        assert(text.skip(1) =~= utf16_lossy(rest));
    } else {
        assert(text.skip(1) =~= utf16_lossy(seq![second] + rest));
    }
}

/// A number in hexadecimal has its digits behind those of what is left without
/// the last one.
pub proof fn law_hexadecimal_digits(n: nat, d: nat)
    requires
        d < 16,
    ensures
        n > 0 ==> hexadecimal(16 * n + d) == hexadecimal(n) + hexadecimal(d),
        hexadecimal(d).len() == 1,
        d < 10 ==> hexadecimal(d)[0] as int == 48 + d,
        d >= 10 ==> hexadecimal(d)[0] as int == 87 + d,
{
    if n > 0 {
        assert((16 * n + d) / 16 == n && (16 * n + d) % 16 == d);
        assert(hexadecimal(16 * n + d) =~= hexadecimal(n) + hexadecimal(d));
    }
}

/// A number is read digit by digit from the left, each ten times less than the
/// one before it. A plus sign may stand in front.
pub proof fn law_digits_are_worth_ten_times_less_each(s: Seq<char>, c: char)
    requires
        s.len() > 0,
        s[0] != '+',
    ensures
        '0' <= c <= '9' && number(s) is Some ==> number(s.push(c)) == Some(
            (10 * number(s)->0 + (c as int - 48)) as nat,
        ),
        !('0' <= c <= '9') || number(s) is None ==> number(s.push(c)) is None,
        number(seq!['+'] + s) == number(s),
        '0' <= c <= '9' ==> number(seq![c]) == Some((c as int - 48) as nat),
        number(seq![]) is None,
        number(seq!['+']) is None,
{
    let t = s.push(c);
    assert(t.drop_last() =~= s);
    assert(t[0] == s[0]);
    assert(all_digits(t) <==> all_digits(s) && is_digit(c)) by {
        if all_digits(t) {
            assert forall|i: int| 0 <= i < s.len() implies is_digit(#[trigger] s[i]) by {
                assert(t[i] == s[i]);
            }
            assert(t[s.len() as int] == c);
        }
    }
    let p = seq!['+'] + s;
    assert(p.drop_first() =~= s);
    let one = seq![c];
    if '0' <= c <= '9' {
        assert(one.drop_last() =~= seq![]);
        assert(digits_value(seq![]) == 0);
        assert(digits_value(one) == digits_value(one.drop_last()) * 10 + digit_value(c));
    }
    assert(seq!['+'].drop_first() =~= seq![]);
}

/// A number is worth nothing without digits: any other character makes it none.
pub proof fn law_other_characters_spoil_a_number(s: Seq<char>, i: int)
    requires
        0 <= i < s.len(),
        !('0' <= s[i] <= '9'),
        i > 0 || s[i] != '+',
    ensures
        number(s) is None,
{
    if s[0] == '+' {
        assert(s.drop_first()[i - 1] == s[i]);
    }
}

/// A length of pixels is a whole number of them with up to three decimal places:
/// tenths, hundredths, thousandths. A minus sign may stand in front.
pub proof fn law_lengths_have_up_to_three_places(whole: Seq<char>, part: Seq<char>)
    requires
        whole.len() > 0,
        all_digits(whole),
        1 <= part.len() <= 3,
        all_digits(part),
    ensures
        ({
            let w = digits_value(whole);
            let p = digits_value(part);
            let both = whole + seq!['.'] + part;
            let value = if part.len() == 1 {
                1000 * w + 100 * p
            } else if part.len() == 2 {
                1000 * w + 10 * p
            } else {
                1000 * w + p
            };
            &&& plain_pixels(whole) == Some(1000 * w as int)
            &&& plain_pixels(both) == Some(value as int)
            &&& plain_pixels(seq!['-'] + both) == Some(-(value as int))
        }),
{
    let both = whole + seq!['.'] + part;
    assert(is_digit(whole[0]));
    assert(both[0] == whole[0]);
    let mask = char_mask(both, '.');
    assert(mask[whole.len() as int]);
    assert forall|k: int| 0 <= k < whole.len() implies !mask[k] by {
        assert(is_digit(whole[k]));
        assert(both[k] == whole[k]);
    }
    crate::search::lemma_first_hit(mask, whole.len() as int);
    assert(both.subrange(0, whole.len() as int) =~= whole);
    assert(both.subrange(whole.len() as int + 1, both.len() as int) =~= part);
    let plain = char_mask(whole, '.');
    assert forall|k: int| 0 <= k < plain.len() implies !plain[k] by {
        assert(is_digit(whole[k]));
    }
    crate::search::lemma_first_miss(plain);
    let minus = seq!['-'] + both;
    assert(minus.subrange(1, minus.len() as int) =~= both);
}

} // verus!
