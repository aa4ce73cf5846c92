//! The attribute values the SVG allowlist accepts: colors, paints, numbers and
//! lengths, the root style, transforms, paths and view boxes.

use vstd::prelude::*;

use crate::text::{chars_of, is_ascii_hexdigit, spec_is_ascii_hexdigit, utf8_len};

verus! {

// ---------------------------------------------------------------------------
// Results of the outside parsers.

/// The bit pattern of the double precision number Rust's `str::parse` reads from a
/// text, when it reads one.
pub uninterp spec fn decimal_bits(s: Seq<char>) -> Option<u64>;

/// Reads a text as a double precision number with `str::parse` and returns the bit
/// pattern of the number (infinities and NaN included).
#[verifier::external_body]
fn parse_decimal_bits(s: &str) -> (r: Option<u64>)
    ensures
        r == decimal_bits(s@),
{
    s.parse().ok().map(|v| svgtypes::Number(v).0.to_bits())
}

/// Whether svgtypes reads a text as a view box (`ViewBox::from_str` succeeds).
pub uninterp spec fn view_box_parses(s: Seq<char>) -> bool;

/// Reads a text with svgtypes' `ViewBox::from_str` and says whether it succeeded;
/// the result is taken to depend on the text alone.
#[verifier::external_body]
fn view_box_ok(s: &str) -> (r: bool)
    ensures
        r == view_box_parses(s@),
{
    s.parse::<svgtypes::ViewBox>().is_ok()
}

/// For each token svgtypes' transform list parser yields from a text, whether it is
/// a valid token (the parser stops after its first invalid token).
pub uninterp spec fn transform_tokens(s: Seq<char>) -> Seq<bool>;

/// Runs svgtypes' `TransformListParser` over a text to its end and returns, for each
/// token it yields, whether the token is valid; the sequence is taken to depend on
/// the text alone.
#[verifier::external_body]
fn transform_outcomes(s: &str) -> (r: Vec<bool>)
    ensures
        r@ == transform_tokens(s@),
{
    svgtypes::TransformListParser::from(s).map(|token| token.is_ok()).collect()
}

/// For each segment svgtypes' path parser yields from a text, whether it is a valid
/// segment (the parser stops after its first invalid segment).
pub uninterp spec fn path_segments(s: Seq<char>) -> Seq<bool>;

/// Runs svgtypes' `PathParser` over a text to its end and returns, for each segment it
/// yields, whether the segment is valid; the sequence is taken to depend on the text
/// alone.
#[verifier::external_body]
fn path_outcomes(s: &str) -> (r: Vec<bool>)
    ensures
        r@ == path_segments(s@),
{
    svgtypes::PathParser::from(s).map(|segment| segment.is_ok()).collect()
}

// ---------------------------------------------------------------------------
// Numbers and lengths.

/// Whether a double precision bit pattern is finite.
pub open spec fn f64_finite(bits: u64) -> bool {
    (bits >> 52u64) & 0x7ffu64 != 0x7ffu64
}

/// Whether a double precision bit pattern is above zero.
pub open spec fn f64_positive(bits: u64) -> bool {
    bits >> 63u64 == 0 && bits & 0x7fff_ffff_ffff_ffffu64 != 0
}

/// Whether a double precision bit pattern is at least zero (negative zero included).
pub open spec fn f64_nonnegative(bits: u64) -> bool {
    bits >> 63u64 == 0 || bits & 0x7fff_ffff_ffff_ffffu64 == 0
}

/// Whether a character is ASCII whitespace as `u8::is_ascii_whitespace` defines it.
pub open spec fn ascii_space(c: char) -> bool {
    c == ' ' || c == '\t' || c == '\n' || c == '\x0C' || c == '\r'
}

/// A finite number of 1 to 64 bytes without ASCII whitespace, as its bit pattern.
pub open spec fn number_of(s: Seq<char>) -> Option<u64> {
    if s.len() == 0 || utf8_len(s) > 64 || (exists|i: int| 0 <= i < s.len() && ascii_space(#[trigger] s[i])) {
        None
    } else {
        match decimal_bits(s) {
            Some(b) => if f64_finite(b) {
                Some(b)
            } else {
                None
            },
            None => None,
        }
    }
}

/// The text without a suffix, when it ends with it.
pub open spec fn strip_suffix(s: Seq<char>, suffix: Seq<char>) -> Option<Seq<char>> {
    if s.len() >= suffix.len() && s.subrange(s.len() - suffix.len(), s.len() as int) == suffix {
        Some(s.subrange(0, s.len() - suffix.len()))
    } else {
        None
    }
}

/// A length: a number, optionally followed by `px`, `ex` or `em` when units are allowed.
pub open spec fn length_of(s: Seq<char>, allow_unit: bool) -> Option<u64> {
    let number = if allow_unit {
        match strip_suffix(s, "px"@) {
            Some(n) => n,
            None => match strip_suffix(s, "ex"@) {
                Some(n) => n,
                None => match strip_suffix(s, "em"@) {
                    Some(n) => n,
                    None => s,
                },
            },
        }
    } else {
        s
    };
    number_of(number)
}

/// Reads a finite number of 1 to 64 bytes without ASCII whitespace.
pub fn parse_number(s: &str) -> (r: Option<u64>)
    ensures
        r == number_of(s@),
{
    let chars = chars_of(s);
    let n = crate::text::byte_len(s);
    if chars.len() == 0 || n > 64 {
        return None;
    }
    let mut i: usize = 0;
    while i < chars.len()
        invariant
            i <= chars@.len(),
            chars@ == s@,
            forall|j: int| 0 <= j < i ==> !ascii_space(#[trigger] s@[j]),
        decreases chars@.len() - i,
    {
        let c = chars[i];
        if c == ' ' || c == '\t' || c == '\n' || c == '\x0C' || c == '\r' {
            assert(ascii_space(s@[i as int]));
            return None;
        }
        i = i + 1;
    }
    match parse_decimal_bits(s) {
        Some(b) => if (b >> 52u64) & 0x7ffu64 != 0x7ffu64 {
            Some(b)
        } else {
            None
        },
        None => None,
    }
}

fn ends_with(chars: &Vec<char>, suffix: &str) -> (r: bool)
    ensures
        r == (strip_suffix(chars@, suffix@) is Some),
{
    let tail = chars_of(suffix);
    if tail.len() > chars.len() {
        return false;
    }
    let total = chars.len();
    let start = total - tail.len();
    let mut i: usize = 0;
    while i < tail.len()
        invariant
            total == chars@.len(),
            i <= tail@.len(),
            tail@ == suffix@,
            start == chars@.len() - tail@.len(),
            forall|j: int| 0 <= j < i ==> chars@[start + j] == tail@[j],
        decreases tail@.len() - i,
    {
        if chars[start + i] != tail[i] {
            assert(chars@.subrange(start as int, chars@.len() as int)[i as int] != suffix@[i as int]);
            return false;
        }
        i = i + 1;
    }
    assert(chars@.subrange(start as int, chars@.len() as int) =~= suffix@);
    true
}

fn prefix_string(chars: &Vec<char>, n: usize) -> (r: String)
    requires
        n <= chars@.len(),
    ensures
        r@ == chars@.subrange(0, n as int),
{
    let mut r = String::new();
    let mut i: usize = 0;
    while i < n
        invariant
            i <= n <= chars@.len(),
            r@ == chars@.subrange(0, i as int),
        decreases n - i,
    {
        crate::text::push_char(&mut r, chars[i]);
        assert(chars@.subrange(0, i + 1) =~= chars@.subrange(0, i as int).push(chars@[i as int]));
        i = i + 1;
    }
    r
}

/// Reads a length, with a `px`, `ex` or `em` unit when units are allowed.
pub fn parse_length(s: &str, allow_unit: bool) -> (r: Option<u64>)
    ensures
        r == length_of(s@, allow_unit),
{
    if !allow_unit {
        return parse_number(s);
    }
    let chars = chars_of(s);
    proof {
        reveal_strlit("px");
        reveal_strlit("ex");
        reveal_strlit("em");
    }
    if ends_with(&chars, "px") || ends_with(&chars, "ex") || ends_with(&chars, "em") {
        let body = prefix_string(&chars, chars.len() - 2);
        assert(body@ =~= s@.subrange(0, s@.len() - 2));
        return parse_number(body.as_str());
    }
    parse_number(s)
}

// ---------------------------------------------------------------------------
// Colors and paints.

/// `#` followed by six hexadecimal digits.
pub open spec fn hex_color(s: Seq<char>) -> bool {
    s.len() == 7 && s[0] == '#' && forall|i: int| 1 <= i < 7 ==> spec_is_ascii_hexdigit(#[trigger] s[i])
}

/// `currentColor`, `none`, or a hexadecimal color.
pub open spec fn paint(s: Seq<char>) -> bool {
    s == "currentColor"@ || s == "none"@ || hex_color(s)
}

/// Whether a value is `#` followed by six hexadecimal digits.
pub fn valid_hex_color(value: &str) -> (r: bool)
    ensures
        r == hex_color(value@),
{
    let chars = chars_of(value);
    if chars.len() != 7 || chars[0] != '#' {
        return false;
    }
    let mut i: usize = 1;
    while i < 7
        invariant
            1 <= i <= 7,
            chars@ == value@,
            chars@.len() == 7,
            forall|j: int| 1 <= j < i ==> spec_is_ascii_hexdigit(#[trigger] value@[j]),
        decreases 7 - i,
    {
        if !is_ascii_hexdigit(chars[i]) {
            return false;
        }
        i = i + 1;
    }
    true
}

fn same(a: &str, b: &str) -> (r: bool)
    ensures
        r == (a@ == b@),
{
    crate::text::owned(a) == crate::text::owned(b)
}

/// Whether a value is a paint.
pub fn valid_paint(value: &str) -> (r: bool)
    ensures
        r == paint(value@),
{
    same(value, "currentColor") || same(value, "none") || valid_hex_color(value)
}

// ---------------------------------------------------------------------------
// Transforms, paths, view boxes.

/// A transform list of 1 to 512 bytes with 1 to 64 tokens, all valid.
pub open spec fn transform_ok(s: Seq<char>) -> bool {
    let t = transform_tokens(s);
    &&& s.len() > 0
    &&& utf8_len(s) <= 512
    &&& 0 < t.len() <= 64
    &&& forall|i: int| 0 <= i < t.len() ==> #[trigger] t[i]
}

/// An empty path, or 1 to 100000 segments, all valid.
pub open spec fn path_ok(s: Seq<char>) -> bool {
    let p = path_segments(s);
    s.len() == 0 || (0 < p.len() <= 100_000 && forall|i: int| 0 <= i < p.len() ==> #[trigger] p[i])
}

fn all_valid(outcomes: &Vec<bool>, limit: usize) -> (r: bool)
    ensures
        r == (0 < outcomes@.len() <= limit && forall|i: int| 0 <= i < outcomes@.len() ==> #[trigger] outcomes@[i]),
{
    if outcomes.len() == 0 || outcomes.len() > limit {
        return false;
    }
    let mut i: usize = 0;
    while i < outcomes.len()
        invariant
            i <= outcomes@.len(),
            forall|j: int| 0 <= j < i ==> #[trigger] outcomes@[j],
        decreases outcomes@.len() - i,
    {
        if !outcomes[i] {
            return false;
        }
        i = i + 1;
    }
    true
}

/// Whether a value is a transform list of at most 64 valid tokens.
pub fn valid_transform(value: &str) -> (r: bool)
    ensures
        r == transform_ok(value@),
{
    let n = crate::text::byte_len(value);
    if n == 0 || n > 512 {
        return false;
    }
    all_valid(&transform_outcomes(value), 64)
}

/// Whether a value is an empty path or at most 100000 valid segments.
pub fn valid_path(value: &str) -> (r: bool)
    ensures
        r == path_ok(value@),
{
    if crate::text::byte_len(value) == 0 {
        return true;
    }
    all_valid(&path_outcomes(value), 100_000)
}

/// Whether a value is a view box.
pub fn valid_view_box(value: &str) -> (r: bool)
    ensures
        r == view_box_parses(value@),
{
    view_box_ok(value)
}

} // verus!
