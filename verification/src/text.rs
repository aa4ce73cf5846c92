//! Character level helpers shared by the parsers of this crate.

use vstd::prelude::*;
use vstd::utf8::*;

verus! {

/// Number of bytes in the UTF 8 encoding of one character.
pub open spec fn char_width(c: char) -> nat {
    encode_scalar(c as u32).len()
}

/// Number of bytes in the UTF 8 encoding of a character sequence.
pub open spec fn utf8_len(s: Seq<char>) -> nat {
    encode_utf8(s).len()
}

/// Encoding distributes over concatenation.
pub proof fn lemma_encode_utf8_concat(a: Seq<char>, b: Seq<char>)
    ensures
        encode_utf8(a + b) == encode_utf8(a) + encode_utf8(b),
    decreases a.len(),
{
    if a.len() == 0 {
        assert(a + b =~= b);
        assert(encode_utf8(a) =~= Seq::<u8>::empty());
        assert(encode_utf8(a) + encode_utf8(b) =~= encode_utf8(b));
    } else {
        assert((a + b).drop_first() =~= a.drop_first() + b);
        assert((a + b)[0] == a[0]);
        lemma_encode_utf8_concat(a.drop_first(), b);
        assert(encode_utf8(a + b) =~= encode_scalar(a[0] as u32) + encode_utf8(a.drop_first() + b));
        assert(encode_utf8(a) + encode_utf8(b) =~= encode_scalar(a[0] as u32) + (encode_utf8(a.drop_first()) + encode_utf8(b)));
    }
}

/// The encoded length of a concatenation is the sum of the encoded lengths.
pub proof fn lemma_utf8_len_concat(a: Seq<char>, b: Seq<char>)
    ensures
        utf8_len(a + b) == utf8_len(a) + utf8_len(b),
{
    lemma_encode_utf8_concat(a, b);
}

/// The encoded length of a single character sequence is the width of that character.
pub proof fn lemma_utf8_len_single(c: char)
    ensures
        utf8_len(seq![c]) == char_width(c),
{
    assert(seq![c].drop_first() =~= Seq::<char>::empty());
    assert(encode_utf8(seq![c]) =~= encode_scalar(c as u32) + encode_utf8(Seq::<char>::empty()));
    assert(encode_utf8(Seq::<char>::empty()) =~= Seq::<u8>::empty());
}

/// Appending one character adds its width to the encoded length.
pub proof fn lemma_utf8_len_push(s: Seq<char>, c: char)
    ensures
        utf8_len(s.push(c)) == utf8_len(s) + char_width(c),
{
    assert(s.push(c) =~= s + seq![c]);
    lemma_utf8_len_concat(s, seq![c]);
    lemma_utf8_len_single(c);
}

/// Every character occupies one to four bytes.
pub proof fn lemma_char_width_bounds(c: char)
    ensures
        1 <= char_width(c) <= 4,
        char_width(c) == 1 <==> (c as u32) < 0x80,
{
    char_is_scalar(c);
}

/// The encoded length is at least the number of characters.
pub proof fn lemma_utf8_len_at_least_chars(s: Seq<char>)
    ensures
        s.len() <= utf8_len(s),
    decreases s.len(),
{
    if s.len() > 0 {
        let init = s.drop_last();
        lemma_utf8_len_at_least_chars(init);
        assert(init.push(s.last()) =~= s);
        lemma_utf8_len_push(init, s.last());
        lemma_char_width_bounds(s.last());
    } else {
        assert(encode_utf8(s) =~= Seq::<u8>::empty());
    }
}

/// Returns the number of bytes in the UTF 8 encoding of a character.
pub fn char_len_utf8(c: char) -> (r: usize)
    ensures
        r == char_width(c),
        1 <= r <= 4,
{
    proof {
        char_is_scalar(c);
    }
    let v = c as u32;
    if v < 0x80 {
        1
    } else if v < 0x800 {
        2
    } else if v < 0x10000 {
        3
    } else {
        4
    }
}

/// Whether a character has the Unicode `White_Space` property.
pub open spec fn spec_is_whitespace(c: char) -> bool {
    let v = c as u32;
    ||| 0x09 <= v <= 0x0d
    ||| v == 0x20
    ||| v == 0x85
    ||| v == 0xa0
    ||| v == 0x1680
    ||| 0x2000 <= v <= 0x200a
    ||| v == 0x2028
    ||| v == 0x2029
    ||| v == 0x202f
    ||| v == 0x205f
    ||| v == 0x3000
}

/// Whether a character belongs to the Unicode `Cc` control category.
pub open spec fn spec_is_control(c: char) -> bool {
    let v = c as u32;
    v <= 0x1f || (0x7f <= v <= 0x9f)
}

/// A control character other than line feed, carriage return and tab.
pub open spec fn spec_is_unsafe_control(c: char) -> bool {
    spec_is_control(c) && c != '\n' && c != '\r' && c != '\t'
}

/// Whether a character is an ASCII decimal digit.
pub open spec fn spec_is_ascii_digit(c: char) -> bool {
    '0' <= c <= '9'
}

/// Whether a character is an ASCII hexadecimal digit.
pub open spec fn spec_is_ascii_hexdigit(c: char) -> bool {
    ||| '0' <= c <= '9'
    ||| 'a' <= c <= 'f'
    ||| 'A' <= c <= 'F'
}

/// Unicode `White_Space` test, the property behind `char::is_whitespace`.
pub fn is_whitespace(c: char) -> (r: bool)
    ensures
        r == spec_is_whitespace(c),
{
    let v = c as u32;
    (0x09 <= v && v <= 0x0d) || v == 0x20 || v == 0x85 || v == 0xa0 || v == 0x1680 || (0x2000
        <= v && v <= 0x200a) || v == 0x2028 || v == 0x2029 || v == 0x202f || v == 0x205f || v
        == 0x3000
}

/// Unicode `Cc` test, the property behind `char::is_control`.
pub fn is_control(c: char) -> (r: bool)
    ensures
        r == spec_is_control(c),
{
    let v = c as u32;
    v <= 0x1f || (0x7f <= v && v <= 0x9f)
}

/// A control character other than line feed, carriage return and tab.
pub fn is_unsafe_control(c: char) -> (r: bool)
    ensures
        r == spec_is_unsafe_control(c),
{
    is_control(c) && c != '\n' && c != '\r' && c != '\t'
}

/// ASCII decimal digit test.
pub fn is_ascii_digit(c: char) -> (r: bool)
    ensures
        r == spec_is_ascii_digit(c),
{
    '0' <= c && c <= '9'
}

/// ASCII hexadecimal digit test.
pub fn is_ascii_hexdigit(c: char) -> (r: bool)
    ensures
        r == spec_is_ascii_hexdigit(c),
{
    ('0' <= c && c <= '9') || ('a' <= c && c <= 'f') || ('A' <= c && c <= 'F')
}

/// Collects the characters of a string slice in order.
pub fn chars_of(s: &str) -> (r: Vec<char>)
    ensures
        r@ == s@,
{
    let mut r: Vec<char> = Vec::new();
    for c in it: s.chars()
        invariant
            r@ == it.seq().take(it.index() as int),
            it.seq() == s@,
    {
        r.push(c);
    }
    r
}

/// Appends one character to a string (`String::push`).
#[verifier::external_body]
pub(crate) fn push_char(s: &mut String, c: char)
    ensures
        final(s)@ == old(s)@.push(c),
{
    s.push(c);
}

/// Builds a string holding exactly the given characters.
pub fn string_from_chars(chars: &[char]) -> (r: String)
    ensures
        r@ == chars@,
{
    let mut r = String::new();
    let mut i: usize = 0;
    while i < chars.len()
        invariant
            i <= chars@.len(),
            r@ == chars@.take(i as int),
        decreases chars@.len() - i,
    {
        push_char(&mut r, chars[i]);
        assert(chars@.take(i as int).push(chars@[i as int]) =~= chars@.take(i + 1));
        i = i + 1;
    }
    assert(chars@.take(chars@.len() as int) =~= chars@);
    r
}

/// Whether any character of a string is an unsafe control character.
pub fn contains_unsafe_control(s: &str) -> (r: bool)
    ensures
        r == exists|i: int| 0 <= i < s@.len() && spec_is_unsafe_control(#[trigger] s@[i]),
{
    let chars = chars_of(s);
    let mut i: usize = 0;
    while i < chars.len()
        invariant
            i <= chars@.len(),
            chars@ == s@,
            forall|j: int| 0 <= j < i ==> !spec_is_unsafe_control(#[trigger] s@[j]),
        decreases chars@.len() - i,
    {
        if is_unsafe_control(chars[i]) {
            return true;
        }
        i = i + 1;
    }
    false
}


/// The decimal digit character of a value below ten.
pub open spec fn decimal_digit(d: int) -> char {
    ('0' as int + d) as char
}

/// The decimal representation of a natural number, without leading zeros.
pub open spec fn decimal(n: nat) -> Seq<char>
    decreases n,
{
    if n < 10 {
        seq![decimal_digit(n as int)]
    } else {
        decimal(n / 10).push(decimal_digit((n % 10) as int))
    }
}

/// Appends the decimal representation of `n`.
pub fn push_decimal(s: &mut String, n: u64)
    ensures
        final(s)@ == old(s)@ + decimal(n as nat),
    decreases n,
{
    if n >= 10 {
        push_decimal(s, n / 10);
    }
    let d = (n % 10) as u8;
    push_char(s, ((48u8 + d) as char));
    assert(final(s)@ =~= old(s)@ + decimal(n as nat));
}

/// Appends the characters of a string slice.
pub fn push_str(s: &mut String, t: &str)
    ensures
        final(s)@ == old(s)@ + t@,
{
    s.append(t);
}

/// Builds an owned string from a string slice.
pub fn owned(t: &str) -> (r: String)
    ensures
        r@ == t@,
{
    String::from_str(t)
}


/// The number of bytes of the UTF 8 encoding of a string.
pub fn byte_len(s: &str) -> (n: usize)
    ensures
        n == utf8_len(s@),
{
    s.as_bytes().len()
}

/// Whether bytes are valid UTF 8 (`std::str::from_utf8` succeeds exactly on those).
#[verifier::external_body]
pub(crate) fn is_valid_utf8(bytes: &[u8]) -> (r: bool)
    ensures
        r == valid_utf8(bytes@),
{
    std::str::from_utf8(bytes).is_ok()
}

} // verus!
