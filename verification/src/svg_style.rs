//! The root `style` attribute: `;` separated declarations of known properties.

use vstd::prelude::*;

use crate::svg_values::{hex_color, length_of, parse_length, valid_hex_color};
use crate::text::{chars_of, is_whitespace, spec_is_whitespace, string_from_chars, utf8_len};

verus! {

/// The position of the first occurrence of a character.
pub open spec fn first_index(s: Seq<char>, c: char) -> Option<int>
    decreases s.len(),
{
    if s.len() == 0 {
        None
    } else if s[0] == c {
        Some(0)
    } else {
        match first_index(s.drop_first(), c) {
            Some(k) => Some(k + 1),
            None => None,
        }
    }
}

pub proof fn lemma_first_index(s: Seq<char>, c: char, j: int)
    requires
        0 <= j <= s.len(),
        forall|k: int| 0 <= k < j ==> s[k] != c,
        j < s.len() ==> s[j] == c,
    ensures
        first_index(s, c) == (if j < s.len() { Some(j) } else { None::<int> }),
    decreases j,
{
    if j > 0 {
        lemma_first_index(s.drop_first(), c, j - 1);
    }
}

pub proof fn lemma_first_index_bound(s: Seq<char>, c: char)
    ensures
        first_index(s, c) matches Some(i) ==> 0 <= i < s.len() && s[i] == c,
    decreases s.len(),
{
    if s.len() > 0 && s[0] != c {
        lemma_first_index_bound(s.drop_first(), c);
    }
}

/// The text without leading whitespace (`char::is_whitespace`).
pub open spec fn trim_start(s: Seq<char>) -> Seq<char>
    decreases s.len(),
{
    if s.len() > 0 && spec_is_whitespace(s[0]) {
        trim_start(s.drop_first())
    } else {
        s
    }
}

/// The text without trailing whitespace.
pub open spec fn trim_end(s: Seq<char>) -> Seq<char>
    decreases s.len(),
{
    if s.len() > 0 && spec_is_whitespace(s.last()) {
        trim_end(s.drop_last())
    } else {
        s
    }
}

/// The text without leading and trailing whitespace (`str::trim`).
pub open spec fn trim(s: Seq<char>) -> Seq<char> {
    trim_end(trim_start(s))
}

proof fn lemma_trim_start(s: Seq<char>, k: int)
    requires
        0 <= k <= s.len(),
        forall|j: int| 0 <= j < k ==> spec_is_whitespace(#[trigger] s[j]),
        k < s.len() ==> !spec_is_whitespace(s[k]),
    ensures
        trim_start(s) == s.skip(k),
    decreases k,
{
    if k > 0 {
        lemma_trim_start(s.drop_first(), k - 1);
        assert(s.drop_first().skip(k - 1) =~= s.skip(k));
    } else {
        assert(s.skip(0) =~= s);
    }
}

proof fn lemma_trim_end(s: Seq<char>, k: int)
    requires
        0 <= k <= s.len(),
        forall|j: int| k <= j < s.len() ==> spec_is_whitespace(#[trigger] s[j]),
        k > 0 ==> !spec_is_whitespace(s[k - 1]),
    ensures
        trim_end(s) == s.take(k),
    decreases s.len() - k,
{
    if k < s.len() {
        lemma_trim_end(s.drop_last(), k);
        assert(s.drop_last().take(k) =~= s.take(k));
    } else {
        assert(s.take(k) =~= s);
    }
}

/// Whether a declaration is allowed: a color property with a hexadecimal color, or
/// `vertical-align` with a length.
pub open spec fn declaration_ok(property: Seq<char>, value: Seq<char>) -> bool {
    if property == "color"@ || property == "background-color"@ {
        hex_color(value)
    } else if property == "vertical-align"@ {
        length_of(value, true) is Some
    } else {
        false
    }
}

/// The properties declared in the rest of a style, after those already `seen`; `None`
/// when a declaration has no `:`, repeats a property or is not allowed. Blank
/// declarations are skipped.
pub open spec fn declarations(rest: Seq<char>, seen: Seq<Seq<char>>) -> Option<Seq<Seq<char>>>
    decreases rest.len(),
{
    let (piece, next): (Seq<char>, Option<Seq<char>>) = match first_index(rest, ';') {
        Some(i) => (rest.take(i), Some(rest.skip(i + 1))),
        None => (rest, None),
    };
    let checked: Option<Seq<Seq<char>>> = if trim(piece).len() == 0 {
        Some(seen)
    } else {
        match first_index(piece, ':') {
            None => None,
            Some(j) => {
                let property = trim(piece.take(j));
                let value = trim(piece.skip(j + 1));
                if seen.contains(property) || !declaration_ok(property, value) {
                    None
                } else {
                    Some(seen.push(property))
                }
            },
        }
    };
    match (checked, next) {
        (None, _) => None,
        (Some(s), None) => Some(s),
        (Some(s), Some(n)) => {
            proof {
                lemma_first_index_bound(rest, ';');
            }
            declarations(n, s)
        },
    }
}

/// A root style of at most 256 bytes that declares at least one allowed property.
pub open spec fn root_style_ok(style: Seq<char>) -> bool {
    utf8_len(style) <= 256 && (declarations(style, seq![]) matches Some(seen) && seen.len() > 0)
}

fn sub_chars(s: &Vec<char>, lo: usize, hi: usize) -> (r: Vec<char>)
    requires
        lo <= hi <= s@.len(),
    ensures
        r@ == s@.subrange(lo as int, hi as int),
{
    let mut r: Vec<char> = Vec::new();
    let mut i: usize = lo;
    while i < hi
        invariant
            lo <= i <= hi <= s@.len(),
            r@ == s@.subrange(lo as int, i as int),
        decreases hi - i,
    {
        r.push(s[i]);
        assert(s@.subrange(lo as int, i + 1) =~= s@.subrange(lo as int, i as int).push(s@[i as int]));
        i = i + 1;
    }
    r
}

fn find_char(s: &Vec<char>, c: char) -> (r: Option<usize>)
    ensures
        match r {
            Some(i) => first_index(s@, c) == Some(i as int),
            None => first_index(s@, c) is None,
        },
{
    let mut i: usize = 0;
    while i < s.len()
        invariant
            i <= s@.len(),
            forall|k: int| 0 <= k < i ==> s@[k] != c,
        decreases s@.len() - i,
    {
        if s[i] == c {
            proof {
                lemma_first_index(s@, c, i as int);
            }
            return Some(i);
        }
        i = i + 1;
    }
    proof {
        lemma_first_index(s@, c, i as int);
    }
    None
}

fn trim_chars(s: &Vec<char>) -> (r: Vec<char>)
    ensures
        r@ == trim(s@),
{
    let mut lo: usize = 0;
    while lo < s.len() && is_whitespace(s[lo])
        invariant
            lo <= s@.len(),
            forall|j: int| 0 <= j < lo ==> spec_is_whitespace(#[trigger] s@[j]),
        decreases s@.len() - lo,
    {
        lo = lo + 1;
    }
    proof {
        lemma_trim_start(s@, lo as int);
    }
    let start = sub_chars(s, lo, s.len());
    let mut hi: usize = start.len();
    while hi > 0 && is_whitespace(start[hi - 1])
        invariant
            hi <= start@.len(),
            forall|j: int| hi <= j < start@.len() ==> spec_is_whitespace(#[trigger] start@[j]),
        decreases hi,
    {
        hi = hi - 1;
    }
    proof {
        lemma_trim_end(start@, hi as int);
    }
    sub_chars(&start, 0, hi)
}

fn same_chars(a: &Vec<char>, b: &str) -> (r: bool)
    ensures
        r == (a@ == b@),
{
    let t = chars_of(b);
    if a.len() != t.len() {
        return false;
    }
    let mut i: usize = 0;
    while i < a.len()
        invariant
            i <= a@.len(),
            a@.len() == t@.len(),
            t@ == b@,
            forall|k: int| 0 <= k < i ==> a@[k] == t@[k],
        decreases a@.len() - i,
    {
        if a[i] != t[i] {
            return false;
        }
        i = i + 1;
    }
    assert(a@ =~= b@);
    true
}

fn contains_chars(list: &Vec<Vec<char>>, item: &Vec<char>) -> (r: bool)
    ensures
        r == list@.map_values(|v: Vec<char>| v@).contains(item@),
{
    let ghost views = list@.map_values(|v: Vec<char>| v@);
    let mut i: usize = 0;
    while i < list.len()
        invariant
            i <= list@.len(),
            views == list@.map_values(|v: Vec<char>| v@),
            forall|k: int| 0 <= k < i ==> #[trigger] views[k] != item@,
        decreases list@.len() - i,
    {
        let s = string_from_chars(item.as_slice());
        if same_chars(&list[i], s.as_str()) {
            assert(views[i as int] == item@);
            return true;
        }
        i = i + 1;
    }
    false
}

fn declaration_ok_exec(property: &Vec<char>, value: &Vec<char>) -> (r: bool)
    ensures
        r == declaration_ok(property@, value@),
{
    let v = string_from_chars(value.as_slice());
    if same_chars(property, "color") || same_chars(property, "background-color") {
        valid_hex_color(v.as_str())
    } else if same_chars(property, "vertical-align") {
        parse_length(v.as_str(), true).is_some()
    } else {
        false
    }
}

/// Whether a root style declares only allowed properties, each once, and at least one.
pub fn valid_root_style(style: &str) -> (r: bool)
    ensures
        r == root_style_ok(style@),
{
    if crate::text::byte_len(style) > 256 {
        return false;
    }
    let chars = chars_of(style);
    let mut rest = chars;
    let mut seen: Vec<Vec<char>> = Vec::new();
    assert(seen@.map_values(|v: Vec<char>| v@) =~= seq![]);
    loop
        invariant
            utf8_len(style@) <= 256,
            declarations(style@, seq![]) == declarations(rest@, seen@.map_values(|v: Vec<char>| v@)),
        decreases rest@.len(),
    {
        let ghost before = rest@;
        let ghost seen_before = seen@.map_values(|v: Vec<char>| v@);
        let cut = find_char(&rest, ';');
        let len = rest.len();
        let (piece, next) = match cut {
            Some(i) => {
                proof {
                    lemma_first_index_bound(rest@, ';');
                }
                (sub_chars(&rest, 0, i), Some(sub_chars(&rest, i + 1, len)))
            },
            None => (sub_chars(&rest, 0, len), None),
        };
        proof {
            if cut is None {
                assert(piece@ =~= before);
            } else {
                assert(piece@ =~= before.take(cut->0 as int));
                assert(next->0@ =~= before.skip(cut->0 + 1));
            }
        }
        let blank = trim_chars(&piece).len() == 0;
        if !blank {
            let colon = match find_char(&piece, ':') {
                Some(j) => j,
                None => return false,
            };
            proof {
                lemma_first_index_bound(piece@, ':');
            }
            let property = trim_chars(&sub_chars(&piece, 0, colon));
            let value = trim_chars(&sub_chars(&piece, colon + 1, piece.len()));
            if contains_chars(&seen, &property) || !declaration_ok_exec(&property, &value) {
                return false;
            }
            seen.push(property);
            assert(seen@.map_values(|v: Vec<char>| v@) =~= seen_before.push(property@));
        }
        match next {
            Some(n) => {
                rest = n;
            },
            None => {
                return seen.len() > 0;
            },
        }
    }
}

} // verus!
