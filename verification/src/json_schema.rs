//! Reading JSON trees with the rules of derived serde deserializers: structs from
//! objects with known keys or from arrays, scalar fields, and unit enum variants.

use vstd::prelude::*;

use crate::float_bits::{f32_bits_of_f64, f32_bits_of_u64, f32_of_f64, f32_of_u64};
use crate::json::{JsonNumber, JsonTree};
use crate::text::owned;

verus! {

// ---------------------------------------------------------------------------
// The schema over a JSON tree.

/// The value stored under a key: the first entry with that key.
pub open spec fn entry_value(entries: Seq<(String, JsonTree)>, key: Seq<char>) -> Option<JsonTree>
    decreases entries.len(),
{
    if entries.len() == 0 {
        None
    } else if entries[0].0@ == key {
        Some(entries[0].1)
    } else {
        entry_value(entries.drop_first(), key)
    }
}

/// Every entry key is one of the names.
pub open spec fn keys_within(entries: Seq<(String, JsonTree)>, names: Seq<Seq<char>>) -> bool {
    forall|i: int| 0 <= i < entries.len() ==> names.contains(#[trigger] entries[i].0@)
}

/// The field values of a struct with the given field names, in order: from an object
/// with exactly known keys all present, or from an array with one element per field.
pub open spec fn struct_fields(t: JsonTree, names: Seq<Seq<char>>) -> Option<Seq<JsonTree>> {
    match t {
        JsonTree::Object(entries) => if keys_within(entries@, names) && (forall|j: int|
            0 <= j < names.len() ==> #[trigger] entry_value(entries@, names[j]) is Some) {
            Some(Seq::new(names.len(), |j: int| entry_value(entries@, names[j])->0))
        } else {
            None
        },
        JsonTree::Array(items) => if items@.len() == names.len() {
            Some(items@)
        } else {
            None
        },
        _ => None,
    }
}

/// A 32 bit unsigned integer field.
pub open spec fn u32_of(t: JsonTree) -> Option<u32> {
    match t {
        JsonTree::Number(n) => match n.as_u64 {
            Some(v) => if v <= u32::MAX {
                Some(v as u32)
            } else {
                None
            },
            None => None,
        },
        _ => None,
    }
}

/// A string field.
pub open spec fn str_of(t: JsonTree) -> Option<Seq<char>> {
    match t {
        JsonTree::Str(s) => Some(s@),
        _ => None,
    }
}

/// The name of a unit enum variant, written as its name or as an object mapping its
/// name to null.
pub open spec fn variant_of(t: JsonTree, names: Seq<Seq<char>>) -> Option<Seq<char>> {
    match t {
        JsonTree::Str(s) => if names.contains(s@) {
            Some(s@)
        } else {
            None
        },
        JsonTree::Object(entries) => if entries@.len() == 1 && entries@[0].1 is Null && names.contains(
            entries@[0].0@,
        ) {
            Some(entries@[0].0@)
        } else {
            None
        },
        _ => None,
    }
}

/// The single precision pattern of a number: integers are converted directly,
/// other numbers from their double precision reading.
pub open spec fn f32_of_number(n: JsonNumber) -> u32 {
    match n.as_u64 {
        Some(u) => f32_of_u64(u),
        None => match n.as_i64 {
            Some(i) => (f32_of_u64((-i) as u64) + 0x8000_0000) as u32,
            None => f32_of_f64(n.f64_bits),
        },
    }
}

/// A single precision field.
pub open spec fn f32_field(t: JsonTree) -> Option<u32> {
    match t {
        JsonTree::Number(n) => Some(f32_of_number(n)),
        _ => None,
    }
}

// ---------------------------------------------------------------------------
// Reading the schema.

/// The views of a list of names.
pub open spec fn names_view(names: Seq<&str>) -> Seq<Seq<char>> {
    names.map_values(|n: &str| n@)
}

/// Whether a string equals a literal.
pub fn equals(s: &String, lit: &str) -> (r: bool)
    ensures
        r == (s@ == lit@),
{
    *s == owned(lit)
}

pub proof fn lemma_entry_value_skip(entries: Seq<(String, JsonTree)>, key: Seq<char>, i: int)
    requires
        0 <= i <= entries.len(),
        forall|j: int| 0 <= j < i ==> #[trigger] entries[j].0@ != key,
    ensures
        entry_value(entries, key) == entry_value(entries.skip(i), key),
    decreases i,
{
    if i > 0 {
        let tail = entries.drop_first();
        assert forall|j: int| 0 <= j < i - 1 implies #[trigger] tail[j].0@ != key by {
            assert(tail[j] == entries[j + 1]);
        }
        lemma_entry_value_skip(tail, key, i - 1);
        assert(tail.skip(i - 1) =~= entries.skip(i));
    } else {
        assert(entries.skip(0) =~= entries);
    }
}

/// The position of the first entry with the key.
pub fn find_entry(entries: &Vec<(String, JsonTree)>, key: &str) -> (r: Option<usize>)
    ensures
        match r {
            Some(i) => i < entries@.len() && entries@[i as int].0@ == key@ && entry_value(entries@, key@)
                == Some(entries@[i as int].1),
            None => entry_value(entries@, key@) is None,
        },
{
    let mut i: usize = 0;
    while i < entries.len()
        invariant
            i <= entries@.len(),
            forall|j: int| 0 <= j < i ==> #[trigger] entries@[j].0@ != key@,
        decreases entries@.len() - i,
    {
        if equals(&entries[i].0, key) {
            proof {
                lemma_entry_value_skip(entries@, key@, i as int);
                assert(entries@.skip(i as int)[0] == entries@[i as int]);
            }
            return Some(i);
        }
        i = i + 1;
    }
    proof {
        lemma_entry_value_skip(entries@, key@, i as int);
    }
    None
}

/// Whether a name is one of the names.
pub fn name_known(names: &Vec<&str>, name: &String) -> (r: bool)
    ensures
        r == names_view(names@).contains(name@),
{
    let ghost nv = names_view(names@);
    let mut i: usize = 0;
    while i < names.len()
        invariant
            i <= names@.len(),
            nv == names_view(names@),
            forall|j: int| 0 <= j < i ==> #[trigger] nv[j] != name@,
        decreases names@.len() - i,
    {
        if equals(name, names[i]) {
            assert(nv[i as int] == name@);
            return true;
        }
        i = i + 1;
    }
    false
}


/// The field values of a struct, in the order of the names.
pub fn struct_fields_exec<'a>(t: &'a JsonTree, names: &Vec<&str>) -> (r: Option<Vec<&'a JsonTree>>)
    ensures
        match struct_fields(*t, names_view(names@)) {
            Some(f) => r matches Some(v) && v@.len() == f.len() && forall|j: int|
                0 <= j < f.len() ==> *#[trigger] v@[j] == f[j],
            None => r is None,
        },
{
    let ghost nv = names_view(names@);
    match t {
        JsonTree::Object(entries) => {
            let mut i: usize = 0;
            while i < entries.len()
                invariant
                    i <= entries@.len(),
                    nv == names_view(names@),
                    *t == JsonTree::Object(*entries),
                    forall|j: int| 0 <= j < i ==> nv.contains(#[trigger] entries@[j].0@),
                decreases entries@.len() - i,
            {
                if !name_known(names, &entries[i].0) {
                    assert(!keys_within(entries@, nv));
                    return None;
                }
                i = i + 1;
            }
            let mut out: Vec<&JsonTree> = Vec::new();
            let mut k: usize = 0;
            while k < names.len()
                invariant
                    k <= names@.len(),
                    nv == names_view(names@),
                    *t == JsonTree::Object(*entries),
                    keys_within(entries@, nv),
                    out@.len() == k,
                    forall|j: int| 0 <= j < k ==> #[trigger] entry_value(entries@, nv[j]) is Some && *out@[j]
                        == entry_value(entries@, nv[j])->0,
                decreases names@.len() - k,
            {
                match find_entry(entries, names[k]) {
                    None => {
                        assert(entry_value(entries@, nv[k as int]) is None);
                        assert(!(forall|j: int|
                            0 <= j < nv.len() ==> #[trigger] entry_value(entries@, nv[j]) is Some));
                        return None;
                    },
                    Some(i) => {
                        out.push(&entries[i].1);
                    },
                }
                k = k + 1;
            }
            Some(out)
        },
        JsonTree::Array(items) => {
            if items.len() != names.len() {
                return None;
            }
            let mut out: Vec<&JsonTree> = Vec::new();
            let mut k: usize = 0;
            while k < items.len()
                invariant
                    k <= items@.len(),
                    out@.len() == k,
                    forall|j: int| 0 <= j < k ==> *#[trigger] out@[j] == items@[j],
                decreases items@.len() - k,
            {
                out.push(&items[k]);
                k = k + 1;
            }
            Some(out)
        },
        _ => None,
    }
}

pub fn u32_of_exec(t: &JsonTree) -> (r: Option<u32>)
    ensures
        r == u32_of(*t),
{
    match t {
        JsonTree::Number(n) => match n.as_u64 {
            Some(v) => if v <= 0xffff_ffff {
                Some(v as u32)
            } else {
                None
            },
            None => None,
        },
        _ => None,
    }
}

pub fn str_of_exec(t: &JsonTree) -> (r: Option<String>)
    ensures
        match str_of(*t) {
            Some(s) => r matches Some(x) && x@ == s,
            None => r is None,
        },
{
    match t {
        JsonTree::Str(s) => Some(s.clone()),
        _ => None,
    }
}

pub fn variant_of_exec(t: &JsonTree, names: &Vec<&str>) -> (r: Option<String>)
    ensures
        match variant_of(*t, names_view(names@)) {
            Some(s) => r matches Some(x) && x@ == s,
            None => r is None,
        },
{
    match t {
        JsonTree::Str(s) => if name_known(names, s) {
            Some(s.clone())
        } else {
            None
        },
        JsonTree::Object(entries) => {
            if entries.len() != 1 {
                return None;
            }
            let is_null = match &entries[0].1 {
                JsonTree::Null => true,
                _ => false,
            };
            if is_null && name_known(names, &entries[0].0) {
                Some(entries[0].0.clone())
            } else {
                None
            }
        },
        _ => None,
    }
}

pub fn f32_field_exec(t: &JsonTree) -> (r: Option<u32>)
    ensures
        r == f32_field(*t),
{
    match t {
        JsonTree::Number(n) => match n.as_u64 {
            Some(u) => Some(f32_bits_of_u64(u)),
            None => match n.as_i64 {
                Some(i) => {
                    let m: u64 = (0i128 - i as i128) as u64;
                    Some(f32_bits_of_u64(m) + 0x8000_0000)
                },
                None => Some(f32_bits_of_f64(n.f64_bits)),
            },
        },
        _ => None,
    }
}

pub fn names(list: &[&'static str]) -> (r: Vec<&'static str>)
    ensures
        r@ == list@,
{
    let mut r: Vec<&'static str> = Vec::new();
    let mut i: usize = 0;
    while i < list.len()
        invariant
            i <= list@.len(),
            r@ == list@.take(i as int),
        decreases list@.len() - i,
    {
        r.push(list[i]);
        assert(list@.take(i + 1) =~= list@.take(i as int).push(list@[i as int]));
        i = i + 1;
    }
    assert(list@.take(list@.len() as int) =~= list@);
    r
}


/// A `usize` field.
pub open spec fn usize_of(t: JsonTree) -> Option<usize> {
    match t {
        JsonTree::Number(n) => match n.as_u64 {
            Some(v) => if v <= usize::MAX {
                Some(v as usize)
            } else {
                None
            },
            None => None,
        },
        _ => None,
    }
}

/// A boolean field.
pub open spec fn bool_of(t: JsonTree) -> Option<bool> {
    match t {
        JsonTree::Bool(b) => Some(b),
        _ => None,
    }
}

/// A list of strings.
pub open spec fn strings_of(t: JsonTree) -> Option<Seq<Seq<char>>> {
    match t {
        JsonTree::Array(items) => if forall|i: int| 0 <= i < items@.len() ==> #[trigger] items@[i] is Str {
            Some(Seq::new(items@.len(), |i: int| items@[i]->Str_0@))
        } else {
            None
        },
        _ => None,
    }
}

/// An optional field that is absent or null.
pub open spec fn absent(t: Option<JsonTree>) -> bool {
    t is None || t matches Some(JsonTree::Null)
}

pub fn usize_of_exec(t: &JsonTree) -> (r: Option<usize>)
    ensures
        r == usize_of(*t),
{
    match t {
        JsonTree::Number(n) => match n.as_u64 {
            Some(v) => if v <= usize::MAX as u64 {
                Some(v as usize)
            } else {
                None
            },
            None => None,
        },
        _ => None,
    }
}

pub fn bool_of_exec(t: &JsonTree) -> (r: Option<bool>)
    ensures
        r == bool_of(*t),
{
    match t {
        JsonTree::Bool(b) => Some(*b),
        _ => None,
    }
}

pub fn strings_of_exec(t: &JsonTree) -> (r: Option<Vec<String>>)
    ensures
        match strings_of(*t) {
            Some(s) => r matches Some(v) && v@.len() == s.len() && forall|i: int| 0 <= i < s.len() ==> #[trigger] v@[i]@ == s[i],
            None => r is None,
        },
{
    match t {
        JsonTree::Array(items) => {
            let mut out: Vec<String> = Vec::new();
            let mut i: usize = 0;
            while i < items.len()
                invariant
                    i <= items@.len(),
                    *t == JsonTree::Array(*items),
                    out@.len() == i,
                    forall|j: int| 0 <= j < i ==> #[trigger] items@[j] is Str && out@[j]@ == items@[j]->Str_0@,
                decreases items@.len() - i,
            {
                match &items[i] {
                    JsonTree::Str(s) => out.push(s.clone()),
                    _ => return None,
                }
                i = i + 1;
            }
            Some(out)
        },
        _ => None,
    }
}

/// Whether a list of strings holds a literal.
pub fn contains_str(list: &Vec<String>, lit: &str) -> (r: bool)
    ensures
        r == exists|i: int| 0 <= i < list@.len() && #[trigger] list@[i]@ == lit@,
{
    let mut i: usize = 0;
    while i < list.len()
        invariant
            i <= list@.len(),
            forall|j: int| 0 <= j < i ==> #[trigger] list@[j]@ != lit@,
        decreases list@.len() - i,
    {
        if equals(&list[i], lit) {
            return true;
        }
        i = i + 1;
    }
    false
}

} // verus!
