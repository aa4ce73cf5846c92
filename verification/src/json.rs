//! JSON documents read through serde_json, held as plain values down to a fixed depth.
//!
//! serde_json reads one level at a time: the top of a document (a scalar, or the kind
//! of a container), and the raw texts of an array's elements or of an object's values.
//! Each of these is named as a function of the bytes read; the tree is built from
//! them, and is pinned down by the bytes.

use vstd::prelude::*;

use serde_json::value::RawValue;
use std::collections::BTreeMap;

verus! {

/// A JSON number as serde_json holds it: its unsigned and signed integer readings,
/// when it has them, and the bit pattern of its double precision reading.
pub struct JsonNumber {
    pub as_u64: Option<u64>,
    pub as_i64: Option<i64>,
    pub f64_bits: u64,
}

/// The top of a JSON document: a scalar with its value, or the kind of a container.
pub enum JsonTop {
    Null,
    Bool(bool),
    Number(JsonNumber),
    Str(String),
    Array,
    Object,
}

/// The top of a JSON document as plain values.
pub enum JsonTopView {
    Null,
    Bool(bool),
    Number(JsonNumber),
    Str(Seq<char>),
    Array,
    Object,
}

impl View for JsonTop {
    type V = JsonTopView;

    open spec fn view(&self) -> JsonTopView {
        match self {
            JsonTop::Null => JsonTopView::Null,
            JsonTop::Bool(b) => JsonTopView::Bool(*b),
            JsonTop::Number(n) => JsonTopView::Number(*n),
            JsonTop::Str(s) => JsonTopView::Str(s@),
            JsonTop::Array => JsonTopView::Array,
            JsonTop::Object => JsonTopView::Object,
        }
    }
}

/// A JSON document read down to a fixed depth; deeper values are `Truncated`.
pub enum JsonTree {
    Null,
    Bool(bool),
    Number(JsonNumber),
    Str(String),
    Array(Vec<JsonTree>),
    Object(Vec<(String, JsonTree)>),
    Truncated,
}

/// The top of the JSON document in the bytes, as serde_json reads it; `None` when
/// serde_json does not accept the bytes as one JSON document.
pub uninterp spec fn json_top(bytes: Seq<u8>) -> Option<JsonTopView>;

/// The raw texts of the elements of the JSON array in the bytes, in order.
pub uninterp spec fn json_items(bytes: Seq<u8>) -> Option<Seq<Seq<u8>>>;

/// The keys of the JSON object in the bytes, in key order, each with the raw text of
/// its value (the last one, for a repeated key).
pub uninterp spec fn json_entries(bytes: Seq<u8>) -> Option<Seq<(Seq<char>, Seq<u8>)>>;

/// Whether serde_json accepts the bytes as one JSON document.
pub open spec fn json_parses(bytes: Seq<u8>) -> bool {
    json_top(bytes) is Some
}

/// Reads the top of a JSON document (`serde_json::from_slice` into `Value`).
#[verifier::external_body]
fn read_top(bytes: &[u8]) -> (r: Option<JsonTop>)
    ensures
        r is None ==> json_top(bytes@) is None,
        r matches Some(t) ==> json_top(bytes@) == Some(t@),
{
    Some(match serde_json::from_slice::<serde_json::Value>(bytes).ok()? {
        serde_json::Value::Null => JsonTop::Null,
        serde_json::Value::Bool(b) => JsonTop::Bool(b),
        serde_json::Value::Number(n) => JsonTop::Number(
            JsonNumber { as_u64: n.as_u64(), as_i64: n.as_i64(), f64_bits: n.as_f64().unwrap_or_default().to_bits() },
        ),
        serde_json::Value::String(s) => JsonTop::Str(s),
        serde_json::Value::Array(_) => JsonTop::Array,
        serde_json::Value::Object(_) => JsonTop::Object,
    })
}

/// Reads the raw texts of a JSON array's elements (`serde_json::from_slice` into
/// `Vec<&RawValue>`).
#[verifier::external_body]
fn read_items(bytes: &[u8]) -> (r: Option<Vec<Vec<u8>>>)
    ensures
        r is None ==> json_items(bytes@) is None,
        r matches Some(v) ==> json_items(bytes@) == Some(v@.map_values(|x: Vec<u8>| x@)),
{
    let items = serde_json::from_slice::<Vec<&RawValue>>(bytes).ok()?;
    Some(items.into_iter().map(|item| item.get().as_bytes().to_vec()).collect())
}

/// Reads the keys and raw value texts of a JSON object (`serde_json::from_slice` into
/// `BTreeMap<String, &RawValue>`).
#[verifier::external_body]
fn read_entries(bytes: &[u8]) -> (r: Option<Vec<(String, Vec<u8>)>>)
    ensures
        r is None ==> json_entries(bytes@) is None,
        r matches Some(v) ==> json_entries(bytes@) == Some(v@.map_values(|e: (String, Vec<u8>)| (e.0@, e.1@))),
{
    let entries = serde_json::from_slice::<BTreeMap<String, &RawValue>>(bytes).ok()?;
    Some(entries.into_iter().map(|(key, value)| (key, value.get().as_bytes().to_vec())).collect())
}

/// `t` is the tree of the bytes, read `depth` levels below this one: containers deeper
/// than that, and values serde_json does not read, are `Truncated`.
pub open spec fn tree_of(t: JsonTree, bytes: Seq<u8>, depth: nat) -> bool
    decreases depth,
{
    match json_top(bytes) {
        None => t is Truncated,
        Some(JsonTopView::Null) => t is Null,
        Some(JsonTopView::Bool(b)) => t == JsonTree::Bool(b),
        Some(JsonTopView::Number(n)) => t == JsonTree::Number(n),
        Some(JsonTopView::Str(s)) => t matches JsonTree::Str(x) && x@ == s,
        Some(JsonTopView::Array) => match json_items(bytes) {
            None => t is Truncated,
            Some(items) => t matches JsonTree::Array(v) && v@.len() == items.len() && forall|i: int|
                0 <= i < items.len() ==> if depth == 0 {
                    #[trigger] v@[i] is Truncated
                } else {
                    tree_of(v@[i], items[i], (depth - 1) as nat)
                },
        },
        Some(JsonTopView::Object) => match json_entries(bytes) {
            None => t is Truncated,
            Some(entries) => t matches JsonTree::Object(v) && v@.len() == entries.len() && forall|i: int|
                0 <= i < entries.len() ==> #[trigger] v@[i].0@ == entries[i].0 && if depth == 0 {
                    v@[i].1 is Truncated
                } else {
                    tree_of(v@[i].1, entries[i].1, (depth - 1) as nat)
                },
        },
    }
}

/// Reads the tree of the bytes `depth` levels below this one.
pub fn read_tree(bytes: &[u8], depth: usize) -> (r: JsonTree)
    ensures
        tree_of(r, bytes@, depth as nat),
    decreases depth,
{
    match read_top(bytes) {
        None => JsonTree::Truncated,
        Some(JsonTop::Null) => JsonTree::Null,
        Some(JsonTop::Bool(b)) => JsonTree::Bool(b),
        Some(JsonTop::Number(n)) => JsonTree::Number(n),
        Some(JsonTop::Str(s)) => JsonTree::Str(s),
        Some(JsonTop::Array) => match read_items(bytes) {
            None => JsonTree::Truncated,
            Some(items) => {
                let ghost raw = items@.map_values(|x: Vec<u8>| x@);
                let mut out: Vec<JsonTree> = Vec::new();
                let mut i: usize = 0;
                while i < items.len()
                    invariant
                        i <= items@.len(),
                        out@.len() == i,
                        raw == items@.map_values(|x: Vec<u8>| x@),
                        forall|j: int|
                            0 <= j < i ==> if depth == 0 {
                                #[trigger] out@[j] is Truncated
                            } else {
                                tree_of(out@[j], raw[j], (depth - 1) as nat)
                            },
                    decreases items@.len() - i,
                {
                    assert(raw[i as int] == items@[i as int]@);
                    if depth == 0 {
                        out.push(JsonTree::Truncated);
                    } else {
                        out.push(read_tree(items[i].as_slice(), depth - 1));
                    }
                    i = i + 1;
                }
                let r = JsonTree::Array(out);
                assert(json_items(bytes@) == Some(raw));
                assert(tree_of(r, bytes@, depth as nat));
                r
            },
        },
        Some(JsonTop::Object) => match read_entries(bytes) {
            None => JsonTree::Truncated,
            Some(entries) => {
                let ghost raw = entries@.map_values(|e: (String, Vec<u8>)| (e.0@, e.1@));
                let mut out: Vec<(String, JsonTree)> = Vec::new();
                let mut i: usize = 0;
                while i < entries.len()
                    invariant
                        i <= entries@.len(),
                        out@.len() == i,
                        raw == entries@.map_values(|e: (String, Vec<u8>)| (e.0@, e.1@)),
                        forall|j: int|
                            0 <= j < i ==> #[trigger] out@[j].0@ == raw[j].0 && if depth == 0 {
                                out@[j].1 is Truncated
                            } else {
                                tree_of(out@[j].1, raw[j].1, (depth - 1) as nat)
                            },
                    decreases entries@.len() - i,
                {
                    let key = entries[i].0.clone();
                    assert(raw[i as int] == (entries@[i as int].0@, entries@[i as int].1@));
                    if depth == 0 {
                        out.push((key, JsonTree::Truncated));
                    } else {
                        out.push((key, read_tree(entries[i].1.as_slice(), depth - 1)));
                    }
                    i = i + 1;
                }
                assert(raw.len() == entries@.len());
                assert(i == raw.len());
                assert forall|j: int| 0 <= j < raw.len() implies #[trigger] out@[j].0@ == raw[j].0 by {}
                assert forall|j: int| 0 <= j < raw.len() && depth > 0 implies tree_of(#[trigger] out@[j].1, raw[j].1, (depth - 1) as nat) by {
                    assert(out@[j].0@ == raw[j].0);
                }
                assert forall|j: int| 0 <= j < raw.len() && depth == 0 implies #[trigger] out@[j].1 is Truncated by {
                    assert(out@[j].0@ == raw[j].0);
                }
                assert(json_top(bytes@) == Some(JsonTopView::Object));
                let r = JsonTree::Object(out);
                assert(json_entries(bytes@) == Some(raw));
                assert(tree_of(r, bytes@, depth as nat));
                r
            },
        },
    }
}

/// Reads a JSON document `depth` levels deep, when serde_json accepts it.
pub fn read_json(bytes: &[u8], depth: usize) -> (r: Option<JsonTree>)
    ensures
        r is Some <==> json_parses(bytes@),
        r matches Some(t) ==> tree_of(t, bytes@, depth as nat),
{
    if read_top(bytes).is_none() {
        return None;
    }
    Some(read_tree(bytes, depth))
}

} // verus!
