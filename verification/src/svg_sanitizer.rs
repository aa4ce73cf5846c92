//! The SVG allowlist: input checks, the element and attribute policy, and the
//! structure of the document, decided over the XML events of the input.

use vstd::prelude::*;
use vstd::utf8::valid_utf8;

use crate::error::{RenderError, RenderErrorCode, sanitized};
use crate::limits::MAX_SVG_BYTES;
use crate::svg_style::{root_style_ok, valid_root_style};
use crate::svg_values::{
    f64_nonnegative, f64_positive, length_of, number_of, paint, parse_length, parse_number, path_ok,
    transform_ok, valid_path, valid_paint, valid_transform, valid_view_box, view_box_parses,
};
use crate::text::{contains_unsafe_control, is_valid_utf8, owned, spec_is_unsafe_control};

verus! {

/// Structural bounds applied while sanitizing one SVG document.
#[derive(Clone, Copy, Debug, PartialEq, Eq, Structural)]
pub struct SvgSanitizerLimits {
    /// Maximum input and output length in UTF 8 bytes.
    pub max_bytes: usize,
    /// Maximum XML element count.
    pub max_elements: usize,
    /// Maximum element nesting depth.
    pub max_depth: usize,
    /// Maximum attributes on one element.
    pub max_attributes_per_element: usize,
}

impl Default for SvgSanitizerLimits {
    fn default() -> (r: Self)
        ensures
            r == (SvgSanitizerLimits {
                max_bytes: MAX_SVG_BYTES,
                max_elements: 50_000,
                max_depth: 64,
                max_attributes_per_element: 32,
            }),
    {
        SvgSanitizerLimits {
            max_bytes: MAX_SVG_BYTES,
            max_elements: 50_000,
            max_depth: 64,
            max_attributes_per_element: 32,
        }
    }
}

/// SVG bytes that passed the allowlist.
#[derive(Debug, PartialEq, Eq)]
pub struct SanitizedSvg {
    bytes: Vec<u8>,
}

impl Clone for SanitizedSvg {
    fn clone(&self) -> (r: Self)
        ensures
            r.spec_bytes() == self.spec_bytes(),
    {
        proof {
            use_type_invariant(self);
        }
        let bytes = self.bytes.clone();
        assert(bytes@ =~= self.bytes@);
        SanitizedSvg { bytes }
    }
}

impl SanitizedSvg {
    pub closed spec fn spec_bytes(&self) -> Seq<u8> {
        self.bytes@
    }

    /// Sanitized output is always text.
    #[verifier::type_invariant]
    spec fn is_text(&self) -> bool {
        valid_utf8(self.bytes@)
    }

    /// Returns the sanitized standalone SVG bytes.
    pub fn as_bytes(&self) -> (r: &[u8])
        ensures
            r@ == self.spec_bytes(),
            valid_utf8(r@),
    {
        proof {
            use_type_invariant(self);
        }
        self.bytes.as_slice()
    }

    /// Returns the sanitized standalone SVG text.
    pub fn as_str(&self) -> (r: &str)
        ensures
            r@ == vstd::utf8::decode_utf8(self.spec_bytes()),
            vstd::utf8::encode_utf8(r@) == self.spec_bytes(),
    {
        proof {
            use_type_invariant(self);
            vstd::utf8::decode_utf8_encode_utf8(self.bytes@);
        }
        utf8_str(self.bytes.as_slice())
    }

    /// Consumes the wrapper and returns its bytes.
    pub fn into_bytes(self) -> (r: Vec<u8>)
        ensures
            r@ == self.spec_bytes(),
            valid_utf8(r@),
    {
        proof {
            use_type_invariant(&self);
        }
        self.bytes
    }
}

/// One attribute as the XML reader gives it: its name and its normalized value
/// (`None` when the value cannot be normalized), or a malformed attribute.
pub enum XmlAttribute {
    Parsed { key: String, value: Option<String> },
    Malformed,
}

/// A start or empty element tag.
pub struct XmlTag {
    pub name: String,
    pub attributes: Vec<XmlAttribute>,
}

/// One XML event of the input, read in document order; reading stops at the end of
/// the document or at the first error.
pub enum XmlEvent {
    Start(XmlTag),
    Empty(XmlTag),
    End(String),
    Text(Vec<u8>),
    /// Any other markup: comments, character data, declarations, processing
    /// instructions, document types, references.
    Other,
    Eof,
    Malformed,
}

/// What to write for one accepted element.
pub enum XmlWrite {
    Start(String, Vec<(String, String)>),
    Empty(String, Vec<(String, String)>),
    End(String),
}

/// The failure of the allowlist: unsafe output, never retryable.
pub open spec fn is_unsafe(e: RenderError, message: Seq<char>) -> bool {
    e.code == RenderErrorCode::UnsafeOutput && e.message@ == sanitized(message) && !e.retryable && e.position is None
}

pub(crate) fn unsafe_svg(message: &str) -> (r: RenderError)
    ensures
        is_unsafe(r, message@),
{
    RenderError::new(RenderErrorCode::UnsafeOutput, message, false)
}

// ---------------------------------------------------------------------------
// Input.

/// Usable limits: all positive, and bytes within the SVG limit.
pub open spec fn limits_ok(l: SvgSanitizerLimits) -> bool {
    0 < l.max_bytes <= MAX_SVG_BYTES && l.max_elements > 0 && l.max_depth > 0 && l.max_attributes_per_element > 0
}

/// The first reason an input is refused before it is read as XML.
pub open spec fn input_problem(input: Seq<u8>, l: SvgSanitizerLimits) -> Option<(RenderErrorCode, Seq<char>)> {
    if !limits_ok(l) {
        Some((RenderErrorCode::InvalidRequest, "SVG sanitizer limits are invalid"@))
    } else if input.len() == 0 || input.len() > l.max_bytes {
        Some((RenderErrorCode::UnsafeOutput, "SVG input is empty or exceeds its byte limit"@))
    } else if !valid_utf8(input) {
        Some((RenderErrorCode::UnsafeOutput, "SVG input must contain valid UTF 8"@))
    } else if exists|i: int| 0 <= i < vstd::utf8::decode_utf8(input).len() && spec_is_unsafe_control(
        #[trigger] vstd::utf8::decode_utf8(input)[i],
    ) {
        Some((RenderErrorCode::UnsafeOutput, "SVG input contains an unsupported control character"@))
    } else {
        None
    }
}

/// Views valid UTF 8 bytes as text (`std::str::from_utf8`).
#[verifier::external_body]
fn utf8_str(bytes: &[u8]) -> (r: &str)
    requires
        valid_utf8(bytes@),
    ensures
        r@ == vstd::utf8::decode_utf8(bytes@),
{
    std::str::from_utf8(bytes).unwrap_or_default()
}

/// Reads bytes as text (`String::from_utf8`).
#[verifier::external_body]
fn utf8_text(bytes: &[u8]) -> (r: Option<String>)
    ensures
        r is Some <==> valid_utf8(bytes@),
        r matches Some(s) ==> s@ == vstd::utf8::decode_utf8(bytes@),
{
    String::from_utf8(bytes.to_vec()).ok()
}

/// Checks the limits and the input before it is read as XML, and returns its text.
pub fn check_svg_input(input: &[u8], limits: SvgSanitizerLimits) -> (r: Result<String, RenderError>)
    ensures
        match input_problem(input@, limits) {
            None => r matches Ok(s) && s@ == vstd::utf8::decode_utf8(input@),
            Some((code, m)) => r matches Err(e) && e.code == code && e.message@ == sanitized(m) && !e.retryable
                && e.position is None,
        },
{
    if limits.max_bytes == 0 || limits.max_bytes > MAX_SVG_BYTES || limits.max_elements == 0 || limits.max_depth == 0
        || limits.max_attributes_per_element == 0 {
        return Err(RenderError::new(RenderErrorCode::InvalidRequest, "SVG sanitizer limits are invalid", false));
    }
    if input.len() == 0 || input.len() > limits.max_bytes {
        return Err(unsafe_svg("SVG input is empty or exceeds its byte limit"));
    }
    let text = match utf8_text(input) {
        Some(t) => t,
        None => return Err(unsafe_svg("SVG input must contain valid UTF 8")),
    };
    if contains_unsafe_control(text.as_str()) {
        return Err(unsafe_svg("SVG input contains an unsupported control character"));
    }
    Ok(text)
}

// ---------------------------------------------------------------------------
// Elements and attributes.

/// Metadata attributes that are dropped from the output.
pub open spec fn stripped(key: Seq<char>) -> bool {
    key == "data-c"@ || key == "data-latex"@ || key == "data-mjx-texclass"@ || key == "data-mml-node"@
}

/// Whether an element may carry an attribute with a value.
pub open spec fn attribute_ok(element: Seq<char>, key: Seq<char>, value: Seq<char>) -> bool {
    let shape = element == "g"@ || element == "path"@ || element == "rect"@;
    if element == "svg"@ && key == "xmlns"@ {
        value == "http://www.w3.org/2000/svg"@
    } else if element == "svg"@ && (key == "width"@ || key == "height"@) {
        length_of(value, true) matches Some(b) && f64_positive(b)
    } else if element == "svg"@ && key == "viewBox"@ {
        view_box_parses(value)
    } else if element == "svg"@ && key == "role"@ {
        value == "img"@
    } else if element == "svg"@ && key == "focusable"@ {
        value == "false"@
    } else if element == "svg"@ && key == "style"@ {
        root_style_ok(value)
    } else if shape && key == "transform"@ {
        transform_ok(value)
    } else if shape && (key == "fill"@ || key == "stroke"@) {
        paint(value)
    } else if shape && key == "stroke-width"@ {
        number_of(value) matches Some(b) && f64_nonnegative(b)
    } else if element == "path"@ && key == "d"@ {
        path_ok(value)
    } else if element == "rect"@ && (key == "width"@ || key == "height"@) {
        length_of(value, false) matches Some(b) && f64_positive(b)
    } else if element == "rect"@ && (key == "x"@ || key == "y"@) {
        number_of(value) is Some
    } else {
        false
    }
}

/// The attributes an element must carry.
pub open spec fn required_attributes(element: Seq<char>) -> Seq<Seq<char>> {
    if element == "svg"@ {
        seq!["xmlns"@, "width"@, "height"@, "viewBox"@, "role"@, "focusable"@, "style"@]
    } else if element == "path"@ {
        seq!["d"@]
    } else if element == "rect"@ {
        seq!["width"@, "height"@, "x"@, "y"@]
    } else {
        seq![]
    }
}

/// The attributes from `i` on, after the names already `seen` and the attributes
/// already `kept`: all names seen and the attributes kept for the output, or the failure.
pub open spec fn attributes_from(
    attrs: Seq<XmlAttribute>,
    i: int,
    element: Seq<char>,
    max: usize,
    seen: Seq<Seq<char>>,
    kept: Seq<(Seq<char>, Seq<char>)>,
) -> Result<(Seq<Seq<char>>, Seq<(Seq<char>, Seq<char>)>), Seq<char>>
    decreases attrs.len() - i,
    when 0 <= i
{
    if i >= attrs.len() {
        Ok((seen, kept))
    } else if i + 1 > max {
        Err("SVG element exceeds its attribute limit"@)
    } else {
        match attrs[i] {
            XmlAttribute::Malformed => Err("SVG contains a malformed attribute"@),
            XmlAttribute::Parsed { key, value } => if seen.contains(key@) {
                Err("SVG contains a duplicate attribute"@)
            } else if stripped(key@) {
                attributes_from(attrs, i + 1, element, max, seen.push(key@), kept)
            } else {
                match value {
                    None => Err("SVG attribute value is malformed"@),
                    Some(v) => if !attribute_ok(element, key@, v@) {
                        Err("SVG contains a disallowed attribute or value"@)
                    } else {
                        attributes_from(attrs, i + 1, element, max, seen.push(key@), kept.push((key@, v@)))
                    },
                }
            },
        }
    }
}

/// The attributes to write for an allowed element tag, or the failure.
pub open spec fn element_outcome(tag: XmlTag, root: bool, max: usize) -> Result<Seq<(Seq<char>, Seq<char>)>, Seq<char>> {
    let name = tag.name@;
    if !(name == "svg"@ || name == "g"@ || name == "path"@ || name == "rect"@) || root != (name == "svg"@) {
        Err("SVG contains a disallowed element"@)
    } else {
        match attributes_from(tag.attributes@, 0, name, max, seq![], seq![]) {
            Err(m) => Err(m),
            Ok((seen, kept)) => if exists|k: int|
                0 <= k < required_attributes(name).len() && !seen.contains(#[trigger] required_attributes(name)[k]) {
                Err("SVG element is missing a required attribute"@)
            } else {
                Ok(kept)
            },
        }
    }
}

pub open spec fn pairs_view(v: Seq<(String, String)>) -> Seq<(Seq<char>, Seq<char>)> {
    v.map_values(|p: (String, String)| (p.0@, p.1@))
}

pub open spec fn strings_view(v: Seq<String>) -> Seq<Seq<char>> {
    v.map_values(|s: String| s@)
}

fn str_eq(a: &String, b: &str) -> (r: bool)
    ensures
        r == (a@ == b@),
{
    *a == owned(b)
}

fn seen_contains(seen: &Vec<String>, key: &String) -> (r: bool)
    ensures
        r == strings_view(seen@).contains(key@),
{
    let ghost v = strings_view(seen@);
    let mut i: usize = 0;
    while i < seen.len()
        invariant
            i <= seen@.len(),
            v == strings_view(seen@),
            forall|k: int| 0 <= k < i ==> #[trigger] v[k] != key@,
        decreases seen@.len() - i,
    {
        if str_eq(&seen[i], key.as_str()) {
            assert(v[i as int] == key@);
            return true;
        }
        i = i + 1;
    }
    false
}

fn positive_length(value: &str, allow_unit: bool) -> (r: bool)
    ensures
        r == (length_of(value@, allow_unit) matches Some(b) && f64_positive(b)),
{
    match parse_length(value, allow_unit) {
        Some(b) => b >> 63u64 == 0 && b & 0x7fff_ffff_ffff_ffffu64 != 0,
        None => false,
    }
}

/// Whether an element may carry an attribute with a value.
pub fn validate_attribute(element: &String, key: &String, value: &String) -> (r: bool)
    ensures
        r == attribute_ok(element@, key@, value@),
{
    let svg = str_eq(element, "svg");
    let shape = str_eq(element, "g") || str_eq(element, "path") || str_eq(element, "rect");
    let v = value.as_str();
    if svg && str_eq(key, "xmlns") {
        str_eq(value, "http://www.w3.org/2000/svg")
    } else if svg && (str_eq(key, "width") || str_eq(key, "height")) {
        positive_length(v, true)
    } else if svg && str_eq(key, "viewBox") {
        valid_view_box(v)
    } else if svg && str_eq(key, "role") {
        str_eq(value, "img")
    } else if svg && str_eq(key, "focusable") {
        str_eq(value, "false")
    } else if svg && str_eq(key, "style") {
        valid_root_style(v)
    } else if shape && str_eq(key, "transform") {
        valid_transform(v)
    } else if shape && (str_eq(key, "fill") || str_eq(key, "stroke")) {
        valid_paint(v)
    } else if shape && str_eq(key, "stroke-width") {
        match parse_number(v) {
            Some(b) => b >> 63u64 == 0 || b & 0x7fff_ffff_ffff_ffffu64 == 0,
            None => false,
        }
    } else if str_eq(element, "path") && str_eq(key, "d") {
        valid_path(v)
    } else if str_eq(element, "rect") && (str_eq(key, "width") || str_eq(key, "height")) {
        positive_length(v, false)
    } else if str_eq(element, "rect") && (str_eq(key, "x") || str_eq(key, "y")) {
        parse_number(v).is_some()
    } else {
        false
    }
}

fn is_stripped(key: &String) -> (r: bool)
    ensures
        r == stripped(key@),
{
    str_eq(key, "data-c") || str_eq(key, "data-latex") || str_eq(key, "data-mjx-texclass") || str_eq(key, "data-mml-node")
}

fn required_list(element: &String) -> (r: Vec<&'static str>)
    ensures
        r@.map_values(|s: &str| s@) == required_attributes(element@),
{
    let r: Vec<&'static str> = if str_eq(element, "svg") {
        vec!["xmlns", "width", "height", "viewBox", "role", "focusable", "style"]
    } else if str_eq(element, "path") {
        vec!["d"]
    } else if str_eq(element, "rect") {
        vec!["width", "height", "x", "y"]
    } else {
        vec![]
    };
    proof {
        reveal_strlit("xmlns");
        reveal_strlit("width");
        reveal_strlit("height");
        reveal_strlit("viewBox");
        reveal_strlit("role");
        reveal_strlit("focusable");
        reveal_strlit("style");
        reveal_strlit("d");
        reveal_strlit("x");
        reveal_strlit("y");
        reveal_strlit("svg");
        reveal_strlit("path");
        reveal_strlit("rect");
        assert(r@.map_values(|s: &str| s@) =~= required_attributes(element@));
    }
    r
}

/// Checks an element tag against the allowlist and returns the attributes to write.
pub fn sanitize_element(tag: &XmlTag, root: bool, max_attributes: usize) -> (r: Result<Vec<(String, String)>, RenderError>)
    ensures
        match element_outcome(*tag, root, max_attributes) {
            Ok(kept) => r matches Ok(v) && pairs_view(v@) == kept,
            Err(m) => r matches Err(e) && is_unsafe(e, m),
        },
{
    let name = &tag.name;
    let allowed = str_eq(name, "svg") || str_eq(name, "g") || str_eq(name, "path") || str_eq(name, "rect");
    if !allowed || root != str_eq(name, "svg") {
        return Err(unsafe_svg("SVG contains a disallowed element"));
    }
    let mut seen: Vec<String> = Vec::new();
    let mut kept: Vec<(String, String)> = Vec::new();
    let mut i: usize = 0;
    let ghost want = attributes_from(tag.attributes@, 0, name@, max_attributes, seq![], seq![]);
    assert(strings_view(seen@) =~= seq![]);
    assert(pairs_view(kept@) =~= seq![]);
    while i < tag.attributes.len()
        invariant
            i <= tag.attributes@.len(),
            want == attributes_from(tag.attributes@, 0, name@, max_attributes, seq![], seq![]),
            want == attributes_from(tag.attributes@, i as int, name@, max_attributes, strings_view(seen@), pairs_view(kept@)),
            name == &tag.name,
            name@ == "svg"@ || name@ == "g"@ || name@ == "path"@ || name@ == "rect"@,
            root == (name@ == "svg"@),
        decreases tag.attributes@.len() - i,
    {
        if i >= max_attributes {
            return Err(unsafe_svg("SVG element exceeds its attribute limit"));
        }
        match &tag.attributes[i] {
            XmlAttribute::Malformed => return Err(unsafe_svg("SVG contains a malformed attribute")),
            XmlAttribute::Parsed { key, value } => {
                if seen_contains(&seen, key) {
                    return Err(unsafe_svg("SVG contains a duplicate attribute"));
                }
                if !is_stripped(key) {
                    let v = match value {
                        None => return Err(unsafe_svg("SVG attribute value is malformed")),
                        Some(v) => v,
                    };
                    if !validate_attribute(name, key, v) {
                        return Err(unsafe_svg("SVG contains a disallowed attribute or value"));
                    }
                    let ghost old_kept = pairs_view(kept@);
                    kept.push((key.clone(), v.clone()));
                    assert(pairs_view(kept@) =~= old_kept.push((key@, v@)));
                }
                let ghost before = strings_view(seen@);
                seen.push(key.clone());
                assert(strings_view(seen@) =~= before.push(key@));
            },
        }
        i = i + 1;
    }
    let required = required_list(name);
    let mut k: usize = 0;
    while k < required.len()
        invariant
            k <= required@.len(),
            required@.map_values(|s: &str| s@) == required_attributes(name@),
            want == attributes_from(tag.attributes@, 0, name@, max_attributes, seq![], seq![]),
            want == Ok::<(Seq<Seq<char>>, Seq<(Seq<char>, Seq<char>)>), Seq<char>>((strings_view(seen@), pairs_view(kept@))),
            name == &tag.name,
            name@ == "svg"@ || name@ == "g"@ || name@ == "path"@ || name@ == "rect"@,
            root == (name@ == "svg"@),
            forall|j: int| 0 <= j < k ==> strings_view(seen@).contains(#[trigger] required_attributes(name@)[j]),
        decreases required@.len() - k,
    {
        let wanted = owned(required[k]);
        assert(wanted@ == required_attributes(name@)[k as int]);
        if !seen_contains(&seen, &wanted) {
            return Err(unsafe_svg("SVG element is missing a required attribute"));
        }
        k = k + 1;
    }
    Ok(kept)
}

// ---------------------------------------------------------------------------
// The document.

/// Where a scan of the events stands.
#[derive(Clone, Copy, Debug, PartialEq, Eq, Structural)]
pub struct ScanState {
    pub depth: usize,
    pub elements: usize,
    pub root_seen: bool,
    pub root_closed: bool,
}

/// What to write, as plain values.
pub enum WriteView {
    Start(Seq<char>, Seq<(Seq<char>, Seq<char>)>),
    Empty(Seq<char>, Seq<(Seq<char>, Seq<char>)>),
    End(Seq<char>),
}

impl View for XmlWrite {
    type V = WriteView;

    open spec fn view(&self) -> WriteView {
        match self {
            XmlWrite::Start(n, a) => WriteView::Start(n@, pairs_view(a@)),
            XmlWrite::Empty(n, a) => WriteView::Empty(n@, pairs_view(a@)),
            XmlWrite::End(n) => WriteView::End(n@),
        }
    }
}

pub open spec fn writes_view(w: Seq<XmlWrite>) -> Seq<WriteView> {
    w.map_values(|x: XmlWrite| x@)
}

/// The scan before the first event.
pub open spec fn scan_start() -> ScanState {
    ScanState { depth: 0, elements: 0, root_seen: false, root_closed: false }
}

/// One more, saturating.
pub open spec fn bump(n: usize) -> usize {
    if n == usize::MAX { n } else { (n + 1) as usize }
}

/// Whether a byte is ASCII whitespace (`u8::is_ascii_whitespace`).
pub open spec fn space_byte(b: u8) -> bool {
    b == 0x20 || b == 0x09 || b == 0x0a || b == 0x0c || b == 0x0d
}

/// An element tag in the scan: the next state and what to write, or the failure.
pub open spec fn begin_outcome(tag: XmlTag, empty: bool, st: ScanState, l: SvgSanitizerLimits) -> Result<(ScanState, WriteView), Seq<char>> {
    let elements = bump(st.elements);
    let next = bump(st.depth);
    let root = st.depth == 0;
    if st.root_closed {
        Err("SVG contains content after its root element"@)
    } else if elements > l.max_elements {
        Err("SVG exceeds its element limit"@)
    } else if next > l.max_depth {
        Err("SVG exceeds its nesting depth limit"@)
    } else if root && st.root_seen {
        Err("SVG contains more than one root element"@)
    } else {
        match element_outcome(tag, root, l.max_attributes_per_element) {
            Err(m) => Err(m),
            Ok(kept) => if root && empty {
                Err("SVG root element must not be empty"@)
            } else {
                Ok(
                    (
                        ScanState {
                            depth: if empty { st.depth } else { next },
                            elements,
                            root_seen: st.root_seen || root,
                            root_closed: st.root_closed,
                        },
                        if empty { WriteView::Empty(tag.name@, kept) } else { WriteView::Start(tag.name@, kept) },
                    ),
                )
            },
        }
    }
}

/// The end of the events: exactly one complete root element.
pub open spec fn scan_finish(st: ScanState, writes: Seq<WriteView>) -> Result<Seq<WriteView>, Seq<char>> {
    if !st.root_seen || !st.root_closed || st.depth != 0 {
        Err("SVG must contain one complete root element"@)
    } else {
        Ok(writes)
    }
}

/// The events from `i` on: everything to write, or the first failure.
pub open spec fn events_from(
    events: Seq<XmlEvent>,
    i: int,
    st: ScanState,
    l: SvgSanitizerLimits,
    writes: Seq<WriteView>,
) -> Result<Seq<WriteView>, Seq<char>>
    decreases events.len() - i,
    when 0 <= i
{
    if i >= events.len() {
        scan_finish(st, writes)
    } else {
        match events[i] {
            XmlEvent::Malformed => Err("SVG input is not well formed XML"@),
            XmlEvent::Eof => scan_finish(st, writes),
            XmlEvent::Other => Err("SVG contains a disallowed XML event"@),
            XmlEvent::Text(b) => if forall|k: int| 0 <= k < b@.len() ==> space_byte(#[trigger] b@[k]) {
                events_from(events, i + 1, st, l, writes)
            } else {
                Err("SVG contains a disallowed XML event"@)
            },
            XmlEvent::End(name) => if st.depth == 0 {
                Err("SVG contains an unmatched closing element"@)
            } else if st.depth == 1 && name@ != "svg"@ {
                Err("SVG input is not well formed XML"@)
            } else {
                events_from(
                    events,
                    i + 1,
                    ScanState {
                        depth: (st.depth - 1) as usize,
                        root_closed: st.root_closed || st.depth - 1 == 0,
                        ..st
                    },
                    l,
                    writes.push(WriteView::End(name@)),
                )
            },
            XmlEvent::Start(tag) => match begin_outcome(tag, false, st, l) {
                Err(m) => Err(m),
                Ok((next, w)) => events_from(events, i + 1, next, l, writes.push(w)),
            },
            XmlEvent::Empty(tag) => match begin_outcome(tag, true, st, l) {
                Err(m) => Err(m),
                Ok((next, w)) => events_from(events, i + 1, next, l, writes.push(w)),
            },
        }
    }
}

/// The outcome of the allowlist on a document's events.
pub open spec fn document_outcome(events: Seq<XmlEvent>, l: SvgSanitizerLimits) -> Result<Seq<WriteView>, Seq<char>> {
    events_from(events, 0, scan_start(), l, seq![])
}

fn all_space(bytes: &Vec<u8>) -> (r: bool)
    ensures
        r == forall|k: int| 0 <= k < bytes@.len() ==> space_byte(#[trigger] bytes@[k]),
{
    let mut i: usize = 0;
    while i < bytes.len()
        invariant
            i <= bytes@.len(),
            forall|k: int| 0 <= k < i ==> space_byte(#[trigger] bytes@[k]),
        decreases bytes@.len() - i,
    {
        let b = bytes[i];
        if !(b == 0x20 || b == 0x09 || b == 0x0a || b == 0x0c || b == 0x0d) {
            return false;
        }
        i = i + 1;
    }
    true
}

fn begin_element(tag: &XmlTag, empty: bool, st: ScanState, limits: SvgSanitizerLimits) -> (r: Result<(ScanState, XmlWrite), RenderError>)
    ensures
        match begin_outcome(*tag, empty, st, limits) {
            Ok((next, w)) => r matches Ok((n, x)) && n == next && x@ == w,
            Err(m) => r matches Err(e) && is_unsafe(e, m),
        },
{
    if st.root_closed {
        return Err(unsafe_svg("SVG contains content after its root element"));
    }
    let elements = if st.elements == usize::MAX { st.elements } else { st.elements + 1 };
    if elements > limits.max_elements {
        return Err(unsafe_svg("SVG exceeds its element limit"));
    }
    let next = if st.depth == usize::MAX { st.depth } else { st.depth + 1 };
    if next > limits.max_depth {
        return Err(unsafe_svg("SVG exceeds its nesting depth limit"));
    }
    let root = st.depth == 0;
    if root && st.root_seen {
        return Err(unsafe_svg("SVG contains more than one root element"));
    }
    let kept = sanitize_element(tag, root, limits.max_attributes_per_element)?;
    if root && empty {
        return Err(unsafe_svg("SVG root element must not be empty"));
    }
    let state = ScanState {
        depth: if empty { st.depth } else { next },
        elements,
        root_seen: st.root_seen || root,
        root_closed: st.root_closed,
    };
    let write = if empty { XmlWrite::Empty(tag.name.clone(), kept) } else { XmlWrite::Start(tag.name.clone(), kept) };
    Ok((state, write))
}

/// Applies the allowlist to a document's events and returns what to write.
pub fn sanitize_events(events: &Vec<XmlEvent>, limits: SvgSanitizerLimits) -> (r: Result<Vec<XmlWrite>, RenderError>)
    ensures
        match document_outcome(events@, limits) {
            Ok(w) => r matches Ok(v) && writes_view(v@) == w,
            Err(m) => r matches Err(e) && is_unsafe(e, m),
        },
{
    let ghost want = document_outcome(events@, limits);
    let mut st = ScanState { depth: 0, elements: 0, root_seen: false, root_closed: false };
    let mut writes: Vec<XmlWrite> = Vec::new();
    let mut i: usize = 0;
    assert(writes_view(writes@) =~= seq![]);
    while i < events.len()
        invariant
            i <= events@.len(),
            want == document_outcome(events@, limits),
            want == events_from(events@, i as int, st, limits, writes_view(writes@)),
        decreases events@.len() - i,
    {
        let ghost before = writes_view(writes@);
        match &events[i] {
            XmlEvent::Malformed => return Err(unsafe_svg("SVG input is not well formed XML")),
            XmlEvent::Eof => {
                if !st.root_seen || !st.root_closed || st.depth != 0 {
                    return Err(unsafe_svg("SVG must contain one complete root element"));
                }
                return Ok(writes);
            },
            XmlEvent::Other => return Err(unsafe_svg("SVG contains a disallowed XML event")),
            XmlEvent::Text(bytes) => {
                if !all_space(bytes) {
                    return Err(unsafe_svg("SVG contains a disallowed XML event"));
                }
            },
            XmlEvent::End(name) => {
                if st.depth == 0 {
                    return Err(unsafe_svg("SVG contains an unmatched closing element"));
                }
                if st.depth == 1 && !str_eq(name, "svg") {
                    return Err(unsafe_svg("SVG input is not well formed XML"));
                }
                writes.push(XmlWrite::End(name.clone()));
                assert(writes_view(writes@) =~= before.push(WriteView::End(name@)));
                st.depth = st.depth - 1;
                if st.depth == 0 {
                    st.root_closed = true;
                }
            },
            XmlEvent::Start(tag) => {
                let (next, write) = begin_element(tag, false, st, limits)?;
                writes.push(write);
                assert(writes_view(writes@) =~= before.push(writes@.last()@));
                st = next;
            },
            XmlEvent::Empty(tag) => {
                let (next, write) = begin_element(tag, true, st, limits)?;
                writes.push(write);
                assert(writes_view(writes@) =~= before.push(writes@.last()@));
                st = next;
            },
        }
        i = i + 1;
    }
    if !st.root_seen || !st.root_closed || st.depth != 0 {
        return Err(unsafe_svg("SVG must contain one complete root element"));
    }
    Ok(writes)
}

/// Accepts the written document when it fits the byte limit and is text.
pub fn finish_output(output: Vec<u8>, limits: SvgSanitizerLimits) -> (r: Result<SanitizedSvg, RenderError>)
    ensures
        output@.len() > limits.max_bytes ==> (r matches Err(e) && is_unsafe(e, "Sanitized SVG exceeds its byte limit"@)),
        output@.len() <= limits.max_bytes && !valid_utf8(output@) ==> (r matches Err(e) && is_unsafe(
            e,
            "Sanitized SVG is not valid UTF 8"@,
        )),
        output@.len() <= limits.max_bytes && valid_utf8(output@) ==> (r matches Ok(s) && s.spec_bytes() == output@),
{
    if output.len() > limits.max_bytes {
        return Err(unsafe_svg("Sanitized SVG exceeds its byte limit"));
    }
    if !is_valid_utf8(output.as_slice()) {
        return Err(unsafe_svg("Sanitized SVG is not valid UTF 8"));
    }
    Ok(SanitizedSvg { bytes: output })
}

} // verus!
