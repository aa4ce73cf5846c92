//! Sanitizing a whole SVG document: quick-xml reads its events, the allowlist decides
//! on them, and quick-xml writes the accepted elements back.

use vstd::prelude::*;

use quick_xml::events::{BytesEnd, BytesStart, Event};
use quick_xml::reader::Reader;
use quick_xml::writer::Writer;
use quick_xml::XmlVersion;

use crate::error::{sanitized, RenderError, RenderErrorCode};
use crate::svg_laws::writes_allowed;
use crate::svg_sanitizer::{
    attributes_from, begin_outcome, events_from, required_attributes, scan_start, stripped, ScanState,
    check_svg_input, document_outcome, finish_output, input_problem, is_unsafe, sanitize_events, unsafe_svg,
    writes_view, SanitizedSvg, SvgSanitizerLimits, WriteView, XmlAttribute, XmlEvent, XmlTag, XmlWrite,
};

verus! {

#[verifier::external_type_specification]
#[verifier::external_body]
#[verifier::reject_recursive_types(R)]
pub struct ExXmlReader<R>(Reader<R>);

#[verifier::external_type_specification]
#[verifier::external_body]
#[verifier::reject_recursive_types(W)]
pub struct ExXmlWriter<W>(Writer<W>);

/// One event as the reader gives it, a start tag still as its raw content (name and
/// attributes) with the byte length of its name.
pub enum XmlRead {
    Start(String, usize),
    Empty(String, usize),
    Event(XmlEvent),
}

/// The text a reader reads.
pub uninterp spec fn reader_text(r: Reader<&[u8]>) -> Seq<char>;

/// How many events a reader has given.
pub uninterp spec fn reader_position(r: Reader<&[u8]>) -> nat;

/// The event at `index` of the text, as a reader with every check on gives it.
pub uninterp spec fn xml_read_at(text: Seq<char>, index: nat) -> XmlRead;

/// The name and attributes of a start tag with the given raw content and name length.
pub uninterp spec fn start_tag(content: Seq<char>, name_len: nat) -> XmlTag;

/// `n` bytes of the text end at a character boundary.
pub open spec fn char_boundary(text: Seq<char>, n: nat) -> bool {
    exists|k: int| 0 <= k <= text.len() && crate::text::utf8_len(#[trigger] text.take(k)) == n
}

/// A reader over the text that has given no event yet, with its checks of comments
/// and of end tag names on (`Reader::from_str`, `Config::enable_all_checks`).
#[verifier::external_body]
fn xml_reader<'a>(text: &'a str) -> (r: Reader<&'a [u8]>)
    ensures
        reader_text(r) == text@,
        reader_position(r) == 0,
{
    let mut reader = Reader::from_str(text);
    reader.config_mut().enable_all_checks(true);
    reader
}

/// The next event of the text (`Reader::read_event`): the event at the reader's
/// position, a start tag as its raw content and name length.
#[verifier::external_body]
fn read_xml(reader: &mut Reader<&[u8]>) -> (r: XmlRead)
    ensures
        reader_text(*final(reader)) == reader_text(*old(reader)),
        reader_position(*final(reader)) == reader_position(*old(reader)) + 1,
        r == xml_read_at(reader_text(*old(reader)), reader_position(*old(reader))),
        r matches XmlRead::Start(c, n) ==> char_boundary(c@, n as nat),
        r matches XmlRead::Empty(c, n) ==> char_boundary(c@, n as nat),
{
    match reader.read_event() {
        Ok(Event::Start(start)) => XmlRead::Start((*start).to_owned(), start.name().0.len()),
        Ok(Event::Empty(start)) => XmlRead::Empty((*start).to_owned(), start.name().0.len()),
        Ok(Event::End(end)) => XmlRead::Event(XmlEvent::End(end.name().0.to_owned())),
        Ok(Event::Text(text)) => XmlRead::Event(XmlEvent::Text(text.as_bytes().to_vec())),
        Ok(Event::Eof) => XmlRead::Event(XmlEvent::Eof),
        Ok(_) => XmlRead::Event(XmlEvent::Other),
        Err(_) => XmlRead::Event(XmlEvent::Malformed),
    }
}

/// The name and the attributes of a start tag (`BytesStart::from_content`,
/// `BytesStart::name`, `BytesStart::attributes`, `Attribute::normalized_value`), each
/// attribute with its normalized value or as malformed.
#[verifier::external_body]
fn xml_tag(content: &str, name_len: usize) -> (r: XmlTag)
    requires
        char_boundary(content@, name_len as nat),
    ensures
        r == start_tag(content@, name_len as nat),
{
    let start = BytesStart::from_content(content, name_len);
    let attributes = start.attributes().map(|attribute| match attribute {
        Ok(a) => XmlAttribute::Parsed {
            key: a.key.0.to_owned(),
            value: a.normalized_value(XmlVersion::Implicit1_0).ok().map(|v| v.into_owned()),
        },
        Err(_) => XmlAttribute::Malformed,
    }).collect();
    XmlTag { name: start.name().0.to_owned(), attributes }
}

/// What a read gives as an event.
pub open spec fn event_of(r: XmlRead) -> XmlEvent {
    match r {
        XmlRead::Start(c, n) => XmlEvent::Start(start_tag(c@, n as nat)),
        XmlRead::Empty(c, n) => XmlEvent::Empty(start_tag(c@, n as nat)),
        XmlRead::Event(e) => e,
    }
}

/// Whether reading stops at this event: the end of the document or an error.
pub open spec fn ends_reading(e: XmlEvent) -> bool {
    e is Eof || e is Malformed
}

/// The events of the text from `index` on, up to its end or its first error; after
/// `limit` events the document is taken as malformed.
pub open spec fn events_from_index(text: Seq<char>, index: nat, limit: nat) -> Seq<XmlEvent>
    decreases limit + 1 - index,
{
    if index > limit {
        seq![XmlEvent::Malformed]
    } else {
        let e = event_of(xml_read_at(text, index));
        if ends_reading(e) {
            seq![e]
        } else {
            seq![e] + events_from_index(text, index + 1, limit)
        }
    }
}

/// The events of an SVG input's text, at most one per byte before its end.
pub open spec fn svg_events(input: Seq<u8>) -> Seq<XmlEvent> {
    events_from_index(vstd::utf8::decode_utf8(input), 0, input.len())
}

/// The characters of an attribute value as the writer escapes them.
pub open spec fn escaped_char(c: char) -> Seq<char> {
    if c == '<' {
        seq!['&', 'l', 't', ';']
    } else if c == '>' {
        seq!['&', 'g', 't', ';']
    } else if c == '&' {
        seq!['&', 'a', 'm', 'p', ';']
    } else if c == '\'' {
        seq!['&', 'a', 'p', 'o', 's', ';']
    } else if c == '"' {
        seq!['&', 'q', 'u', 'o', 't', ';']
    } else if c == '\r' {
        seq!['&', '#', '1', '3', ';']
    } else if c == '\n' {
        seq!['&', '#', '1', '0', ';']
    } else if c == '\t' {
        seq!['&', '#', '9', ';']
    } else {
        seq![c]
    }
}

/// An attribute value as the writer escapes it.
pub open spec fn escaped(v: Seq<char>) -> Seq<char>
    decreases v.len(),
{
    if v.len() == 0 {
        Seq::empty()
    } else {
        escaped(v.drop_last()) + escaped_char(v.last())
    }
}

/// The attributes of a tag as written: ` key="value"` for each.
pub open spec fn attributes_text(a: Seq<(Seq<char>, Seq<char>)>) -> Seq<char>
    decreases a.len(),
{
    if a.len() == 0 {
        Seq::empty()
    } else {
        attributes_text(a.drop_last()) + seq![' '] + a.last().0 + seq!['=', '"'] + escaped(a.last().1) + seq!['"']
    }
}

/// The text of one written element: `<name attributes>`, `<name attributes/>` or
/// `</name>`.
pub open spec fn element_text(w: WriteView) -> Seq<char> {
    match w {
        WriteView::Start(n, a) => seq!['<'] + n + attributes_text(a) + seq!['>'],
        WriteView::Empty(n, a) => seq!['<'] + n + attributes_text(a) + seq!['/', '>'],
        WriteView::End(n) => seq!['<', '/'] + n + seq!['>'],
    }
}

/// The bytes of one written element.
pub open spec fn element_bytes(w: WriteView) -> Seq<u8> {
    vstd::utf8::encode_utf8(element_text(w))
}

/// The bytes a writer holds.
pub uninterp spec fn written(w: Writer<Vec<u8>>) -> Seq<u8>;

/// A writer without indentation over the buffer (`Writer::new`): it holds the
/// buffer's bytes.
#[verifier::external_body]
fn xml_writer(buffer: Vec<u8>) -> (r: Writer<Vec<u8>>)
    ensures
        written(r) == buffer@,
{
    Writer::new(buffer)
}

/// Writes one element (`Writer::write_event` without indentation, attribute values
/// escaped by `Attribute::from`): writing into a vector succeeds, and the writer holds
/// what it held followed by the element's bytes.
#[verifier::external_body]
fn write_xml(writer: &mut Writer<Vec<u8>>, write: &XmlWrite) -> (r: bool)
    ensures
        r,
        written(*final(writer)) == written(*old(writer)) + element_bytes(write@),
{
    let event = match write {
        XmlWrite::Start(name, a) => Event::Start(
            BytesStart::new(name.as_str()).with_attributes(a.iter().map(|(k, v)| (k.as_str(), v.as_str()))),
        ),
        XmlWrite::Empty(name, a) => Event::Empty(
            BytesStart::new(name.as_str()).with_attributes(a.iter().map(|(k, v)| (k.as_str(), v.as_str()))),
        ),
        XmlWrite::End(name) => Event::End(BytesEnd::new(name.as_str())),
    };
    writer.write_event(event).is_ok()
}

/// The buffer of a writer (`Writer::into_inner`).
#[verifier::external_body]
fn written_bytes(writer: Writer<Vec<u8>>) -> (r: Vec<u8>)
    ensures
        r@ == written(writer),
{
    writer.into_inner()
}

/// The bytes of the elements written in order.
pub open spec fn serialized(ws: Seq<WriteView>) -> Seq<u8>
    decreases ws.len(),
{
    if ws.len() == 0 {
        Seq::empty()
    } else {
        serialized(ws.drop_last()) + element_bytes(ws.last())
    }
}

/// Reads the events of a document up to its end or its first error. Every event but
/// the end consumes some of the text, so a document of `size` bytes has at most `size`
/// events before its end; a reader that went on past that would be taken as malformed.
fn read_events(text: &str, size: usize) -> (r: Vec<XmlEvent>)
    requires
        size < usize::MAX,
    ensures
        r@ == events_from_index(text@, 0, size as nat),
        1 <= r@.len() <= size + 2,
        ends_reading(r@.last()),
        forall|i: int| 0 <= i < r@.len() - 1 ==> !ends_reading(#[trigger] r@[i]),
{
    let mut reader = xml_reader(text);
    let mut events: Vec<XmlEvent> = Vec::new();
    let mut count: usize = 0;
    while count <= size
        invariant
            size < usize::MAX,
            count <= size + 1,
            events@.len() == count,
            reader_text(reader) == text@,
            reader_position(reader) == count,
            events@ + events_from_index(text@, count as nat, size as nat) == events_from_index(text@, 0, size as nat),
            forall|i: int| 0 <= i < events@.len() ==> !ends_reading(#[trigger] events@[i]),
        decreases size + 1 - count,
    {
        let read = read_xml(&mut reader);
        let event = match read {
            XmlRead::Start(content, name_len) => XmlEvent::Start(xml_tag(content.as_str(), name_len)),
            XmlRead::Empty(content, name_len) => XmlEvent::Empty(xml_tag(content.as_str(), name_len)),
            XmlRead::Event(event) => event,
        };
        assert(event == event_of(xml_read_at(text@, count as nat)));
        let last = match &event {
            XmlEvent::Eof => true,
            XmlEvent::Malformed => true,
            _ => false,
        };
        let ghost before = events@;
        events.push(event);
        if last {
            assert(events@ =~= before + events_from_index(text@, count as nat, size as nat));
            return events;
        }
        assert(before + events_from_index(text@, count as nat, size as nat) =~= events@ + events_from_index(
            text@,
            (count + 1) as nat,
            size as nat,
        ));
        count = count + 1;
    }
    assert(events_from_index(text@, count as nat, size as nat) == seq![XmlEvent::Malformed]);
    events.push(XmlEvent::Malformed);
    events
}

/// Writes the accepted elements in order.
fn write_document(writes: &Vec<XmlWrite>, capacity: usize) -> (r: Result<Vec<u8>, RenderError>)
    ensures
        r matches Ok(bytes) && bytes@ == serialized(writes_view(writes@)),
{
    let mut writer = xml_writer(Vec::with_capacity(capacity));
    let mut i: usize = 0;
    while i < writes.len()
        invariant
            i <= writes@.len(),
            written(writer) == serialized(writes_view(writes@).take(i as int)),
        decreases writes@.len() - i,
    {
        if !write_xml(&mut writer, &writes[i]) {
            return Err(unsafe_svg("SVG output could not be written"));
        }
        proof {
            let ws = writes_view(writes@);
            assert(ws.take(i + 1).drop_last() =~= ws.take(i as int));
            assert(ws.take(i + 1).last() == writes@[i as int]@);
        }
        i = i + 1;
    }
    assert(writes_view(writes@).take(writes@.len() as int) =~= writes_view(writes@));
    Ok(written_bytes(writer))
}

/// The bytes written are valid UTF 8.
proof fn lemma_serialized_utf8(ws: Seq<WriteView>)
    ensures
        vstd::utf8::valid_utf8(serialized(ws)),
    decreases ws.len(),
{
    if ws.len() == 0 {
        vstd::utf8::encode_utf8_valid_utf8(Seq::<char>::empty());
        assert(vstd::utf8::encode_utf8(Seq::<char>::empty()) =~= Seq::<u8>::empty());
    } else {
        lemma_serialized_utf8(ws.drop_last());
        vstd::utf8::encode_utf8_valid_utf8(element_text(ws.last()));
        vstd::utf8::valid_utf8_concat(serialized(ws.drop_last()), element_bytes(ws.last()));
    }
}

/// What sanitizing a document that passed the input checks gives: the allowlist's
/// outcome on the document's own events, written out, within the byte limit.
pub open spec fn sanitized_outcome(input: Seq<u8>, limits: SvgSanitizerLimits) -> Result<Seq<u8>, Seq<char>> {
    match document_outcome(svg_events(input), limits) {
        Ok(ws) => if serialized(ws).len() <= limits.max_bytes {
            Ok(serialized(ws))
        } else {
            Err("Sanitized SVG exceeds its byte limit"@)
        },
        Err(m) => Err(m),
    }
}

/// Validates an SVG document and rewrites it through the allowlist. Inputs refused
/// before reading fail as `input_problem` says. Otherwise the allowlist decides on the
/// document's own events, as quick-xml reads them from its text: an accepted document
/// is written back, element by element, and must fit the byte limit; every refusal is
/// unsafe output with the allowlist's message.
pub fn sanitize_svg(input: &[u8], limits: SvgSanitizerLimits) -> (r: Result<SanitizedSvg, RenderError>)
    ensures
        input_problem(input@, limits) matches Some((code, m)) ==> r matches Err(e) && e.code == code
            && e.message@ == sanitized(m) && !e.retryable && e.position is None,
        input_problem(input@, limits) is None ==> match sanitized_outcome(input@, limits) {
            Ok(bytes) => r matches Ok(svg) && svg.spec_bytes() == bytes,
            Err(m) => r matches Err(e) && is_unsafe(e, m),
        },
{
    let text = check_svg_input(input, limits)?;
    let events = read_events(text.as_str(), input.len());
    let writes = sanitize_events(&events, limits)?;
    let output = write_document(&writes, input.len())?;
    proof {
        lemma_serialized_utf8(writes_view(writes@));
    }
    finish_output(output, limits)
}

// ---------------------------------------------------------------------------
// The shape of the output.

/// The text of the elements written in order.
pub open spec fn written_text(ws: Seq<WriteView>) -> Seq<char>
    decreases ws.len(),
{
    if ws.len() == 0 {
        Seq::empty()
    } else {
        written_text(ws.drop_last()) + element_text(ws.last())
    }
}

proof fn lemma_serialized_text(ws: Seq<WriteView>)
    ensures
        serialized(ws) == vstd::utf8::encode_utf8(written_text(ws)),
        ws.len() > 0 ==> element_text(ws[0]).is_prefix_of(written_text(ws)),
    decreases ws.len(),
{
    if ws.len() == 0 {
        assert(vstd::utf8::encode_utf8(Seq::<char>::empty()) =~= Seq::<u8>::empty());
    } else {
        let init = ws.drop_last();
        lemma_serialized_text(init);
        crate::text::lemma_encode_utf8_concat(written_text(init), element_text(ws.last()));
        if ws.len() == 1 {
            assert(written_text(init) =~= Seq::<char>::empty());
            assert(written_text(ws) =~= element_text(ws[0]));
        } else {
            assert(init[0] == ws[0]);
            let e = element_text(ws[0]);
            assert(written_text(ws).subrange(0, e.len() as int) =~= written_text(init).subrange(0, e.len() as int));
        }
    }
}

proof fn lemma_attributes_text_starts(a: Seq<(Seq<char>, Seq<char>)>)
    requires
        a.len() > 0,
    ensures
        attributes_text(a).len() > 0,
        attributes_text(a)[0] == ' ',
    decreases a.len(),
{
    if a.len() > 1 {
        lemma_attributes_text_starts(a.drop_last());
    } else {
        assert(attributes_text(a.drop_last()) =~= Seq::<char>::empty());
    }
}

/// Every name seen is either kept with its value or stripped metadata.
proof fn lemma_seen_kept(
    attrs: Seq<XmlAttribute>,
    i: int,
    element: Seq<char>,
    max: usize,
    seen: Seq<Seq<char>>,
    kept: Seq<(Seq<char>, Seq<char>)>,
    key: Seq<char>,
)
    requires
        0 <= i,
        seen.contains(key) ==> stripped(key) || kept.len() > 0,
    ensures
        attributes_from(attrs, i, element, max, seen, kept) matches Ok((s, k)) ==> (s.contains(key) ==> stripped(key)
            || k.len() > 0),
    decreases attrs.len() - i,
{
    if i < attrs.len() && i + 1 <= max {
        if let XmlAttribute::Parsed { key: k, value } = attrs[i] {
            if !seen.contains(k@) {
                if seen.push(k@).contains(key) && !seen.contains(key) {
                    assert(key == k@) by {
                        let j = choose|j: int| 0 <= j < seen.push(k@).len() && seen.push(k@)[j] == key;
                        if j < seen.len() {
                            assert(seen[j] == key);
                        }
                    }
                }
                if stripped(k@) {
                    lemma_seen_kept(attrs, i + 1, element, max, seen.push(k@), kept, key);
                } else if let Some(v) = value {
                    lemma_seen_kept(attrs, i + 1, element, max, seen.push(k@), kept.push((k@, v@)), key);
                }
            }
        }
    }
}

/// The first element written is the root: an `svg` start tag with attributes.
pub open spec fn root_first(ws: Seq<WriteView>) -> bool {
    &&& ws.len() > 0
    &&& ws[0] matches WriteView::Start(n, a) && n == "svg"@ && a.len() > 0
}

proof fn lemma_root_first(events: Seq<XmlEvent>, i: int, st: ScanState, l: SvgSanitizerLimits, writes: Seq<WriteView>)
    requires
        0 <= i,
        writes.len() == 0 ==> st.depth == 0 && !st.root_seen,
        writes.len() > 0 ==> root_first(writes),
    ensures
        events_from(events, i, st, l, writes) matches Ok(w) ==> root_first(w),
    decreases events.len() - i,
{
    if i < events.len() {
        match events[i] {
            XmlEvent::Text(_) => lemma_root_first(events, i + 1, st, l, writes),
            XmlEvent::End(name) => {
                if st.depth != 0 {
                    let next = writes.push(WriteView::End(name@));
                    assert(next[0] == writes[0]);
                    lemma_root_first(
                        events,
                        i + 1,
                        ScanState { depth: (st.depth - 1) as usize, root_closed: st.root_closed || st.depth - 1 == 0, ..st },
                        l,
                        next,
                    );
                }
            },
            XmlEvent::Start(tag) => {
                if let Ok((n, w)) = begin_outcome(tag, false, st, l) {
                    let next = writes.push(w);
                    if writes.len() == 0 {
                        let key = "xmlns"@;
                        assert(required_attributes("svg"@)[0] == key);
                        lemma_seen_kept(tag.attributes@, 0, tag.name@, l.max_attributes_per_element, seq![], seq![], key);
                        assert(!stripped(key)) by {
                            reveal_strlit("xmlns");
                            reveal_strlit("data-c");
                            reveal_strlit("data-latex");
                            reveal_strlit("data-mjx-texclass");
                            reveal_strlit("data-mml-node");
                        }
                    } else {
                        assert(next[0] == writes[0]);
                    }
                    lemma_root_first(events, i + 1, n, l, next);
                }
            },
            XmlEvent::Empty(tag) => {
                if let Ok((n, w)) = begin_outcome(tag, true, st, l) {
                    let next = writes.push(w);
                    assert(next[0] == writes[0]);
                    lemma_root_first(events, i + 1, n, l, next);
                }
            },
            _ => {},
        }
    }
}

/// The root element closes last: once the root is closed, the last element written is
/// `</svg>` and nothing is open.
pub open spec fn closed_last(st: ScanState, ws: Seq<WriteView>) -> bool {
    st.root_closed ==> st.depth == 0 && ws.len() > 0 && ws.last() == WriteView::End("svg"@)
}

proof fn lemma_closed_last(events: Seq<XmlEvent>, i: int, st: ScanState, l: SvgSanitizerLimits, writes: Seq<WriteView>)
    requires
        0 <= i,
        closed_last(st, writes),
    ensures
        events_from(events, i, st, l, writes) matches Ok(w) ==> w.len() > 0 && w.last() == WriteView::End("svg"@),
    decreases events.len() - i,
{
    if i < events.len() {
        match events[i] {
            XmlEvent::Text(_) => lemma_closed_last(events, i + 1, st, l, writes),
            XmlEvent::End(name) => {
                if st.depth != 0 && !(st.depth == 1 && name@ != "svg"@) {
                    let next = writes.push(WriteView::End(name@));
                    lemma_closed_last(
                        events,
                        i + 1,
                        ScanState { depth: (st.depth - 1) as usize, root_closed: st.root_closed || st.depth - 1 == 0, ..st },
                        l,
                        next,
                    );
                }
            },
            XmlEvent::Start(tag) => {
                if let Ok((n, w)) = begin_outcome(tag, false, st, l) {
                    lemma_closed_last(events, i + 1, n, l, writes.push(w));
                }
            },
            XmlEvent::Empty(tag) => {
                if let Ok((n, w)) = begin_outcome(tag, true, st, l) {
                    lemma_closed_last(events, i + 1, n, l, writes.push(w));
                }
            },
            _ => {},
        }
    }
}

/// What sanitizing accepts is an SVG document in text: valid UTF 8 that begins with
/// `<svg ` and ends with `</svg>`, made only of the allowlisted elements, each with allowlisted attributes
/// and values and no metadata attribute, and no text between them.
pub proof fn law_sanitized_output_is_an_svg_document(input: Seq<u8>, limits: SvgSanitizerLimits)
    requires
        sanitized_outcome(input, limits) is Ok,
    ensures
        ({
            let bytes = sanitized_outcome(input, limits)->Ok_0;
            &&& vstd::utf8::valid_utf8(bytes)
            &&& seq!['<', 's', 'v', 'g', ' '].is_prefix_of(vstd::utf8::decode_utf8(bytes))
            &&& seq!['<', '/', 's', 'v', 'g', '>'].is_suffix_of(vstd::utf8::decode_utf8(bytes))
            &&& (document_outcome(svg_events(input), limits) matches Ok(ws) && writes_allowed(ws)
                && vstd::utf8::decode_utf8(bytes) == written_text(ws))
        }),
{
    let ws = document_outcome(svg_events(input), limits)->Ok_0;
    crate::svg_laws::law_accepted_documents_are_allowlisted(svg_events(input), limits);
    lemma_serialized_utf8(ws);
    lemma_serialized_text(ws);
    vstd::utf8::encode_utf8_decode_utf8(written_text(ws));
    lemma_root_first(svg_events(input), 0, scan_start(), limits, seq![]);
    lemma_closed_last(svg_events(input), 0, scan_start(), limits, seq![]);
    assert(seq!['<', '/', 's', 'v', 'g', '>'].is_suffix_of(written_text(ws))) by {
        reveal_strlit("svg");
        let t = written_text(ws);
        let e = element_text(ws.last());
        assert(e =~= seq!['<', '/', 's', 'v', 'g', '>']);
        assert(t == written_text(ws.drop_last()) + e);
        assert(t.subrange(t.len() - 6, t.len() as int) =~= e);
    }
    if let WriteView::Start(n, a) = ws[0] {
        lemma_attributes_text_starts(a);
        reveal_strlit("svg");
        let e = element_text(ws[0]);
        assert(e[0] == '<' && e[1] == 's' && e[2] == 'v' && e[3] == 'g' && e[4] == ' ');
        let t = written_text(ws);
        assert(t[0] == e[0] && t[1] == e[1] && t[2] == e[2] && t[3] == e[3] && t[4] == e[4]);
        assert(t.subrange(0, 5) =~= seq!['<', 's', 'v', 'g', ' ']);
    }
}

} // verus!
