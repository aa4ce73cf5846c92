//! What every accepted SVG document is made of.

use vstd::prelude::*;

use crate::svg_sanitizer::{
    SvgSanitizerLimits, WriteView, XmlEvent, XmlTag, attribute_ok, attributes_from, begin_outcome,
    document_outcome, events_from, scan_start, stripped, ScanState,
};

verus! {

/// An element the allowlist knows.
pub open spec fn element_allowed(name: Seq<char>) -> bool {
    name == "svg"@ || name == "g"@ || name == "path"@ || name == "rect"@
}

/// Attributes that are all allowed for the element and none of them metadata.
pub open spec fn attributes_allowed(element: Seq<char>, attrs: Seq<(Seq<char>, Seq<char>)>) -> bool {
    forall|j: int| 0 <= j < attrs.len() ==> attribute_ok(element, #[trigger] attrs[j].0, attrs[j].1) && !stripped(attrs[j].0)
}

/// A write that opens an allowed element with allowed attributes, or closes one.
pub open spec fn write_allowed(w: WriteView) -> bool {
    match w {
        WriteView::Start(n, a) => element_allowed(n) && attributes_allowed(n, a),
        WriteView::Empty(n, a) => element_allowed(n) && attributes_allowed(n, a),
        WriteView::End(_) => true,
    }
}

pub open spec fn writes_allowed(w: Seq<WriteView>) -> bool {
    forall|k: int| 0 <= k < w.len() ==> write_allowed(#[trigger] w[k])
}

proof fn lemma_attributes_allowed(
    attrs: Seq<crate::svg_sanitizer::XmlAttribute>,
    i: int,
    element: Seq<char>,
    max: usize,
    seen: Seq<Seq<char>>,
    kept: Seq<(Seq<char>, Seq<char>)>,
)
    requires
        0 <= i,
        attributes_allowed(element, kept),
    ensures
        attributes_from(attrs, i, element, max, seen, kept) matches Ok((_, k)) ==> attributes_allowed(element, k),
    decreases attrs.len() - i,
{
    if i < attrs.len() && i + 1 <= max {
        match attrs[i] {
            crate::svg_sanitizer::XmlAttribute::Parsed { key, value } => {
                if !seen.contains(key@) {
                    if stripped(key@) {
                        lemma_attributes_allowed(attrs, i + 1, element, max, seen.push(key@), kept);
                    } else if let Some(v) = value {
                        if attribute_ok(element, key@, v@) {
                            let next = kept.push((key@, v@));
                            assert(attributes_allowed(element, next)) by {
                                assert forall|j: int| 0 <= j < next.len() implies attribute_ok(
                                    element,
                                    #[trigger] next[j].0,
                                    next[j].1,
                                ) && !stripped(next[j].0) by {
                                    if j < kept.len() {
                                        assert(next[j] == kept[j]);
                                    }
                                }
                            }
                            lemma_attributes_allowed(attrs, i + 1, element, max, seen.push(key@), next);
                        }
                    }
                }
            },
            _ => {},
        }
    }
}

proof fn lemma_begin_allowed(tag: XmlTag, empty: bool, st: ScanState, l: SvgSanitizerLimits)
    ensures
        begin_outcome(tag, empty, st, l) matches Ok((_, w)) ==> write_allowed(w),
{
    lemma_attributes_allowed(tag.attributes@, 0, tag.name@, l.max_attributes_per_element, seq![], seq![]);
}

proof fn lemma_events_allowed(events: Seq<XmlEvent>, i: int, st: ScanState, l: SvgSanitizerLimits, writes: Seq<WriteView>)
    requires
        0 <= i,
        writes_allowed(writes),
    ensures
        events_from(events, i, st, l, writes) matches Ok(w) ==> writes_allowed(w),
    decreases events.len() - i,
{
    if i < events.len() {
        match events[i] {
            XmlEvent::Text(_) => {
                lemma_events_allowed(events, i + 1, st, l, writes);
            },
            XmlEvent::End(name) => {
                if st.depth != 0 {
                    let next = writes.push(WriteView::End(name@));
                    assert(writes_allowed(next)) by {
                        assert forall|k: int| 0 <= k < next.len() implies write_allowed(#[trigger] next[k]) by {
                            if k < writes.len() {
                                assert(next[k] == writes[k]);
                            }
                        }
                    }
                    lemma_events_allowed(
                        events,
                        i + 1,
                        ScanState { depth: (st.depth - 1) as usize, root_closed: st.root_closed || st.depth - 1 == 0, ..st },
                        l,
                        next,
                    );
                }
            },
            XmlEvent::Start(tag) => {
                lemma_begin_allowed(tag, false, st, l);
                if let Ok((n, w)) = begin_outcome(tag, false, st, l) {
                    let next = writes.push(w);
                    assert(writes_allowed(next)) by {
                        assert forall|k: int| 0 <= k < next.len() implies write_allowed(#[trigger] next[k]) by {
                            if k < writes.len() {
                                assert(next[k] == writes[k]);
                            }
                        }
                    }
                    lemma_events_allowed(events, i + 1, n, l, next);
                }
            },
            XmlEvent::Empty(tag) => {
                lemma_begin_allowed(tag, true, st, l);
                if let Ok((n, w)) = begin_outcome(tag, true, st, l) {
                    let next = writes.push(w);
                    assert(writes_allowed(next)) by {
                        assert forall|k: int| 0 <= k < next.len() implies write_allowed(#[trigger] next[k]) by {
                            if k < writes.len() {
                                assert(next[k] == writes[k]);
                            }
                        }
                    }
                    lemma_events_allowed(events, i + 1, n, l, next);
                }
            },
            _ => {},
        }
    }
}

/// An accepted document is written with allowed elements only, each carrying only
/// attributes and values the allowlist accepts for it, and no metadata attribute.
pub proof fn law_accepted_documents_are_allowlisted(events: Seq<XmlEvent>, l: SvgSanitizerLimits)
    ensures
        document_outcome(events, l) matches Ok(w) ==> writes_allowed(w),
{
    lemma_events_allowed(events, 0, scan_start(), l, seq![]);
}

} // verus!
