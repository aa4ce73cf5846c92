//! Version 1 wire contract of the local renderer daemon: the request schema, its
//! validation, and the outcomes a response reports.

use vstd::prelude::*;

use crate::color::Rgba;

use crate::json::{JsonTree, json_parses, read_json, tree_of};
use crate::json_schema::{
    entry_value, equals, f32_field, find_entry, f32_field_exec, names, names_view, str_of,
    str_of_exec, struct_fields, struct_fields_exec, u32_of, u32_of_exec, variant_of,
    variant_of_exec,
};
use crate::limits::{RenderLimits, default_render_limits};
use crate::request::{RenderRequest, scale_in_limits};
use crate::text::{
    byte_len, chars_of, contains_unsafe_control, is_ascii_hexdigit, is_control, owned,
    spec_is_ascii_hexdigit, spec_is_control, utf8_len,
};

verus! {

/// The daemon wire protocol version.
pub const DAEMON_PROTOCOL_VERSION: u32 = 1;

/// Largest request line accepted, in bytes.
pub const MAX_DAEMON_REQUEST_LINE_BYTES: usize = 1048576;

/// Largest message source accepted, in UTF 8 bytes.
pub const MAX_DAEMON_MESSAGE_BYTES: usize = 262144;

/// Most equations rendered for one message.
pub const MAX_DAEMON_EQUATIONS: usize = 32;

/// Largest PNG returned for one equation, in bytes.
pub const MAX_DAEMON_PNG_BYTES: usize = 4194304;

/// Largest PNG total returned for one message, in bytes.
pub const MAX_DAEMON_TOTAL_PNG_BYTES: usize = 8388608;

/// Largest accessibility text returned for one equation, in UTF 8 bytes.
pub const MAX_DAEMON_ACCESSIBILITY_BYTES: usize = 65536;

/// Largest accessibility text total returned for one message, in UTF 8 bytes.
pub const MAX_DAEMON_TOTAL_ACCESSIBILITY_BYTES: usize = 262144;

/// Largest response line written, in bytes.
pub const MAX_DAEMON_RESPONSE_LINE_BYTES: usize = 12582912;

/// Longest correlation identifier accepted, in UTF 8 bytes.
pub const MAX_DAEMON_ID_BYTES: usize = 128;

/// How single dollars are treated in a message.
#[derive(Clone, Copy, Debug, PartialEq, Eq, Structural)]
pub enum InlineDollarsV1 {
    Off,
    Smart,
    Always,
}

/// The single method of version 1.
#[derive(Clone, Copy, Debug, PartialEq, Eq, Structural)]
pub enum DaemonMethodV1 {
    RenderMessage,
}

/// A stable machine readable error.
#[derive(Clone, Debug, PartialEq, Eq)]
pub struct DaemonErrorV1 {
    pub code: String,
    pub retryable: bool,
}

/// A request that could not be decoded, with its correlation id when it was safe.
#[derive(Clone, Debug, PartialEq, Eq)]
pub struct DecodeErrorV1 {
    pub id: Option<String>,
    pub error: DaemonErrorV1,
}

/// The parameters of a render request as the schema types them.
pub struct RenderMessageParamsV1 {
    pub source: String,
    pub inline_dollars: InlineDollarsV1,
    pub foreground: String,
    pub background: String,
    /// Requested scale (single precision bit pattern).
    pub scale: u32,
    pub max_width_px: u32,
}

/// A request as the schema types it.
pub struct DaemonRequestV1 {
    pub protocol: u32,
    pub id: String,
    pub method: DaemonMethodV1,
    pub params: RenderMessageParamsV1,
}

/// A request that passed every check, with its values ready for rendering.
#[derive(Clone, Debug, PartialEq)]
pub struct ValidatedRenderMessageV1 {
    pub id: String,
    pub source: String,
    pub inline_dollars: InlineDollarsV1,
    pub foreground: Rgba,
    pub background: Option<Rgba>,
    /// Requested scale (single precision bit pattern).
    pub scale: u32,
    pub max_width_px: u32,
}

/// The value of [`RenderMessageParamsV1`].
pub struct ParamsView {
    pub source: Seq<char>,
    pub inline_dollars: InlineDollarsV1,
    pub foreground: Seq<char>,
    pub background: Seq<char>,
    pub scale: u32,
    pub max_width_px: u32,
}

/// The value of [`DaemonRequestV1`].
pub struct RequestView {
    pub protocol: u32,
    pub id: Seq<char>,
    pub method: DaemonMethodV1,
    pub params: ParamsView,
}

/// The value of [`ValidatedRenderMessageV1`].
pub struct ValidatedView {
    pub id: Seq<char>,
    pub source: Seq<char>,
    pub inline_dollars: InlineDollarsV1,
    pub foreground: Rgba,
    pub background: Option<Rgba>,
    pub scale: u32,
    pub max_width_px: u32,
}

impl View for RenderMessageParamsV1 {
    type V = ParamsView;

    open spec fn view(&self) -> ParamsView {
        ParamsView {
            source: self.source@,
            inline_dollars: self.inline_dollars,
            foreground: self.foreground@,
            background: self.background@,
            scale: self.scale,
            max_width_px: self.max_width_px,
        }
    }
}

impl View for DaemonRequestV1 {
    type V = RequestView;

    open spec fn view(&self) -> RequestView {
        RequestView { protocol: self.protocol, id: self.id@, method: self.method, params: self.params@ }
    }
}

impl View for ValidatedRenderMessageV1 {
    type V = ValidatedView;

    open spec fn view(&self) -> ValidatedView {
        ValidatedView {
            id: self.id@,
            source: self.source@,
            inline_dollars: self.inline_dollars,
            foreground: self.foreground,
            background: self.background,
            scale: self.scale,
            max_width_px: self.max_width_px,
        }
    }
}

/// A daemon error with the given code.
pub fn error(code: &str, retryable: bool) -> (r: DaemonErrorV1)
    ensures
        r.code@ == code@,
        r.retryable == retryable,
{
    DaemonErrorV1 { code: owned(code), retryable }
}

pub open spec fn request_names() -> Seq<Seq<char>> {
    seq!["protocol"@, "id"@, "method"@, "params"@]
}

pub open spec fn params_names() -> Seq<Seq<char>> {
    seq!["source"@, "inlineDollars"@, "foreground"@, "background"@, "scale"@, "maxWidthPx"@]
}

pub open spec fn method_names() -> Seq<Seq<char>> {
    seq!["render_message"@]
}

pub open spec fn dollar_names() -> Seq<Seq<char>> {
    seq!["off"@, "smart"@, "always"@]
}

pub open spec fn dollar_mode(name: Seq<char>) -> InlineDollarsV1 {
    if name == "off"@ {
        InlineDollarsV1::Off
    } else if name == "smart"@ {
        InlineDollarsV1::Smart
    } else {
        InlineDollarsV1::Always
    }
}

/// The typed parameters of a request, when the tree has the parameters' shape.
pub open spec fn params_of(t: JsonTree) -> Option<ParamsView> {
    match struct_fields(t, params_names()) {
        Some(f) => if str_of(f[0]) is Some && variant_of(f[1], dollar_names()) is Some && str_of(f[2]) is Some
            && str_of(f[3]) is Some && f32_field(f[4]) is Some && u32_of(f[5]) is Some {
            Some(
                ParamsView {
                    source: str_of(f[0])->0,
                    inline_dollars: dollar_mode(variant_of(f[1], dollar_names())->0),
                    foreground: str_of(f[2])->0,
                    background: str_of(f[3])->0,
                    scale: f32_field(f[4])->0,
                    max_width_px: u32_of(f[5])->0,
                },
            )
        } else {
            None
        },
        None => None,
    }
}

/// The typed request, when the tree has the request's shape.
pub open spec fn request_of(t: JsonTree) -> Option<RequestView> {
    match struct_fields(t, request_names()) {
        Some(f) => if u32_of(f[0]) is Some && str_of(f[1]) is Some && variant_of(f[2], method_names()) is Some
            && params_of(f[3]) is Some {
            Some(
                RequestView {
                    protocol: u32_of(f[0])->0,
                    id: str_of(f[1])->0,
                    method: DaemonMethodV1::RenderMessage,
                    params: params_of(f[3])->0,
                },
            )
        } else {
            None
        },
        None => None,
    }
}

/// Whether a text holds any control character.
pub open spec fn has_control(s: Seq<char>) -> bool {
    exists|i: int| 0 <= i < s.len() && spec_is_control(#[trigger] s[i])
}

/// A correlation id that may be echoed back: nonempty, short, without control characters.
pub open spec fn safe_id(id: Seq<char>) -> bool {
    id.len() > 0 && utf8_len(id) <= MAX_DAEMON_ID_BYTES && !has_control(id)
}

/// The correlation id found in a document, when it may be echoed back.
pub open spec fn safe_id_of(t: JsonTree) -> Option<Seq<char>> {
    match t {
        JsonTree::Object(entries) => match entry_value(entries@, "id"@) {
            Some(JsonTree::Str(s)) => if safe_id(s@) {
                Some(s@)
            } else {
                None
            },
            _ => None,
        },
        _ => None,
    }
}

/// The value of a two digit lowercase or uppercase hexadecimal number.
pub open spec fn hex_value(c: char) -> int {
    if '0' <= c <= '9' {
        c as int - '0' as int
    } else if 'a' <= c <= 'f' {
        c as int - 'a' as int + 10
    } else {
        c as int - 'A' as int + 10
    }
}

/// An opaque color written `#rrggbb`.
pub open spec fn color_of(s: Seq<char>) -> Option<Rgba> {
    if s.len() == 7 && s[0] == '#' && (forall|i: int| 1 <= i < 7 ==> spec_is_ascii_hexdigit(#[trigger] s[i])) {
        Some(
            Rgba {
                red: (hex_value(s[1]) * 16 + hex_value(s[2])) as u8,
                green: (hex_value(s[3]) * 16 + hex_value(s[4])) as u8,
                blue: (hex_value(s[5]) * 16 + hex_value(s[6])) as u8,
                alpha: 255,
            },
        )
    } else {
        None
    }
}

/// The background of a request: `transparent`, or an opaque color.
pub open spec fn background_of(s: Seq<char>) -> Option<Option<Rgba>> {
    if s == "transparent"@ {
        Some(None)
    } else {
        match color_of(s) {
            Some(c) => Some(Some(c)),
            None => None,
        }
    }
}

/// Whether a text holds a control character other than line feed, carriage return and tab.
pub open spec fn has_unsafe_control(s: Seq<char>) -> bool {
    crate::request::has_unsafe_control(s)
}

/// The checks of a typed request, in order: the error code of the first failure, or the
/// validated message.
pub open spec fn validation_of(r: RequestView) -> Result<ValidatedView, Seq<char>> {
    if r.protocol != DAEMON_PROTOCOL_VERSION {
        Err("protocol"@)
    } else if !safe_id(r.id) {
        Err("invalid_request"@)
    } else if r.params.source.len() == 0 {
        Err("invalid_request"@)
    } else if utf8_len(r.params.source) > MAX_DAEMON_MESSAGE_BYTES {
        Err("input_limit_exceeded"@)
    } else if has_unsafe_control(r.params.source) {
        Err("invalid_request"@)
    } else if color_of(r.params.foreground) is None || background_of(r.params.background) is None {
        Err("invalid_request"@)
    } else if !scale_in_limits(r.params.scale, default_render_limits()) || r.params.max_width_px == 0
        || r.params.max_width_px > default_render_limits().max_width_px {
        Err("invalid_request"@)
    } else {
        Ok(
            ValidatedView {
                id: r.id,
                source: r.params.source,
                inline_dollars: r.params.inline_dollars,
                foreground: color_of(r.params.foreground)->0,
                background: background_of(r.params.background)->0,
                scale: r.params.scale,
                max_width_px: r.params.max_width_px,
            },
        )
    }
}

/// The outcome of decoding a document: the validated message, or the error code with
/// the correlation id when it may be echoed.
pub open spec fn decode_of(t: JsonTree) -> Result<ValidatedView, (Option<Seq<char>>, Seq<char>)> {
    match request_of(t) {
        None => Err((safe_id_of(t), "invalid_request"@)),
        Some(r) => match validation_of(r) {
            Ok(v) => Ok(v),
            Err(code) => Err((safe_id_of(t), code)),
        },
    }
}

/// A decode result that reports exactly the given outcome, never retryable.
pub open spec fn decoded_as(
    r: Result<ValidatedRenderMessageV1, DecodeErrorV1>,
    o: Result<ValidatedView, (Option<Seq<char>>, Seq<char>)>,
) -> bool {
    match o {
        Ok(v) => r matches Ok(m) && m@ == v,
        Err((id, code)) => r matches Err(e) && e.error.code@ == code && !e.error.retryable && match id {
            Some(s) => e.id matches Some(x) && x@ == s,
            None => e.id is None,
        },
    }
}

fn dollar_mode_exec(name: &String) -> (r: InlineDollarsV1)
    ensures
        r == dollar_mode(name@),
{
    if equals(name, "off") {
        InlineDollarsV1::Off
    } else if equals(name, "smart") {
        InlineDollarsV1::Smart
    } else {
        InlineDollarsV1::Always
    }
}

/// The typed parameters of a request, when the tree has the parameters' shape.
pub fn params_of_exec(t: &JsonTree) -> (r: Option<RenderMessageParamsV1>)
    ensures
        match params_of(*t) {
            Some(p) => r matches Some(x) && x@ == p,
            None => r is None,
        },
{
    let field_names = names(&["source", "inlineDollars", "foreground", "background", "scale", "maxWidthPx"]);
    assert(names_view(field_names@) =~= params_names());
    let f = match struct_fields_exec(t, &field_names) {
        Some(f) => f,
        None => return None,
    };
    let dollar_list = names(&["off", "smart", "always"]);
    assert(names_view(dollar_list@) =~= dollar_names());
    let source = str_of_exec(f[0]);
    let dollars = variant_of_exec(f[1], &dollar_list);
    let foreground = str_of_exec(f[2]);
    let background = str_of_exec(f[3]);
    let scale = f32_field_exec(f[4]);
    let width = u32_of_exec(f[5]);
    match (source, dollars, foreground, background, scale, width) {
        (Some(source), Some(d), Some(foreground), Some(background), Some(scale), Some(max_width_px)) => {
            Some(
                RenderMessageParamsV1 {
                    source,
                    inline_dollars: dollar_mode_exec(&d),
                    foreground,
                    background,
                    scale,
                    max_width_px,
                },
            )
        },
        _ => None,
    }
}

/// The typed request, when the tree has the request's shape.
pub fn request_of_exec(t: &JsonTree) -> (r: Option<DaemonRequestV1>)
    ensures
        match request_of(*t) {
            Some(q) => r matches Some(x) && x@ == q,
            None => r is None,
        },
{
    let field_names = names(&["protocol", "id", "method", "params"]);
    assert(names_view(field_names@) =~= request_names());
    let f = match struct_fields_exec(t, &field_names) {
        Some(f) => f,
        None => return None,
    };
    let method_list = names(&["render_message"]);
    assert(names_view(method_list@) =~= method_names());
    let protocol = u32_of_exec(f[0]);
    let id = str_of_exec(f[1]);
    let method = variant_of_exec(f[2], &method_list);
    let params = params_of_exec(f[3]);
    match (protocol, id, method, params) {
        (Some(protocol), Some(id), Some(_), Some(params)) => Some(
            DaemonRequestV1 { protocol, id, method: DaemonMethodV1::RenderMessage, params },
        ),
        _ => None,
    }
}

/// Whether a text holds any control character.
fn has_control_exec(s: &str) -> (r: bool)
    ensures
        r == has_control(s@),
{
    let chars = chars_of(s);
    let mut i: usize = 0;
    while i < chars.len()
        invariant
            i <= chars@.len(),
            chars@ == s@,
            forall|j: int| 0 <= j < i ==> !spec_is_control(#[trigger] s@[j]),
        decreases chars@.len() - i,
    {
        if is_control(chars[i]) {
            return true;
        }
        i = i + 1;
    }
    false
}

/// Whether an id may be echoed back: nonempty, short, without control characters.
fn safe_id_exec(id: &String) -> (r: bool)
    ensures
        r == safe_id(id@),
{
    !id.as_str().is_empty() && byte_len(id.as_str()) <= MAX_DAEMON_ID_BYTES && !has_control_exec(id.as_str())
}

/// The correlation id of a document, when it may be echoed back.
pub fn safe_id_from_tree(t: &JsonTree) -> (r: Option<String>)
    ensures
        match safe_id_of(*t) {
            Some(s) => r matches Some(x) && x@ == s,
            None => r is None,
        },
{
    match t {
        JsonTree::Object(entries) => match find_entry(entries, "id") {
            Some(i) => match &entries[i].1 {
                JsonTree::Str(s) => if safe_id_exec(s) {
                    Some(s.clone())
                } else {
                    None
                },
                _ => None,
            },
            None => None,
        },
        _ => None,
    }
}

fn hex_val(c: char) -> (r: u8)
    requires
        spec_is_ascii_hexdigit(c),
    ensures
        r as int == hex_value(c),
        r < 16,
{
    if '0' <= c && c <= '9' {
        (c as u32 - '0' as u32) as u8
    } else if 'a' <= c && c <= 'f' {
        (c as u32 - 'a' as u32 + 10) as u8
    } else {
        (c as u32 - 'A' as u32 + 10) as u8
    }
}

/// Reads an opaque color written `#rrggbb`.
pub fn parse_color(value: &str) -> (r: Option<Rgba>)
    ensures
        r == color_of(value@),
{
    let chars = chars_of(value);
    if chars.len() != 7 || chars[0] != '#' {
        return None;
    }
    let mut i: usize = 1;
    while i < 7
        invariant
            1 <= i <= 7,
            chars@ == value@,
            chars@.len() == 7,
            forall|j: int| 1 <= j < i ==> spec_is_ascii_hexdigit(#[trigger] chars@[j]),
        decreases 7 - i,
    {
        if !is_ascii_hexdigit(chars[i]) {
            return None;
        }
        i = i + 1;
    }
    let red = hex_val(chars[1]) * 16 + hex_val(chars[2]);
    let green = hex_val(chars[3]) * 16 + hex_val(chars[4]);
    let blue = hex_val(chars[5]) * 16 + hex_val(chars[6]);
    Some(Rgba::opaque(red, green, blue))
}

/// Checks a typed request and produces the values for rendering.
pub fn validate_request(request: DaemonRequestV1) -> (r: Result<ValidatedRenderMessageV1, DaemonErrorV1>)
    ensures
        match validation_of(request@) {
            Ok(v) => r matches Ok(m) && m@ == v,
            Err(code) => r matches Err(e) && e.code@ == code && !e.retryable,
        },
{
    if request.protocol != DAEMON_PROTOCOL_VERSION {
        return Err(error("protocol", false));
    }
    if !safe_id_exec(&request.id) {
        return Err(error("invalid_request", false));
    }
    if request.params.source.as_str().is_empty() {
        return Err(error("invalid_request", false));
    }
    if byte_len(request.params.source.as_str()) > MAX_DAEMON_MESSAGE_BYTES {
        return Err(error("input_limit_exceeded", false));
    }
    if contains_unsafe_control(request.params.source.as_str()) {
        return Err(error("invalid_request", false));
    }
    let foreground = match parse_color(request.params.foreground.as_str()) {
        Some(c) => c,
        None => return Err(error("invalid_request", false)),
    };
    let background = if equals(&request.params.background, "transparent") {
        None
    } else {
        match parse_color(request.params.background.as_str()) {
            Some(c) => Some(c),
            None => return Err(error("invalid_request", false)),
        }
    };
    let validation_request = RenderRequest {
        source: owned("x"),
        display_mode: false,
        foreground,
        background,
        scale: request.params.scale,
        max_width_px: request.params.max_width_px,
    };
    proof {
        reveal_strlit("x");
        assert(utf8_len("x"@) == 1) by {
            assert(vstd::utf8::encode_utf8("x"@).len() == 1) by {
                reveal_with_fuel(vstd::utf8::encode_utf8, 2);
                assert("x"@.drop_first() =~= Seq::<char>::empty());
                assert(vstd::utf8::encode_utf8(Seq::<char>::empty()) =~= Seq::<u8>::empty());
            }
        }
        assert(!crate::request::has_unsafe_control("x"@));
    }
    let limits = RenderLimits::default();
    if validation_request.validate(&limits).is_err() {
        return Err(error("invalid_request", false));
    }
    Ok(
        ValidatedRenderMessageV1 {
            id: request.id,
            source: request.params.source,
            inline_dollars: request.params.inline_dollars,
            foreground,
            background,
            scale: request.params.scale,
            max_width_px: request.params.max_width_px,
        },
    )
}

/// Decodes a JSON document read into a tree: the typed request, then its checks.
pub fn decode_tree_v1(tree: &JsonTree) -> (r: Result<ValidatedRenderMessageV1, DecodeErrorV1>)
    ensures
        decoded_as(r, decode_of(*tree)),
{
    let id = safe_id_from_tree(tree);
    match request_of_exec(tree) {
        None => Err(DecodeErrorV1 { id, error: error("invalid_request", false) }),
        Some(request) => match validate_request(request) {
            Ok(message) => Ok(message),
            Err(e) => Err(DecodeErrorV1 { id, error: e }),
        },
    }
}

/// Decodes one request line: oversized lines are refused before anything is read,
/// malformed JSON has no correlation id, and every other document is decoded by
/// [`decode_tree_v1`].
pub fn decode_request_v1(json: &[u8]) -> (r: Result<ValidatedRenderMessageV1, DecodeErrorV1>)
    ensures
        json@.len() > MAX_DAEMON_REQUEST_LINE_BYTES ==> (r matches Err(e) && e.id is None
            && e.error.code@ == "input_limit_exceeded"@ && !e.error.retryable),
        json@.len() <= MAX_DAEMON_REQUEST_LINE_BYTES && !json_parses(json@) ==> (r matches Err(e)
            && e.id is None && e.error.code@ == "invalid_request"@ && !e.error.retryable),
        json@.len() <= MAX_DAEMON_REQUEST_LINE_BYTES && json_parses(json@) ==> exists|t: JsonTree|
            #[trigger] tree_of(t, json@, 3) && decoded_as(r, decode_of(t)),
{
    if json.len() > MAX_DAEMON_REQUEST_LINE_BYTES {
        return Err(DecodeErrorV1 { id: None, error: error("input_limit_exceeded", false) });
    }
    let tree = match read_json(json, 3) {
        Some(t) => t,
        None => return Err(DecodeErrorV1 { id: None, error: error("invalid_request", false) }),
    };
    decode_tree_v1(&tree)
}

} // verus!
