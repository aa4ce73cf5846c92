//! Worker protocol version one: the ready handshake, response decoding, and the
//! checks made on a request before it is encoded.

use vstd::prelude::*;
use vstd::string::StrSliceExecFns;

use crate::client_config::WorkerClientConfig;
use crate::color::rgb_hex;
use crate::daemon_render::code_name;
use crate::error::{RenderError, RenderErrorCode, sanitized};
use crate::float_bits::{f32_bits_lt, f32_lt};
use crate::json::{JsonTree, json_parses, read_json, tree_of};
use crate::json_schema::{
    absent, bool_of, bool_of_exec, contains_str, entry_value, equals, f32_field, f32_field_exec,
    find_entry, keys_within, name_known, names, names_view, str_of, str_of_exec, strings_of,
    strings_of_exec, struct_fields, struct_fields_exec, u32_of, u32_of_exec, usize_of,
    usize_of_exec,
};
use crate::limits::RenderLimits;
use crate::request::RenderRequest;
use crate::result::{RenderedMath, parts_failure};
use crate::text::{owned, push_decimal, push_str};

verus! {

/// The supported worker protocol version.
pub const WORKER_PROTOCOL_VERSION: u32 = 1;

/// The longest response line read from a worker: twice the SVG limit plus one
/// request line, saturating.
pub fn response_line_limit(limits: &RenderLimits) -> (r: usize)
    ensures
        r == crate::result::saturating_sum(
            if 2 * limits.max_svg_bytes > usize::MAX { usize::MAX as int } else { 2 * limits.max_svg_bytes },
            limits.max_json_line_bytes as int,
        ),
{
    let doubled: usize = if limits.max_svg_bytes > usize::MAX / 2 {
        usize::MAX
    } else {
        limits.max_svg_bytes * 2
    };
    if doubled > usize::MAX - limits.max_json_line_bytes {
        usize::MAX
    } else {
        doubled + limits.max_json_line_bytes
    }
}

/// The resource limits a worker announces in its handshake.
#[derive(Clone, Copy, Debug, PartialEq, Eq, Structural)]
pub struct WorkerLimits {
    pub max_source_bytes: usize,
    pub max_json_line_bytes: usize,
    pub max_svg_bytes: usize,
    pub max_width_px: u32,
    pub max_height_px: u32,
    /// Single precision bit pattern.
    pub min_scale: u32,
    /// Single precision bit pattern.
    pub max_scale: u32,
}

/// A ready handshake read from its JSON document.
pub struct ReadyView {
    pub protocol: u32,
    pub kind: Seq<char>,
    pub name: Seq<char>,
    pub version: Seq<char>,
    pub formats: Seq<Seq<char>>,
    pub display_modes: Seq<Seq<char>>,
    pub limits: WorkerLimits,
}

pub open spec fn ready_names() -> Seq<Seq<char>> {
    seq!["protocol"@, "type"@, "renderer"@, "capabilities"@, "limits"@]
}

pub open spec fn renderer_names() -> Seq<Seq<char>> {
    seq!["name"@, "version"@]
}

pub open spec fn capability_names() -> Seq<Seq<char>> {
    seq!["formats"@, "displayModes"@]
}

pub open spec fn limit_names() -> Seq<Seq<char>> {
    seq![
        "maxSourceBytes"@,
        "maxJsonLineBytes"@,
        "maxSvgBytes"@,
        "maxWidthPx"@,
        "maxHeightPx"@,
        "minScale"@,
        "maxScale"@,
    ]
}

/// The limits object of a handshake.
pub open spec fn worker_limits_of(t: JsonTree) -> Option<WorkerLimits> {
    match struct_fields(t, limit_names()) {
        Some(f) => match (
            usize_of(f[0]),
            usize_of(f[1]),
            usize_of(f[2]),
            u32_of(f[3]),
            u32_of(f[4]),
            f32_field(f[5]),
            f32_field(f[6]),
        ) {
            (Some(a), Some(b), Some(c), Some(d), Some(e), Some(g), Some(h)) => Some(
                WorkerLimits {
                    max_source_bytes: a,
                    max_json_line_bytes: b,
                    max_svg_bytes: c,
                    max_width_px: d,
                    max_height_px: e,
                    min_scale: g,
                    max_scale: h,
                },
            ),
            _ => None,
        },
        None => None,
    }
}

/// A ready handshake document, when it has the handshake's shape.
pub open spec fn ready_of(t: JsonTree) -> Option<ReadyView> {
    match struct_fields(t, ready_names()) {
        Some(f) => match (struct_fields(f[2], renderer_names()), struct_fields(f[3], capability_names())) {
            (Some(rf), Some(cf)) => match (
                u32_of(f[0]),
                str_of(f[1]),
                str_of(rf[0]),
                str_of(rf[1]),
                strings_of(cf[0]),
                strings_of(cf[1]),
                worker_limits_of(f[4]),
            ) {
                (Some(p), Some(k), Some(n), Some(v), Some(fm), Some(dm), Some(l)) => Some(
                    ReadyView {
                        protocol: p,
                        kind: k,
                        name: n,
                        version: v,
                        formats: fm,
                        display_modes: dm,
                        limits: l,
                    },
                ),
                _ => None,
            },
            _ => None,
        },
        None => None,
    }
}

/// Whether a worker's limits cover the configured ones.
pub open spec fn limits_compatible(w: WorkerLimits, c: RenderLimits) -> bool {
    !(w.max_source_bytes < c.max_source_bytes || w.max_json_line_bytes < c.max_json_line_bytes
        || w.max_svg_bytes < c.max_svg_bytes || w.max_width_px < c.max_width_px || w.max_height_px
        < c.max_height_px || f32_lt(c.min_scale, w.min_scale) || f32_lt(w.max_scale, c.max_scale))
}

/// The outcome of a handshake document for the expected renderer: its version, or
/// the protocol failure message.
pub open spec fn ready_outcome(t: JsonTree, name: Seq<char>, version: Seq<char>, limits: RenderLimits) -> Result<
    Seq<char>,
    Seq<char>,
> {
    match ready_of(t) {
        None => Err("Worker ready handshake is malformed"@),
        Some(r) => if r.protocol != WORKER_PROTOCOL_VERSION || r.kind != "ready"@ {
            Err("Worker protocol version or message type is incompatible"@)
        } else if r.name != name || r.version != version {
            Err("Worker renderer name or version is incompatible"@)
        } else if !r.formats.contains("svg"@) || !r.display_modes.contains("inline"@)
            || !r.display_modes.contains("display"@) {
            Err("Worker does not support required render modes"@)
        } else if !limits_compatible(r.limits, limits) {
            Err("Worker resource limits are incompatible"@)
        } else {
            Ok(r.version)
        },
    }
}

/// An error of the given code, message, retry flag and position.
pub open spec fn is_error(e: RenderError, code: RenderErrorCode, message: Seq<char>, retryable: bool, position: Option<usize>) -> bool {
    e.code == code && e.message@ == sanitized(message) && e.retryable == retryable && e.position == position
}

/// A protocol failure: retryable, without a position.
pub open spec fn is_protocol_error(e: RenderError, message: Seq<char>) -> bool {
    is_error(e, RenderErrorCode::Protocol, message, true, None)
}

/// A handshake result that reports exactly the outcome.
pub open spec fn ready_reports(r: Result<String, RenderError>, o: Result<Seq<char>, Seq<char>>) -> bool {
    match o {
        Ok(v) => r matches Ok(s) && s@ == v,
        Err(m) => r matches Err(e) && is_protocol_error(e, m),
    }
}

fn protocol_error(message: &str) -> (r: RenderError)
    ensures
        is_protocol_error(r, message@),
{
    RenderError::new(RenderErrorCode::Protocol, message, true)
}

/// Reads the limits object of a handshake.
pub fn worker_limits_exec(t: &JsonTree) -> (r: Option<WorkerLimits>)
    ensures
        r == worker_limits_of(*t),
{
    let list = names(
        &["maxSourceBytes", "maxJsonLineBytes", "maxSvgBytes", "maxWidthPx", "maxHeightPx", "minScale", "maxScale"],
    );
    proof {
        reveal_strlit("maxSourceBytes");
        reveal_strlit("maxJsonLineBytes");
        reveal_strlit("maxSvgBytes");
        reveal_strlit("maxWidthPx");
        reveal_strlit("maxHeightPx");
        reveal_strlit("minScale");
        reveal_strlit("maxScale");
        assert(names_view(list@) =~= limit_names());
    }
    let f = struct_fields_exec(t, &list)?;
    let a = usize_of_exec(f[0])?;
    let b = usize_of_exec(f[1])?;
    let c = usize_of_exec(f[2])?;
    let d = u32_of_exec(f[3])?;
    let e = u32_of_exec(f[4])?;
    let g = f32_field_exec(f[5])?;
    let h = f32_field_exec(f[6])?;
    Some(
        WorkerLimits {
            max_source_bytes: a,
            max_json_line_bytes: b,
            max_svg_bytes: c,
            max_width_px: d,
            max_height_px: e,
            min_scale: g,
            max_scale: h,
        },
    )
}

/// Checks a worker's announced limits against the configured ones.
pub fn validate_worker_limits(worker: &WorkerLimits, configured: &RenderLimits) -> (r: Result<(), RenderError>)
    ensures
        limits_compatible(*worker, *configured) ==> r is Ok,
        !limits_compatible(*worker, *configured) ==> (r matches Err(e) && is_protocol_error(
            e,
            "Worker resource limits are incompatible"@,
        )),
{
    if worker.max_source_bytes < configured.max_source_bytes || worker.max_json_line_bytes
        < configured.max_json_line_bytes || worker.max_svg_bytes < configured.max_svg_bytes
        || worker.max_width_px < configured.max_width_px || worker.max_height_px < configured.max_height_px
        || f32_bits_lt(configured.min_scale, worker.min_scale) || f32_bits_lt(
        worker.max_scale,
        configured.max_scale,
    ) {
        return Err(protocol_error("Worker resource limits are incompatible"));
    }
    Ok(())
}

/// Checks a handshake read into a tree and returns the renderer version.
pub fn decode_ready_tree(t: &JsonTree, config: &WorkerClientConfig) -> (r: Result<String, RenderError>)
    ensures
        ready_reports(
            r,
            ready_outcome(
                *t,
                config.expected_renderer_name@,
                config.expected_renderer_version@,
                config.render_limits,
            ),
        ),
{
    let top = names(&["protocol", "type", "renderer", "capabilities", "limits"]);
    let rn = names(&["name", "version"]);
    let cn = names(&["formats", "displayModes"]);
    proof {
        reveal_strlit("protocol");
        reveal_strlit("type");
        reveal_strlit("renderer");
        reveal_strlit("capabilities");
        reveal_strlit("limits");
        reveal_strlit("name");
        reveal_strlit("version");
        reveal_strlit("formats");
        reveal_strlit("displayModes");
        assert(names_view(top@) =~= ready_names());
        assert(names_view(rn@) =~= renderer_names());
        assert(names_view(cn@) =~= capability_names());
    }
    let malformed = "Worker ready handshake is malformed";
    let f = match struct_fields_exec(t, &top) {
        Some(f) => f,
        None => return Err(protocol_error(malformed)),
    };
    let rf = match struct_fields_exec(f[2], &rn) {
        Some(x) => x,
        None => return Err(protocol_error(malformed)),
    };
    let cf = match struct_fields_exec(f[3], &cn) {
        Some(x) => x,
        None => return Err(protocol_error(malformed)),
    };
    let (protocol, kind, name, version, formats, modes, limits) = match (
        u32_of_exec(f[0]),
        str_of_exec(f[1]),
        str_of_exec(rf[0]),
        str_of_exec(rf[1]),
        strings_of_exec(cf[0]),
        strings_of_exec(cf[1]),
        worker_limits_exec(f[4]),
    ) {
        (Some(p), Some(k), Some(n), Some(v), Some(fm), Some(dm), Some(l)) => (p, k, n, v, fm, dm, l),
        _ => return Err(protocol_error(malformed)),
    };
    let ghost ready = ready_of(*t)->0;
    assert(formats@.map_values(|s: String| s@) =~= ready.formats);
    assert(modes@.map_values(|s: String| s@) =~= ready.display_modes);
    if protocol != WORKER_PROTOCOL_VERSION || !equals(&kind, "ready") {
        return Err(protocol_error("Worker protocol version or message type is incompatible"));
    }
    if !equals_string(&name, &config.expected_renderer_name) || !equals_string(
        &version,
        &config.expected_renderer_version,
    ) {
        return Err(protocol_error("Worker renderer name or version is incompatible"));
    }
    let has_svg = contains_str(&formats, "svg");
    let has_inline = contains_str(&modes, "inline");
    let has_display = contains_str(&modes, "display");
    proof {
        lemma_contains_view(formats@, "svg"@);
        lemma_contains_view(modes@, "inline"@);
        lemma_contains_view(modes@, "display"@);
    }
    if !has_svg || !has_inline || !has_display {
        return Err(protocol_error("Worker does not support required render modes"));
    }
    validate_worker_limits(&limits, &config.render_limits)?;
    Ok(version)
}

proof fn lemma_contains_view(list: Seq<String>, lit: Seq<char>)
    ensures
        list.map_values(|s: String| s@).contains(lit) == exists|i: int| 0 <= i < list.len() && #[trigger] list[i]@ == lit,
{
    let v = list.map_values(|s: String| s@);
    if v.contains(lit) {
        let i = choose|i: int| 0 <= i < v.len() && v[i] == lit;
        assert(list[i]@ == lit);
    }
    if exists|i: int| 0 <= i < list.len() && #[trigger] list[i]@ == lit {
        let i = choose|i: int| 0 <= i < list.len() && #[trigger] list[i]@ == lit;
        assert(v[i] == lit);
    }
}

fn equals_string(a: &String, b: &String) -> (r: bool)
    ensures
        r == (a@ == b@),
{
    equals(a, b.as_str())
}

/// Checks a ready handshake line and returns the renderer version. A line that is
/// not JSON is malformed; any other document is judged by [`decode_ready_tree`].
pub fn decode_ready(line: &[u8], config: &WorkerClientConfig) -> (r: Result<String, RenderError>)
    ensures
        !json_parses(line@) ==> (r matches Err(e) && is_protocol_error(e, "Worker ready handshake is malformed"@)),
        json_parses(line@) ==> exists|t: JsonTree|
            #[trigger] tree_of(t, line@, 4) && ready_reports(
                r,
                ready_outcome(
                    t,
                    config.expected_renderer_name@,
                    config.expected_renderer_version@,
                    config.render_limits,
                ),
            ),
{
    let tree = match read_json(line, 4) {
        Some(t) => t,
        None => return Err(protocol_error("Worker ready handshake is malformed")),
    };
    decode_ready_tree(&tree, config)
}

/// The result part of a successful response.
pub struct ResultView {
    pub svg: Seq<char>,
    pub width_px: u32,
    pub height_px: u32,
    /// Single precision bit pattern.
    pub baseline_px: u32,
    pub accessibility_text: Seq<char>,
}

/// The error part of a failed response.
pub struct ErrorView {
    pub code: Seq<char>,
    pub message: Seq<char>,
    pub retryable: bool,
    pub position: Option<usize>,
}

/// A response read from its JSON document.
pub struct ResponseView {
    pub protocol: u32,
    pub id: Option<Seq<char>>,
    pub ok: bool,
    pub result: Option<ResultView>,
    pub error: Option<ErrorView>,
}

pub open spec fn result_names() -> Seq<Seq<char>> {
    seq!["svgUtf8"@, "widthPx"@, "heightPx"@, "baselinePx"@, "accessibilityText"@]
}

pub open spec fn error_names() -> Seq<Seq<char>> {
    seq!["code"@, "message"@, "retryable"@, "position"@]
}

pub open spec fn response_names() -> Seq<Seq<char>> {
    seq!["protocol"@, "id"@, "ok"@, "result"@, "error"@]
}

/// The result object of a response.
pub open spec fn result_of(t: JsonTree) -> Option<ResultView> {
    match struct_fields(t, result_names()) {
        Some(f) => match (str_of(f[0]), u32_of(f[1]), u32_of(f[2]), f32_field(f[3]), str_of(f[4])) {
            (Some(svg), Some(w), Some(h), Some(b), Some(a)) => Some(
                ResultView { svg, width_px: w, height_px: h, baseline_px: b, accessibility_text: a },
            ),
            _ => None,
        },
        None => None,
    }
}

/// An optional position: absent or null, or a size.
pub open spec fn position_of(t: Option<JsonTree>) -> Option<Option<usize>> {
    if absent(t) {
        Some(None)
    } else {
        match usize_of(t->0) {
            Some(p) => Some(Some(p)),
            None => None,
        }
    }
}

/// The error object of a response; its position may be left out of the object form.
pub open spec fn error_of(t: JsonTree) -> Option<ErrorView> {
    let parts: Option<(JsonTree, JsonTree, JsonTree, Option<JsonTree>)> = match t {
        JsonTree::Object(entries) => if keys_within(entries@, error_names()) && entry_value(
            entries@,
            "code"@,
        ) is Some && entry_value(entries@, "message"@) is Some && entry_value(entries@, "retryable"@) is Some {
            Some(
                (
                    entry_value(entries@, "code"@)->0,
                    entry_value(entries@, "message"@)->0,
                    entry_value(entries@, "retryable"@)->0,
                    entry_value(entries@, "position"@),
                ),
            )
        } else {
            None
        },
        JsonTree::Array(items) => if items@.len() == 4 {
            Some((items@[0], items@[1], items@[2], Some(items@[3])))
        } else {
            None
        },
        _ => None,
    };
    match parts {
        Some((c, m, r, p)) => match (str_of(c), str_of(m), bool_of(r), position_of(p)) {
            (Some(code), Some(message), Some(retryable), Some(position)) => Some(
                ErrorView { code, message, retryable, position },
            ),
            _ => None,
        },
        None => None,
    }
}

/// The five parts of a response: the identifier may be left out of the object form,
/// and the result and error may be left out of either form.
pub open spec fn response_parts(t: JsonTree) -> Option<(JsonTree, Option<JsonTree>, JsonTree, Option<JsonTree>, Option<JsonTree>)> {
    match t {
        JsonTree::Object(entries) => if keys_within(entries@, response_names()) && entry_value(
            entries@,
            "protocol"@,
        ) is Some && entry_value(entries@, "ok"@) is Some {
            Some(
                (
                    entry_value(entries@, "protocol"@)->0,
                    entry_value(entries@, "id"@),
                    entry_value(entries@, "ok"@)->0,
                    entry_value(entries@, "result"@),
                    entry_value(entries@, "error"@),
                ),
            )
        } else {
            None
        },
        JsonTree::Array(items) => if 3 <= items@.len() <= 5 {
            Some(
                (
                    items@[0],
                    Some(items@[1]),
                    items@[2],
                    if items@.len() > 3 { Some(items@[3]) } else { None },
                    if items@.len() > 4 { Some(items@[4]) } else { None },
                ),
            )
        } else {
            None
        },
        _ => None,
    }
}

/// A response document, when it has the response's shape.
pub open spec fn response_of(t: JsonTree) -> Option<ResponseView> {
    match response_parts(t) {
        Some((p, id, ok, res, err)) => {
            let id_value: Option<Option<Seq<char>>> = if absent(id) {
                Some(None)
            } else {
                match str_of(id->0) {
                    Some(s) => Some(Some(s)),
                    None => None,
                }
            };
            let result_value: Option<Option<ResultView>> = if absent(res) {
                Some(None)
            } else {
                match result_of(res->0) {
                    Some(v) => Some(Some(v)),
                    None => None,
                }
            };
            let error_value: Option<Option<ErrorView>> = if absent(err) {
                Some(None)
            } else {
                match error_of(err->0) {
                    Some(v) => Some(Some(v)),
                    None => None,
                }
            };
            match (u32_of(p), id_value, bool_of(ok), result_value, error_value) {
                (Some(protocol), Some(i), Some(o), Some(r), Some(e)) => Some(
                    ResponseView { protocol, id: i, ok: o, result: r, error: e },
                ),
                _ => None,
            }
        },
        None => None,
    }
}

/// The public code of a worker error name; unknown names are protocol failures.
pub open spec fn worker_code(name: Seq<char>) -> RenderErrorCode {
    if name == "INVALID_REQUEST"@ {
        RenderErrorCode::InvalidRequest
    } else if name == "INVALID_TEX"@ {
        RenderErrorCode::InvalidTex
    } else if name == "INPUT_LIMIT_EXCEEDED"@ {
        RenderErrorCode::InputLimitExceeded
    } else if name == "OUTPUT_LIMIT_EXCEEDED"@ {
        RenderErrorCode::OutputLimitExceeded
    } else if name == "RENDER_FAILED"@ {
        RenderErrorCode::RenderFailed
    } else {
        RenderErrorCode::Protocol
    }
}

/// A failure as its code, message, retry flag and position.
pub struct FailureView {
    pub code: RenderErrorCode,
    pub message: Seq<char>,
    pub retryable: bool,
    pub position: Option<usize>,
}

pub open spec fn protocol_failure(message: Seq<char>) -> FailureView {
    FailureView { code: RenderErrorCode::Protocol, message, retryable: true, position: None }
}

/// Whether a render result carries exactly the values of a response result.
pub open spec fn rendered_from(m: RenderedMath, v: ResultView, cache_key: Seq<char>) -> bool {
    &&& m.svg@ == vstd::utf8::encode_utf8(v.svg)
    &&& m.width_px == v.width_px
    &&& m.height_px == v.height_px
    &&& m.baseline_px == Some(v.baseline_px)
    &&& m.accessibility_text@ == v.accessibility_text
    &&& m.cache_key@ == cache_key
}

/// The outcome of a response document for the expected correlation id: the result
/// when it is a valid success, or the failure.
pub open spec fn response_outcome(t: JsonTree, expected_id: Seq<char>, limits: RenderLimits, cache_key: Seq<char>) -> Result<ResultView, FailureView> {
    match response_of(t) {
        None => Err(protocol_failure("Worker response is malformed"@)),
        Some(r) => if r.protocol != WORKER_PROTOCOL_VERSION || r.id != Some(expected_id) {
            Err(protocol_failure("Worker response correlation is invalid"@))
        } else {
            match (r.ok, r.result, r.error) {
                (true, Some(v), None) => if result_valid(v, cache_key, limits) {
                    Ok(v)
                } else {
                    Err(
                        FailureView {
                            code: RenderErrorCode::UnsafeOutput,
                            message: "Worker returned invalid render output"@,
                            retryable: false,
                            position: None,
                        },
                    )
                },
                (false, None, Some(e)) => Err(
                    FailureView { code: worker_code(e.code), message: e.message, retryable: e.retryable, position: e.position },
                ),
                _ => Err(protocol_failure("Worker response success shape is inconsistent"@)),
            }
        },
    }
}

/// Whether the render result a response describes satisfies the result contract.
pub open spec fn result_valid(v: ResultView, cache_key: Seq<char>, limits: RenderLimits) -> bool {
    parts_failure(
        vstd::utf8::encode_utf8(v.svg),
        v.width_px,
        v.height_px,
        Some(v.baseline_px),
        v.accessibility_text,
        cache_key,
        limits,
    ) is None
}

/// A response result that reports exactly the outcome.
pub open spec fn response_reports(r: Result<RenderedMath, RenderError>, o: Result<ResultView, FailureView>, cache_key: Seq<char>) -> bool {
    match o {
        Ok(v) => r matches Ok(m) && rendered_from(m, v, cache_key),
        Err(f) => r matches Err(e) && is_error(e, f.code, f.message, f.retryable, f.position),
    }
}

/// The result part of a successful response.
pub struct ResponseResult {
    pub svg_utf8: String,
    pub width_px: u32,
    pub height_px: u32,
    /// Single precision bit pattern.
    pub baseline_px: u32,
    pub accessibility_text: String,
}

/// The error part of a failed response.
pub struct ResponseError {
    pub code: String,
    pub message: String,
    pub retryable: bool,
    pub position: Option<usize>,
}

/// A decoded response.
pub struct ResponseEnvelope {
    pub protocol: u32,
    pub id: Option<String>,
    pub ok: bool,
    pub result: Option<ResponseResult>,
    pub error: Option<ResponseError>,
}

impl View for ResponseResult {
    type V = ResultView;

    open spec fn view(&self) -> ResultView {
        ResultView {
            svg: self.svg_utf8@,
            width_px: self.width_px,
            height_px: self.height_px,
            baseline_px: self.baseline_px,
            accessibility_text: self.accessibility_text@,
        }
    }
}

impl View for ResponseError {
    type V = ErrorView;

    open spec fn view(&self) -> ErrorView {
        ErrorView { code: self.code@, message: self.message@, retryable: self.retryable, position: self.position }
    }
}

impl View for ResponseEnvelope {
    type V = ResponseView;

    open spec fn view(&self) -> ResponseView {
        ResponseView {
            protocol: self.protocol,
            id: match self.id {
                Some(s) => Some(s@),
                None => None,
            },
            ok: self.ok,
            result: match self.result {
                Some(x) => Some(x@),
                None => None,
            },
            error: match self.error {
                Some(x) => Some(x@),
                None => None,
            },
        }
    }
}

fn is_absent(t: Option<&JsonTree>) -> (r: bool)
    ensures
        r == absent(
            match t {
                Some(x) => Some(*x),
                None => None,
            },
        ),
{
    match t {
        None => true,
        Some(JsonTree::Null) => true,
        Some(_) => false,
    }
}

pub open spec fn deref_opt(t: Option<&JsonTree>) -> Option<JsonTree> {
    match t {
        Some(x) => Some(*x),
        None => None,
    }
}

/// Reads the result object of a response.
pub fn result_of_exec(t: &JsonTree) -> (r: Option<ResponseResult>)
    ensures
        match result_of(*t) {
            Some(v) => r matches Some(x) && x@ == v,
            None => r is None,
        },
{
    let list = names(&["svgUtf8", "widthPx", "heightPx", "baselinePx", "accessibilityText"]);
    proof {
        reveal_strlit("svgUtf8");
        reveal_strlit("widthPx");
        reveal_strlit("heightPx");
        reveal_strlit("baselinePx");
        reveal_strlit("accessibilityText");
        assert(names_view(list@) =~= result_names());
    }
    let f = struct_fields_exec(t, &list)?;
    match (str_of_exec(f[0]), u32_of_exec(f[1]), u32_of_exec(f[2]), f32_field_exec(f[3]), str_of_exec(f[4])) {
        (Some(svg), Some(w), Some(h), Some(b), Some(a)) => Some(
            ResponseResult { svg_utf8: svg, width_px: w, height_px: h, baseline_px: b, accessibility_text: a },
        ),
        _ => None,
    }
}

fn position_exec(t: Option<&JsonTree>) -> (r: Option<Option<usize>>)
    ensures
        r == position_of(deref_opt(t)),
{
    if is_absent(t) {
        Some(None)
    } else {
        match t {
            Some(x) => match usize_of_exec(x) {
                Some(p) => Some(Some(p)),
                None => None,
            },
            None => Some(None),
        }
    }
}

fn entry_ref<'a>(entries: &'a Vec<(String, JsonTree)>, key: &str) -> (r: Option<&'a JsonTree>)
    ensures
        deref_opt(r) == entry_value(entries@, key@),
{
    match find_entry(entries, key) {
        Some(i) => Some(&entries[i].1),
        None => None,
    }
}

fn keys_known(entries: &Vec<(String, JsonTree)>, list: &Vec<&str>) -> (r: bool)
    ensures
        r == keys_within(entries@, names_view(list@)),
{
    let mut i: usize = 0;
    while i < entries.len()
        invariant
            i <= entries@.len(),
            forall|j: int| 0 <= j < i ==> names_view(list@).contains(#[trigger] entries@[j].0@),
        decreases entries@.len() - i,
    {
        if !name_known(list, &entries[i].0) {
            return false;
        }
        i = i + 1;
    }
    true
}

/// Reads the error object of a response.
pub fn error_of_exec(t: &JsonTree) -> (r: Option<ResponseError>)
    ensures
        match error_of(*t) {
            Some(v) => r matches Some(x) && x@ == v,
            None => r is None,
        },
{
    let list = names(&["code", "message", "retryable", "position"]);
    proof {
        reveal_strlit("code");
        reveal_strlit("message");
        reveal_strlit("retryable");
        reveal_strlit("position");
        assert(names_view(list@) =~= error_names());
    }
    let (c, m, rt, p) = match t {
        JsonTree::Object(entries) => {
            if !keys_known(entries, &list) {
                return None;
            }
            let c = entry_ref(entries, "code");
            let m = entry_ref(entries, "message");
            let rt = entry_ref(entries, "retryable");
            match (c, m, rt) {
                (Some(c), Some(m), Some(rt)) => (c, m, rt, entry_ref(entries, "position")),
                _ => return None,
            }
        },
        JsonTree::Array(items) => {
            if items.len() != 4 {
                return None;
            }
            (&items[0], &items[1], &items[2], Some(&items[3]))
        },
        _ => return None,
    };
    match (str_of_exec(c), str_of_exec(m), bool_of_exec(rt), position_exec(p)) {
        (Some(code), Some(message), Some(retryable), Some(position)) => Some(
            ResponseError { code, message, retryable, position },
        ),
        _ => None,
    }
}

/// Reads a response document.
pub fn response_of_exec(t: &JsonTree) -> (r: Option<ResponseEnvelope>)
    ensures
        match response_of(*t) {
            Some(v) => r matches Some(x) && x@ == v,
            None => r is None,
        },
{
    let list = names(&["protocol", "id", "ok", "result", "error"]);
    proof {
        reveal_strlit("protocol");
        reveal_strlit("id");
        reveal_strlit("ok");
        reveal_strlit("result");
        reveal_strlit("error");
        assert(names_view(list@) =~= response_names());
    }
    let (p, id, ok, res, err) = match t {
        JsonTree::Object(entries) => {
            if !keys_known(entries, &list) {
                return None;
            }
            let p = entry_ref(entries, "protocol");
            let ok = entry_ref(entries, "ok");
            match (p, ok) {
                (Some(p), Some(ok)) => (
                    p,
                    entry_ref(entries, "id"),
                    ok,
                    entry_ref(entries, "result"),
                    entry_ref(entries, "error"),
                ),
                _ => return None,
            }
        },
        JsonTree::Array(items) => {
            if items.len() < 3 || items.len() > 5 {
                return None;
            }
            let res = if items.len() > 3 { Some(&items[3]) } else { None };
            let err = if items.len() > 4 { Some(&items[4]) } else { None };
            (&items[0], Some(&items[1]), &items[2], res, err)
        },
        _ => return None,
    };
    assert(response_parts(*t) == Some((*p, deref_opt(id), *ok, deref_opt(res), deref_opt(err))));
    let id_value: Option<String> = if is_absent(id) {
        None
    } else {
        match id {
            Some(x) => Some(str_of_exec(x)?),
            None => None,
        }
    };
    let result_value: Option<ResponseResult> = if is_absent(res) {
        None
    } else {
        match res {
            Some(x) => Some(result_of_exec(x)?),
            None => None,
        }
    };
    let error_value: Option<ResponseError> = if is_absent(err) {
        None
    } else {
        match err {
            Some(x) => Some(error_of_exec(x)?),
            None => None,
        }
    };
    let protocol = u32_of_exec(p)?;
    let ok_value = bool_of_exec(ok)?;
    Some(ResponseEnvelope { protocol, id: id_value, ok: ok_value, result: result_value, error: error_value })
}

/// Maps a worker error to its public form: known names keep their category, every
/// other name is a protocol failure; control characters of the message are replaced.
pub fn map_worker_error(error: ResponseError) -> (r: RenderError)
    ensures
        is_error(r, worker_code(error.code@), error.message@, error.retryable, error.position),
{
    let code = if equals(&error.code, "INVALID_REQUEST") {
        RenderErrorCode::InvalidRequest
    } else if equals(&error.code, "INVALID_TEX") {
        RenderErrorCode::InvalidTex
    } else if equals(&error.code, "INPUT_LIMIT_EXCEEDED") {
        RenderErrorCode::InputLimitExceeded
    } else if equals(&error.code, "OUTPUT_LIMIT_EXCEEDED") {
        RenderErrorCode::OutputLimitExceeded
    } else if equals(&error.code, "RENDER_FAILED") {
        RenderErrorCode::RenderFailed
    } else {
        RenderErrorCode::Protocol
    };
    let mut mapped = RenderError::new(code, error.message.as_str(), error.retryable);
    mapped.position = error.position;
    mapped
}

fn id_matches(id: &Option<String>, expected: &str) -> (r: bool)
    ensures
        r == (match id {
            Some(s) => Some(s@),
            None => None,
        } == Some(expected@)),
{
    match id {
        Some(s) => equals(s, expected),
        None => false,
    }
}

/// Checks a response read into a tree against the expected correlation id and the
/// result contract.
pub fn decode_response_tree(t: &JsonTree, expected_id: &str, cache_key: String, limits: &RenderLimits) -> (r: Result<RenderedMath, RenderError>)
    ensures
        response_reports(r, response_outcome(*t, expected_id@, *limits, cache_key@), cache_key@),
{
    let response = match response_of_exec(t) {
        Some(x) => x,
        None => return Err(protocol_error("Worker response is malformed")),
    };
    if response.protocol != WORKER_PROTOCOL_VERSION || !id_matches(&response.id, expected_id) {
        return Err(protocol_error("Worker response correlation is invalid"));
    }
    match (response.ok, response.result, response.error) {
        (true, Some(result), None) => {
            let rendered = RenderedMath {
                svg: result.svg_utf8.as_str().as_bytes_vec(),
                width_px: result.width_px,
                height_px: result.height_px,
                baseline_px: Some(result.baseline_px),
                accessibility_text: result.accessibility_text,
                cache_key,
            };
            match rendered.validate(limits) {
                Ok(()) => Ok(rendered),
                Err(_) => Err(
                    RenderError::new(RenderErrorCode::UnsafeOutput, "Worker returned invalid render output", false),
                ),
            }
        },
        (false, None, Some(error)) => Err(map_worker_error(error)),
        _ => Err(protocol_error("Worker response success shape is inconsistent")),
    }
}

/// Decodes one response line. A line that is not JSON is malformed; any other
/// document is judged by [`decode_response_tree`].
pub fn decode_response(line: &[u8], expected_id: &str, cache_key: String, limits: &RenderLimits) -> (r: Result<RenderedMath, RenderError>)
    ensures
        !json_parses(line@) ==> (r matches Err(e) && is_protocol_error(e, "Worker response is malformed"@)),
        json_parses(line@) ==> exists|t: JsonTree|
            #[trigger] tree_of(t, line@, 3) && response_reports(r, response_outcome(t, expected_id@, *limits, cache_key@), cache_key@),
{
    let tree = match read_json(line, 3) {
        Some(t) => t,
        None => return Err(protocol_error("Worker response is malformed")),
    };
    decode_response_tree(&tree, expected_id, cache_key, limits)
}

/// The wire colors of a request: the foreground as `#rrggbb`, and the background as
/// `#rrggbb` or `transparent`; or the invalid request failure message.
pub open spec fn wire_colors(r: RenderRequest) -> Result<(Seq<char>, Seq<char>), Seq<char>> {
    if r.foreground.alpha != 255 {
        Err("Foreground must be fully opaque for the MathJax worker"@)
    } else {
        match r.background {
            None => Ok((rgb_hex(r.foreground), "transparent"@)),
            Some(c) => if c.alpha == 0 {
                Ok((rgb_hex(r.foreground), "transparent"@))
            } else if c.alpha == 255 {
                Ok((rgb_hex(r.foreground), rgb_hex(c)))
            } else {
                Err("Background must be fully opaque or transparent for the MathJax worker"@)
            },
        }
    }
}

/// Computes the wire colors of a request before it is encoded.
pub fn request_colors(request: &RenderRequest) -> (r: Result<(String, String), RenderError>)
    ensures
        match wire_colors(*request) {
            Ok((f, b)) => r matches Ok((x, y)) && x@ == f && y@ == b,
            Err(m) => r matches Err(e) && is_error(e, RenderErrorCode::InvalidRequest, m, false, None),
        },
{
    let foreground = match request.foreground.to_rgb_hex() {
        Some(f) => f,
        None => {
            return Err(
                RenderError::new(
                    RenderErrorCode::InvalidRequest,
                    "Foreground must be fully opaque for the MathJax worker",
                    false,
                ),
            )
        },
    };
    let background = match request.background {
        None => owned("transparent"),
        Some(color) => if color.is_transparent() {
            owned("transparent")
        } else {
            match color.to_rgb_hex() {
                Some(b) => b,
                None => {
                    return Err(
                        RenderError::new(
                            RenderErrorCode::InvalidRequest,
                            "Background must be fully opaque or transparent for the MathJax worker",
                            false,
                        ),
                    )
                },
            }
        },
    };
    Ok((foreground, background))
}

pub open spec fn encoded_limit_message(limit: usize) -> Seq<char> {
    "Encoded request exceeds "@ + crate::text::decimal(limit as nat) + " UTF 8 bytes"@
}

/// Accepts an encoded request line that fits the line limit.
pub fn check_encoded_request(bytes: Vec<u8>, limits: &RenderLimits) -> (r: Result<Vec<u8>, RenderError>)
    ensures
        bytes@.len() <= limits.max_json_line_bytes ==> r == Ok::<Vec<u8>, RenderError>(bytes),
        bytes@.len() > limits.max_json_line_bytes ==> (r matches Err(e) && is_error(
            e,
            RenderErrorCode::InputLimitExceeded,
            encoded_limit_message(limits.max_json_line_bytes),
            false,
            None,
        )),
{
    if bytes.len() > limits.max_json_line_bytes {
        let mut m = owned("Encoded request exceeds ");
        push_decimal(&mut m, limits.max_json_line_bytes as u64);
        push_str(&mut m, " UTF 8 bytes");
        return Err(RenderError::new(RenderErrorCode::InputLimitExceeded, m.as_str(), false));
    }
    Ok(bytes)
}

/// A response is accepted only when it answers the expected request with a valid
/// result of protocol version one, and nothing else is reported with it.
pub proof fn law_accepted_responses_are_correlated(t: JsonTree, expected_id: Seq<char>, limits: RenderLimits, cache_key: Seq<char>)
    ensures
        response_outcome(t, expected_id, limits, cache_key) matches Ok(v) ==> (response_of(t) matches Some(r) && r.protocol
            == WORKER_PROTOCOL_VERSION && r.id == Some(expected_id) && r.ok && r.error is None && r.result == Some(v)
            && result_valid(v, cache_key, limits)),
{
}

/// The ASCII upper-case form of a character.
pub open spec fn ascii_upper(c: char) -> char {
    if 'a' <= c && c <= 'z' {
        ((c as u32) - 32) as char
    } else {
        c
    }
}

/// Whether the worker reports failures under this code.
pub open spec fn worker_reported(code: RenderErrorCode) -> bool {
    code == RenderErrorCode::InvalidRequest || code == RenderErrorCode::InvalidTex || code
        == RenderErrorCode::InputLimitExceeded || code == RenderErrorCode::OutputLimitExceeded
        || code == RenderErrorCode::RenderFailed
}

/// The worker's name for a code: the code's wire name in upper case.
pub open spec fn worker_name(code: RenderErrorCode) -> Seq<char> {
    code_name(code).map_values(|c: char| ascii_upper(c))
}

/// Each error name that the worker reports maps to the public code of the same name.
pub proof fn law_worker_names_keep_their_code(code: RenderErrorCode)
    requires
        worker_reported(code),
    ensures
        worker_code(worker_name(code)) == code,
{
    reveal_strlit("invalid_request");
    reveal_strlit("invalid_tex");
    reveal_strlit("input_limit_exceeded");
    reveal_strlit("output_limit_exceeded");
    reveal_strlit("render_failed");
    reveal_strlit("INVALID_REQUEST");
    reveal_strlit("INVALID_TEX");
    reveal_strlit("INPUT_LIMIT_EXCEEDED");
    reveal_strlit("OUTPUT_LIMIT_EXCEEDED");
    reveal_strlit("RENDER_FAILED");
    match code {
        RenderErrorCode::InvalidRequest => {
            assert(worker_name(code) =~= "INVALID_REQUEST"@);
        },
        RenderErrorCode::InvalidTex => {
            assert(worker_name(code) =~= "INVALID_TEX"@);
        },
        RenderErrorCode::InputLimitExceeded => {
            assert(worker_name(code) =~= "INPUT_LIMIT_EXCEEDED"@);
        },
        RenderErrorCode::OutputLimitExceeded => {
            assert(worker_name(code) =~= "OUTPUT_LIMIT_EXCEEDED"@);
        },
        RenderErrorCode::RenderFailed => {
            assert(worker_name(code) =~= "RENDER_FAILED"@);
        },
        _ => {},
    }
}

/// A worker error name is a protocol failure exactly when it is the name of none of
/// the codes that the worker reports.
pub proof fn law_unknown_worker_names_are_protocol(name: Seq<char>)
    ensures
        worker_code(name) == RenderErrorCode::Protocol <==> (forall|code: RenderErrorCode|
            worker_reported(code) ==> name != #[trigger] worker_name(code)),
{
    law_worker_names_keep_their_code(RenderErrorCode::InvalidRequest);
    law_worker_names_keep_their_code(RenderErrorCode::InvalidTex);
    law_worker_names_keep_their_code(RenderErrorCode::InputLimitExceeded);
    law_worker_names_keep_their_code(RenderErrorCode::OutputLimitExceeded);
    law_worker_names_keep_their_code(RenderErrorCode::RenderFailed);
    if worker_code(name) != RenderErrorCode::Protocol {
        assert(worker_reported(worker_code(name)));
        assert(name == worker_name(worker_code(name)));
    }
}

} // verus!
