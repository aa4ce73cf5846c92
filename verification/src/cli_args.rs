//! Strict argument parsing for the standalone commands.

use vstd::prelude::*;
use vstd::utf8::encode_utf8;

use crate::cli_error::{CliError, CliErrorKind};
use crate::color::Rgba;
use crate::daemon_protocol::hex_value;
use crate::float_bits::{f32_bits_is_finite, f32_bits_lt};
use crate::limits::{MAX_SCALE, MAX_WIDTH_PX, MIN_SCALE, default_render_limits};
use crate::request::scale_in_limits;
use crate::text::{owned, push_str, spec_is_ascii_hexdigit};

verus! {

/// Top level help.
pub const ROOT_HELP: &'static str = "Codex LaTeX renderer\n\nUsage:\n  latex-render render [OPTIONS] [SOURCE]\n  latex-render check [OPTIONS]\n  latex-render doctor [OPTIONS]\n\nCommands:\n  render  Render one TeX math fragment to SVG or PNG\n  check   Validate the worker and native rendering pipeline\n  doctor  Diagnose rendering and terminal image support\n\nRun 'latex-render COMMAND --help' for command options.\n";

/// Help of the render command.
pub const RENDER_HELP: &'static str = "Render one TeX math fragment\n\nUsage:\n  latex-render render [OPTIONS] [SOURCE]\n\nOptions:\n  --display                 Use display math layout\n  --format svg|png          Select output format, default svg\n  --output PATH|-           Write to a file or stdout, default stdout\n  --force                   Replace an existing output file\n  --foreground #RRGGBB      Set foreground color, default #e6edf3\n  --background VALUE        Set #RRGGBB or transparent\n  --scale NUMBER            Set scale from 0.5 through 4, default 2\n  --max-width PIXELS        Set maximum width through 4096, default 1200\n  --worker PATH             Select the MathJax worker script\n  --node PROGRAM            Select the Node.js executable, default node\n  -h, --help                Show this help\n\nWhen SOURCE is absent, redirected UTF 8 stdin is used.\n";

/// Help of the check command.
pub const CHECK_HELP: &'static str = "Validate the local rendering pipeline\n\nUsage:\n  latex-render check [OPTIONS]\n\nOptions:\n  --worker PATH   Select the MathJax worker script\n  --node PROGRAM  Select the Node.js executable, default node\n  -h, --help      Show this help\n";

/// Help of the doctor command.
pub const DOCTOR_HELP: &'static str = "Diagnose rendering and terminal image support\n\nUsage:\n  latex-render doctor [OPTIONS]\n\nOptions:\n  --worker PATH   Select the MathJax worker script\n  --node PROGRAM  Select the Node.js executable, default node\n  -h, --help      Show this help\n";

/// One command line argument: its text when it is valid UTF 8, its raw bytes, and the
/// single precision bit pattern of its numeric reading (`str::parse::<f32>`) when it has one.
pub struct CliArg {
    pub text: Option<String>,
    pub raw: Vec<u8>,
    pub f32_bits: Option<u32>,
}

pub struct ArgView {
    pub text: Option<Seq<char>>,
    pub raw: Seq<u8>,
    pub f32_bits: Option<u32>,
}

pub open spec fn opt_chars(o: Option<String>) -> Option<Seq<char>> {
    match o {
        Some(s) => Some(s@),
        None => None,
    }
}

pub open spec fn opt_bytes(o: Option<Vec<u8>>) -> Option<Seq<u8>> {
    match o {
        Some(v) => Some(v@),
        None => None,
    }
}

impl View for CliArg {
    type V = ArgView;

    open spec fn view(&self) -> ArgView {
        ArgView { text: opt_chars(self.text), raw: self.raw@, f32_bits: self.f32_bits }
    }
}

/// The output format of a rendering.
#[derive(Clone, Copy, Debug, PartialEq, Eq, Structural)]
pub enum OutputFormat {
    Svg,
    Png,
}

/// How to find and run the worker.
#[derive(Clone, Debug, PartialEq, Eq)]
pub struct WorkerOptions {
    pub worker: Option<Vec<u8>>,
    pub node: Vec<u8>,
}

/// Options of the render command.
#[derive(Clone, Debug, PartialEq)]
pub struct RenderOptions {
    pub source: Option<String>,
    pub display_mode: bool,
    pub format: OutputFormat,
    pub output: Option<Vec<u8>>,
    pub force: bool,
    pub foreground: Rgba,
    pub background: Option<Rgba>,
    /// Requested scale (single precision bit pattern).
    pub scale: u32,
    pub max_width_px: u32,
    pub worker: WorkerOptions,
}

/// A parsed command.
#[derive(Clone, Debug, PartialEq)]
pub enum CliCommand {
    Render(RenderOptions),
    Check(WorkerOptions),
    Doctor(WorkerOptions),
}

/// The outcome of parsing: text to print, or a command to run.
#[derive(Clone, Debug, PartialEq)]
pub enum ParsedArgs {
    Text(String),
    Command(CliCommand),
}

pub struct WorkerOptionsView {
    pub worker: Option<Seq<u8>>,
    pub node: Seq<u8>,
}

pub struct RenderOptionsView {
    pub source: Option<Seq<char>>,
    pub display_mode: bool,
    pub format: OutputFormat,
    pub output: Option<Seq<u8>>,
    pub force: bool,
    pub foreground: Rgba,
    pub background: Option<Rgba>,
    pub scale: u32,
    pub max_width_px: u32,
    pub worker: WorkerOptionsView,
}

pub enum ParsedView {
    Text(Seq<char>),
    Render(RenderOptionsView),
    Check(WorkerOptionsView),
    Doctor(WorkerOptionsView),
}

impl View for WorkerOptions {
    type V = WorkerOptionsView;

    open spec fn view(&self) -> WorkerOptionsView {
        WorkerOptionsView { worker: opt_bytes(self.worker), node: self.node@ }
    }
}

impl View for RenderOptions {
    type V = RenderOptionsView;

    open spec fn view(&self) -> RenderOptionsView {
        RenderOptionsView {
            source: opt_chars(self.source),
            display_mode: self.display_mode,
            format: self.format,
            output: opt_bytes(self.output),
            force: self.force,
            foreground: self.foreground,
            background: self.background,
            scale: self.scale,
            max_width_px: self.max_width_px,
            worker: self.worker@,
        }
    }
}

impl View for ParsedArgs {
    type V = ParsedView;

    open spec fn view(&self) -> ParsedView {
        match self {
            ParsedArgs::Text(t) => ParsedView::Text(t@),
            ParsedArgs::Command(CliCommand::Render(o)) => ParsedView::Render(o@),
            ParsedArgs::Command(CliCommand::Check(o)) => ParsedView::Check(o@),
            ParsedArgs::Command(CliCommand::Doctor(o)) => ParsedView::Doctor(o@),
        }
    }
}

/// Which render options were already given.
#[derive(Clone, Copy, Debug, PartialEq, Eq, Structural)]
pub struct SeenRender {
    pub display: bool,
    pub format: bool,
    pub output: bool,
    pub force: bool,
    pub foreground: bool,
    pub background: bool,
    pub scale: bool,
    pub max_width: bool,
    pub worker: bool,
    pub node: bool,
}

pub open spec fn default_worker_options() -> WorkerOptionsView {
    WorkerOptionsView { worker: None, node: seq![110u8, 111u8, 100u8, 101u8] }
}

/// The render options before any argument: SVG to stdout at scale 2, width 1200.
pub open spec fn default_render_options() -> RenderOptionsView {
    RenderOptionsView {
        source: None,
        display_mode: false,
        format: OutputFormat::Svg,
        output: None,
        force: false,
        foreground: Rgba { red: 230, green: 237, blue: 243, alpha: 255 },
        background: None,
        scale: 0x4000_0000,
        max_width_px: 1200,
        worker: default_worker_options(),
    }
}

impl Default for WorkerOptions {
    fn default() -> (r: Self)
        ensures
            r@ == default_worker_options(),
    {
        let r = WorkerOptions { worker: None, node: vec![110u8, 111u8, 100u8, 101u8] };
        assert(r@.node =~= default_worker_options().node);
        r
    }
}

impl Default for RenderOptions {
    fn default() -> (r: Self)
        ensures
            r@ == default_render_options(),
    {
        RenderOptions {
            source: None,
            display_mode: false,
            format: OutputFormat::Svg,
            output: None,
            force: false,
            foreground: Rgba::opaque(230, 237, 243),
            background: None,
            scale: 0x4000_0000,
            max_width_px: 1200,
            worker: WorkerOptions::default(),
        }
    }
}

// ---------------------------------------------------------------------------
// The grammar.

pub open spec fn required_message(option: Seq<char>) -> Seq<char> {
    "Option "@ + option + " requires a value"@
}

/// The text after an option, or the usage message.
pub open spec fn next_text(args: Seq<ArgView>, index: int, option: Seq<char>) -> Result<Seq<char>, Seq<char>> {
    if index + 1 >= args.len() {
        Err(required_message(option))
    } else {
        match args[index + 1].text {
            Some(t) => Ok(t),
            None => Err("Option "@ + option + " requires valid UTF 8"@),
        }
    }
}

/// The path after an option, or the usage message.
pub open spec fn next_path(args: Seq<ArgView>, index: int, option: Seq<char>) -> Result<Seq<u8>, Seq<char>> {
    if index + 1 >= args.len() {
        Err(required_message(option))
    } else if args[index + 1].raw.len() == 0 {
        Err("Option "@ + option + " requires a nonempty value"@)
    } else {
        Ok(args[index + 1].raw)
    }
}

pub open spec fn once_message(name: Seq<char>) -> Seq<char> {
    "Option "@ + name + " may be supplied only once"@
}

/// One hexadecimal channel as `u8::from_str_radix` reads two bytes.
pub open spec fn channel(b0: u8, b1: u8) -> Option<u8> {
    if b0 == 43 && spec_is_ascii_hexdigit(b1 as char) {
        Some(hex_value(b1 as char) as u8)
    } else if spec_is_ascii_hexdigit(b0 as char) && spec_is_ascii_hexdigit(b1 as char) {
        Some((hex_value(b0 as char) * 16 + hex_value(b1 as char)) as u8)
    } else {
        None
    }
}

/// A color argument `#RRGGBB`: seven bytes, a hash, then three channels.
pub open spec fn cli_color(text: Seq<char>) -> Option<Rgba> {
    let b = encode_utf8(text);
    if b.len() != 7 || b[0] != 35 {
        None
    } else {
        match (channel(b[1], b[2]), channel(b[3], b[4]), channel(b[5], b[6])) {
            (Some(r), Some(g), Some(bl)) => Some(Rgba { red: r, green: g, blue: bl, alpha: 255 }),
            _ => None,
        }
    }
}

/// The value of a sequence of decimal digits.
pub open spec fn digits_value(d: Seq<char>) -> int
    decreases d.len(),
{
    if d.len() == 0 {
        0
    } else {
        digits_value(d.drop_last()) * 10 + (d.last() as int - '0' as int)
    }
}

/// An unsigned 32 bit number as `str::parse::<u32>` reads it: an optional plus sign,
/// then at least one decimal digit, without overflow.
pub open spec fn parse_u32(s: Seq<char>) -> Option<u32> {
    let d = unsigned_digits(s);
    if d.len() > 0 && all_decimal(d) && digits_value(d) <= u32::MAX {
        Some(digits_value(d) as u32)
    } else {
        None
    }
}

/// The digits of an unsigned number: the text without one leading plus sign.
pub open spec fn unsigned_digits(s: Seq<char>) -> Seq<char> {
    if s.len() > 0 && s[0] == '+' {
        s.drop_first()
    } else {
        s
    }
}

/// Every character is a decimal digit.
pub open spec fn all_decimal(d: Seq<char>) -> bool {
    forall|i: int| 0 <= i < d.len() ==> '0' <= #[trigger] d[i] <= '9'
}

pub open spec fn color_message() -> Seq<char> {
    "Color must use the form #RRGGBB"@
}

pub open spec fn scale_message() -> Seq<char> {
    "Scale must be between 0.5 and 4"@
}

pub open spec fn width_message() -> Seq<char> {
    "Maximum width must be between 1 and 4096"@
}

/// The options after a value was taken at `index`: two arguments consumed.
pub open spec fn taken(index: int, o: RenderOptionsView, s: SeenRender) -> Result<(int, RenderOptionsView, SeenRender), Seq<char>> {
    Ok((index + 2, o, s))
}

/// `--format svg|png`.
pub open spec fn format_option(args: Seq<ArgView>, index: int, o: RenderOptionsView, seen: SeenRender) -> Result<(int, RenderOptionsView, SeenRender), Seq<char>> {
    if seen.format {
        Err(once_message("format"@))
    } else {
        match next_text(args, index, "--format"@) {
            Err(m) => Err(m),
            Ok(v) => if v == "svg"@ {
                taken(index, RenderOptionsView { format: OutputFormat::Svg, ..o }, SeenRender { format: true, ..seen })
            } else if v == "png"@ {
                taken(index, RenderOptionsView { format: OutputFormat::Png, ..o }, SeenRender { format: true, ..seen })
            } else {
                Err("Format must be svg or png"@)
            },
        }
    }
}

/// `--output PATH|-`: a single hyphen means stdout.
pub open spec fn output_option(args: Seq<ArgView>, index: int, o: RenderOptionsView, seen: SeenRender) -> Result<(int, RenderOptionsView, SeenRender), Seq<char>> {
    if seen.output {
        Err(once_message("output"@))
    } else {
        match next_path(args, index, "--output"@) {
            Err(m) => Err(m),
            Ok(p) => taken(
                index,
                RenderOptionsView { output: if p == seq![45u8] { None } else { Some(p) }, ..o },
                SeenRender { output: true, ..seen },
            ),
        }
    }
}

/// `--foreground #RRGGBB`.
pub open spec fn foreground_option(args: Seq<ArgView>, index: int, o: RenderOptionsView, seen: SeenRender) -> Result<(int, RenderOptionsView, SeenRender), Seq<char>> {
    if seen.foreground {
        Err(once_message("foreground"@))
    } else {
        match next_text(args, index, "--foreground"@) {
            Err(m) => Err(m),
            Ok(v) => match cli_color(v) {
                None => Err(color_message()),
                Some(c) => taken(index, RenderOptionsView { foreground: c, ..o }, SeenRender { foreground: true, ..seen }),
            },
        }
    }
}

/// `--background #RRGGBB|transparent`.
pub open spec fn background_option(args: Seq<ArgView>, index: int, o: RenderOptionsView, seen: SeenRender) -> Result<(int, RenderOptionsView, SeenRender), Seq<char>> {
    if seen.background {
        Err(once_message("background"@))
    } else {
        match next_text(args, index, "--background"@) {
            Err(m) => Err(m),
            Ok(v) => if v == "transparent"@ {
                taken(index, RenderOptionsView { background: None, ..o }, SeenRender { background: true, ..seen })
            } else {
                match cli_color(v) {
                    None => Err(color_message()),
                    Some(c) => taken(index, RenderOptionsView { background: Some(c), ..o }, SeenRender { background: true, ..seen }),
                }
            },
        }
    }
}

/// `--scale NUMBER`: a finite number from the minimum through the maximum scale.
pub open spec fn scale_option(args: Seq<ArgView>, index: int, o: RenderOptionsView, seen: SeenRender) -> Result<(int, RenderOptionsView, SeenRender), Seq<char>> {
    if seen.scale {
        Err(once_message("scale"@))
    } else {
        match next_text(args, index, "--scale"@) {
            Err(m) => Err(m),
            Ok(v) => match args[index + 1].f32_bits {
                None => Err(scale_message()),
                Some(b) => if !scale_in_limits(b, default_render_limits()) {
                    Err(scale_message())
                } else {
                    taken(index, RenderOptionsView { scale: b, ..o }, SeenRender { scale: true, ..seen })
                },
            },
        }
    }
}

/// `--max-width PIXELS`: from 1 through the maximum width.
pub open spec fn width_option(args: Seq<ArgView>, index: int, o: RenderOptionsView, seen: SeenRender) -> Result<(int, RenderOptionsView, SeenRender), Seq<char>> {
    if seen.max_width {
        Err(once_message("max width"@))
    } else {
        match next_text(args, index, "--max-width"@) {
            Err(m) => Err(m),
            Ok(v) => match parse_u32(v) {
                None => Err(width_message()),
                Some(w) => if w == 0 || w > MAX_WIDTH_PX {
                    Err(width_message())
                } else {
                    taken(index, RenderOptionsView { max_width_px: w, ..o }, SeenRender { max_width: true, ..seen })
                },
            },
        }
    }
}

/// `--worker PATH`.
pub open spec fn worker_option(args: Seq<ArgView>, index: int, o: RenderOptionsView, seen: SeenRender) -> Result<(int, RenderOptionsView, SeenRender), Seq<char>> {
    if seen.worker {
        Err(once_message("worker"@))
    } else {
        match next_path(args, index, "--worker"@) {
            Err(m) => Err(m),
            Ok(p) => taken(
                index,
                RenderOptionsView { worker: WorkerOptionsView { worker: Some(p), ..o.worker }, ..o },
                SeenRender { worker: true, ..seen },
            ),
        }
    }
}

/// `--node PROGRAM`.
pub open spec fn node_option(args: Seq<ArgView>, index: int, o: RenderOptionsView, seen: SeenRender) -> Result<(int, RenderOptionsView, SeenRender), Seq<char>> {
    if seen.node {
        Err(once_message("node"@))
    } else {
        match next_path(args, index, "--node"@) {
            Err(m) => Err(m),
            Ok(p) => taken(
                index,
                RenderOptionsView { worker: WorkerOptionsView { node: p, ..o.worker }, ..o },
                SeenRender { node: true, ..seen },
            ),
        }
    }
}

/// One render option at `index`: the next index and the updated options, or the
/// usage message.
pub open spec fn render_option(
    args: Seq<ArgView>,
    index: int,
    option: Seq<char>,
    o: RenderOptionsView,
    seen: SeenRender,
) -> Result<(int, RenderOptionsView, SeenRender), Seq<char>> {
    if option == "--display"@ {
        if seen.display {
            Err(once_message("display"@))
        } else {
            Ok((index + 1, RenderOptionsView { display_mode: true, ..o }, SeenRender { display: true, ..seen }))
        }
    } else if option == "--force"@ {
        if seen.force {
            Err(once_message("force"@))
        } else {
            Ok((index + 1, RenderOptionsView { force: true, ..o }, SeenRender { force: true, ..seen }))
        }
    } else if option == "--format"@ {
        format_option(args, index, o, seen)
    } else if option == "--output"@ {
        output_option(args, index, o, seen)
    } else if option == "--foreground"@ {
        foreground_option(args, index, o, seen)
    } else if option == "--background"@ {
        background_option(args, index, o, seen)
    } else if option == "--scale"@ {
        scale_option(args, index, o, seen)
    } else if option == "--max-width"@ {
        width_option(args, index, o, seen)
    } else if option == "--worker"@ {
        worker_option(args, index, o, seen)
    } else if option == "--node"@ {
        node_option(args, index, o, seen)
    } else {
        Err("Unknown render option "@ + option)
    }
}

/// No render option given yet.
pub open spec fn nothing_seen() -> SeenRender {
    SeenRender {
        display: false,
        format: false,
        output: false,
        force: false,
        foreground: false,
        background: false,
        scale: false,
        max_width: false,
        worker: false,
        node: false,
    }
}

/// Whether a text reads as an option name: it starts with a hyphen.
pub open spec fn looks_like_option(t: Seq<char>) -> bool {
    t.len() > 0 && t[0] == '-'
}

/// The end of the render arguments: a forced write needs a file.
pub open spec fn render_done(o: RenderOptionsView) -> Result<ParsedView, Seq<char>> {
    if o.force && o.output is None {
        Err("The force option requires a file output path"@)
    } else {
        Ok(ParsedView::Render(o))
    }
}

/// The render arguments from `index` on. After `--` every argument is a source.
pub open spec fn render_from(
    args: Seq<ArgView>,
    index: int,
    enabled: bool,
    o: RenderOptionsView,
    seen: SeenRender,
) -> Result<ParsedView, Seq<char>>
    decreases args.len() - index,
    when 0 <= index
{
    if index >= args.len() {
        render_done(o)
    } else {
        match args[index].text {
            None => Err("TeX source and option names must contain valid UTF 8"@),
            Some(t) => if enabled && t == "--"@ {
                render_from(args, index + 1, false, o, seen)
            } else if enabled && (t == "-h"@ || t == "--help"@) {
                Ok(ParsedView::Text(RENDER_HELP@))
            } else if enabled && looks_like_option(t) {
                match render_option(args, index, t, o, seen) {
                    Err(m) => Err(m),
                    Ok((n, o2, s2)) => {
                        proof {
                            lemma_render_option_moves(args, index, t, o, seen);
                        }
                        render_from(args, n, enabled, o2, s2)
                    },
                }
            } else if o.source is Some {
                Err("Render accepts at most one source argument"@)
            } else {
                render_from(args, index + 1, enabled, RenderOptionsView { source: Some(t), ..o }, seen)
            },
        }
    }
}

/// The arguments of `render`.
pub open spec fn render_args(args: Seq<ArgView>) -> Result<ParsedView, Seq<char>> {
    render_from(args, 0, true, default_render_options(), nothing_seen())
}

/// The name of a worker command as its messages spell it.
pub open spec fn command_title(check: bool) -> Seq<char> {
    if check { "Check"@ } else { "Doctor"@ }
}

pub open spec fn command_lower(check: bool) -> Seq<char> {
    if check { "check"@ } else { "doctor"@ }
}

pub open spec fn command_help(check: bool) -> Seq<char> {
    if check { CHECK_HELP@ } else { DOCTOR_HELP@ }
}

pub open spec fn worker_command(check: bool, o: WorkerOptionsView) -> ParsedView {
    if check { ParsedView::Check(o) } else { ParsedView::Doctor(o) }
}

/// The arguments of `check` or `doctor` from `index` on.
pub open spec fn worker_from(
    args: Seq<ArgView>,
    index: int,
    check: bool,
    o: WorkerOptionsView,
    seen_worker: bool,
    seen_node: bool,
) -> Result<ParsedView, Seq<char>>
    decreases args.len() - index,
    when 0 <= index
{
    if index >= args.len() {
        Ok(worker_command(check, o))
    } else {
        match args[index].text {
            None => Err(command_title(check) + " option names must contain valid UTF 8"@),
            Some(t) => if t == "-h"@ || t == "--help"@ {
                Ok(ParsedView::Text(command_help(check)))
            } else if t == "--worker"@ {
                if seen_worker {
                    Err(once_message("worker"@))
                } else {
                    match next_path(args, index, t) {
                        Err(m) => Err(m),
                        Ok(p) => worker_from(args, index + 2, check, WorkerOptionsView { worker: Some(p), ..o }, true, seen_node),
                    }
                }
            } else if t == "--node"@ {
                if seen_node {
                    Err(once_message("node"@))
                } else {
                    match next_path(args, index, t) {
                        Err(m) => Err(m),
                        Ok(p) => worker_from(args, index + 2, check, WorkerOptionsView { node: p, ..o }, seen_worker, true),
                    }
                }
            } else {
                Err("Unknown "@ + command_lower(check) + " option "@ + t)
            },
        }
    }
}

/// The version this parser reports.
pub const PACKAGE_VERSION: &'static str = "0.1.0";

/// The whole command line after the program name.
pub open spec fn command_line(args: Seq<ArgView>) -> Result<ParsedView, Seq<char>> {
    if args.len() == 0 {
        Ok(ParsedView::Text(ROOT_HELP@))
    } else {
        match args[0].text {
            None => Err("Command must contain valid UTF 8"@),
            Some(c) => if c == "-h"@ || c == "--help"@ {
                Ok(ParsedView::Text(ROOT_HELP@))
            } else if (c == "-V"@ || c == "--version"@) && args.len() == 1 {
                Ok(ParsedView::Text("latex-render "@ + PACKAGE_VERSION@ + "\n"@))
            } else if c == "render"@ {
                render_args(args.drop_first())
            } else if c == "check"@ {
                worker_from(args.drop_first(), 0, true, default_worker_options(), false, false)
            } else if c == "doctor"@ {
                worker_from(args.drop_first(), 0, false, default_worker_options(), false, false)
            } else {
                Err("Expected the render, check, or doctor command"@)
            },
        }
    }
}

/// A parse result that is what the grammar gives.
pub open spec fn parsed_as(r: Result<ParsedArgs, CliError>, want: Result<ParsedView, Seq<char>>) -> bool {
    match want {
        Ok(v) => r matches Ok(p) && p@ == v,
        Err(m) => usage_err(r, m),
    }
}

/// A call that applied an option exactly as the grammar says.
pub open spec fn applied(
    r: Result<usize, CliError>,
    o: RenderOptionsView,
    s: SeenRender,
    want: Result<(int, RenderOptionsView, SeenRender), Seq<char>>,
) -> bool {
    match want {
        Ok((n, wo, ws)) => r == Ok::<usize, CliError>(n as usize) && o == wo && s == ws,
        Err(m) => usage_err(r, m),
    }
}

// ---------------------------------------------------------------------------
// Reading the grammar.

pub open spec fn args_view(args: Seq<CliArg>) -> Seq<ArgView> {
    args.map_values(|a: CliArg| a@)
}

/// Whether two strings are equal.
fn str_is(a: &str, b: &str) -> (r: bool)
    ensures
        r == (a@ == b@),
{
    owned(a) == owned(b)
}

/// A usage failure with the given message.
pub fn usage(message: &str) -> (r: CliError)
    ensures
        r.spec_kind() == CliErrorKind::Usage,
        r.spec_message() == crate::error::sanitized(message@),
{
    CliError::new(CliErrorKind::Usage, message)
}

/// A usage failure whose message is the three parts joined.
fn usage3(a: &str, b: &str, c: &str) -> (r: CliError)
    ensures
        r.spec_kind() == CliErrorKind::Usage,
        r.spec_message() == crate::error::sanitized(a@ + b@ + c@),
{
    let mut m = String::new();
    push_str(&mut m, a);
    push_str(&mut m, b);
    push_str(&mut m, c);
    assert(m@ =~= a@ + b@ + c@);
    CliError::new(CliErrorKind::Usage, m.as_str())
}

/// A usage failure whose message is the two parts joined.
fn usage2(a: &str, b: &str) -> (r: CliError)
    ensures
        r.spec_kind() == CliErrorKind::Usage,
        r.spec_message() == crate::error::sanitized(a@ + b@),
{
    let mut m = String::new();
    push_str(&mut m, a);
    push_str(&mut m, b);
    CliError::new(CliErrorKind::Usage, m.as_str())
}

/// A result that reports exactly a usage message.
pub open spec fn usage_err<T>(r: Result<T, CliError>, m: Seq<char>) -> bool {
    r matches Err(e) && e.spec_kind() == CliErrorKind::Usage && e.spec_message() == crate::error::sanitized(m)
}

fn copy_bytes(v: &Vec<u8>) -> (r: Vec<u8>)
    ensures
        r@ == v@,
{
    let mut r: Vec<u8> = Vec::new();
    let mut i: usize = 0;
    while i < v.len()
        invariant
            i <= v@.len(),
            r@ == v@.take(i as int),
        decreases v@.len() - i,
    {
        r.push(v[i]);
        assert(v@.take(i + 1) =~= v@.take(i as int).push(v@[i as int]));
        i = i + 1;
    }
    assert(v@.take(v@.len() as int) =~= v@);
    r
}

fn next_text_exec(args: &Vec<CliArg>, index: usize, option: &str) -> (r: Result<String, CliError>)
    requires
        index < usize::MAX,
    ensures
        match next_text(args_view(args@), index as int, option@) {
            Ok(t) => r matches Ok(x) && x@ == t,
            Err(m) => usage_err(r, m),
        },
        r is Ok ==> index + 1 < args@.len() <= usize::MAX,
{
    if index >= args.len() || args.len() - index < 2 {
        return Err(usage3("Option ", option, " requires a value"));
    }
    match &args[index + 1].text {
        Some(t) => Ok(t.clone()),
        None => Err(usage3("Option ", option, " requires valid UTF 8")),
    }
}

fn next_path_exec(args: &Vec<CliArg>, index: usize, option: &str) -> (r: Result<Vec<u8>, CliError>)
    requires
        index < usize::MAX,
    ensures
        match next_path(args_view(args@), index as int, option@) {
            Ok(p) => r matches Ok(x) && x@ == p,
            Err(m) => usage_err(r, m),
        },
        r is Ok ==> index + 1 < args@.len() <= usize::MAX,
{
    if index >= args.len() || args.len() - index < 2 {
        return Err(usage3("Option ", option, " requires a value"));
    }
    if args[index + 1].raw.len() == 0 {
        return Err(usage3("Option ", option, " requires a nonempty value"));
    }
    Ok(copy_bytes(&args[index + 1].raw))
}

fn hex_byte_value(b: u8) -> (r: Option<u8>)
    ensures
        spec_is_ascii_hexdigit(b as char) ==> r == Some(hex_value(b as char) as u8),
        !spec_is_ascii_hexdigit(b as char) ==> r is None,
{
    if 48 <= b && b <= 57 {
        Some(b - 48)
    } else if 97 <= b && b <= 102 {
        Some(b - 97 + 10)
    } else if 65 <= b && b <= 70 {
        Some(b - 65 + 10)
    } else {
        None
    }
}

fn channel_exec(b0: u8, b1: u8) -> (r: Option<u8>)
    ensures
        r == channel(b0, b1),
{
    let v1 = match hex_byte_value(b1) {
        Some(v) => v,
        None => return None,
    };
    if b0 == 43 {
        return Some(v1);
    }
    match hex_byte_value(b0) {
        Some(v0) => Some(v0 * 16 + v1),
        None => None,
    }
}

/// Reads a color argument `#RRGGBB`.
pub fn parse_cli_color(value: &str) -> (r: Result<Rgba, CliError>)
    ensures
        match cli_color(value@) {
            Some(c) => r == Ok::<Rgba, CliError>(c),
            None => usage_err(r, color_message()),
        },
{
    let b = value.as_bytes();
    if b.len() != 7 || b[0] != 35 {
        return Err(usage("Color must use the form #RRGGBB"));
    }
    match (channel_exec(b[1], b[2]), channel_exec(b[3], b[4]), channel_exec(b[5], b[6])) {
        (Some(r), Some(g), Some(bl)) => Ok(Rgba::opaque(r, g, bl)),
        _ => Err(usage("Color must use the form #RRGGBB")),
    }
}

proof fn lemma_digits_monotone(d: Seq<char>, k: int)
    requires
        0 <= k <= d.len(),
        forall|i: int| 0 <= i < d.len() ==> '0' <= #[trigger] d[i] <= '9',
    ensures
        digits_value(d.take(k)) <= digits_value(d),
        0 <= digits_value(d.take(k)),
    decreases d.len() - k,
{
    if k < d.len() {
        lemma_digits_monotone(d, k + 1);
        assert(d.take(k + 1).drop_last() =~= d.take(k));
        lemma_digits_nonneg(d.take(k));
    } else {
        assert(d.take(k) =~= d);
        lemma_digits_nonneg(d);
    }
}

proof fn lemma_digits_nonneg(d: Seq<char>)
    requires
        forall|i: int| 0 <= i < d.len() ==> '0' <= #[trigger] d[i] <= '9',
    ensures
        0 <= digits_value(d),
    decreases d.len(),
{
    if d.len() > 0 {
        let p = d.drop_last();
        assert forall|i: int| 0 <= i < p.len() implies '0' <= #[trigger] p[i] <= '9' by {
            assert(p[i] == d[i]);
        }
        lemma_digits_nonneg(p);
    }
}

/// Reads an unsigned 32 bit number as `str::parse::<u32>` does.
pub fn parse_u32_exec(text: &str) -> (r: Option<u32>)
    ensures
        r == parse_u32(text@),
{
    let chars = crate::text::chars_of(text);
    let ghost s = text@;
    let start: usize = if chars.len() > 0 && chars[0] == '+' { 1 } else { 0 };
    let ghost d = unsigned_digits(s);
    assert(d =~= s.skip(start as int));
    if start >= chars.len() {
        return None;
    }
    let mut value: u64 = 0;
    let mut i: usize = start;
    while i < chars.len()
        invariant
            start <= i <= chars@.len(),
            chars@ == s,
            s == text@,
            d == unsigned_digits(s),
            d == s.skip(start as int),
            forall|j: int| 0 <= j < i - start ==> '0' <= #[trigger] d[j] <= '9',
            value as int == digits_value(d.take(i - start)),
            value <= u32::MAX,
        decreases chars@.len() - i,
    {
        let c = chars[i];
        if !('0' <= c && c <= '9') {
            assert(d[i - start] == c);
            assert(!('0' <= d[i - start] <= '9'));
            assert(!(forall|j: int| 0 <= j < d.len() ==> '0' <= #[trigger] d[j] <= '9'));
            return None;
        }
        proof {
            assert(d.take(i - start + 1).drop_last() =~= d.take(i - start));
            assert(d.take(i - start + 1).last() == c);
        }
        value = value * 10 + (c as u64 - '0' as u64);
        i = i + 1;
        assert(value as int == digits_value(d.take(i - start)));
        if value > 0xffff_ffff {
            proof {
                if forall|j: int| 0 <= j < d.len() ==> '0' <= #[trigger] d[j] <= '9' {
                    lemma_digits_monotone(d, i - start);
                    assert(digits_value(d) > u32::MAX);
                }
            }
            return None;
        }
    }
    assert(d.take(d.len() as int) =~= d);
    Some(value as u32)
}


/// Whether a render option result moves forward within the arguments.
pub open spec fn option_moves(args: Seq<ArgView>, index: int, r: Result<(int, RenderOptionsView, SeenRender), Seq<char>>) -> bool {
    r matches Ok((n, _, _)) ==> index < n <= args.len()
}

pub proof fn lemma_render_option_moves(
    args: Seq<ArgView>,
    index: int,
    option: Seq<char>,
    o: RenderOptionsView,
    seen: SeenRender,
)
    requires
        0 <= index < args.len(),
    ensures
        option_moves(args, index, render_option(args, index, option, o, seen)),
{
}

fn once(seen: bool, name: &str) -> (r: Result<(), CliError>)
    ensures
        seen ==> usage_err(r, once_message(name@)),
        !seen ==> r is Ok,
{
    if seen {
        Err(usage3("Option ", name, " may be supplied only once"))
    } else {
        Ok(())
    }
}

fn apply_format(args: &Vec<CliArg>, index: usize, options: &mut RenderOptions, seen: &mut SeenRender) -> (r: Result<usize, CliError>)
    requires
        index < usize::MAX,
    ensures
        applied(r, final(options)@, *final(seen), format_option(args_view(args@), index as int, old(options)@, *old(seen))),
{
    once(seen.format, "format")?;
    let value = next_text_exec(args, index, "--format")?;
    if str_is(value.as_str(), "svg") {
        options.format = OutputFormat::Svg;
    } else if str_is(value.as_str(), "png") {
        options.format = OutputFormat::Png;
    } else {
        return Err(usage("Format must be svg or png"));
    }
    seen.format = true;
    Ok(index + 2)
}

fn apply_output(args: &Vec<CliArg>, index: usize, options: &mut RenderOptions, seen: &mut SeenRender) -> (r: Result<usize, CliError>)
    requires
        index < usize::MAX,
    ensures
        applied(r, final(options)@, *final(seen), output_option(args_view(args@), index as int, old(options)@, *old(seen))),
{
    once(seen.output, "output")?;
    let value = next_path_exec(args, index, "--output")?;
    let dash = value.len() == 1 && value[0] == 45;
    assert(dash == (value@ == seq![45u8])) by {
        if value@.len() == 1 && value@[0] == 45 {
            assert(value@ =~= seq![45u8]);
        }
    }
    options.output = if dash { None } else { Some(value) };
    seen.output = true;
    Ok(index + 2)
}

fn apply_foreground(args: &Vec<CliArg>, index: usize, options: &mut RenderOptions, seen: &mut SeenRender) -> (r: Result<usize, CliError>)
    requires
        index < usize::MAX,
    ensures
        applied(r, final(options)@, *final(seen), foreground_option(args_view(args@), index as int, old(options)@, *old(seen))),
{
    once(seen.foreground, "foreground")?;
    let value = next_text_exec(args, index, "--foreground")?;
    options.foreground = parse_cli_color(value.as_str())?;
    seen.foreground = true;
    Ok(index + 2)
}

fn apply_background(args: &Vec<CliArg>, index: usize, options: &mut RenderOptions, seen: &mut SeenRender) -> (r: Result<usize, CliError>)
    requires
        index < usize::MAX,
    ensures
        applied(r, final(options)@, *final(seen), background_option(args_view(args@), index as int, old(options)@, *old(seen))),
{
    once(seen.background, "background")?;
    let value = next_text_exec(args, index, "--background")?;
    if str_is(value.as_str(), "transparent") {
        options.background = None;
    } else {
        options.background = Some(parse_cli_color(value.as_str())?);
    }
    seen.background = true;
    Ok(index + 2)
}

fn apply_scale(args: &Vec<CliArg>, index: usize, options: &mut RenderOptions, seen: &mut SeenRender) -> (r: Result<usize, CliError>)
    requires
        index < usize::MAX,
    ensures
        applied(r, final(options)@, *final(seen), scale_option(args_view(args@), index as int, old(options)@, *old(seen))),
{
    once(seen.scale, "scale")?;
    let _value = next_text_exec(args, index, "--scale")?;
    let bits = match args[index + 1].f32_bits {
        Some(b) => b,
        None => return Err(usage("Scale must be between 0.5 and 4")),
    };
    if !f32_bits_is_finite(bits) || f32_bits_lt(bits, MIN_SCALE) || f32_bits_lt(MAX_SCALE, bits) {
        return Err(usage("Scale must be between 0.5 and 4"));
    }
    options.scale = bits;
    seen.scale = true;
    Ok(index + 2)
}

fn apply_width(args: &Vec<CliArg>, index: usize, options: &mut RenderOptions, seen: &mut SeenRender) -> (r: Result<usize, CliError>)
    requires
        index < usize::MAX,
    ensures
        applied(r, final(options)@, *final(seen), width_option(args_view(args@), index as int, old(options)@, *old(seen))),
{
    once(seen.max_width, "max width")?;
    let value = next_text_exec(args, index, "--max-width")?;
    let width = match parse_u32_exec(value.as_str()) {
        Some(w) => w,
        None => return Err(usage("Maximum width must be between 1 and 4096")),
    };
    if width == 0 || width > MAX_WIDTH_PX {
        return Err(usage("Maximum width must be between 1 and 4096"));
    }
    options.max_width_px = width;
    seen.max_width = true;
    Ok(index + 2)
}

fn apply_worker(args: &Vec<CliArg>, index: usize, options: &mut RenderOptions, seen: &mut SeenRender) -> (r: Result<usize, CliError>)
    requires
        index < usize::MAX,
    ensures
        applied(r, final(options)@, *final(seen), worker_option(args_view(args@), index as int, old(options)@, *old(seen))),
{
    once(seen.worker, "worker")?;
    let value = next_path_exec(args, index, "--worker")?;
    options.worker.worker = Some(value);
    seen.worker = true;
    Ok(index + 2)
}

fn apply_node(args: &Vec<CliArg>, index: usize, options: &mut RenderOptions, seen: &mut SeenRender) -> (r: Result<usize, CliError>)
    requires
        index < usize::MAX,
    ensures
        applied(r, final(options)@, *final(seen), node_option(args_view(args@), index as int, old(options)@, *old(seen))),
{
    once(seen.node, "node")?;
    let value = next_path_exec(args, index, "--node")?;
    options.worker.node = value;
    seen.node = true;
    Ok(index + 2)
}

/// Applies one render option at `index`, returning the next index.
pub fn parse_render_option(
    args: &Vec<CliArg>,
    index: usize,
    option: &str,
    options: &mut RenderOptions,
    seen: &mut SeenRender,
) -> (r: Result<usize, CliError>)
    requires
        index < usize::MAX,
    ensures
        applied(r, final(options)@, *final(seen), render_option(args_view(args@), index as int, option@, old(options)@, *old(seen))),
{
    if str_is(option, "--display") {
        once(seen.display, "display")?;
        seen.display = true;
        options.display_mode = true;
        Ok(index + 1)
    } else if str_is(option, "--force") {
        once(seen.force, "force")?;
        seen.force = true;
        options.force = true;
        Ok(index + 1)
    } else if str_is(option, "--format") {
        apply_format(args, index, options, seen)
    } else if str_is(option, "--output") {
        apply_output(args, index, options, seen)
    } else if str_is(option, "--foreground") {
        apply_foreground(args, index, options, seen)
    } else if str_is(option, "--background") {
        apply_background(args, index, options, seen)
    } else if str_is(option, "--scale") {
        apply_scale(args, index, options, seen)
    } else if str_is(option, "--max-width") {
        apply_width(args, index, options, seen)
    } else if str_is(option, "--worker") {
        apply_worker(args, index, options, seen)
    } else if str_is(option, "--node") {
        apply_node(args, index, options, seen)
    } else {
        Err(usage2("Unknown render option ", option))
    }
}

impl SeenRender {
    /// No option seen.
    pub fn none() -> (r: Self)
        ensures
            r == nothing_seen(),
    {
        SeenRender {
            display: false,
            format: false,
            output: false,
            force: false,
            foreground: false,
            background: false,
            scale: false,
            max_width: false,
            worker: false,
            node: false,
        }
    }
}

fn starts_with_hyphen(text: &str) -> (r: bool)
    ensures
        r == looks_like_option(text@),
{
    let chars = crate::text::chars_of(text);
    chars.len() > 0 && chars[0] == '-'
}

fn copy_text(t: &String) -> (r: String)
    ensures
        r@ == t@,
{
    owned(t.as_str())
}

/// Parses the arguments of `render`.
pub fn parse_render(arguments: &Vec<CliArg>) -> (r: Result<ParsedArgs, CliError>)
    ensures
        parsed_as(r, render_args(args_view(arguments@))),
{
    let ghost av = args_view(arguments@);
    let ghost want = render_args(av);
    let mut options = RenderOptions::default();
    let mut seen = SeenRender::none();
    let mut index: usize = 0;
    let mut enabled = true;
    while index < arguments.len()
        invariant
            av == args_view(arguments@),
            want == render_args(av),
            index <= arguments@.len(),
            render_from(av, index as int, enabled, options@, seen) == want,
        decreases arguments@.len() - index,
    {
        let text = match &arguments[index].text {
            Some(t) => t,
            None => return Err(usage("TeX source and option names must contain valid UTF 8")),
        };
        assert(av[index as int].text == Some(text@));
        if enabled && str_is(text.as_str(), "--") {
            enabled = false;
            index = index + 1;
        } else if enabled && (str_is(text.as_str(), "-h") || str_is(text.as_str(), "--help")) {
            return Ok(ParsedArgs::Text(owned(RENDER_HELP)));
        } else if enabled && starts_with_hyphen(text.as_str()) {
            proof {
                lemma_render_option_moves(av, index as int, text@, options@, seen);
            }
            index = parse_render_option(arguments, index, text.as_str(), &mut options, &mut seen)?;
        } else {
            if options.source.is_some() {
                return Err(usage("Render accepts at most one source argument"));
            }
            options.source = Some(copy_text(text));
            index = index + 1;
        }
    }
    if options.force && options.output.is_none() {
        return Err(usage("The force option requires a file output path"));
    }
    Ok(ParsedArgs::Command(CliCommand::Render(options)))
}

/// Parses the arguments of `check` (when `check` holds) or `doctor`.
pub fn parse_worker_command(arguments: &Vec<CliArg>, check: bool) -> (r: Result<ParsedArgs, CliError>)
    ensures
        parsed_as(r, worker_from(args_view(arguments@), 0, check, default_worker_options(), false, false)),
{
    let ghost av = args_view(arguments@);
    let ghost want = worker_from(av, 0, check, default_worker_options(), false, false);
    let mut options = WorkerOptions::default();
    let mut seen_worker = false;
    let mut seen_node = false;
    let mut index: usize = 0;
    while index < arguments.len()
        invariant
            av == args_view(arguments@),
            want == worker_from(av, 0, check, default_worker_options(), false, false),
            index <= arguments@.len(),
            worker_from(av, index as int, check, options@, seen_worker, seen_node) == want,
        decreases arguments@.len() - index,
    {
        let option = match &arguments[index].text {
            Some(t) => t,
            None => {
                let title = if check { "Check" } else { "Doctor" };
                return Err(usage2(title, " option names must contain valid UTF 8"));
            },
        };
        assert(av[index as int].text == Some(option@));
        if str_is(option.as_str(), "-h") || str_is(option.as_str(), "--help") {
            let help = if check { CHECK_HELP } else { DOCTOR_HELP };
            return Ok(ParsedArgs::Text(owned(help)));
        } else if str_is(option.as_str(), "--worker") {
            once(seen_worker, "worker")?;
            let value = next_path_exec(arguments, index, option.as_str())?;
            options.worker = Some(value);
            seen_worker = true;
            index = index + 2;
        } else if str_is(option.as_str(), "--node") {
            once(seen_node, "node")?;
            let value = next_path_exec(arguments, index, option.as_str())?;
            options.node = value;
            seen_node = true;
            index = index + 2;
        } else {
            let lower = if check { "check" } else { "doctor" };
            let mut m = owned("Unknown ");
            push_str(&mut m, lower);
            push_str(&mut m, " option ");
            push_str(&mut m, option.as_str());
            return Err(usage(m.as_str()));
        }
    }
    let command = if check { CliCommand::Check(options) } else { CliCommand::Doctor(options) };
    Ok(ParsedArgs::Command(command))
}

/// Parses the command line after the program name.
pub fn parse_args(arguments: Vec<CliArg>) -> (r: Result<ParsedArgs, CliError>)
    ensures
        parsed_as(r, command_line(args_view(arguments@))),
{
    let mut arguments = arguments;
    if arguments.len() == 0 {
        return Ok(ParsedArgs::Text(owned(ROOT_HELP)));
    }
    let ghost all = args_view(arguments@);
    let remaining = arguments.split_off(1);
    assert(args_view(remaining@) =~= all.drop_first());
    let command = match &arguments[0].text {
        Some(c) => c,
        None => return Err(usage("Command must contain valid UTF 8")),
    };
    assert(all[0].text == Some(command@));
    let c = command.as_str();
    if str_is(c, "-h") || str_is(c, "--help") {
        Ok(ParsedArgs::Text(owned(ROOT_HELP)))
    } else if (str_is(c, "-V") || str_is(c, "--version")) && remaining.len() == 0 {
        let mut text = owned("latex-render ");
        push_str(&mut text, PACKAGE_VERSION);
        push_str(&mut text, "\n");
        Ok(ParsedArgs::Text(text))
    } else if str_is(c, "render") {
        parse_render(&remaining)
    } else if str_is(c, "check") {
        parse_worker_command(&remaining, true)
    } else if str_is(c, "doctor") {
        parse_worker_command(&remaining, false)
    } else {
        Err(usage("Expected the render, check, or doctor command"))
    }
}

proof fn lemma_render_from_forced_output(args: Seq<ArgView>, index: int, enabled: bool, o: RenderOptionsView, seen: SeenRender)
    requires
        0 <= index,
    ensures
        render_from(args, index, enabled, o, seen) matches Ok(ParsedView::Render(r)) ==> !r.force || r.output is Some,
    decreases args.len() - index,
{
    if index < args.len() {
        if let Some(t) = args[index].text {
            if enabled && t == "--"@ {
                lemma_render_from_forced_output(args, index + 1, false, o, seen);
            } else if enabled && (t == "-h"@ || t == "--help"@) {
            } else if enabled && looks_like_option(t) {
                lemma_render_option_moves(args, index, t, o, seen);
                if let Ok((n, o2, s2)) = render_option(args, index, t, o, seen) {
                    lemma_render_from_forced_output(args, n, enabled, o2, s2);
                }
            } else if o.source is None {
                lemma_render_from_forced_output(args, index + 1, enabled, RenderOptionsView { source: Some(t), ..o }, seen);
            }
        }
    }
}

proof fn lemma_worker_from_not_render(args: Seq<ArgView>, index: int, check: bool, o: WorkerOptionsView, sw: bool, sn: bool)
    requires
        0 <= index,
    ensures
        !(worker_from(args, index, check, o, sw, sn) matches Ok(ParsedView::Render(_))),
    decreases args.len() - index,
{
    if index < args.len() {
        if let Some(t) = args[index].text {
            if t == "--worker"@ && !sw {
                if let Ok(p) = next_path(args, index, t) {
                    lemma_worker_from_not_render(args, index + 2, check, WorkerOptionsView { worker: Some(p), ..o }, true, sn);
                }
            } else if t == "--node"@ && !sn && t != "-h"@ && t != "--help"@ {
                if let Ok(p) = next_path(args, index, t) {
                    lemma_worker_from_not_render(args, index + 2, check, WorkerOptionsView { node: p, ..o }, sw, true);
                }
            }
        }
    }
}

/// A render command that parses never forces a write to standard output: `--force`
/// is accepted only together with a file output path.
pub proof fn law_force_requires_an_output_file(args: Seq<ArgView>)
    ensures
        command_line(args) matches Ok(ParsedView::Render(o)) ==> !o.force || o.output is Some,
{
    if args.len() > 0 {
        lemma_render_from_forced_output(args.drop_first(), 0, true, default_render_options(), nothing_seen());
        lemma_worker_from_not_render(args.drop_first(), 0, true, default_worker_options(), false, false);
        lemma_worker_from_not_render(args.drop_first(), 0, false, default_worker_options(), false, false);
    }
}

/// A render option accepted once is refused when it is named again, wherever it
/// appears and whatever its value.
pub proof fn law_options_are_given_once(
    args: Seq<ArgView>,
    index: int,
    later: int,
    option: Seq<char>,
    o: RenderOptionsView,
    seen: SeenRender,
)
    requires
        0 <= index < args.len(),
        0 <= later < args.len(),
        render_option(args, index, option, o, seen) is Ok,
    ensures
        ({
            let (_, o2, s2) = render_option(args, index, option, o, seen)->Ok_0;
            render_option(args, later, option, o2, s2) is Err
        }),
{
}

/// An accepted render option changes only its own setting and marks only itself as
/// seen: a flag takes one argument and sets itself; an option with a value takes two
/// arguments and replaces its setting, leaving every other setting as it was.
pub proof fn law_option_sets_only_itself(
    args: Seq<ArgView>,
    index: int,
    option: Seq<char>,
    o: RenderOptionsView,
    seen: SeenRender,
)
    ensures
        render_option(args, index, option, o, seen) matches Ok((next, o2, s2)) ==> {
            &&& option == "--display"@ ==> next == index + 1 && o2 == RenderOptionsView { display_mode: true, ..o }
                && s2 == SeenRender { display: true, ..seen }
            &&& option == "--force"@ ==> next == index + 1 && o2 == RenderOptionsView { force: true, ..o }
                && s2 == SeenRender { force: true, ..seen }
            &&& option == "--format"@ ==> next == index + 2 && o2 == RenderOptionsView { format: o2.format, ..o }
                && s2 == SeenRender { format: true, ..seen }
            &&& option == "--output"@ ==> next == index + 2 && o2 == RenderOptionsView { output: o2.output, ..o }
                && s2 == SeenRender { output: true, ..seen }
            &&& option == "--foreground"@ ==> next == index + 2 && o2 == RenderOptionsView {
                foreground: o2.foreground,
                ..o
            } && s2 == SeenRender { foreground: true, ..seen }
            &&& option == "--background"@ ==> next == index + 2 && o2 == RenderOptionsView {
                background: o2.background,
                ..o
            } && s2 == SeenRender { background: true, ..seen }
            &&& option == "--scale"@ ==> next == index + 2 && o2 == RenderOptionsView { scale: o2.scale, ..o }
                && s2 == SeenRender { scale: true, ..seen }
            &&& option == "--max-width"@ ==> next == index + 2 && o2 == RenderOptionsView {
                max_width_px: o2.max_width_px,
                ..o
            } && s2 == SeenRender { max_width: true, ..seen }
            &&& option == "--worker"@ ==> next == index + 2 && o2 == RenderOptionsView {
                worker: WorkerOptionsView { worker: o2.worker.worker, ..o.worker },
                ..o
            } && s2 == SeenRender { worker: true, ..seen }
            &&& option == "--node"@ ==> next == index + 2 && o2 == RenderOptionsView {
                worker: WorkerOptionsView { node: o2.worker.node, ..o.worker },
                ..o
            } && s2 == SeenRender { node: true, ..seen }
        },
{
    reveal_strlit("--display");
    reveal_strlit("--force");
    reveal_strlit("--format");
    reveal_strlit("--output");
    reveal_strlit("--foreground");
    reveal_strlit("--background");
    reveal_strlit("--scale");
    reveal_strlit("--max-width");
    reveal_strlit("--worker");
    reveal_strlit("--node");
    let names = seq![
        "--display"@,
        "--force"@,
        "--format"@,
        "--output"@,
        "--foreground"@,
        "--background"@,
        "--scale"@,
        "--max-width"@,
        "--worker"@,
        "--node"@,
    ];
    assert forall|i: int, j: int| 0 <= i < j < 10 implies #[trigger] names[i] != #[trigger] names[j] by {
        if names[i].len() == names[j].len() {
            assert(names[i][2] != names[j][2] || names[i][3] != names[j][3]);
        }
    }
    assert(names[0] != names[1]);
}

/// The name of an output format on the command line.
pub open spec fn format_name(f: OutputFormat) -> Seq<char> {
    match f {
        OutputFormat::Svg => "svg"@,
        OutputFormat::Png => "png"@,
    }
}

/// `--format` followed by the name of a format selects exactly that format, takes two
/// arguments and marks the format as given, leaving every other setting as it was.
pub proof fn law_format_selects_the_named_format(
    args: Seq<ArgView>,
    index: int,
    f: OutputFormat,
    o: RenderOptionsView,
    seen: SeenRender,
)
    requires
        !seen.format,
        0 <= index,
        index + 1 < args.len(),
        args[index + 1].text == Some(format_name(f)),
    ensures
        render_option(args, index, "--format"@, o, seen) == Ok::<(int, RenderOptionsView, SeenRender), Seq<char>>(
            (index + 2, RenderOptionsView { format: f, ..o }, SeenRender { format: true, ..seen }),
        ),
{
    reveal_strlit("svg");
    reveal_strlit("png");
    format_is_not_a_flag();
    assert("svg"@ != "png"@) by {
        assert("svg"@[0] != "png"@[0]);
    }
}

proof fn format_is_not_a_flag()
    ensures
        "--format"@ != "--display"@,
        "--format"@ != "--force"@,
{
    reveal_strlit("--format");
    reveal_strlit("--display");
    reveal_strlit("--force");
    assert("--format"@[2] != "--display"@[2]);
    assert("--format"@[5] != "--force"@[5]);
}

/// `--format` followed by a text that names no format is refused.
pub proof fn law_format_refuses_unknown_names(args: Seq<ArgView>, index: int, o: RenderOptionsView, seen: SeenRender)
    requires
        0 <= index,
        index + 1 < args.len(),
        args[index + 1].text matches Some(t) && t != format_name(OutputFormat::Svg) && t != format_name(OutputFormat::Png),
    ensures
        render_option(args, index, "--format"@, o, seen) is Err,
{
    format_is_not_a_flag();
}

} // verus!
