//! Shared safety limits for render requests and results.

use vstd::prelude::*;

verus! {

/// The stable public contract version used in cache and adapter boundaries.
pub const RENDER_CORE_VERSION: u32 = 1;

/// Maximum UTF 8 bytes accepted for one math fragment.
pub const MAX_SOURCE_BYTES: usize = 16384;

/// Maximum UTF 8 bytes accepted for one worker protocol line.
pub const MAX_JSON_LINE_BYTES: usize = 65536;

/// Maximum UTF 8 bytes accepted for one SVG result.
pub const MAX_SVG_BYTES: usize = 2097152;

/// Maximum output width in pixels.
pub const MAX_WIDTH_PX: u32 = 4096;

/// Maximum output height in pixels.
pub const MAX_HEIGHT_PX: u32 = 2048;

/// Smallest accepted render scale, 0.5, as its single precision bit pattern.
pub const MIN_SCALE: u32 = 0x3f00_0000;

/// Largest accepted render scale, 4, as its single precision bit pattern.
pub const MAX_SCALE: u32 = 0x4080_0000;

/// Limits applied at the backend neutral contract boundary.
#[derive(Clone, Copy, Debug, PartialEq, Eq, Structural)]
pub struct RenderLimits {
    /// Maximum source length in UTF 8 bytes.
    pub max_source_bytes: usize,
    /// Maximum worker protocol line length in UTF 8 bytes.
    pub max_json_line_bytes: usize,
    /// Maximum SVG length in UTF 8 bytes.
    pub max_svg_bytes: usize,
    /// Maximum output width in pixels.
    pub max_width_px: u32,
    /// Maximum output height in pixels.
    pub max_height_px: u32,
    /// Smallest accepted render scale (single precision bit pattern).
    pub min_scale: u32,
    /// Largest accepted render scale (single precision bit pattern).
    pub max_scale: u32,
}

/// The limits every boundary applies unless configured otherwise.
pub open spec fn default_render_limits() -> RenderLimits {
    RenderLimits {
        max_source_bytes: MAX_SOURCE_BYTES,
        max_json_line_bytes: MAX_JSON_LINE_BYTES,
        max_svg_bytes: MAX_SVG_BYTES,
        max_width_px: MAX_WIDTH_PX,
        max_height_px: MAX_HEIGHT_PX,
        min_scale: MIN_SCALE,
        max_scale: MAX_SCALE,
    }
}

impl Default for RenderLimits {
    fn default() -> (r: Self)
        ensures
            r == default_render_limits(),
    {
        RenderLimits {
            max_source_bytes: MAX_SOURCE_BYTES,
            max_json_line_bytes: MAX_JSON_LINE_BYTES,
            max_svg_bytes: MAX_SVG_BYTES,
            max_width_px: MAX_WIDTH_PX,
            max_height_px: MAX_HEIGHT_PX,
            min_scale: MIN_SCALE,
            max_scale: MAX_SCALE,
        }
    }
}

} // verus!
