//! Backend neutral render output.

use vstd::prelude::*;
use vstd::utf8::valid_utf8;

use crate::error::{RenderError, RenderErrorCode};
use crate::float_bits::{
    F32_ZERO_BITS, f32_bits_is_finite, f32_bits_lt, f32_bits_of_u32, f32_is_finite, f32_lt,
    f32_of_u32,
};
use crate::limits::RenderLimits;
use crate::request::{has_unsafe_control, plain_error, reports};
use crate::text::{
    byte_len, contains_unsafe_control, decimal, is_valid_utf8, push_decimal, push_str, utf8_len,
};

verus! {

/// Sanitized vector output and layout metadata for one expression.
#[derive(Clone, Debug, PartialEq)]
pub struct RenderedMath {
    /// Standalone sanitized SVG bytes.
    pub svg: Vec<u8>,
    /// Output width in pixels.
    pub width_px: u32,
    /// Output height in pixels.
    pub height_px: u32,
    /// Optional baseline measured from the top edge (single precision bit pattern).
    pub baseline_px: Option<u32>,
    /// Plain text representation retained for accessibility.
    pub accessibility_text: String,
    /// Stable key covering every rendering input.
    pub cache_key: String,
}

/// Whether a baseline lies outside the output height: not finite, negative, or
/// beyond the height converted to single precision.
pub open spec fn baseline_outside(baseline: u32, height: u32) -> bool {
    !f32_is_finite(baseline) || f32_lt(baseline, 0) || f32_lt(f32_of_u32(height), baseline)
}

pub open spec fn svg_limit_message(limit: usize) -> Seq<char> {
    "SVG exceeds "@ + decimal(limit as nat) + " UTF 8 bytes"@
}

/// The first contract violation of a render result given by its parts, as an error
/// code and message.
pub open spec fn parts_failure(
    svg: Seq<u8>,
    width_px: u32,
    height_px: u32,
    baseline_px: Option<u32>,
    accessibility_text: Seq<char>,
    cache_key: Seq<char>,
    limits: RenderLimits,
) -> Option<(RenderErrorCode, Seq<char>)> {
    if svg.len() == 0 {
        Some((RenderErrorCode::RenderFailed, "SVG output must not be empty"@))
    } else if svg.len() > limits.max_svg_bytes {
        Some((RenderErrorCode::OutputLimitExceeded, svg_limit_message(limits.max_svg_bytes)))
    } else if !valid_utf8(svg) {
        Some((RenderErrorCode::UnsafeOutput, "SVG output must contain valid UTF 8"@))
    } else if width_px == 0 || width_px > limits.max_width_px {
        Some((RenderErrorCode::RenderFailed, "SVG width is outside the configured bounds"@))
    } else if height_px == 0 || height_px > limits.max_height_px {
        Some((RenderErrorCode::RenderFailed, "SVG height is outside the configured bounds"@))
    } else if baseline_px matches Some(b) && baseline_outside(b, height_px) {
        Some((RenderErrorCode::RenderFailed, "SVG baseline is outside the output height"@))
    } else if has_unsafe_control(accessibility_text) {
        Some((RenderErrorCode::UnsafeOutput, "Accessibility text contains an unsupported control character"@))
    } else if cache_key.len() == 0 || utf8_len(cache_key) > 128 {
        Some((RenderErrorCode::RenderFailed, "Cache key must contain 1 to 128 bytes"@))
    } else {
        None
    }
}

/// The first contract violation of a render result, as an error code and message.
pub open spec fn result_failure(r: RenderedMath, limits: RenderLimits) -> Option<(RenderErrorCode, Seq<char>)> {
    parts_failure(r.svg@, r.width_px, r.height_px, r.baseline_px, r.accessibility_text@, r.cache_key@, limits)
}

/// The sum of two sizes, capped at the largest `usize`.
pub open spec fn saturating_sum(a: int, b: int) -> int {
    if a + b > usize::MAX {
        usize::MAX as int
    } else {
        a + b
    }
}

impl RenderedMath {
    /// Validates resource limits and layout metadata.
    pub fn validate(&self, limits: &RenderLimits) -> (r: Result<(), RenderError>)
        ensures
            reports(r, result_failure(*self, *limits)),
    {
        if self.svg.len() == 0 {
            return Err(plain_error(RenderErrorCode::RenderFailed, "SVG output must not be empty"));
        }
        if self.svg.len() > limits.max_svg_bytes {
            let mut m = String::new();
            push_str(&mut m, "SVG exceeds ");
            push_decimal(&mut m, limits.max_svg_bytes as u64);
            push_str(&mut m, " UTF 8 bytes");
            return Err(plain_error(RenderErrorCode::OutputLimitExceeded, m.as_str()));
        }
        if !is_valid_utf8(self.svg.as_slice()) {
            return Err(plain_error(RenderErrorCode::UnsafeOutput, "SVG output must contain valid UTF 8"));
        }
        if self.width_px == 0 || self.width_px > limits.max_width_px {
            return Err(plain_error(RenderErrorCode::RenderFailed, "SVG width is outside the configured bounds"));
        }
        if self.height_px == 0 || self.height_px > limits.max_height_px {
            return Err(plain_error(RenderErrorCode::RenderFailed, "SVG height is outside the configured bounds"));
        }
        match self.baseline_px {
            Some(b) => {
                if !f32_bits_is_finite(b) || f32_bits_lt(b, F32_ZERO_BITS) || f32_bits_lt(
                    f32_bits_of_u32(self.height_px),
                    b,
                ) {
                    return Err(
                        plain_error(RenderErrorCode::RenderFailed, "SVG baseline is outside the output height"),
                    );
                }
            },
            None => {},
        }
        let unsafe_control = contains_unsafe_control(self.accessibility_text.as_str());
        assert(unsafe_control == has_unsafe_control(self.accessibility_text@));
        if unsafe_control {
            return Err(
                plain_error(
                    RenderErrorCode::UnsafeOutput,
                    "Accessibility text contains an unsupported control character",
                ),
            );
        }
        let key_len = byte_len(self.cache_key.as_str());
        if self.cache_key.as_str().is_empty() || key_len > 128 {
            return Err(plain_error(RenderErrorCode::RenderFailed, "Cache key must contain 1 to 128 bytes"));
        }
        Ok(())
    }

    /// Bytes this result occupies in a cache: SVG, accessibility text and key.
    pub fn estimated_size_bytes(&self) -> (r: usize)
        ensures
            r == saturating_sum(
                saturating_sum(self.svg@.len() as int, utf8_len(self.accessibility_text@) as int),
                utf8_len(self.cache_key@) as int,
            ),
    {
        self.svg.len().saturating_add(byte_len(self.accessibility_text.as_str())).saturating_add(
            byte_len(self.cache_key.as_str()),
        )
    }
}

} // verus!
