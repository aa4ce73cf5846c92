//! Validated backend neutral render requests.

use vstd::prelude::*;

use crate::color::Rgba;
use crate::error::{RenderError, RenderErrorCode, sanitized};
use crate::float_bits::{f32_bits_is_finite, f32_bits_lt, f32_is_finite, f32_lt};
use crate::limits::RenderLimits;
use crate::text::{
    contains_unsafe_control, decimal, push_decimal, push_str, spec_is_unsafe_control, utf8_len,
};

verus! {

/// A complete request for rendering one math fragment.
#[derive(Clone, Debug, PartialEq)]
pub struct RenderRequest {
    /// Original math source without delimiters.
    pub source: String,
    /// Whether the expression should use display layout.
    pub display_mode: bool,
    /// Requested foreground color.
    pub foreground: Rgba,
    /// Optional requested background color.
    pub background: Option<Rgba>,
    /// Requested output scale (single precision bit pattern).
    pub scale: u32,
    /// Maximum output width in pixels.
    pub max_width_px: u32,
}

/// Whether a text holds a control character other than line feed, carriage return and tab.
pub open spec fn has_unsafe_control(s: Seq<char>) -> bool {
    exists|i: int| 0 <= i < s.len() && spec_is_unsafe_control(#[trigger] s[i])
}

/// Whether a scale lies within the limits: finite and between the two bounds.
pub open spec fn scale_in_limits(scale: u32, limits: RenderLimits) -> bool {
    f32_is_finite(scale) && !f32_lt(scale, limits.min_scale) && !f32_lt(limits.max_scale, scale)
}

pub open spec fn source_limit_message(limit: usize) -> Seq<char> {
    "Source exceeds "@ + decimal(limit as nat) + " UTF 8 bytes"@
}

pub open spec fn width_limit_message(limit: u32) -> Seq<char> {
    "Maximum width must be between 1 and "@ + decimal(limit as nat) + " pixels"@
}

/// The first contract violation of a request, as an error code and message.
pub open spec fn request_failure(r: RenderRequest, limits: RenderLimits) -> Option<(RenderErrorCode, Seq<char>)> {
    if r.source@.len() == 0 {
        Some((RenderErrorCode::InvalidRequest, "Source must not be empty"@))
    } else if utf8_len(r.source@) > limits.max_source_bytes {
        Some((RenderErrorCode::InputLimitExceeded, source_limit_message(limits.max_source_bytes)))
    } else if has_unsafe_control(r.source@) {
        Some((RenderErrorCode::InvalidRequest, "Source contains an unsupported control character"@))
    } else if !scale_in_limits(r.scale, limits) {
        Some((RenderErrorCode::InvalidRequest, "Scale is outside the configured bounds"@))
    } else if r.max_width_px == 0 || r.max_width_px > limits.max_width_px {
        Some((RenderErrorCode::InvalidRequest, width_limit_message(limits.max_width_px)))
    } else {
        None
    }
}

/// A validation result that reports exactly the given failure.
pub open spec fn reports(r: Result<(), RenderError>, failure: Option<(RenderErrorCode, Seq<char>)>) -> bool {
    match failure {
        None => r is Ok,
        Some((code, message)) => r matches Err(e) && e.code == code && e.message@ == sanitized(message)
            && !e.retryable && e.position is None,
    }
}

/// An error with the given code and message, never retryable.
pub fn plain_error(code: RenderErrorCode, message: &str) -> (r: RenderError)
    ensures
        r.code == code,
        r.message@ == sanitized(message@),
        !r.retryable,
        r.position is None,
{
    RenderError::new(code, message, false)
}

impl RenderRequest {
    /// Validates the request against shared resource limits.
    pub fn validate(&self, limits: &RenderLimits) -> (r: Result<(), RenderError>)
        ensures
            reports(r, request_failure(*self, *limits)),
    {
        if self.source.as_str().is_empty() {
            return Err(plain_error(RenderErrorCode::InvalidRequest, "Source must not be empty"));
        }
        if self.source.as_str().as_bytes().len() > limits.max_source_bytes {
            let mut m = String::new();
            push_str(&mut m, "Source exceeds ");
            push_decimal(&mut m, limits.max_source_bytes as u64);
            push_str(&mut m, " UTF 8 bytes");
            return Err(plain_error(RenderErrorCode::InputLimitExceeded, m.as_str()));
        }
        let unsafe_control = contains_unsafe_control(self.source.as_str());
        assert(unsafe_control == has_unsafe_control(self.source@));
        if unsafe_control {
            return Err(
                plain_error(
                    RenderErrorCode::InvalidRequest,
                    "Source contains an unsupported control character",
                ),
            );
        }
        if !f32_bits_is_finite(self.scale) || f32_bits_lt(self.scale, limits.min_scale)
            || f32_bits_lt(limits.max_scale, self.scale) {
            return Err(plain_error(RenderErrorCode::InvalidRequest, "Scale is outside the configured bounds"));
        }
        if self.max_width_px == 0 || self.max_width_px > limits.max_width_px {
            let mut m = String::new();
            push_str(&mut m, "Maximum width must be between 1 and ");
            push_decimal(&mut m, limits.max_width_px as u64);
            push_str(&mut m, " pixels");
            return Err(plain_error(RenderErrorCode::InvalidRequest, m.as_str()));
        }
        Ok(())
    }
}

} // verus!
