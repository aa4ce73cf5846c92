//! Bounds of SVG to PNG rasterization and the checks made on PNG bytes.

use vstd::prelude::*;

use crate::error::{RenderError, RenderErrorCode, sanitized};
use crate::limits::{MAX_HEIGHT_PX, MAX_WIDTH_PX};

verus! {

/// Maximum uncompressed RGBA allocation for one raster.
pub const MAX_RGBA_BYTES: usize = 33554432;

/// Maximum encoded PNG bytes accepted from the rasterizer.
pub const MAX_PNG_BYTES: usize = 34603008;

/// Resource limits for one raster operation.
#[derive(Clone, Copy, Debug, PartialEq, Eq, Structural)]
pub struct RasterLimits {
    /// Maximum output width in pixels.
    pub max_width_px: u32,
    /// Maximum output height in pixels.
    pub max_height_px: u32,
    /// Maximum uncompressed RGBA allocation.
    pub max_rgba_bytes: usize,
    /// Maximum encoded PNG length.
    pub max_png_bytes: usize,
}

impl Default for RasterLimits {
    fn default() -> (r: Self)
        ensures
            r == (RasterLimits {
                max_width_px: MAX_WIDTH_PX,
                max_height_px: MAX_HEIGHT_PX,
                max_rgba_bytes: MAX_RGBA_BYTES,
                max_png_bytes: MAX_PNG_BYTES,
            }),
    {
        RasterLimits {
            max_width_px: MAX_WIDTH_PX,
            max_height_px: MAX_HEIGHT_PX,
            max_rgba_bytes: MAX_RGBA_BYTES,
            max_png_bytes: MAX_PNG_BYTES,
        }
    }
}

/// Requested raster dimensions.
#[derive(Clone, Copy, Debug, PartialEq, Eq, Structural)]
pub struct RasterRequest {
    /// Output width in pixels.
    pub width_px: u32,
    /// Output height in pixels.
    pub height_px: u32,
}

/// Pixel rectangle reserved for equation content inside a raster canvas.
#[derive(Clone, Copy, Debug, PartialEq, Eq, Structural)]
pub struct RasterRect {
    /// Horizontal offset from the canvas origin.
    pub x_px: u32,
    /// Vertical offset from the canvas origin.
    pub y_px: u32,
    /// Available content width.
    pub width_px: u32,
    /// Available content height.
    pub height_px: u32,
}

/// Requested canvas and content rectangle for aspect preserving rasterization.
#[derive(Clone, Copy, Debug, PartialEq, Eq, Structural)]
pub struct FittedRasterRequest {
    /// Transparent canvas width.
    pub canvas_width_px: u32,
    /// Transparent canvas height.
    pub canvas_height_px: u32,
    /// Rectangle that bounds uniformly scaled equation content.
    pub content: RasterRect,
}

/// Encoded transparent PNG and its dimensions.
#[derive(Clone, Debug, PartialEq, Eq)]
pub struct PngImage {
    /// Encoded PNG bytes.
    pub bytes: Vec<u8>,
    /// Image width in pixels.
    pub width_px: u32,
    /// Image height in pixels.
    pub height_px: u32,
}

/// An output limit failure with the given message, never retryable.
pub open spec fn is_limit_error(e: RenderError, message: Seq<char>) -> bool {
    e.code == RenderErrorCode::OutputLimitExceeded && e.message@ == sanitized(message) && !e.retryable
        && e.position is None
}

/// A malformed PNG failure.
pub open spec fn is_malformed_png(e: RenderError) -> bool {
    e.code == RenderErrorCode::UnsafeOutput && e.message@ == sanitized("Raster PNG is malformed"@) && !e.retryable
        && e.position is None
}

/// Dimensions within the limits, with an RGBA buffer within the allocation limit.
pub open spec fn request_fits(r: RasterRequest, l: RasterLimits) -> bool {
    &&& 0 < r.width_px <= l.max_width_px
    &&& 0 < r.height_px <= l.max_height_px
    &&& r.width_px * r.height_px * 4 <= usize::MAX
    &&& r.width_px * r.height_px * 4 <= l.max_rgba_bytes
    &&& l.max_png_bytes != 0
}

/// Checks raster dimensions against the limits.
pub fn validate_request(request: RasterRequest, limits: RasterLimits) -> (r: Result<(), RenderError>)
    ensures
        request_fits(request, limits) ==> r is Ok,
        !request_fits(request, limits) ==> (r matches Err(e) && is_limit_error(
            e,
            "Raster dimensions exceed the configured limits"@,
        )),
{
    let w = request.width_px as u128;
    let h = request.height_px as u128;
    assert(w * h * 4 <= 0xffff_ffff * 0xffff_ffff * 4) by (nonlinear_arith)
        requires
            w <= 0xffff_ffff,
            h <= 0xffff_ffff,
    ;
    let rgba = w * h * 4;
    if request.width_px == 0 || request.width_px > limits.max_width_px || request.height_px == 0
        || request.height_px > limits.max_height_px || rgba > usize::MAX as u128 || rgba
        > limits.max_rgba_bytes as u128 || limits.max_png_bytes == 0 {
        return Err(
            RenderError::new(
                RenderErrorCode::OutputLimitExceeded,
                "Raster dimensions exceed the configured limits",
                false,
            ),
        );
    }
    Ok(())
}

/// A content rectangle that is not empty and lies inside its canvas.
pub open spec fn content_fits(r: FittedRasterRequest) -> bool {
    &&& r.content.width_px > 0
    &&& r.content.height_px > 0
    &&& r.content.x_px + r.content.width_px <= r.canvas_width_px
    &&& r.content.y_px + r.content.height_px <= r.canvas_height_px
}

/// Checks that the content rectangle lies inside the canvas.
pub fn validate_content_rect(request: FittedRasterRequest) -> (r: Result<(), RenderError>)
    ensures
        content_fits(request) ==> r is Ok,
        !content_fits(request) ==> (r matches Err(e) && is_limit_error(
            e,
            "Raster content rectangle falls outside its canvas"@,
        )),
{
    let right = request.content.x_px as u64 + request.content.width_px as u64;
    let bottom = request.content.y_px as u64 + request.content.height_px as u64;
    if request.content.width_px == 0 || request.content.height_px == 0 || right > request.canvas_width_px as u64
        || bottom > request.canvas_height_px as u64 {
        return Err(
            RenderError::new(
                RenderErrorCode::OutputLimitExceeded,
                "Raster content rectangle falls outside its canvas",
                false,
            ),
        );
    }
    Ok(())
}

/// The eight byte PNG signature.
pub open spec fn png_signature() -> Seq<u8> {
    seq![0x89u8, 0x50u8, 0x4eu8, 0x47u8, 0x0du8, 0x0au8, 0x1au8, 0x0au8]
}

/// A big endian 32 bit number at a position.
pub open spec fn be_u32(b: Seq<u8>, at: int) -> u32 {
    (b[at] as int * 0x100_0000 + b[at + 1] as int * 0x1_0000 + b[at + 2] as int * 0x100 + b[at + 3] as int) as u32
}

/// The dimensions a PNG header declares: the signature, then an `IHDR` chunk of
/// thirteen bytes whose first eight bytes are the width and height.
pub open spec fn png_header(b: Seq<u8>) -> Option<RasterRequest> {
    if b.len() < 33 || b.take(8) != png_signature() || b.subrange(8, 12) != seq![0u8, 0u8, 0u8, 13u8]
        || b.subrange(12, 16) != seq![0x49u8, 0x48u8, 0x44u8, 0x52u8] {
        None
    } else {
        Some(RasterRequest { width_px: be_u32(b, 16), height_px: be_u32(b, 20) })
    }
}

fn malformed_png() -> (r: RenderError)
    ensures
        is_malformed_png(r),
{
    RenderError::new(RenderErrorCode::UnsafeOutput, "Raster PNG is malformed", false)
}

fn read_be_u32(b: &[u8], at: usize) -> (r: u32)
    requires
        at + 4 <= b@.len(),
    ensures
        r == be_u32(b@, at as int),
{
    let v = (b[at] as u32) * 0x100_0000 + (b[at + 1] as u32) * 0x1_0000 + (b[at + 2] as u32) * 0x100 + (b[at + 3] as u32);
    v
}

/// Reads the dimensions a PNG header declares.
pub fn png_header_dimensions(png: &[u8]) -> (r: Result<RasterRequest, RenderError>)
    ensures
        match png_header(png@) {
            Some(d) => r == Ok::<RasterRequest, RenderError>(d),
            None => r matches Err(e) && is_malformed_png(e),
        },
{
    if png.len() < 33 {
        return Err(malformed_png());
    }
    let signature: [u8; 8] = [0x89u8, 0x50u8, 0x4eu8, 0x47u8, 0x0du8, 0x0au8, 0x1au8, 0x0au8];
    let chunk: [u8; 8] = [0u8, 0u8, 0u8, 13u8, 0x49u8, 0x48u8, 0x44u8, 0x52u8];
    let mut i: usize = 0;
    while i < 8
        invariant
            i <= 8,
            png@.len() >= 33,
            signature@ == png_signature(),
            forall|k: int| 0 <= k < i ==> png@[k] == signature@[k],
        decreases 8 - i,
    {
        if png[i] != signature[i] {
            assert(png@.take(8)[i as int] != png_signature()[i as int]);
            return Err(malformed_png());
        }
        i = i + 1;
    }
    assert(png@.take(8) =~= png_signature());
    let mut j: usize = 0;
    while j < 8
        invariant
            j <= 8,
            png@.len() >= 33,
            png@.take(8) == png_signature(),
            chunk@ == seq![0u8, 0u8, 0u8, 13u8, 0x49u8, 0x48u8, 0x44u8, 0x52u8],
            forall|k: int| 0 <= k < j ==> png@[8 + k] == chunk@[k],
        decreases 8 - j,
    {
        if png[8 + j] != chunk[j] {
            if j < 4 {
                assert(png@.subrange(8, 12)[j as int] != seq![0u8, 0u8, 0u8, 13u8][j as int]);
            } else {
                assert(png@.subrange(12, 16)[j - 4] != seq![0x49u8, 0x48u8, 0x44u8, 0x52u8][j - 4]);
            }
            return Err(malformed_png());
        }
        j = j + 1;
    }
    assert(png@.subrange(8, 12) =~= seq![0u8, 0u8, 0u8, 13u8]);
    assert(png@.subrange(12, 16) =~= seq![0x49u8, 0x48u8, 0x44u8, 0x52u8]);
    Ok(RasterRequest { width_px: read_be_u32(png, 16), height_px: read_be_u32(png, 20) })
}

/// The pixel dimensions tiny-skia decodes from PNG bytes, when it decodes them.
pub uninterp spec fn png_decoded_size(png: Seq<u8>) -> Option<(u32, u32)>;

/// Decodes PNG bytes with tiny-skia (`Pixmap::decode_png`) and returns the pixel
/// dimensions of the decoded image.
#[verifier::external_body]
fn decode_png_size(png: &[u8]) -> (r: Option<(u32, u32)>)
    ensures
        r == png_decoded_size(png@),
{
    resvg::tiny_skia::Pixmap::decode_png(png).ok().map(|p| (p.width(), p.height()))
}

/// The outcome of checking PNG bytes: their declared dimensions, or the failure as
/// an output limit (`true`) or a malformed PNG (`false`) with its message.
pub open spec fn png_outcome(png: Seq<u8>, l: RasterLimits) -> Result<RasterRequest, (bool, Seq<char>)> {
    if png.len() > l.max_png_bytes {
        Err((true, "Encoded PNG exceeds its byte limit"@))
    } else {
        match png_header(png) {
            None => Err((false, "Raster PNG is malformed"@)),
            Some(d) => if !request_fits(d, l) {
                Err((true, "Raster dimensions exceed the configured limits"@))
            } else if png_decoded_size(png) != Some((d.width_px, d.height_px)) {
                Err((false, "Raster PNG is malformed"@))
            } else {
                Ok(d)
            },
        }
    }
}

/// Validates bounded PNG bytes and returns their decoded dimensions.
pub fn validate_png(png: &[u8], limits: RasterLimits) -> (r: Result<RasterRequest, RenderError>)
    ensures
        match png_outcome(png@, limits) {
            Ok(d) => r == Ok::<RasterRequest, RenderError>(d),
            Err((true, m)) => r matches Err(e) && is_limit_error(e, m),
            Err((false, m)) => r matches Err(e) && is_malformed_png(e),
        },
{
    if png.len() > limits.max_png_bytes {
        return Err(
            RenderError::new(RenderErrorCode::OutputLimitExceeded, "Encoded PNG exceeds its byte limit", false),
        );
    }
    let request = png_header_dimensions(png)?;
    validate_request(request, limits)?;
    match decode_png_size(png) {
        Some((w, h)) => if w != request.width_px || h != request.height_px {
            Err(malformed_png())
        } else {
            Ok(request)
        },
        None => Err(malformed_png()),
    }
}

/// Accepts encoded PNG bytes of a raster when they fit the byte limit.
pub fn encoded_png(bytes: Vec<u8>, request: RasterRequest, limits: RasterLimits) -> (r: Result<PngImage, RenderError>)
    ensures
        bytes@.len() > limits.max_png_bytes ==> (r matches Err(e) && is_limit_error(e, "Encoded PNG exceeds its byte limit"@)),
        bytes@.len() <= limits.max_png_bytes ==> (r matches Ok(p) && p.bytes@ == bytes@ && p.width_px == request.width_px
            && p.height_px == request.height_px),
{
    if bytes.len() > limits.max_png_bytes {
        return Err(
            RenderError::new(RenderErrorCode::OutputLimitExceeded, "Encoded PNG exceeds its byte limit", false),
        );
    }
    Ok(PngImage { bytes, width_px: request.width_px, height_px: request.height_px })
}

} // verus!
