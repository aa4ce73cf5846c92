use latex_render::error::RenderErrorCode;
use latex_render::raster::{
    encoded_png, png_header_dimensions, validate_content_rect, validate_png, validate_request, FittedRasterRequest,
    RasterLimits, RasterRect, RasterRequest, MAX_PNG_BYTES, MAX_RGBA_BYTES,
};

#[test]
fn zero_oversized_and_excessive_allocation_requests_fail() {
    for request in [
        RasterRequest { width_px: 0, height_px: 1 },
        RasterRequest { width_px: 4097, height_px: 1 },
        RasterRequest { width_px: 1, height_px: 2049 },
    ] {
        let error = validate_request(request, RasterLimits::default()).expect_err("invalid dimensions should fail");
        assert_eq!(error.code, RenderErrorCode::OutputLimitExceeded);
    }
    let limits = RasterLimits { max_rgba_bytes: 15, ..RasterLimits::default() };
    let error = validate_request(RasterRequest { width_px: 2, height_px: 2 }, limits).expect_err("allocation");
    assert_eq!(error.code, RenderErrorCode::OutputLimitExceeded);
    assert!(validate_request(RasterRequest { width_px: 4096, height_px: 2048 }, RasterLimits::default()).is_ok());
    assert_eq!(MAX_RGBA_BYTES, 4096 * 2048 * 4);
    assert_eq!(MAX_PNG_BYTES, MAX_RGBA_BYTES + 1024 * 1024);
}

#[test]
fn encoded_png_limit_is_enforced() {
    let limits = RasterLimits { max_png_bytes: 1, ..RasterLimits::default() };
    let error = encoded_png(vec![0, 1], RasterRequest { width_px: 64, height_px: 32 }, limits).expect_err("limit");
    assert_eq!(error.code, RenderErrorCode::OutputLimitExceeded);
    let image = encoded_png(vec![0], RasterRequest { width_px: 64, height_px: 32 }, limits).expect("fits");
    assert_eq!((image.width_px, image.height_px), (64, 32));
}

#[test]
fn invalid_fitted_content_rectangles_fail_closed() {
    let request = |x, y, w, h| FittedRasterRequest {
        canvas_width_px: 100,
        canvas_height_px: 100,
        content: RasterRect { x_px: x, y_px: y, width_px: w, height_px: h },
    };
    for bad in [request(0, 0, 0, 10), request(0, 0, 10, 0), request(91, 0, 10, 10), request(0, 95, 10, 10), request(u32::MAX, 0, 1, 1)] {
        let error = validate_content_rect(bad).expect_err("rectangle should fail");
        assert_eq!(error.code, RenderErrorCode::OutputLimitExceeded);
    }
    assert!(validate_content_rect(request(90, 90, 10, 10)).is_ok());
}

fn header(width: u32, height: u32) -> Vec<u8> {
    let mut png = b"\x89PNG\r\n\x1a\n\0\0\0\x0dIHDR".to_vec();
    png.extend_from_slice(&width.to_be_bytes());
    png.extend_from_slice(&height.to_be_bytes());
    png.extend_from_slice(&[8, 6, 0, 0, 0, 0, 0, 0, 0]);
    png
}

#[test]
fn malformed_and_oversized_png_bytes_fail_before_publication() {
    let error = validate_png(&[0u8; 16], RasterLimits::default()).expect_err("short");
    assert_eq!(error.code, RenderErrorCode::UnsafeOutput);
    let error = validate_png(&header(1, 1), RasterLimits { max_png_bytes: 8, ..RasterLimits::default() })
        .expect_err("limit");
    assert_eq!(error.code, RenderErrorCode::OutputLimitExceeded);
    let error = validate_png(&header(5000, 1), RasterLimits::default()).expect_err("dimensions");
    assert_eq!(error.code, RenderErrorCode::OutputLimitExceeded);
    let error = validate_png(&header(2, 3), RasterLimits::default()).expect_err("header only");
    assert_eq!(error.code, RenderErrorCode::UnsafeOutput);
    assert_eq!(png_header_dimensions(&header(2, 3)), Ok(RasterRequest { width_px: 2, height_px: 3 }));
    let mut wrong = header(2, 3);
    wrong[12] = b'J';
    assert!(png_header_dimensions(&wrong).is_err());
}
