//! Versions of the SVG allowlist and of the rasterizer, used in cache invalidation.

use vstd::prelude::*;

verus! {

/// The sanitizer policy version used in cache invalidation.
pub const SVG_POLICY_VERSION: u32 = 1;

/// The sanitizer policy label used in cache invalidation.
pub const SVG_POLICY_VERSION_LABEL: &'static str = "svg-allowlist-1";

/// The rasterizer implementation version used in cache invalidation.
pub const RASTERIZER_VERSION: &'static str = "resvg-0.48.1-policy-1";

/// The fitted rasterizer version used in terminal cache invalidation.
pub const FITTED_RASTERIZER_VERSION: &'static str = "resvg-0.48.1-fit-policy-1";

} // verus!
