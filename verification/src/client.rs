//! The values the render client derives for each request.

use vstd::prelude::*;

use crate::cache_key::{CacheKeyContext, cache_key, derive_cache_key};
use crate::client_config::WorkerClientConfig;
use crate::client_protocol::WORKER_PROTOCOL_VERSION;
use crate::request::RenderRequest;
use crate::svg_policy::SVG_POLICY_VERSION_LABEL;
use crate::text::{decimal, owned, push_decimal};

verus! {

/// The cache key of a request rendered by the worker as SVG only.
pub fn client_cache_key(config: &WorkerClientConfig, request: &RenderRequest) -> (r: String)
    ensures
        exists|c: CacheKeyContext|
            {
                &&& c.protocol_version == WORKER_PROTOCOL_VERSION
                &&& c.renderer_version@ == config.expected_renderer_version@
                &&& c.macro_policy_version@ == config.macro_policy_version@
                &&& c.sanitizer_version@ == SVG_POLICY_VERSION_LABEL@
                &&& c.rasterizer_version@ == "none"@
                &&& r@ == #[trigger] cache_key(*request, c)
            },
{
    let context = CacheKeyContext {
        protocol_version: WORKER_PROTOCOL_VERSION,
        renderer_version: config.expected_renderer_version.as_str(),
        macro_policy_version: config.macro_policy_version.as_str(),
        sanitizer_version: SVG_POLICY_VERSION_LABEL,
        rasterizer_version: "none",
    };
    derive_cache_key(request, context)
}

/// The correlation id of the `n`th job: `eq-` and the number.
pub fn job_id(n: u64) -> (r: String)
    ensures
        r@ == "eq-"@ + decimal(n as nat),
{
    let mut id = owned("eq-");
    push_decimal(&mut id, n);
    id
}

} // verus!
