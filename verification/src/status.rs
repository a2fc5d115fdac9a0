//! The handful of HTTP status codes the layer decides with. Statuses
//! travel through the layer as plain `u16` values; the engine's
//! transport types stay outside.

use vstd::prelude::*;

verus! {

/// 200: the operation succeeded.
pub const STATUS_OK: u16 = 200;

/// 201: the resource was created.
pub const STATUS_CREATED: u16 = 201;

/// 207: a bulk call wrote some items and failed others.
pub const STATUS_MULTI_STATUS: u16 = 207;

/// 400: the engine rejected the payload.
pub const STATUS_BAD_REQUEST: u16 = 400;

/// 404: the target does not exist.
pub const STATUS_NOT_FOUND: u16 = 404;

/// 409: a create collided with an existing resource.
pub const STATUS_CONFLICT: u16 = 409;

/// 503: the engine cannot be reached.
pub const STATUS_SERVICE_UNAVAILABLE: u16 = 503;

/// Whether a status is a success, as `StatusCode::is_success` counts
/// it: the 2xx range.
pub open spec fn spec_is_success(status: u16) -> bool {
    200 <= status < 300
}

/// Whether a status lies in the 2xx success range.
pub fn is_success_status(status: u16) -> (r: bool)
    ensures
        r == spec_is_success(status),
{
    200 <= status && status < 300
}

} // verus!
