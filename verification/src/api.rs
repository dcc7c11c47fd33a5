//! The compute half of the HTTP layer: status codes and error bodies for
//! each lifecycle error, and the health body. Routing and socket handling
//! live with the server around this library.
use crate::models::{ApiError, HealthResponse};
use crate::state::VmManagerError;
use vstd::prelude::*;

verus! {

/// HTTP status the API answers with for each error.
pub open spec fn error_status_spec(e: VmManagerError) -> u16 {
    match e {
        VmManagerError::VmNotFound(_) => 404u16,
        VmManagerError::VmAlreadyExists(_) => 409u16,
        VmManagerError::InvalidState { .. } => 400u16,
        VmManagerError::FirecrackerError(_) => 500u16,
        VmManagerError::PersistenceError(_) => 500u16,
    }
}

/// Stable error tag of the body, one per error kind.
pub open spec fn error_tag_spec(e: VmManagerError) -> Seq<char> {
    match e {
        VmManagerError::VmNotFound(_) => "not_found"@,
        VmManagerError::VmAlreadyExists(_) => "conflict"@,
        VmManagerError::InvalidState { .. } => "invalid_state"@,
        VmManagerError::FirecrackerError(_) => "firecracker_error"@,
        VmManagerError::PersistenceError(_) => "persistence_error"@,
    }
}

/// Maps a lifecycle error one-to-one to the HTTP status and error body.
pub fn error_to_response(error: &VmManagerError) -> (r: (u16, ApiError))
    ensures
        r.0 == error_status_spec(*error),
        r.1.error@ == error_tag_spec(*error),
        r.1.message@ == error.spec_message(),
{
    let message = error.message();
    match error {
        VmManagerError::VmNotFound(_) => (404, ApiError::new("not_found", message)),
        VmManagerError::VmAlreadyExists(_) => (409, ApiError::new("conflict", message)),
        VmManagerError::InvalidState { .. } => (400, ApiError::new("invalid_state", message)),
        VmManagerError::FirecrackerError(_) => (500, ApiError::new("firecracker_error", message)),
        VmManagerError::PersistenceError(_) => (500, ApiError::new("persistence_error", message)),
    }
}

/// Body of the health endpoint: always `ok`.
pub fn health_check() -> (r: HealthResponse)
    ensures
        r.status@ == "ok"@,
{
    HealthResponse::ok()
}

} // verus!
