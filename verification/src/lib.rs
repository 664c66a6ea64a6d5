//! APDU dispatch: multiplexes a contact and a contactless smartcard transport
//! onto a single AID-selected application out of a caller-supplied roster.
//!
//! The dispatcher guarantees that at most one application is selected at a
//! time, assembles command chains on ingress, and drains oversized responses
//! through GET RESPONSE pulls on egress.
use vstd::prelude::*;

pub mod aid;
pub mod app;
pub mod buffer;
pub mod command;
pub mod dispatch;
pub mod events;
pub mod laws;
pub mod port;
pub mod types;

verus! {

/// Largest message the interchange transport carries in one direction.
pub const INTERCHANGE_CAP: usize = 1024;

/// Capacity of the application-facing response buffer, and of the command
/// buffer that accumulates chained request data.
pub const RESPONSE_CAP: usize = 1024;

/// Largest response-data chunk that fits in an interchange message alongside
/// the two status-word bytes: the smaller of the two capacities, less two.
pub const MAX_INTERCHANGE_DATA: usize = INTERCHANGE_CAP - 2;

/// The chunk bound really is the smaller capacity less the two status bytes;
/// checked here so that a change of either capacity cannot silently break it.
pub proof fn lemma_chunk_bound_is_min()
    ensures
        MAX_INTERCHANGE_DATA == vstd::math::min(INTERCHANGE_CAP as int, RESPONSE_CAP as int) - 2,
{
}

} // verus!
