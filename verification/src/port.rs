//! The transport endpoints: the responder half of an interchange channel, one
//! per physical interface. The channel is a lower-layer rendezvous driven
//! concurrently by the host-side requester, so nothing about its state or its
//! contents can be pinned down here; each wrapper states only what holds of
//! every outcome.
use vstd::prelude::*;

verus! {

/// The responder half of an interchange channel, carrying raw byte messages
/// both ways.
pub type Port<'pipe> = interchange::Responder<'pipe, Vec<u8>, Vec<u8>>;

#[verifier::external_type_specification]
#[verifier::external_body]
#[verifier::reject_recursive_types(Rq)]
#[verifier::reject_recursive_types(Rp)]
pub struct ExResponder<'i, Rq, Rp>(interchange::Responder<'i, Rq, Rp>);

/// Lifecycle state of a transport endpoint, as last observed. The requester
/// may move the channel concurrently, so an observation is informational only.
#[derive(Clone, Copy, PartialEq, Eq, Structural, Debug)]
pub enum PortState {
    Idle,
    BuildingRequest,
    Requested,
    BuildingResponse,
    Responded,
    Canceled,
}

/// Relies on interchange::Responder::state: reads the channel's lifecycle
/// state. The result is a momentary observation of a shared atomic.
#[verifier::external_body]
pub(crate) fn port_state(port: &Port<'_>) -> PortState {
    match port.state() {
        interchange::State::Idle => PortState::Idle,
        interchange::State::BuildingRequest => PortState::BuildingRequest,
        interchange::State::Requested => PortState::Requested,
        interchange::State::BuildingResponse => PortState::BuildingResponse,
        interchange::State::Responded => PortState::Responded,
        interchange::State::Canceled => PortState::Canceled,
    }
}

/// Relies on interchange::Responder::take_request: yields the pending request
/// bytes if the channel was in Requested, moving it to BuildingResponse, and
/// None otherwise. What the requester put there is arbitrary.
#[verifier::external_body]
pub(crate) fn take_request(port: &mut Port<'_>) -> Option<Vec<u8>> {
    port.take_request()
}

/// Relies on interchange::Responder::respond: hands the message to the
/// channel. True when the channel was in BuildingResponse and is Responded
/// now; false when the channel refused the message (out of state).
#[verifier::external_body]
pub(crate) fn respond(port: &mut Port<'_>, message: Vec<u8>) -> bool {
    port.respond(message).is_ok()
}

} // verus!
