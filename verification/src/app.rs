//! The capability surface an application exposes to the dispatcher. Apps are
//! owned by the caller and re-lent to every poll step; the dispatcher drives
//! them only through this trait.
use crate::aid::{Aid, AidView};
use crate::command::Command;
use crate::types::{Interface, Status};
use crate::RESPONSE_CAP;
use vstd::prelude::*;

verus! {

pub trait App {
    /// The matcher this app advertises, as a mathematical value. It is fixed:
    /// nothing the dispatcher does changes it.
    spec fn aid_spec(&self) -> AidView;

    /// The AID matcher the app answers SELECT requests for.
    fn aid(&self) -> (r: Aid)
        ensures
            r@ == self.aid_spec(),
            r.wf(),
    ;

    /// The app becomes the card's bound application. `reply` is the app's
    /// response payload when the result is Ok; on Err the status word is
    /// returned to the host instead.
    fn select(&mut self, interface: Interface, command: &Command, reply: &mut Vec<u8>) -> (r:
        Result<(), Status>)
        ensures
            final(reply)@.len() <= RESPONSE_CAP,
            final(self).aid_spec() == old(self).aid_spec(),
    ;

    /// A non-SELECT command for the bound app.
    fn call(&mut self, interface: Interface, command: &Command, reply: &mut Vec<u8>) -> (r: Result<
        (),
        Status,
    >)
        ensures
            final(reply)@.len() <= RESPONSE_CAP,
            final(self).aid_spec() == old(self).aid_spec(),
    ;

    /// The app ceases to be bound; it may scrub sensitive state. Infallible.
    fn deselect(&mut self)
        ensures
            final(self).aid_spec() == old(self).aid_spec(),
    ;
}

} // verus!
