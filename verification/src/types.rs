//! Plain data carried across the dispatcher: the transport interface tag and
//! the ISO 7816-4 status word.
use vstd::prelude::*;

verus! {

/// Physical transport a message arrived on.
#[derive(Clone, Copy, PartialEq, Eq, Structural, Debug)]
pub enum Interface {
    Contact,
    Contactless,
}

/// ISO 7816-4 status word, the two-byte trailer of every response.
#[derive(Clone, Copy, PartialEq, Eq, Structural, Debug)]
pub enum Status {
    /// 0x9000: command completed.
    Success,
    /// 0x6100 + n: more response data is available (n == 0 means over 255 bytes).
    MoreAvailable(u8),
    /// 0x6A80: incorrect data parameter (for one, a malformed AID in a SELECT).
    IncorrectDataParameter,
    /// 0x6A82: file or application not found.
    NotFound,
    /// 0x6F00: unspecified checking error (malformed APDU, spurious GET RESPONSE).
    UnspecifiedCheckingError,
    /// 0x6400: unspecified non-persistent execution error (cross-interface interleave).
    UnspecifiedNonpersistentExecutionError,
    /// 0x6982: security status not satisfied.
    SecurityStatusNotSatisfied,
    /// Any other status word an application reports; passed through verbatim.
    Other(u16),
}

/// The two big-endian bytes of a status word.
pub open spec fn sw_bytes(sw: u16) -> Seq<u8> {
    seq![(sw / 256) as u8, (sw % 256) as u8]
}

impl Status {
    /// The numeric status word this variant stands for.
    pub open spec fn spec_sw(self) -> u16 {
        match self {
            Status::Success => 0x9000,
            Status::MoreAvailable(n) => (0x6100 + n) as u16,
            Status::IncorrectDataParameter => 0x6a80,
            Status::NotFound => 0x6a82,
            Status::UnspecifiedCheckingError => 0x6f00,
            Status::UnspecifiedNonpersistentExecutionError => 0x6400,
            Status::SecurityStatusNotSatisfied => 0x6982,
            Status::Other(sw) => sw,
        }
    }

    /// The wire form of this status alone: the two status bytes.
    pub open spec fn spec_bytes(self) -> Seq<u8> {
        sw_bytes(self.spec_sw())
    }

    pub fn sw(self) -> (r: u16)
        ensures
            r == self.spec_sw(),
    {
        match self {
            Status::Success => 0x9000,
            Status::MoreAvailable(n) => 0x6100 + (n as u16),
            Status::IncorrectDataParameter => 0x6a80,
            Status::NotFound => 0x6a82,
            Status::UnspecifiedCheckingError => 0x6f00,
            Status::UnspecifiedNonpersistentExecutionError => 0x6400,
            Status::SecurityStatusNotSatisfied => 0x6982,
            Status::Other(sw) => sw,
        }
    }

    /// A whole response message that carries no data, only this status.
    pub fn to_message(self) -> (r: Vec<u8>)
        ensures
            r@ == self.spec_bytes(),
    {
        let sw = self.sw();
        let mut message: Vec<u8> = Vec::new();
        message.push((sw / 256) as u8);
        message.push((sw % 256) as u8);
        assert(message@ =~= sw_bytes(sw));
        message
    }
}

} // verus!
