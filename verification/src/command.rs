//! The APDU codec: a parsed command, its mathematical view, and the parser
//! from raw transport bytes (ISO 7816-4 short and extended encodings).
use crate::types::Status;
use crate::RESPONSE_CAP;
use vstd::prelude::*;

verus! {

/// Mathematical view of a parsed command APDU.
pub struct CmdView {
    pub cla: u8,
    pub ins: u8,
    pub p1: u8,
    pub p2: u8,
    pub data: Seq<u8>,
    pub le: nat,
    pub extended: bool,
}

/// A parsed ISO 7816-4 command APDU.
#[derive(Clone, Debug)]
pub struct Command {
    pub cla: u8,
    pub ins: u8,
    pub p1: u8,
    pub p2: u8,
    pub data: Vec<u8>,
    pub le: usize,
    pub extended: bool,
}

impl View for Command {
    type V = CmdView;

    open spec fn view(&self) -> CmdView {
        CmdView {
            cla: self.cla,
            ins: self.ins,
            p1: self.p1,
            p2: self.p2,
            data: self.data@,
            le: self.le as nat,
            extended: self.extended,
        }
    }
}

impl Command {
    /// The command data fits the command buffer the applications negotiate.
    pub open spec fn wf(self) -> bool {
        self.data@.len() <= RESPONSE_CAP
    }
}

/// The chaining bit of a class byte: set on every block but the last.
pub open spec fn chain_not_last(cla: u8) -> bool {
    cla & 0x10 != 0
}

/// INS of SELECT.
pub const INS_SELECT: u8 = 0xa4;

/// INS of GET RESPONSE.
pub const INS_GET_RESPONSE: u8 = 0xc0;

/// Lengths decoded from an APDU body: command data length, expected response
/// length, offset of the data field within the body, and whether the body
/// uses the extended encoding.
pub struct BodyLengths {
    pub lc: nat,
    pub le: nat,
    pub offset: nat,
    pub extended: bool,
}

pub open spec fn be16(hi: u8, lo: u8) -> nat {
    (hi as nat) * 256 + (lo as nat)
}

/// Zero in a length field encodes the maximum the field can express.
pub open spec fn nonzero_or(v: nat, replacement: nat) -> nat {
    if v == 0 {
        replacement
    } else {
        v
    }
}

/// Decoding of the body that follows the four header bytes
/// (ISO 7816-3 12.1.3, cases 1, 2S, 3S, 4S, 2E, 3E, 4E).
pub open spec fn spec_parse_lengths(body: Seq<u8>) -> Option<BodyLengths> {
    let l = body.len() as int;
    if l == 0 {
        Some(BodyLengths { lc: 0, le: 0, offset: 0, extended: false })
    } else {
        let b1 = body[0] as int;
        if l == 1 {
            Some(BodyLengths { lc: 0, le: nonzero_or(body[0] as nat, 256), offset: 0, extended: false })
        } else if b1 != 0 && l == 1 + b1 {
            Some(BodyLengths { lc: b1 as nat, le: 0, offset: 1, extended: false })
        } else if b1 != 0 && l == 2 + b1 {
            Some(BodyLengths {
                lc: b1 as nat,
                le: nonzero_or(body[l - 1] as nat, 256),
                offset: 1,
                extended: false,
            })
        } else if b1 != 0 {
            None
        } else if l < 3 {
            None
        } else if l == 3 {
            Some(BodyLengths {
                lc: 0,
                le: nonzero_or(be16(body[1], body[2]), 65536),
                offset: 0,
                extended: true,
            })
        } else {
            let lc = be16(body[1], body[2]) as int;
            if l == 3 + lc {
                Some(BodyLengths { lc: lc as nat, le: 0, offset: 3, extended: true })
            } else if l == 5 + lc {
                Some(BodyLengths {
                    lc: lc as nat,
                    le: nonzero_or(be16(body[l - 2], body[l - 1]), 65536),
                    offset: 3,
                    extended: true,
                })
            } else {
                None
            }
        }
    }
}

/// What a raw transport message parses to: the command view on success, or
/// nothing when the message is too short, carries the invalid class 0xFF,
/// has an inconsistent body, or holds more data than the command buffer.
pub open spec fn spec_parse(msg: Seq<u8>) -> Option<CmdView> {
    if msg.len() < 4 {
        None
    } else if msg[0] == 0xff {
        None
    } else {
        let body = msg.skip(4);
        match spec_parse_lengths(body) {
            Option::None => None,
            Option::Some(bl) => {
                if bl.lc > RESPONSE_CAP {
                    None
                } else {
                    Some(CmdView {
                        cla: msg[0],
                        ins: msg[1],
                        p1: msg[2],
                        p2: msg[3],
                        data: body.subrange(bl.offset as int, bl.offset + bl.lc as int),
                        le: bl.le,
                        extended: bl.extended,
                    })
                }
            },
        }
    }
}

/// Copy `src[from..to]` into a fresh vector.
pub fn copy_range(src: &Vec<u8>, from: usize, to: usize) -> (r: Vec<u8>)
    requires
        from <= to <= src@.len(),
    ensures
        r@ == src@.subrange(from as int, to as int),
{
    let mut out: Vec<u8> = Vec::new();
    let mut k: usize = from;
    while k < to
        invariant
            from <= k <= to <= src@.len(),
            out@ =~= src@.subrange(from as int, k as int),
        decreases to - k,
    {
        out.push(src[k]);
        k = k + 1;
    }
    assert(out@ =~= src@.subrange(from as int, to as int));
    out
}

/// Parse a raw transport message as a command APDU. Every malformed message
/// is rejected with the opaque checking error, as ISO opacity asks.
pub fn parse_apdu(msg: &Vec<u8>) -> (r: Result<Command, Status>)
    ensures
        match r {
            Ok(c) => spec_parse(msg@) == Some(c@) && c.wf(),
            Err(s) => spec_parse(msg@) is None && s == Status::UnspecifiedCheckingError,
        },
{
    let fail: Status = Status::UnspecifiedCheckingError;
    if msg.len() < 4 {
        return Err(fail);
    }
    let cla = msg[0];
    if cla == 0xff {
        return Err(fail);
    }
    let ins = msg[1];
    let p1 = msg[2];
    let p2 = msg[3];
    let total = msg.len();
    let l = total - 4;
    let ghost body = msg@.skip(4);
    assert(body.len() == l);
    assert(forall|i: int| 0 <= i < body.len() ==> body[i] == msg@[i + 4]);

    let lc: usize;
    let le: usize;
    let offset: usize;
    let extended: bool;
    if l == 0 {
        lc = 0;
        le = 0;
        offset = 0;
        extended = false;
    } else {
        let b1 = msg[4] as usize;
        if l == 1 {
            lc = 0;
            le = if b1 == 0 { 256 } else { b1 };
            offset = 0;
            extended = false;
        } else if b1 != 0 && l == 1 + b1 {
            lc = b1;
            le = 0;
            offset = 1;
            extended = false;
        } else if b1 != 0 && l == 2 + b1 {
            let last = msg[total - 1] as usize;
            lc = b1;
            le = if last == 0 { 256 } else { last };
            offset = 1;
            extended = false;
        } else if b1 != 0 {
            return Err(fail);
        } else if l < 3 {
            return Err(fail);
        } else if l == 3 {
            let v = (msg[5] as usize) * 256 + (msg[6] as usize);
            lc = 0;
            le = if v == 0 { 65536 } else { v };
            offset = 0;
            extended = true;
        } else {
            let lcv = (msg[5] as usize) * 256 + (msg[6] as usize);
            if l == 3 + lcv {
                lc = lcv;
                le = 0;
                offset = 3;
                extended = true;
            } else if l == 5 + lcv {
                let v = (msg[total - 2] as usize) * 256 + (msg[total - 1] as usize);
                lc = lcv;
                le = if v == 0 { 65536 } else { v };
                offset = 3;
                extended = true;
            } else {
                return Err(fail);
            }
        }
    }
    assert(spec_parse_lengths(body) matches Some(bl) && bl.lc == lc && bl.le == le
        && bl.offset == offset && bl.extended == extended);
    if lc > RESPONSE_CAP {
        return Err(fail);
    }
    assert(offset + lc <= l);
    let data = copy_range(msg, 4 + offset, 4 + offset + lc);
    let c = Command { cla, ins, p1, p2, data, le, extended };
    assert(c@.data =~= body.subrange(offset as int, offset + lc));
    assert(spec_parse(msg@) matches Some(v) && v == c@);
    Ok(c)
}

} // verus!
