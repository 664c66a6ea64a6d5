//! The chaining buffer: accumulates an inbound multi-APDU request and holds a
//! pending outbound response awaiting GET RESPONSE pulls. Request and Response
//! states are mutually exclusive by construction.
use crate::command::Command;
use crate::RESPONSE_CAP;
use vstd::prelude::*;

verus! {

/// The buffer holds nothing, an assembled (possibly partial) inbound command,
/// or a pending outbound payload being drained.
pub enum RawApduBuffer {
    Empty,
    Request(Command),
    Response(Vec<u8>),
}

pub struct ApduBuffer {
    pub raw: RawApduBuffer,
}

/// Mathematical view of the buffer's contents.
pub enum BufView {
    Empty,
    Request(crate::command::CmdView),
    Response(Seq<u8>),
}

/// What folding a command's data into a pending request yields: the pending
/// header stays, the data is appended when it fits the command buffer and is
/// dropped whole when it does not.
pub open spec fn folded_request(c0: crate::command::CmdView, d: Seq<u8>) -> crate::command::CmdView {
    crate::command::CmdView {
        cla: c0.cla,
        ins: c0.ins,
        p1: c0.p1,
        p2: c0.p2,
        data: if c0.data.len() + d.len() <= RESPONSE_CAP {
            c0.data + d
        } else {
            c0.data
        },
        le: c0.le,
        extended: c0.extended,
    }
}

pub open spec fn buf_view(raw: RawApduBuffer) -> BufView {
    match raw {
        RawApduBuffer::Empty => BufView::Empty,
        RawApduBuffer::Request(c) => BufView::Request(c@),
        RawApduBuffer::Response(b) => BufView::Response(b@),
    }
}

impl ApduBuffer {
    pub open spec fn wf(self) -> bool {
        match self.raw {
            RawApduBuffer::Empty => true,
            RawApduBuffer::Request(c) => c.wf(),
            RawApduBuffer::Response(b) => b@.len() <= RESPONSE_CAP,
        }
    }

    /// Fold an arriving command into the buffer. Onto an existing request the
    /// new command's data is appended (the header of the first block stays);
    /// data that would overflow the command buffer is dropped whole. Anything
    /// else, a pending response included, is replaced by a request seeded from
    /// the command.
    pub fn request(&mut self, command: &Command)
        requires
            command.wf(),
            old(self).wf(),
        ensures
            final(self).wf(),
            final(self).raw matches RawApduBuffer::Request(c1) && c1@ == (match old(self).raw {
                RawApduBuffer::Request(c0) => folded_request(c0@, command@.data),
                _ => command@,
            }),
    {
        let mut cur = RawApduBuffer::Empty;
        core::mem::swap(&mut cur, &mut self.raw);
        match cur {
            RawApduBuffer::Request(mut buffered) => {
                let ghost base = buffered.data@;
                if buffered.data.len() + command.data.len() <= RESPONSE_CAP {
                    let mut k: usize = 0;
                    let n = command.data.len();
                    while k < n
                        invariant
                            0 <= k <= n,
                            n == command.data@.len(),
                            base.len() + n <= RESPONSE_CAP,
                            buffered.data@ =~= base + command.data@.take(k as int),
                            buffered.cla == old(self).raw->Request_0.cla,
                            buffered.ins == old(self).raw->Request_0.ins,
                            buffered.p1 == old(self).raw->Request_0.p1,
                            buffered.p2 == old(self).raw->Request_0.p2,
                            buffered.le == old(self).raw->Request_0.le,
                            buffered.extended == old(self).raw->Request_0.extended,
                        decreases n - k,
                    {
                        buffered.data.push(command.data[k]);
                        k = k + 1;
                    }
                    assert(buffered.data@ =~= base + command.data@);
                }
                self.raw = RawApduBuffer::Request(buffered);
            },
            _ => {
                let seeded = Command {
                    cla: command.cla,
                    ins: command.ins,
                    p1: command.p1,
                    p2: command.p2,
                    data: crate::command::copy_range(&command.data, 0, command.data.len()),
                    le: command.le,
                    extended: command.extended,
                };
                assert(seeded@.data =~= command@.data);
                self.raw = RawApduBuffer::Request(seeded);
            },
        }
    }

    /// Unconditionally hold `response` as the pending outbound payload.
    pub fn response(&mut self, response: &Vec<u8>)
        requires
            response@.len() <= RESPONSE_CAP,
        ensures
            final(self).wf(),
            final(self).raw matches RawApduBuffer::Response(b) && b@ == response@,
    {
        let copy = crate::command::copy_range(response, 0, response.len());
        assert(copy@ =~= response@);
        self.raw = RawApduBuffer::Response(copy);
    }
}

} // verus!
