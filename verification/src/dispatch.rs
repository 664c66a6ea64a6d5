//! The dispatcher: owns the two transport endpoints and the chaining buffer,
//! pins a transaction to one interface, binds at most one application at a
//! time, and drives ingress chaining and egress chunking.
//!
//! Every poll step records what it did in a ghost event history (requests
//! taken, messages emitted, app lifecycle calls), over which the contracts
//! and the laws of this crate are stated.
use crate::aid::{aid_len_ok, aid_matches, Aid};
use crate::app::App;
use crate::buffer::{buf_view, folded_request, ApduBuffer, BufView, RawApduBuffer};
use crate::command::{chain_not_last, parse_apdu, spec_parse, CmdView, Command, INS_GET_RESPONSE, INS_SELECT};
use crate::events::{
    bound_set, drain_boundary, drain_sw, live_aids, lemma_live_select, lemma_live_deselect,
    lemma_live_unchanged_by_call, lemma_live_unchanged_by_io, permitted_chunk, Event,
};
use crate::port::{port_state, Port, PortState};
use crate::types::{sw_bytes, Interface, Status};
use crate::{MAX_INTERCHANGE_DATA, RESPONSE_CAP};
use vstd::prelude::*;

verus! {

/// What an accepted ingress message asks the dispatcher to do.
pub enum RequestType {
    /// A SELECT by AID, to be routed to the matching app.
    Select(Aid, Interface),
    /// A GET RESPONSE pull against the pending response buffer.
    GetResponse,
    /// Any other command, for the currently bound app.
    NewCommand(Interface),
    /// A structurally broken command; the status is returned to the host.
    BadCommand(Status),
    /// Nothing for the application layer to consume this step.
    NoRequest,
}

pub struct ApduDispatch<'pipe> {
    current_aid: Option<Aid>,
    contact: Port<'pipe>,
    contactless: Port<'pipe>,
    interface: Option<Interface>,
    buffer: ApduBuffer,
    response_len_expected: usize,
    was_request_chained: bool,
    events: Ghost<Seq<Event>>,
}

impl<'pipe> ApduDispatch<'pipe> {
    /// The ghost history of everything this dispatcher did.
    pub closed spec fn log(&self) -> Seq<Event> {
        self.events@
    }

    /// The AID bytes of the currently bound application, if any.
    pub closed spec fn bound_aid(&self) -> Option<Seq<u8>> {
        match self.current_aid {
            Option::Some(a) => Some(a@.bytes),
            Option::None => None,
        }
    }

    /// The interface the current transaction is pinned to, if any.
    pub closed spec fn pinned(&self) -> Option<Interface> {
        self.interface
    }

    /// The chaining buffer's contents.
    pub closed spec fn buf(&self) -> BufView {
        buf_view(self.buffer.raw)
    }

    /// The Le of the most recent non-chained command.
    pub closed spec fn expected_len(&self) -> nat {
        self.response_len_expected as nat
    }

    /// Whether the current request arrived chained (forces chunked replies).
    pub closed spec fn req_chained(&self) -> bool {
        self.was_request_chained
    }

    /// Dispatcher validity: the buffer respects its capacity, a non-empty
    /// buffer pins an interface, the bound AID is well formed, and the event
    /// history shows exactly the bound app as selected-and-not-deselected.
    pub closed spec fn wf(&self) -> bool {
        &&& self.buffer.wf()
        &&& !(self.buffer.raw is Empty) ==> self.interface is Some
        &&& (self.current_aid matches Some(a) ==> a.wf())
        &&& live_aids(self.events@) == bound_set(self.bound_aid())
    }

    /// The bound app, if there is one, is in the roster `apps`.
    pub open spec fn bound_app_present<A: App>(&self, apps: Seq<A>) -> bool {
        self.bound_aid() matches Some(b) ==> exists|k: int|
            0 <= k < apps.len() && aid_matches(#[trigger] apps[k].aid_spec(), b)
    }

    /// A fresh dispatcher: nothing bound, nothing pinned, empty buffer.
    pub fn new(contact: Port<'pipe>, contactless: Port<'pipe>) -> (r: ApduDispatch<'pipe>)
        ensures
            r.wf(),
            r.log() == Seq::<Event>::empty(),
            r.bound_aid() is None,
            r.pinned() is None,
            r.buf() is Empty,
            r.expected_len() == 0,
            !r.req_chained(),
    {
        let r = ApduDispatch {
            current_aid: None,
            contact,
            contactless,
            interface: None,
            was_request_chained: false,
            response_len_expected: 0,
            buffer: ApduBuffer { raw: RawApduBuffer::Empty },
            events: Ghost(Seq::empty()),
        };
        proof {
            assert(live_aids(r.events@) =~= bound_set(r.bound_aid()));
        }
        r
    }

    /// Classify a parsed command: a SELECT by AID (with the AID validated),
    /// a GET RESPONSE, or a command for the bound app.
    fn apdu_type(command: &Command, interface: Interface) -> (r: RequestType)
        ensures
            is_select_by_aid(command@) && aid_len_ok(command@.data) ==> (r matches
                RequestType::Select(a, j) && a@.bytes == command@.data && a@.truncated
                == command@.data.len() && a.wf() && j == interface),
            is_select_by_aid(command@) && !aid_len_ok(command@.data) ==> r
                == RequestType::BadCommand(Status::IncorrectDataParameter),
            !is_select_by_aid(command@) && command@.ins == 0xc0 ==> r == RequestType::GetResponse,
            !is_select_by_aid(command@) && command@.ins != 0xc0 ==> r == RequestType::NewCommand(
                interface,
            ),
    {
        if command.ins == INS_SELECT && command.p1 & 0x04 != 0 {
            match Aid::try_new(&command.data) {
                Some(aid) => RequestType::Select(aid, interface),
                None => RequestType::BadCommand(Status::IncorrectDataParameter),
            }
        } else if command.ins == INS_GET_RESPONSE {
            RequestType::GetResponse
        } else {
            RequestType::NewCommand(interface)
        }
    }

    /// Index of the first app in the roster whose matcher accepts `aid`.
    fn find_app<A: App>(aid: &Vec<u8>, apps: &Vec<A>) -> (r: Option<usize>)
        ensures
            match r {
                Some(i) => 0 <= i < apps@.len() && aid_matches(apps@[i as int].aid_spec(), aid@)
                    && forall|k: int|
                    0 <= k < i ==> !aid_matches(#[trigger] apps@[k].aid_spec(), aid@),
                None => forall|k: int|
                    0 <= k < apps@.len() ==> !aid_matches(#[trigger] apps@[k].aid_spec(), aid@),
            },
    {
        let mut i: usize = 0;
        while i < apps.len()
            invariant
                0 <= i <= apps@.len(),
                forall|k: int| 0 <= k < i ==> !aid_matches(#[trigger] apps@[k].aid_spec(), aid@),
            decreases apps@.len() - i,
        {
            let matcher = apps[i].aid();
            if matcher.matches(aid) {
                return Some(i);
            }
            i = i + 1;
        }
        None
    }

    /// Is either transport in the middle of a transaction (past Requested)?
    fn busy(&self) -> bool {
        let contact_busy = match port_state(&self.contact) {
            PortState::Idle | PortState::Requested => false,
            _ => true,
        };
        let contactless_busy = match port_state(&self.contactless) {
            PortState::Idle | PortState::Requested => false,
            _ => true,
        };
        contactless_busy || contact_busy
    }

    /// Hand `message` to the transport `interface`. The history records the
    /// hand-over, not the delivery: a channel driven out of state refuses the
    /// message, which the outer loop observes through the endpoint state, and
    /// the step then simply ends (a transport fault is fatal to the step, not
    /// to the dispatcher).
    fn respond_on(&mut self, interface: Interface, message: Vec<u8>)
        ensures
            final(self).events@ == old(self).events@ + seq![Event::Emit(interface, message@)],
            live_aids(final(self).events@) == live_aids(old(self).events@),
            final(self).current_aid == old(self).current_aid,
            final(self).interface == old(self).interface,
            final(self).buffer == old(self).buffer,
            final(self).response_len_expected == old(self).response_len_expected,
            final(self).was_request_chained == old(self).was_request_chained,
    {
        proof {
            lemma_live_unchanged_by_io(self.events@, Event::Emit(interface, message@));
        }
        self.events = Ghost(self.events@ + seq![Event::Emit(interface, message@)]);
        match interface {
            Interface::Contactless => {
                let _accepted = crate::port::respond(&mut self.contactless, message);
            },
            Interface::Contact => {
                let _accepted = crate::port::respond(&mut self.contact, message);
            },
        }
    }

    /// Respond on the pinned interface.
    fn respond(&mut self, message: Vec<u8>)
        requires
            old(self).interface is Some,
        ensures
            final(self).events@ == old(self).events@ + seq![
                Event::Emit(old(self).interface->0, message@),
            ],
            live_aids(final(self).events@) == live_aids(old(self).events@),
            final(self).current_aid == old(self).current_aid,
            final(self).interface == old(self).interface,
            final(self).buffer == old(self).buffer,
            final(self).response_len_expected == old(self).response_len_expected,
            final(self).was_request_chained == old(self).was_request_chained,
    {
        let iface = match self.interface {
            Some(i) => i,
            None => {
                assert(false);
                Interface::Contact
            },
        };
        self.respond_on(iface, message);
    }

    /// Reply a bare status word and clear the buffer.
    fn reply_error(&mut self, status: Status)
        requires
            old(self).wf(),
            old(self).interface is Some,
        ensures
            final(self).wf(),
            final(self).events@ == old(self).events@ + seq![
                Event::Emit(old(self).interface->0, status.spec_bytes()),
            ],
            final(self).buffer.raw is Empty,
            final(self).current_aid == old(self).current_aid,
            final(self).interface == old(self).interface,
            final(self).response_len_expected == old(self).response_len_expected,
            final(self).was_request_chained == old(self).was_request_chained,
    {
        let message = status.to_message();
        self.buffer.raw = RawApduBuffer::Empty;
        self.respond(message);
    }

    /// Emit one egress step: an error on a spurious GET
    /// RESPONSE, else one chunk of the pending response with its status word.
    fn handle_reply(&mut self)
        requires
            old(self).wf(),
            old(self).interface is Some,
        ensures
            final(self).wf(),
            final(self).current_aid == old(self).current_aid,
            final(self).interface == old(self).interface,
            final(self).response_len_expected == old(self).response_len_expected,
            final(self).was_request_chained == old(self).was_request_chained,
            exists|n: Seq<u8>|
                final(self).events@ == old(self).events@ + seq![
                    Event::Emit(old(self).interface->0, n),
                ],
            match old(self).buffer.raw {
                RawApduBuffer::Response(res) => {
                    let max = permitted_chunk(
                        old(self).response_len_expected as int,
                        MAX_INTERCHANGE_DATA as int,
                    );
                    let b = drain_boundary(res@.len() as int, max);
                    let rest = res@.skip(b);
                    &&& final(self).events@ == old(self).events@ + seq![
                        Event::Emit(
                            old(self).interface->0,
                            res@.take(b) + sw_bytes(drain_sw(rest.len() as int) as u16),
                        ),
                    ]
                    &&& (rest.len() == 0 ==> final(self).buffer.raw is Empty)
                    &&& (rest.len() > 0 ==> (final(self).buffer.raw matches RawApduBuffer::Response(
                        left,
                    ) && left@ == rest))
                },
                _ => {
                    &&& final(self).buffer.raw is Empty
                    &&& final(self).events@ == old(self).events@ + seq![
                        Event::Emit(old(self).interface->0, sw_bytes(0x6f00)),
                    ]
                },
            },
    {
        let mut cur = RawApduBuffer::Empty;
        core::mem::swap(&mut cur, &mut self.buffer.raw);
        match cur {
            RawApduBuffer::Request(_) | RawApduBuffer::Empty => {
                let message = Status::UnspecifiedCheckingError.to_message();
                self.respond(message);
            },
            RawApduBuffer::Response(res) => {
                let max = if self.response_len_expected == 0 {
                    MAX_INTERCHANGE_DATA
                } else if self.response_len_expected < MAX_INTERCHANGE_DATA {
                    self.response_len_expected
                } else {
                    MAX_INTERCHANGE_DATA
                };
                if self.was_request_chained || res.len() > max {
                    let boundary = if max < res.len() {
                        max
                    } else {
                        res.len()
                    };
                    let remaining = res.len() - boundary;
                    let mut message = crate::command::copy_range(&res, 0, boundary);
                    let sw: u16 = if remaining > 255 {
                        0x6100
                    } else if remaining > 0 {
                        0x6100 + (remaining as u16)
                    } else {
                        0x9000
                    };
                    message.push((sw / 256) as u8);
                    message.push((sw % 256) as u8);
                    assert(message@ =~= res@.take(boundary as int) + sw_bytes(sw));
                    if remaining == 0 {
                        self.buffer.raw = RawApduBuffer::Empty;
                        assert(res@.skip(boundary as int).len() == 0);
                    } else {
                        let rest = crate::command::copy_range(&res, boundary, res.len());
                        assert(rest@ =~= res@.skip(boundary as int));
                        self.buffer.raw = RawApduBuffer::Response(rest);
                    }
                    self.respond(message);
                } else {
                    let mut message = crate::command::copy_range(&res, 0, res.len());
                    message.push(0x90);
                    message.push(0x00);
                    assert(message@ =~= res@.take(res@.len() as int) + sw_bytes(0x9000));
                    assert(res@.skip(res@.len() as int).len() == 0);
                    self.buffer.raw = RawApduBuffer::Empty;
                    self.respond(message);
                }
            },
        }
    }

    /// Hold an app's reply: buffer its payload and emit the first egress step,
    /// or return its error status immediately.
    fn handle_app_response(&mut self, result: &Result<(), Status>, data: &Vec<u8>)
        requires
            old(self).wf(),
            old(self).interface is Some,
            data@.len() <= RESPONSE_CAP,
        ensures
            final(self).wf(),
            final(self).current_aid == old(self).current_aid,
            final(self).interface == old(self).interface,
            final(self).response_len_expected == old(self).response_len_expected,
            final(self).was_request_chained == old(self).was_request_chained,
            exists|n: Seq<u8>|
                final(self).events@ == old(self).events@ + seq![
                    Event::Emit(old(self).interface->0, n),
                ],
            match result {
                Ok(_) => {
                    let max = permitted_chunk(
                        old(self).response_len_expected as int,
                        MAX_INTERCHANGE_DATA as int,
                    );
                    let b = drain_boundary(data@.len() as int, max);
                    let rest = data@.skip(b);
                    &&& final(self).events@ == old(self).events@ + seq![
                        Event::Emit(
                            old(self).interface->0,
                            data@.take(b) + sw_bytes(drain_sw(rest.len() as int) as u16),
                        ),
                    ]
                    &&& (rest.len() == 0 ==> final(self).buffer.raw is Empty)
                    &&& (rest.len() > 0 ==> (final(self).buffer.raw matches RawApduBuffer::Response(
                        left,
                    ) && left@ == rest))
                },
                Err(status) => {
                    &&& final(self).buffer.raw is Empty
                    &&& final(self).events@ == old(self).events@ + seq![
                        Event::Emit(old(self).interface->0, status.spec_bytes()),
                    ]
                },
            },
    {
        match result {
            Ok(_) => {
                self.buffer.response(data);
                self.handle_reply();
            },
            Err(status) => {
                self.reply_error(*status);
            },
        }
    }

    /// ISO 7816-4 5.1.1 command chaining. An intermediate block (chain bit
    /// set) is acknowledged with 0x9000 and its data buffered; a terminal
    /// block completes a pending chain or, alone, is classified.
    fn buffer_chained_apdu_if_needed(&mut self, command: &Command, interface: Interface) -> (r:
        RequestType)
        requires
            old(self).wf(),
            command.wf(),
            old(self).interface == Some(interface),
        ensures
            final(self).wf(),
            final(self).interface == old(self).interface,
            final(self).current_aid == old(self).current_aid,
            final(self).response_len_expected == old(self).response_len_expected,
            live_aids(final(self).events@) == live_aids(old(self).events@),
            // terminal block completing an ongoing chain: the app is invoked
            // on the assembled command, and the reply will be chunked
            (!chain_not_last(command@.cla) && old(self).buffer.raw is Request) ==> {
                &&& r == RequestType::NewCommand(interface)
                &&& final(self).was_request_chained
                &&& final(self).events@ == old(self).events@
                &&& (final(self).buffer.raw matches RawApduBuffer::Request(c1)
                    && old(self).buffer.raw matches RawApduBuffer::Request(c0) && c1@
                    == folded_request(c0@, command@.data))
            },
            // terminal block with no chain pending: classify it; GET RESPONSE
            // leaves the pending response alone, anything else becomes the
            // buffered request
            (!chain_not_last(command@.cla) && !(old(self).buffer.raw is Request)) ==> {
                &&& final(self).events@ == old(self).events@
                &&& final(self).was_request_chained == (if old(self).buffer.raw is Empty {
                    false
                } else {
                    old(self).was_request_chained
                })
                &&& (is_select_by_aid(command@) && aid_len_ok(command@.data) ==> (r matches
                    RequestType::Select(a, j) && a@.bytes == command@.data && a.wf() && j
                    == interface && (final(self).buffer.raw matches RawApduBuffer::Request(c1)
                    && c1@ == command@)))
                &&& (is_select_by_aid(command@) && !aid_len_ok(command@.data) ==> r
                    == RequestType::BadCommand(Status::IncorrectDataParameter) && (final(self).buffer.raw matches RawApduBuffer::Request(c1) && c1@ == command@))
                &&& (!is_select_by_aid(command@) && command@.ins == 0xc0 ==> r
                    == RequestType::GetResponse && final(self).buffer == old(self).buffer)
                &&& (!is_select_by_aid(command@) && command@.ins != 0xc0 ==> r
                    == RequestType::NewCommand(interface) && (final(self).buffer.raw matches
                    RawApduBuffer::Request(c1) && c1@ == command@))
                &&& (!(r is GetResponse) ==> final(self).buffer.raw is Request)
            },
            // intermediate block: acknowledge and buffer, nothing to consume
            chain_not_last(command@.cla) ==> {
                &&& r is NoRequest
                &&& final(self).was_request_chained == old(self).was_request_chained
                &&& final(self).events@ == old(self).events@ + seq![
                    Event::Emit(interface, sw_bytes(0x9000)),
                ]
                &&& (command@.data.len() == 0 ==> final(self).buffer == old(self).buffer)
                &&& (command@.data.len() > 0 ==> (final(self).buffer.raw matches
                    RawApduBuffer::Request(c1) && c1@ == (match old(self).buffer.raw {
                    RawApduBuffer::Request(c0) => folded_request(c0@, command@.data),
                    _ => command@,
                })))
            },
    {
        if !chain_not_last_exec(command.cla) {
            let is_chaining = matches!(self.buffer.raw, RawApduBuffer::Request(_));
            if is_chaining {
                self.buffer.request(command);
                // the response now needs to be chained as well
                self.was_request_chained = true;
                RequestType::NewCommand(interface)
            } else {
                if matches!(self.buffer.raw, RawApduBuffer::Empty) {
                    self.was_request_chained = false;
                }
                let apdu_type = Self::apdu_type(command, interface);
                match apdu_type {
                    // keep the buffer as it is for GET RESPONSE
                    RequestType::GetResponse => (),
                    // overwrite for everything else
                    _ => self.buffer.request(command),
                }
                apdu_type
            }
        } else {
            // acknowledge the intermediate block
            let ack = Status::Success.to_message();
            self.respond_on(interface, ack);
            if command.data.len() > 0 {
                self.buffer.request(command);
            }
            // nothing for the application to consume yet
            RequestType::NoRequest
        }
    }

    /// Take at most one pending request, contactless preferred: reject it if
    /// it arrives on the wrong interface mid-transaction, reply an error if it
    /// does not parse, acknowledge and buffer it if it is an intermediate
    /// chain block, and classify it otherwise.
    fn check_for_request(&mut self) -> (r: RequestType)
        requires
            old(self).wf(),
        ensures
            final(self).wf(),
            final(self).current_aid == old(self).current_aid,
            old(self).events@.is_prefix_of(final(self).events@),
            live_aids(final(self).events@) == live_aids(old(self).events@),
            match r {
                RequestType::Select(a, j) => a.wf() && final(self).interface == Some(j) && ({
                    let m = final(self).events@[old(self).events@.len() as int]->Take_1;
                    &&& final(self).events@ == old(self).events@ + seq![Event::Take(j, m)]
                    &&& spec_parse(m) is Some
                    &&& !chain_not_last(spec_parse(m)->0.cla)
                    &&& is_select_by_aid(spec_parse(m)->0)
                    &&& aid_len_ok(spec_parse(m)->0.data)
                    &&& a@.bytes == spec_parse(m)->0.data
                    &&& !(old(self).buffer.raw is Request)
                    &&& final(self).response_len_expected as nat == spec_parse(m)->0.le
                    &&& (final(self).buffer.raw matches RawApduBuffer::Request(c1) && c1@
                        == spec_parse(m)->0)
                }),
                RequestType::NewCommand(j) => final(self).interface == Some(j) && ({
                    let m = final(self).events@[old(self).events@.len() as int]->Take_1;
                    &&& final(self).events@ == old(self).events@ + seq![Event::Take(j, m)]
                    &&& spec_parse(m) is Some
                    &&& !chain_not_last(spec_parse(m)->0.cla)
                    &&& (old(self).buffer.raw is Request || !(spec_parse(m)->0.ins == 0xc0))
                    &&& (old(self).buffer.raw is Request || !is_select_by_aid(spec_parse(m)->0))
                    &&& final(self).response_len_expected as nat == spec_parse(m)->0.le
                    &&& (final(self).buffer.raw matches RawApduBuffer::Request(c1) && c1@
                        == (match old(self).buffer.raw {
                        RawApduBuffer::Request(c0) => folded_request(c0@, spec_parse(m)->0.data),
                        _ => spec_parse(m)->0,
                    }))
                }),
                RequestType::GetResponse => final(self).buffer == old(self).buffer && final(self).was_request_chained == (if old(self).buffer.raw is Empty {
                    false
                } else {
                    old(self).was_request_chained
                }) && ({
                    let ev = final(self).events@[old(self).events@.len() as int];
                    let m = ev->Take_1;
                    &&& final(self).interface == Some(ev->Take_0)
                    &&& final(self).events@ == old(self).events@ + seq![ev]
                    &&& ev is Take
                    &&& spec_parse(m) is Some
                    &&& !is_select_by_aid(spec_parse(m)->0)
                    &&& spec_parse(m)->0.ins == 0xc0
                    &&& !chain_not_last(spec_parse(m)->0.cla)
                    &&& !(old(self).buffer.raw is Request)
                    &&& final(self).response_len_expected as nat == spec_parse(m)->0.le
                }),
                RequestType::BadCommand(s) => s == Status::IncorrectDataParameter && ({
                    let ev = final(self).events@[old(self).events@.len() as int];
                    let m = ev->Take_1;
                    &&& final(self).interface == Some(ev->Take_0)
                    &&& final(self).events@ == old(self).events@ + seq![ev]
                    &&& ev is Take
                    &&& spec_parse(m) is Some
                    &&& !chain_not_last(spec_parse(m)->0.cla)
                    &&& is_select_by_aid(spec_parse(m)->0)
                    &&& !aid_len_ok(spec_parse(m)->0.data)
                    &&& !(old(self).buffer.raw is Request)
                }),
                RequestType::NoRequest => (final(self).events@ == old(self).events@ && final(self).buffer == old(self).buffer && final(self).interface == old(self).interface
                    && final(self).response_len_expected == old(self).response_len_expected
                    && final(self).was_request_chained == old(self).was_request_chained) || ({
                    let ev = final(self).events@[old(self).events@.len() as int];
                    let em = final(self).events@[old(self).events@.len() as int + 1];
                    let m = ev->Take_1;
                    &&& final(self).events@ == old(self).events@ + seq![ev, em]
                    &&& ev is Take
                    &&& em is Emit
                    &&& em->Emit_0 == ev->Take_0
                    &&& {
                        ||| (spec_parse(m) is None && (old(self).interface is None || Some(
                            ev->Take_0,
                        ) == old(self).interface) && em->Emit_1 == sw_bytes(0x6f00) && final(self).interface == Some(ev->Take_0) && final(self).buffer == old(self).buffer && final(self).was_request_chained == old(self).was_request_chained && final(self).response_len_expected == old(self).response_len_expected)
                        ||| (spec_parse(m) is Some && chain_not_last(spec_parse(m)->0.cla) && (old(self).interface is None || Some(ev->Take_0) == old(self).interface)
                            && em->Emit_1 == sw_bytes(0x9000) && final(self).interface == Some(
                            ev->Take_0,
                        ) && final(self).was_request_chained
                            == old(self).was_request_chained && final(self).response_len_expected as nat == spec_parse(m)->0.le
                            && (spec_parse(m)->0.data.len() == 0 ==> final(self).buffer == old(self).buffer)
                            && (spec_parse(m)->0.data.len() > 0 ==> (final(self).buffer.raw matches RawApduBuffer::Request(c1) && c1@ == (match old(self).buffer.raw {
                                RawApduBuffer::Request(c0) => folded_request(c0@, spec_parse(m)->0.data),
                                _ => spec_parse(m)->0,
                            }))))
                        ||| (old(self).interface is Some && Some(ev->Take_0) != old(self).interface)
                    }
                }),
            },
            // cross-interface isolation: when pinned, a request taken on the
            // other interface is rejected with 0x6400 and advances nothing
            ({
                let pre_len = old(self).events@.len() as int;
                let ev = final(self).events@[pre_len];
                (old(self).interface is Some && final(self).events@.len() > pre_len && ev is Take
                    && Some(ev->Take_0) != old(self).interface) ==> {
                    &&& r is NoRequest
                    &&& final(self).events@ == old(self).events@ + seq![
                        ev,
                        Event::Emit(ev->Take_0, sw_bytes(0x6400)),
                    ]
                    &&& final(self).buffer == old(self).buffer
                    &&& final(self).interface == old(self).interface
                    &&& final(self).response_len_expected == old(self).response_len_expected
                    &&& final(self).was_request_chained == old(self).was_request_chained
                }
            }),
    {
        if self.busy() {
            return RequestType::NoRequest;
        }
        // check for a message, giving priority to contactless
        let taken: Option<(Vec<u8>, Interface)> = match crate::port::take_request(
            &mut self.contactless,
        ) {
            Some(message) => Some((message, Interface::Contactless)),
            None => match crate::port::take_request(&mut self.contact) {
                Some(message) => Some((message, Interface::Contact)),
                None => None,
            },
        };
        match taken {
            None => RequestType::NoRequest,
            Some((message, interface)) => {
                proof {
                    lemma_live_unchanged_by_io(self.events@, Event::Take(interface, message@));
                }
                self.events = Ghost(self.events@ + seq![Event::Take(interface, message@)]);
                let apdu: Result<Command, Status>;
                if let Some(i) = self.interface {
                    if i != interface {
                        // a transaction that began on one interface must
                        // complete on it
                        apdu = Err(Status::UnspecifiedNonpersistentExecutionError);
                    } else {
                        apdu = parse_apdu(&message);
                    }
                } else {
                    self.interface = Some(interface);
                    apdu = parse_apdu(&message);
                }
                let ghost mid = self.events@;
                assert(mid == old(self).events@ + seq![Event::Take(interface, message@)]);
                match apdu {
                    Ok(command) => {
                        self.response_len_expected = command.le;
                        let r = self.buffer_chained_apdu_if_needed(&command, interface);
                        proof {
                            if self.events@ != mid {
                                assert(self.events@ == mid + seq![
                                    Event::Emit(interface, sw_bytes(0x9000)),
                                ]);
                                assert(self.events@ =~= old(self).events@ + seq![
                                    Event::Take(interface, message@),
                                    Event::Emit(interface, sw_bytes(0x9000)),
                                ]);
                            }
                            assert(mid == old(self).events@ + seq![
                                Event::Take(interface, message@),
                            ]);
                        }
                        r
                    },
                    Err(status) => {
                        // not a valid APDU: return the error, keep it from the apps
                        let reply = status.to_message();
                        self.respond_on(interface, reply);
                        proof {
                            assert(self.events@ =~= old(self).events@ + seq![
                                Event::Take(interface, message@),
                                Event::Emit(interface, status.spec_bytes()),
                            ]);
                        }
                        RequestType::NoRequest
                    },
                }
            },
        }
    }

    /// SELECT flow: locate the target app, deselect the previously bound app
    /// first when the identifier changes, then call `select` on the target
    /// with the buffered request and route its reply out.
    fn handle_app_select<A: App>(&mut self, apps: &mut Vec<A>, aid: Aid, interface: Interface)
        requires
            old(self).wf(),
            aid.wf(),
            old(self).interface is Some,
            old(self).buffer.raw is Request,
            old(self).bound_app_present(old(apps)@),
        ensures
            final(self).wf(),
            final(self).interface == old(self).interface,
            final(self).response_len_expected == old(self).response_len_expected,
            final(self).was_request_chained == old(self).was_request_chained,
            final(apps)@.len() == old(apps)@.len(),
            forall|k: int|
                0 <= k < old(apps)@.len() ==> final(apps)@[k].aid_spec() == old(
                    apps,
                )@[k].aid_spec(),
            // no app matches the AID: not found, nothing bound or unbound
            (forall|k: int|
                0 <= k < old(apps)@.len() ==> !aid_matches(
                    #[trigger] old(apps)@[k].aid_spec(),
                    aid@.bytes,
                )) ==> {
                &&& final(self).events@ == old(self).events@ + seq![
                    Event::Emit(old(self).interface->0, sw_bytes(0x6a82)),
                ]
                &&& final(self).current_aid == old(self).current_aid
                &&& final(self).buffer.raw is Empty
            },
            // some app matches: it is selected and becomes the bound app
            (exists|k: int|
                0 <= k < old(apps)@.len() && aid_matches(
                    #[trigger] old(apps)@[k].aid_spec(),
                    aid@.bytes,
                )) ==> {
                &&& final(self).bound_aid() == Some(aid@.bytes)
                &&& ((old(self).bound_aid() is None || old(self).bound_aid() == Some(aid@.bytes))
                    ==> exists|n: Seq<u8>|
                    final(self).events@ == old(self).events@ + seq![
                        Event::AppSelect(aid@.bytes, old(self).buffer.raw->Request_0@),
                        Event::Emit(old(self).interface->0, n),
                    ])
                &&& (!(old(self).bound_aid() is None || old(self).bound_aid() == Some(aid@.bytes))
                    ==> exists|n: Seq<u8>|
                    final(self).events@ == old(self).events@ + seq![
                        Event::AppDeselect(old(self).bound_aid()->0),
                        Event::AppSelect(aid@.bytes, old(self).buffer.raw->Request_0@),
                        Event::Emit(old(self).interface->0, n),
                    ])
            },
    {
        let found = Self::find_app(aid.bytes(), apps);
        match found {
            None => {
                self.reply_error(Status::NotFound);
            },
            Some(i) => {
                // deselect the previously bound app, but only when its
                // identifier differs: a repeated SELECT of the bound app must
                // not disturb it
                let switch: bool = match &self.current_aid {
                    Some(bound) => !bound.same_id(&aid),
                    None => false,
                };
                let ghost pre = *self;
                if switch {
                    let ghost b0 = self.bound_aid()->0;
                    let j_opt = match &self.current_aid {
                        Some(bound) => Self::find_app(bound.bytes(), apps),
                        None => None,
                    };
                    match j_opt {
                        Some(j) => {
                            let app = &mut apps[j];
                            app.deselect();
                        },
                        None => {
                            // the bound app is always in the roster
                            assert(false);
                        },
                    }
                    proof {
                        lemma_live_deselect(self.events@, b0);
                    }
                    self.events = Ghost(self.events@ + seq![Event::AppDeselect(b0)]);
                    assert(live_aids(self.events@) =~= Set::<Seq<u8>>::empty());
                }
                // select the located app on the buffered request
                let ghost cv = self.buffer.raw->Request_0@;
                let mut response: Vec<u8> = Vec::new();
                let result: Result<(), Status>;
                match &self.buffer.raw {
                    RawApduBuffer::Request(apdu) => {
                        let app = &mut apps[i];
                        result = app.select(interface, apdu, &mut response);
                    },
                    _ => {
                        assert(false);
                        result = Err(Status::UnspecifiedCheckingError);
                    },
                }
                proof {
                    lemma_live_select(self.events@, aid@.bytes, cv);
                }
                self.events = Ghost(self.events@ + seq![Event::AppSelect(aid@.bytes, cv)]);
                self.current_aid = Some(aid);
                assert(live_aids(self.events@) =~= bound_set(self.bound_aid()));
                let ghost mid = self.events@;
                self.handle_app_response(&result, &response);
                proof {
                    let n: Seq<u8> = choose|n: Seq<u8>|
                        self.events@ == mid + seq![Event::Emit(pre.interface->0, n)];
                    if switch {
                        assert(self.events@ =~= pre.events@ + seq![
                            Event::AppDeselect(pre.bound_aid()->0),
                            Event::AppSelect(aid@.bytes, cv),
                            Event::Emit(pre.interface->0, n),
                        ]);
                    } else {
                        assert(self.events@ =~= pre.events@ + seq![
                            Event::AppSelect(aid@.bytes, cv),
                            Event::Emit(pre.interface->0, n),
                        ]);
                    }
                }
            },
        }
    }

    /// A non-SELECT command: route it to the bound app, or report that no
    /// application is bound.
    fn handle_app_command<A: App>(&mut self, apps: &mut Vec<A>, interface: Interface)
        requires
            old(self).wf(),
            old(self).interface is Some,
            old(self).buffer.raw is Request,
        ensures
            final(self).wf(),
            final(self).current_aid == old(self).current_aid,
            final(self).interface == old(self).interface,
            final(self).response_len_expected == old(self).response_len_expected,
            final(self).was_request_chained == old(self).was_request_chained,
            final(apps)@.len() == old(apps)@.len(),
            forall|k: int|
                0 <= k < old(apps)@.len() ==> final(apps)@[k].aid_spec() == old(
                    apps,
                )@[k].aid_spec(),
            // no app bound, or the bound app is not in the roster: not found
            (old(self).bound_aid() is None || forall|k: int|
                0 <= k < old(apps)@.len() ==> !aid_matches(
                    #[trigger] old(apps)@[k].aid_spec(),
                    old(self).bound_aid()->0,
                )) ==> {
                &&& final(self).events@ == old(self).events@ + seq![
                    Event::Emit(old(self).interface->0, sw_bytes(0x6a82)),
                ]
                &&& final(self).buffer.raw is Empty
            },
            // the bound app gets the call
            (old(self).bound_aid() is Some && exists|k: int|
                0 <= k < old(apps)@.len() && aid_matches(
                    #[trigger] old(apps)@[k].aid_spec(),
                    old(self).bound_aid()->0,
                )) ==> exists|n: Seq<u8>|
                final(self).events@ == old(self).events@ + seq![
                    Event::AppCall(old(self).bound_aid()->0, old(self).buffer.raw->Request_0@),
                    Event::Emit(old(self).interface->0, n),
                ],
    {
        let mut response: Vec<u8> = Vec::new();
        let found = match &self.current_aid {
            Some(bound) => Self::find_app(bound.bytes(), apps),
            None => None,
        };
        match found {
            Some(i) => {
                let ghost pre = *self;
                let ghost b = self.bound_aid()->0;
                let ghost cv = self.buffer.raw->Request_0@;
                let result: Result<(), Status>;
                match &self.buffer.raw {
                    RawApduBuffer::Request(apdu) => {
                        let app = &mut apps[i];
                        result = app.call(interface, apdu, &mut response);
                    },
                    _ => {
                        assert(false);
                        result = Err(Status::UnspecifiedCheckingError);
                    },
                }
                proof {
                    lemma_live_unchanged_by_call(self.events@, b, cv);
                }
                self.events = Ghost(self.events@ + seq![Event::AppCall(b, cv)]);
                let ghost mid = self.events@;
                self.handle_app_response(&result, &response);
                proof {
                    let n: Seq<u8> = choose|n: Seq<u8>|
                        self.events@ == mid + seq![Event::Emit(pre.interface->0, n)];
                    assert(self.events@ =~= pre.events@ + seq![
                        Event::AppCall(b, cv),
                        Event::Emit(pre.interface->0, n),
                    ]);
                }
            },
            None => {
                self.reply_error(Status::NotFound);
            },
        }
    }

    /// One step of the dispatcher: service at most one transport event or one
    /// pending reply, then report which transport now holds a response
    /// (contactless preferred) so the outer loop can flush it.
    ///
    /// The appended history always has the shape [`poll_step_shape`] allows:
    /// a taken request is answered by exactly one emission on its own
    /// interface, a switching SELECT deselects the old app exactly once
    /// before the new one is selected, a repeated SELECT of the bound app
    /// deselects nothing, and only the bound app is ever called.
    #[verifier::rlimit(100)]
    #[verifier::spinoff_prover]
    pub fn poll<A: App>(&mut self, apps: &mut Vec<A>) -> (r: Option<Interface>)
        requires
            old(self).wf(),
            old(self).bound_app_present(old(apps)@),
        ensures
            final(self).wf(),
            old(self).log().is_prefix_of(final(self).log()),
            final(apps)@.len() == old(apps)@.len(),
            forall|k: int|
                0 <= k < old(apps)@.len() ==> final(apps)@[k].aid_spec() == old(
                    apps,
                )@[k].aid_spec(),
            poll_step_shape(
                old(self).bound_aid(),
                final(self).bound_aid(),
                final(self).log().skip(old(self).log().len() as int),
            ),
            // cross-interface isolation: when pinned, a request taken on the
            // other interface is answered 0x6400 and advances nothing
            ({
                let pre_len = old(self).log().len() as int;
                let ev = final(self).log()[pre_len];
                (old(self).pinned() is Some && final(self).log().len() > pre_len && ev is Take
                    && Some(ev->Take_0) != old(self).pinned()) ==> {
                    &&& final(self).log() == old(self).log() + seq![
                        ev,
                        Event::Emit(ev->Take_0, sw_bytes(0x6400)),
                    ]
                    &&& final(self).buf() == old(self).buf()
                    &&& final(self).pinned() == old(self).pinned()
                    &&& final(self).bound_aid() == old(self).bound_aid()
                    &&& final(self).expected_len() == old(self).expected_len()
                    &&& final(self).req_chained() == old(self).req_chained()
                }
            }),
            // a GET RESPONSE drains one chunk of the pending response: the
            // next permitted bytes and a status word reporting what remains;
            // with nothing pending it is answered 0x6F00
            ({
                let pre_len = old(self).log().len() as int;
                let ev = final(self).log()[pre_len];
                let m = ev->Take_1;
                let c = spec_parse(m)->0;
                (final(self).log().len() > pre_len && ev is Take && (old(self).pinned() is None
                    || old(self).pinned() == Some(ev->Take_0)) && spec_parse(m) is Some
                    && !is_select_by_aid(c) && c.ins == 0xc0 && !chain_not_last(c.cla) && !(old(self).buf() is Request)) ==> {
                    let res = old(self).buf()->Response_0;
                    let max = permitted_chunk(c.le as int, MAX_INTERCHANGE_DATA as int);
                    let b = drain_boundary(res.len() as int, max);
                    let rest = res.skip(b);
                    &&& (old(self).buf() is Response ==> {
                        &&& final(self).log() == old(self).log() + seq![
                            ev,
                            Event::Emit(
                                ev->Take_0,
                                res.take(b) + sw_bytes(drain_sw(rest.len() as int) as u16),
                            ),
                        ]
                        &&& (rest.len() == 0 ==> final(self).buf() is Empty)
                        &&& (rest.len() > 0 ==> final(self).buf() == BufView::Response(rest))
                    })
                    &&& (!(old(self).buf() is Response) ==> final(self).log() == old(self).log()
                        + seq![ev, Event::Emit(ev->Take_0, sw_bytes(0x6f00))] && final(self).buf() is Empty)
                }
            }),
            // a message that does not parse is answered with the checking
            // error alone and advances nothing
            ({
                let pre_len = old(self).log().len() as int;
                let ev = final(self).log()[pre_len];
                (final(self).log().len() > pre_len && ev is Take && (old(self).pinned() is None
                    || old(self).pinned() == Some(ev->Take_0)) && spec_parse(ev->Take_1) is None)
                    ==> {
                    &&& final(self).log() == old(self).log() + seq![
                        ev,
                        Event::Emit(ev->Take_0, sw_bytes(0x6f00)),
                    ]
                    &&& final(self).pinned() == Some(ev->Take_0)
                    &&& final(self).buf() == old(self).buf()
                    &&& final(self).bound_aid() == old(self).bound_aid()
                    &&& final(self).expected_len() == old(self).expected_len()
                    &&& final(self).req_chained() == old(self).req_chained()
                }
            }),
            // an intermediate chain block is acknowledged with success and
            // reaches no app
            ({
                let pre_len = old(self).log().len() as int;
                let ev = final(self).log()[pre_len];
                let m = ev->Take_1;
                (final(self).log().len() > pre_len && ev is Take && (old(self).pinned() is None
                    || old(self).pinned() == Some(ev->Take_0)) && spec_parse(m) is Some
                    && chain_not_last(spec_parse(m)->0.cla)) ==> {
                    let c = spec_parse(m)->0;
                    &&& final(self).log() == old(self).log() + seq![
                        ev,
                        Event::Emit(ev->Take_0, sw_bytes(0x9000)),
                    ]
                    &&& final(self).pinned() == Some(ev->Take_0)
                    &&& final(self).bound_aid() == old(self).bound_aid()
                    &&& final(self).req_chained() == old(self).req_chained()
                    &&& final(self).expected_len() == c.le
                    &&& (c.data.len() == 0 ==> final(self).buf() == old(self).buf())
                    &&& (c.data.len() > 0 ==> final(self).buf() == BufView::Request(
                        match old(self).buf() {
                            BufView::Request(c0) => folded_request(c0, c.data),
                            _ => c,
                        },
                    ))
                }
            }),
            // a SELECT naming a valid AID binds the app the roster matches to
            // it, or is answered "not found" when none does
            ({
                let pre_len = old(self).log().len() as int;
                let ev = final(self).log()[pre_len];
                let c = spec_parse(ev->Take_1)->0;
                (final(self).log().len() > pre_len && ev is Take && (old(self).pinned() is None
                    || old(self).pinned() == Some(ev->Take_0)) && spec_parse(ev->Take_1) is Some
                    && !chain_not_last(c.cla) && is_select_by_aid(c) && aid_len_ok(c.data) && !(
                old(self).buf() is Request)) ==> {
                    &&& ((forall|k: int|
                        0 <= k < old(apps)@.len() ==> !aid_matches(
                            #[trigger] old(apps)@[k].aid_spec(),
                            c.data,
                        )) ==> {
                        &&& final(self).log() == old(self).log() + seq![
                            ev,
                            Event::Emit(ev->Take_0, sw_bytes(0x6a82)),
                        ]
                        &&& final(self).bound_aid() == old(self).bound_aid()
                        &&& final(self).buf() is Empty
                    })
                    &&& ((exists|k: int|
                        0 <= k < old(apps)@.len() && aid_matches(
                            #[trigger] old(apps)@[k].aid_spec(),
                            c.data,
                        )) ==> {
                        &&& final(self).bound_aid() == Some(c.data)
                        // the matched app's select is handed exactly the
                        // parsed command
                        &&& ((old(self).bound_aid() is None || old(self).bound_aid() == Some(
                            c.data,
                        )) ==> final(self).log()[pre_len + 1] == Event::AppSelect(c.data, c))
                        &&& (!(old(self).bound_aid() is None || old(self).bound_aid() == Some(
                            c.data,
                        )) ==> final(self).log()[pre_len + 1] == Event::AppDeselect(
                            old(self).bound_aid()->0,
                        ) && final(self).log()[pre_len + 2] == Event::AppSelect(c.data, c))
                    })
                }
            }),
            // a SELECT whose data field is no valid AID is answered with the
            // incorrect-data status
            ({
                let pre_len = old(self).log().len() as int;
                let ev = final(self).log()[pre_len];
                let c = spec_parse(ev->Take_1)->0;
                (final(self).log().len() > pre_len && ev is Take && (old(self).pinned() is None
                    || old(self).pinned() == Some(ev->Take_0)) && spec_parse(ev->Take_1) is Some
                    && !chain_not_last(c.cla) && is_select_by_aid(c) && !aid_len_ok(c.data) && !(
                old(self).buf() is Request)) ==> {
                    &&& final(self).log() == old(self).log() + seq![
                        ev,
                        Event::Emit(ev->Take_0, sw_bytes(0x6a80)),
                    ]
                    &&& final(self).bound_aid() == old(self).bound_aid()
                    &&& final(self).buf() is Empty
                }
            }),
            // a terminal block for the bound app hands it the buffered
            // request: the parsed command or, when a chain was pending, the
            // assembled command with the first block's header
            ({
                let pre_len = old(self).log().len() as int;
                let ev = final(self).log()[pre_len];
                let c = spec_parse(ev->Take_1)->0;
                let cv = (match old(self).buf() {
                    BufView::Request(c0) => folded_request(c0, c.data),
                    _ => c,
                });
                (final(self).log().len() > pre_len && ev is Take && (old(self).pinned() is None
                    || old(self).pinned() == Some(ev->Take_0)) && spec_parse(ev->Take_1) is Some
                    && !chain_not_last(c.cla) && (old(self).buf() is Request || (!is_select_by_aid(
                    c,
                ) && c.ins != 0xc0)) && old(self).bound_aid() is Some && (exists|k: int|
                    0 <= k < old(apps)@.len() && aid_matches(
                        #[trigger] old(apps)@[k].aid_spec(),
                        old(self).bound_aid()->0,
                    ))) ==> final(self).log()[pre_len + 1] == Event::AppCall(
                    old(self).bound_aid()->0,
                    cv,
                )
            }),
            // an ordinary command while no application is bound is answered
            // "not found"
            ({
                let pre_len = old(self).log().len() as int;
                let ev = final(self).log()[pre_len];
                let c = spec_parse(ev->Take_1)->0;
                (final(self).log().len() > pre_len && ev is Take && (old(self).pinned() is None
                    || old(self).pinned() == Some(ev->Take_0)) && spec_parse(ev->Take_1) is Some
                    && !chain_not_last(c.cla) && !is_select_by_aid(c) && c.ins != 0xc0 && old(self).bound_aid() is None && !(old(self).buf() is Request)) ==> {
                    &&& final(self).log() == old(self).log() + seq![
                        ev,
                        Event::Emit(ev->Take_0, sw_bytes(0x6a82)),
                    ]
                    &&& final(self).bound_aid() is None
                    &&& final(self).buf() is Empty
                }
            }),
    {
        let ghost pre = *self;
        // take on at most one transaction at a time
        let request_type = self.check_for_request();
        let ghost s1 = *self;
        match request_type {
            RequestType::Select(aid, interface) => {
                let ghost ab = aid@.bytes;
                self.handle_app_select(apps, aid, interface);
                proof {
                    let ext = self.events@.skip(pre.events@.len() as int);
                    let m: Seq<u8> = choose|m: Seq<u8>|
                        s1.events@ == pre.events@ + seq![Event::Take(interface, m)];
                    let cv = s1.buffer.raw->Request_0@;
                    if exists|k: int|
                        0 <= k < old(apps)@.len() && aid_matches(
                            #[trigger] old(apps)@[k].aid_spec(),
                            ab,
                        ) {
                        if s1.bound_aid() is None || s1.bound_aid() == Some(ab) {
                            let n: Seq<u8> = choose|n: Seq<u8>|
                                self.events@ == s1.events@ + seq![
                                    Event::AppSelect(ab, cv),
                                    Event::Emit(s1.interface->0, n),
                                ];
                            assert(ext =~= seq![
                                Event::Take(interface, m),
                                Event::AppSelect(ab, cv),
                                Event::Emit(interface, n),
                            ]);
                            assert(self.events@ =~= pre.events@ + seq![
                                Event::Take(interface, m),
                                Event::AppSelect(ab, cv),
                                Event::Emit(interface, n),
                            ]);
                        } else {
                            let n: Seq<u8> = choose|n: Seq<u8>|
                                self.events@ == s1.events@ + seq![
                                    Event::AppDeselect(s1.bound_aid()->0),
                                    Event::AppSelect(ab, cv),
                                    Event::Emit(s1.interface->0, n),
                                ];
                            assert(ext =~= seq![
                                Event::Take(interface, m),
                                Event::AppDeselect(s1.bound_aid()->0),
                                Event::AppSelect(ab, cv),
                                Event::Emit(interface, n),
                            ]);
                            assert(self.events@ =~= pre.events@ + seq![
                                Event::Take(interface, m),
                                Event::AppDeselect(s1.bound_aid()->0),
                                Event::AppSelect(ab, cv),
                                Event::Emit(interface, n),
                            ]);
                        }
                    } else {
                        assert(ext =~= seq![
                            Event::Take(interface, m),
                            Event::Emit(interface, sw_bytes(0x6a82)),
                        ]);
                        assert(self.events@ =~= pre.events@ + seq![
                            Event::Take(interface, m),
                            Event::Emit(interface, sw_bytes(0x6a82)),
                        ]);
                    }
                    assert(poll_step_shape(pre.bound_aid(), self.bound_aid(), ext));
                }
            },
            RequestType::GetResponse => {
                proof {
                    let ev = s1.events@[pre.events@.len() as int];
                    assert(ev == Event::Take(ev->Take_0, ev->Take_1));
                }
                self.handle_reply();
                proof {
                    let ext = self.events@.skip(pre.events@.len() as int);
                    let ev = s1.events@[pre.events@.len() as int];
                    let n: Seq<u8> = choose|n: Seq<u8>|
                        self.events@ == s1.events@ + seq![Event::Emit(s1.interface->0, n)];
                    assert(ext =~= seq![Event::Take(ev->Take_0, ev->Take_1), Event::Emit(ev->Take_0, n)]);
                    assert(poll_step_shape(pre.bound_aid(), self.bound_aid(), ext));
                    match pre.buffer.raw {
                        RawApduBuffer::Response(r0) => {
                            let m = ev->Take_1;
                            let c = spec_parse(m)->0;
                            let max = permitted_chunk(c.le as int, MAX_INTERCHANGE_DATA as int);
                            let b = drain_boundary(r0@.len() as int, max);
                            let rest = r0@.skip(b);
                            assert(self.events@ =~= pre.events@ + seq![
                                ev,
                                Event::Emit(
                                    ev->Take_0,
                                    r0@.take(b) + sw_bytes(drain_sw(rest.len() as int) as u16),
                                ),
                            ]);
                        },
                        _ => {
                            assert(self.events@ =~= pre.events@ + seq![
                                ev,
                                Event::Emit(ev->Take_0, sw_bytes(0x6f00)),
                            ]);
                        },
                    }
                }
            },
            RequestType::NewCommand(interface) => {
                self.handle_app_command(apps, interface);
                proof {
                    let ext = self.events@.skip(pre.events@.len() as int);
                    let m: Seq<u8> = choose|m: Seq<u8>|
                        s1.events@ == pre.events@ + seq![Event::Take(interface, m)];
                    let cv = s1.buffer.raw->Request_0@;
                    if s1.bound_aid() is Some && exists|k: int|
                        0 <= k < old(apps)@.len() && aid_matches(
                            #[trigger] old(apps)@[k].aid_spec(),
                            s1.bound_aid()->0,
                        ) {
                        let n: Seq<u8> = choose|n: Seq<u8>|
                            self.events@ == s1.events@ + seq![
                                Event::AppCall(s1.bound_aid()->0, cv),
                                Event::Emit(s1.interface->0, n),
                            ];
                        assert(ext =~= seq![
                            Event::Take(interface, m),
                            Event::AppCall(s1.bound_aid()->0, cv),
                            Event::Emit(interface, n),
                        ]);
                        assert(self.events@ =~= pre.events@ + seq![
                            Event::Take(interface, m),
                            Event::AppCall(s1.bound_aid()->0, cv),
                            Event::Emit(interface, n),
                        ]);
                        let ev2 = self.events@[pre.events@.len() as int];
                        assert(ev2 == Event::Take(interface, m));
                        let c2 = spec_parse(ev2->Take_1)->0;
                        let cvc = (match pre.buf() {
                            BufView::Request(c0) => folded_request(c0, c2.data),
                            _ => c2,
                        });
                        assert(cv == cvc);
                        assert(self.events@[pre.events@.len() as int + 1] == Event::AppCall(
                            pre.bound_aid()->0,
                            cvc,
                        ));
                    } else {
                        assert(ext =~= seq![
                            Event::Take(interface, m),
                            Event::Emit(interface, sw_bytes(0x6a82)),
                        ]);
                        assert(self.events@ =~= pre.events@ + seq![
                            Event::Take(interface, m),
                            Event::Emit(interface, sw_bytes(0x6a82)),
                        ]);
                    }
                    assert(poll_step_shape(pre.bound_aid(), self.bound_aid(), ext));
                }
            },
            RequestType::BadCommand(status) => {
                self.reply_error(status);
                proof {
                    let ext = self.events@.skip(pre.events@.len() as int);
                    let ev = s1.events@[pre.events@.len() as int];
                    assert(ev == Event::Take(ev->Take_0, ev->Take_1));
                    assert(ext =~= seq![
                        Event::Take(ev->Take_0, ev->Take_1),
                        Event::Emit(ev->Take_0, status.spec_bytes()),
                    ]);
                    assert(self.events@ =~= pre.events@ + seq![
                        ev,
                        Event::Emit(ev->Take_0, status.spec_bytes()),
                    ]);
                    assert(poll_step_shape(pre.bound_aid(), self.bound_aid(), ext));
                }
            },
            RequestType::NoRequest => {
                proof {
                    let ext = self.events@.skip(pre.events@.len() as int);
                    if self.events@ == pre.events@ {
                        assert(ext =~= Seq::<Event>::empty());
                    } else {
                        let ev = self.events@[pre.events@.len() as int];
                        let em = self.events@[pre.events@.len() as int + 1];
                        assert(ev == Event::Take(ev->Take_0, ev->Take_1));
                        assert(em == Event::Emit(em->Emit_0, em->Emit_1));
                        assert(ext =~= seq![
                            Event::Take(ev->Take_0, ev->Take_1),
                            Event::Emit(ev->Take_0, em->Emit_1),
                        ]);
                    }
                    assert(poll_step_shape(pre.bound_aid(), self.bound_aid(), ext));
                }
            },
        }
        proof {
            assert(pre.events@.is_prefix_of(self.events@)) by {
                assert(pre.events@ =~= self.events@.take(pre.events@.len() as int));
            }
        }
        // slight priority to contactless when reporting a pending response
        if matches!(port_state(&self.contactless), PortState::Responded) {
            Some(Interface::Contactless)
        } else if matches!(port_state(&self.contact), PortState::Responded) {
            Some(Interface::Contact)
        } else {
            None
        }
    }
}

/// The event shapes one poll step may append to the history: nothing; or one
/// taken request answered by exactly one emission on the same interface,
/// with, in between, either nothing, one selection (preceded, when another
/// app was bound, by exactly one deselection of it), or one call to the
/// bound app.
pub open spec fn poll_step_shape(
    pre_aid: Option<Seq<u8>>,
    post_aid: Option<Seq<u8>>,
    ext: Seq<Event>,
) -> bool {
    ||| (ext == Seq::<Event>::empty() && post_aid == pre_aid)
    ||| ((exists|j: Interface, m: Seq<u8>, n: Seq<u8>|
        ext == seq![Event::Take(j, m), Event::Emit(j, n)]) && post_aid == pre_aid)
    ||| (exists|j: Interface, m: Seq<u8>, n: Seq<u8>, b: Seq<u8>, c: CmdView|
        ext == seq![Event::Take(j, m), Event::AppSelect(b, c), Event::Emit(j, n)] && (pre_aid
            is None || pre_aid == Some(b)) && post_aid == Some(b))
    ||| (exists|j: Interface, m: Seq<u8>, n: Seq<u8>, a: Seq<u8>, b: Seq<u8>, c: CmdView|
        ext == seq![
            Event::Take(j, m),
            Event::AppDeselect(a),
            Event::AppSelect(b, c),
            Event::Emit(j, n),
        ] && pre_aid == Some(a) && a != b && post_aid == Some(b))
    ||| ((exists|j: Interface, m: Seq<u8>, n: Seq<u8>, b: Seq<u8>, c: CmdView|
        ext == seq![Event::Take(j, m), Event::AppCall(b, c), Event::Emit(j, n)] && pre_aid == Some(
            b,
        )) && post_aid == pre_aid)
}

/// At any moment, at most one application has been selected and not
/// subsequently deselected: the dispatcher's history never shows two live
/// apps.
pub proof fn lemma_at_most_one_selected(d: &ApduDispatch)
    requires
        d.wf(),
    ensures
        live_aids(d.log()).len() <= 1,
{
    match d.bound_aid() {
        Option::None => {
            assert(live_aids(d.log()) =~= Set::<Seq<u8>>::empty());
        },
        Option::Some(b) => {
            assert(live_aids(d.log()) =~= Set::<Seq<u8>>::empty().insert(b));
            assert(Set::<Seq<u8>>::empty().insert(b).len() == 1);
        },
    }
}

/// The history always shows exactly the bound application as live.
pub proof fn lemma_live_is_bound(d: &ApduDispatch)
    requires
        d.wf(),
    ensures
        live_aids(d.log()) == bound_set(d.bound_aid()),
{
}



/// A SELECT by AID: INS is SELECT and P1 asks for selection by DF name.
pub open spec fn is_select_by_aid(c: CmdView) -> bool {
    c.ins == INS_SELECT && c.p1 & 0x04 != 0
}

/// Executable twin of [`chain_not_last`].
fn chain_not_last_exec(cla: u8) -> (r: bool)
    ensures
        r == chain_not_last(cla),
{
    cla & 0x10 != 0
}

} // verus!
