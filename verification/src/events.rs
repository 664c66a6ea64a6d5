//! Ghost history of the dispatcher: which requests were taken, which messages
//! were handed to a transport, and which lifecycle calls reached the apps.
//! The dispatcher appends an event beside each such action, so contracts and
//! laws can speak about orderings across calls.
use crate::command::CmdView;
use crate::types::Interface;
use vstd::prelude::*;

verus! {

/// One observable action of the dispatcher. App events carry the AID bytes of
/// the application acted on and, for select and call, the command it was
/// handed; transport events carry the interface and, for an emission, the
/// message bytes.
pub enum Event {
    /// A request was taken from a transport.
    Take(Interface, Seq<u8>),
    /// A response message was handed to a transport.
    Emit(Interface, Seq<u8>),
    /// `select` was called on the app with these AID bytes, handing it this
    /// command.
    AppSelect(Seq<u8>, CmdView),
    /// `deselect` was called on the app with these AID bytes.
    AppDeselect(Seq<u8>),
    /// `call` was called on the app with these AID bytes, handing it this
    /// command.
    AppCall(Seq<u8>, CmdView),
}

/// The set of AIDs that have been selected and not deselected since, after the
/// events in `log`.
pub open spec fn live_aids(log: Seq<Event>) -> Set<Seq<u8>>
    decreases log.len(),
{
    if log.len() == 0 {
        Set::empty()
    } else {
        let prev = live_aids(log.drop_last());
        match log.last() {
            Event::AppSelect(a, _) => prev.insert(a),
            Event::AppDeselect(a) => prev.remove(a),
            _ => prev,
        }
    }
}

/// The live set matching a bound AID: empty, or that one identifier.
pub open spec fn bound_set(aid: Option<Seq<u8>>) -> Set<Seq<u8>> {
    match aid {
        Option::None => Set::empty(),
        Option::Some(a) => Set::empty().insert(a),
    }
}

/// Appending transport events leaves the live set alone.
pub proof fn lemma_live_unchanged_by_io(log: Seq<Event>, e: Event)
    requires
        e is Take || e is Emit,
    ensures
        live_aids(log + seq![e]) == live_aids(log),
{
    assert((log + seq![e]).drop_last() =~= log);
    assert((log + seq![e]).last() == e);
}

/// Selecting makes exactly that AID live.
pub proof fn lemma_live_select(log: Seq<Event>, a: Seq<u8>, c: CmdView)
    ensures
        live_aids(log + seq![Event::AppSelect(a, c)]) == live_aids(log).insert(a),
{
    assert((log + seq![Event::AppSelect(a, c)]).drop_last() =~= log);
}

/// Deselecting removes exactly that AID from the live set.
pub proof fn lemma_live_deselect(log: Seq<Event>, a: Seq<u8>)
    ensures
        live_aids(log + seq![Event::AppDeselect(a)]) == live_aids(log).remove(a),
{
    assert((log + seq![Event::AppDeselect(a)]).drop_last() =~= log);
}

/// Calling an app leaves the live set alone.
pub proof fn lemma_live_unchanged_by_call(log: Seq<Event>, a: Seq<u8>, c: CmdView)
    ensures
        live_aids(log + seq![Event::AppCall(a, c)]) == live_aids(log),
{
    assert((log + seq![Event::AppCall(a, c)]).drop_last() =~= log);
}

/// How many data bytes one egress step may carry: the pending length capped
/// by the permitted maximum.
pub open spec fn drain_boundary(len: int, max: int) -> int {
    vstd::math::min(max, len)
}

/// The data bytes one reply may carry: the expected length from the command,
/// capped by what fits a transport message; a command that states no
/// expected length does not cap the reply.
pub open spec fn permitted_chunk(expected: int, cap: int) -> int {
    if expected == 0 {
        cap
    } else {
        vstd::math::min(expected, cap)
    }
}

/// The status word of one egress step, from what remains after it: 0x9000
/// when the buffer is drained, else 0x6100 + remaining (0x6100 alone when
/// over 255 bytes remain).
pub open spec fn drain_sw(remaining: int) -> int {
    if remaining > 255 {
        0x6100
    } else if remaining > 0 {
        0x6100 + remaining
    } else {
        0x9000
    }
}

} // verus!
