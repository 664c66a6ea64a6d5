//! The laws of the dispatcher, stated over the ghost history and the egress
//! model and proved once and for all.
use crate::dispatch::poll_step_shape;
use crate::events::{drain_boundary, drain_sw, Event};
use vstd::prelude::*;

verus! {

/// One egress step on a pending payload, with `max` permitted data bytes:
/// the chunk emitted, its status word, and what remains buffered.
pub open spec fn drain_step(pending: Seq<u8>, max: int) -> (Seq<u8>, int, Seq<u8>) {
    let b = drain_boundary(pending.len() as int, max);
    (pending.take(b), drain_sw(pending.skip(b).len() as int), pending.skip(b))
}

/// The chunks and status words a response drain emits, one per pull, where
/// pull number `i` permits `maxes[i]` data bytes.
pub open spec fn drain_trace(pending: Seq<u8>, maxes: Seq<int>) -> Seq<(Seq<u8>, int)>
    decreases maxes.len(),
{
    if maxes.len() == 0 {
        Seq::empty()
    } else {
        let step = drain_step(pending, maxes[0]);
        seq![(step.0, step.1)] + drain_trace(step.2, maxes.skip(1))
    }
}

/// The concatenation of the data chunks of a drain trace.
pub open spec fn concat_chunks(trace: Seq<(Seq<u8>, int)>) -> Seq<u8>
    decreases trace.len(),
{
    if trace.len() == 0 {
        Seq::empty()
    } else {
        trace[0].0 + concat_chunks(trace.skip(1))
    }
}

/// Draining a response reassembles it exactly: over any complete drain (each
/// pull permits at least one byte, the last status word is 0x9000 and no
/// earlier one is), the concatenation of the emitted data chunks equals the
/// original payload, and every status word before the last reports more data
/// (0x6100 up to 0x61FF).
///
/// A pull that permits no data (expected length zero) makes no progress, so
/// such pulls are left out here.
pub proof fn lemma_drain_round_trip(pending: Seq<u8>, maxes: Seq<int>)
    requires
        maxes.len() >= 1,
        forall|i: int| 0 <= i < maxes.len() ==> #[trigger] maxes[i] >= 1,
        drain_trace(pending, maxes).last().1 == 0x9000,
        forall|i: int|
            0 <= i < maxes.len() - 1 ==> #[trigger] drain_trace(pending, maxes)[i].1 != 0x9000,
    ensures
        drain_trace(pending, maxes).len() == maxes.len(),
        concat_chunks(drain_trace(pending, maxes)) == pending,
        forall|i: int|
            0 <= i < maxes.len() - 1 ==> 0x6100 <= #[trigger] drain_trace(pending, maxes)[i].1
                <= 0x61ff,
    decreases maxes.len(),
{
    let trace = drain_trace(pending, maxes);
    let step = drain_step(pending, maxes[0]);
    lemma_drain_trace_len(pending, maxes);
    if maxes.len() == 1 {
        // the single status word is 0x9000, so nothing remains: the one
        // chunk is the whole payload
        assert(trace =~= seq![(step.0, step.1)]);
        assert(step.1 == 0x9000);
        assert(step.2.len() == 0);
        assert(step.0 =~= pending);
        assert(trace.skip(1) =~= Seq::<(Seq<u8>, int)>::empty());
        assert(concat_chunks(trace.skip(1)) == Seq::<u8>::empty());
        assert(concat_chunks(trace) =~= pending);
    } else {
        let rest = step.2;
        let tail = drain_trace(rest, maxes.skip(1));
        assert(trace =~= seq![(step.0, step.1)] + tail);
        assert(trace[0].1 != 0x9000);
        assert(rest.len() > 0);
        assert(forall|i: int|
            0 <= i < maxes.skip(1).len() ==> #[trigger] maxes.skip(1)[i] >= 1) by {
            assert(forall|i: int|
                0 <= i < maxes.skip(1).len() ==> maxes.skip(1)[i] == maxes[i + 1]);
        }
        assert(tail.last() == trace.last());
        assert(forall|i: int| 0 <= i < tail.len() ==> #[trigger] tail[i] == trace[i + 1]);
        lemma_drain_round_trip(rest, maxes.skip(1));
        assert(trace.skip(1) =~= tail);
        assert(concat_chunks(trace) =~= step.0 + concat_chunks(tail));
        assert(step.0 + rest =~= pending);
        assert(concat_chunks(trace) =~= pending);
        assert(forall|i: int| 0 <= i < maxes.len() - 1 ==> 0x6100 <= #[trigger] trace[i].1
            <= 0x61ff) by {
            assert(0x6100 <= trace[0].1 <= 0x61ff);
            assert(forall|i: int| 1 <= i < maxes.len() - 1 ==> trace[i] == tail[i - 1]);
        }
    }
}

/// Every reply step of the dispatcher permits at least one data byte (the
/// permitted chunk is never empty), so a drain makes progress on every pull:
/// the premises of [`lemma_drain_round_trip`] hold of every real drain.
pub proof fn lemma_permitted_chunk_positive(expected: int, cap: int)
    requires
        expected >= 0,
        cap >= 1,
    ensures
        crate::events::permitted_chunk(expected, cap) >= 1,
{
}

/// A drain trace emits exactly one (chunk, status) pair per pull.
pub proof fn lemma_drain_trace_len(pending: Seq<u8>, maxes: Seq<int>)
    ensures
        drain_trace(pending, maxes).len() == maxes.len(),
    decreases maxes.len(),
{
    if maxes.len() > 0 {
        let step = drain_step(pending, maxes[0]);
        lemma_drain_trace_len(step.2, maxes.skip(1));
    }
}

/// Every poll step that accepts a request emits exactly one response, on the
/// interface the request arrived on: an acknowledgment, an error status, or
/// one response chunk — and nothing besides app lifecycle calls in between.
pub proof fn lemma_one_response_per_request(
    pre_aid: Option<Seq<u8>>,
    post_aid: Option<Seq<u8>>,
    ext: Seq<Event>,
)
    requires
        poll_step_shape(pre_aid, post_aid, ext),
        ext.len() > 0,
    ensures
        ext[0] is Take,
        ext.last() is Emit,
        ext.last()->Emit_0 == ext[0]->Take_0,
        forall|i: int| 0 < i < ext.len() - 1 ==> !(#[trigger] ext[i] is Take) && !(ext[i] is Emit),
{
}

/// A poll step that switches the bound app from `a` to `b` deselects `a`
/// exactly once, before `b` is selected, and calls no app in between.
pub proof fn lemma_switch_deselects_once(
    pre_aid: Option<Seq<u8>>,
    post_aid: Option<Seq<u8>>,
    ext: Seq<Event>,
    a: Seq<u8>,
    b: Seq<u8>,
)
    requires
        poll_step_shape(pre_aid, post_aid, ext),
        pre_aid == Some(a),
        post_aid == Some(b),
        a != b,
    ensures
        ext.len() == 4,
        ext[1] == Event::AppDeselect(a),
        ext[2] is AppSelect && ext[2]->AppSelect_0 == b,
        forall|i: int| 0 <= i < ext.len() && i != 1 ==> !(#[trigger] ext[i] is AppDeselect),
        forall|i: int| 0 <= i < ext.len() ==> !(#[trigger] ext[i] is AppCall),
{
}

/// A poll step that re-selects the already bound app deselects nothing; the
/// app's select is still performed (it may refresh its state).
pub proof fn lemma_reselect_is_gentle(
    pre_aid: Option<Seq<u8>>,
    post_aid: Option<Seq<u8>>,
    ext: Seq<Event>,
    b: Seq<u8>,
)
    requires
        poll_step_shape(pre_aid, post_aid, ext),
        pre_aid == Some(b),
        exists|i: int|
            0 <= i < ext.len() && (#[trigger] ext[i]) is AppSelect && ext[i]->AppSelect_0 == b,
    ensures
        forall|i: int| 0 <= i < ext.len() ==> !(#[trigger] ext[i] is AppDeselect),
        exists|i: int|
            0 <= i < ext.len() && (#[trigger] ext[i]) is AppSelect && ext[i]->AppSelect_0 == b,
{
}

} // verus!
