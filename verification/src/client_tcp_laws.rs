//! What holds of a TCP client's connection task over any run of operations.
use vstd::prelude::*;

use crate::client_tcp::{
    DispatcherView, Effects, EffectsView, Socket, SocketAction, SocketEvent,
};
use crate::rpc::Error;
use crate::wire;
use crate::wire::MAX_PAYLOAD;
use crate::wire_laws;
use crate::wire_laws::{RequestParts, ResponseParts};

verus! {

/// An operation together with what its outside part came to.
pub enum Event<S, U> {
    Req { sender: S, channel_id: u32, data: Seq<u8> },
    ReqNoCall { sender: S, channel_id: u32, data: Seq<u8>, announced: bool },
    Deconnect,
    Recv { msg_id: u32, taken: bool },
    Timeout { timeout_id: u128 },
    Uploading { on_ok: U, data: Seq<u8>, msg_id: u32 },
    EndNoCall { msg_id: u32 },
}

impl<S, U> Event<S, U> {
    /// The state behind the event, and what has to be done about it.
    pub open spec fn apply(self, d: DispatcherView<S>) -> (DispatcherView<S>, EffectsView<S, U>) {
        match self {
            Event::Req { sender, channel_id, data } => d.on_req(sender, channel_id, data),
            Event::ReqNoCall { sender, channel_id, data, announced } => d.on_req_no_call(
                sender,
                channel_id,
                data,
                announced,
            ),
            Event::Deconnect => d.on_deconnect(),
            Event::Recv { msg_id, taken } => d.on_recv(msg_id, taken),
            Event::Timeout { timeout_id } => d.on_timeout(timeout_id),
            Event::Uploading { on_ok, data, msg_id } => d.on_uploading(on_ok, data, msg_id),
            Event::EndNoCall { msg_id } => d.on_end(msg_id),
        }
    }

    /// The event does not end the wait under `msg_id`. `once` tells whether
    /// whoever waits there gets just one answer.
    pub open spec fn spares(self, msg_id: u32, once: bool) -> bool {
        match self {
            Event::Deconnect => false,
            Event::Recv { msg_id: answered, taken } => answered != msg_id || (taken && !once),
            Event::EndNoCall { msg_id: ended } => ended != msg_id,
            _ => true,
        }
    }
}

/// The state behind a run of events.
pub open spec fn state_after<S, U>(d: DispatcherView<S>, events: Seq<Event<S, U>>) -> DispatcherView<S>
    decreases events.len(),
{
    if events.len() == 0 {
        d
    } else {
        state_after(events.first().apply(d).0, events.drop_first())
    }
}

/// How many timers a run of events starts.
pub open spec fn timers<S, U>(d: DispatcherView<S>, events: Seq<Event<S, U>>) -> nat
    decreases events.len(),
{
    if events.len() == 0 {
        0
    } else {
        let (after, fx) = events.first().apply(d);
        let here: nat = if fx.timer is Some {
            1
        } else {
            0
        };
        here + timers(after, events.drop_first())
    }
}

/// Every event keeps the state valid: whoever waits does so under a number
/// that has been given out and not been taken back.
pub proof fn law_valid_is_kept<S, U>(d: DispatcherView<S>, event: Event<S, U>)
    requires
        d.valid(),
    ensures
        event.apply(d).0.valid(),
{
}

// ---------------------------------------------------------------------
// Single operations
// ---------------------------------------------------------------------

/// The effects that a task finds in an `Effects` are the ones that are spoken
/// of.
pub proof fn law_effects_are_what_they_say<S, U>(fx: Effects<S, U>)
    ensures
        fx@.deconnect == fx.deconnect,
        fx@.resets == fx.resets@,
        fx@.reply == fx.reply,
        fx@.timer == fx.timer,
        fx@.frame is Some <==> fx.frame is Some,
        fx.frame matches Some((bytes, on_ok)) ==> fx@.frame == Some((bytes@, on_ok)),
{
}

/// A new connection task has nobody waiting, and no number or timer given out.
pub proof fn law_fresh_task<S>()
    ensures
        DispatcherView::<S>::fresh().registry.id == 0,
        DispatcherView::<S>::fresh().registry.regs == Map::<u32, (S, bool)>::empty(),
        DispatcherView::<S>::fresh().timeout_id == 0,
{
}

/// A call goes to the channel that it was made for, under the next number and
/// with its own payload, as the server reads it; its requester waits under
/// that number for one answer, everybody else as before; and a new timer
/// counts. Nothing else happens.
pub proof fn law_call_goes_to_its_channel<S, U>(
    d: DispatcherView<S>,
    sender: S,
    channel_id: u32,
    data: Seq<u8>,
)
    requires
        d.valid(),
        d.registry.id < u32::MAX,
        d.timeout_id < u128::MAX,
        data.len() <= 65535,
    ensures
        (Event::<S, U>::Req { sender, channel_id, data }).apply(d) == d.on_req::<U>(
            sender,
            channel_id,
            data,
        ),
        ({
            let (after, fx) = d.on_req::<U>(sender, channel_id, data);
            let msg_id = (d.registry.id + 1) as u32;
            &&& fx.frame matches Some((frame, on_ok)) && on_ok is None
                && wire_laws::take_request(frame) == Some(
                (RequestParts { channel_id, msg_id, data }, Seq::<u8>::empty()),
            )
            &&& !d.registry.regs.contains_key(msg_id)
            &&& after.registry.id == msg_id
            &&& after.registry.regs == d.registry.regs.insert(msg_id, (sender, true))
            &&& after.timeout_id == d.timeout_id + 1
            &&& fx.timer == Some(after.timeout_id)
            &&& fx.reply is None
            &&& fx.resets.len() == 0
            &&& !fx.deconnect
        }),
{
    lemma_request_is_read(channel_id, (d.registry.id + 1) as u32, data);
}

/// A subscription or an upload whose requester took the number goes to its
/// channel just like a call, but its requester waits for any number of
/// answers.
pub proof fn law_subscription_goes_to_its_channel<S, U>(
    d: DispatcherView<S>,
    sender: S,
    channel_id: u32,
    data: Seq<u8>,
)
    requires
        d.valid(),
        d.registry.id < u32::MAX,
        d.timeout_id < u128::MAX,
        data.len() <= 65535,
    ensures
        (Event::<S, U>::ReqNoCall { sender, channel_id, data, announced: true }).apply(d)
            == d.on_req_no_call::<U>(sender, channel_id, data, true),
        ({
            let (after, fx) = d.on_req_no_call::<U>(sender, channel_id, data, true);
            let msg_id = (d.registry.id + 1) as u32;
            &&& fx.frame matches Some((frame, on_ok)) && on_ok is None
                && wire_laws::take_request(frame) == Some(
                (RequestParts { channel_id, msg_id, data }, Seq::<u8>::empty()),
            )
            &&& !d.registry.regs.contains_key(msg_id)
            &&& after.registry.id == msg_id
            &&& after.registry.regs == d.registry.regs.insert(msg_id, (sender, false))
            &&& after.timeout_id == d.timeout_id + 1
            &&& fx.timer == Some(after.timeout_id)
            &&& fx.reply is None
            &&& fx.resets.len() == 0
            &&& !fx.deconnect
        }),
{
    lemma_request_is_read(channel_id, (d.registry.id + 1) as u32, data);
}

proof fn lemma_request_is_read(channel_id: u32, msg_id: u32, data: Seq<u8>)
    requires
        data.len() <= 65535,
    ensures
        wire_laws::take_request(wire::request_frame(channel_id, msg_id, data)) == Some(
            (RequestParts { channel_id, msg_id, data }, Seq::<u8>::empty()),
        ),
{
    let frame = wire::request_frame(channel_id, msg_id, data);
    wire_laws::law_request_read_back(channel_id, msg_id, data, Seq::empty());
    assert(frame + Seq::<u8>::empty() =~= frame);
}

/// A request that cannot be sent changes nothing for those who wait, starts no
/// timer and writes nothing. With a payload that is too long it uses up a
/// number, and its requester is told; with all numbers given out, its
/// requester is told that the connection was reset, and the connection is
/// given up; and if the requester did not take the number, only that is used
/// up.
pub proof fn law_request_that_is_not_sent<S, U>(
    d: DispatcherView<S>,
    sender: S,
    channel_id: u32,
    data: Seq<u8>,
    announced: bool,
)
    requires
        d.registry.id == u32::MAX || data.len() > 65535 || !announced,
    ensures
        ({
            let (called, call_fx) = d.on_req::<U>(sender, channel_id, data);
            d.registry.id == u32::MAX || data.len() > 65535 ==> {
                &&& called.registry.regs == d.registry.regs
                &&& called.timeout_id == d.timeout_id
                &&& called.registry.id == if d.registry.id == u32::MAX {
                    u32::MAX as int
                } else {
                    d.registry.id + 1
                }
                &&& call_fx.frame is None
                &&& call_fx.timer is None
                &&& call_fx.resets.len() == 0
                &&& call_fx.deconnect == (d.registry.id == u32::MAX)
                &&& call_fx.reply == Some(
                    (
                        sender,
                        if d.registry.id == u32::MAX {
                            Error::ConnectionReset
                        } else {
                            Error::MessageTooBig
                        },
                    ),
                )
            }
        }),
        ({
            let (made, fx) = d.on_req_no_call::<U>(sender, channel_id, data, announced);
            &&& made.registry.regs == d.registry.regs
            &&& made.timeout_id == d.timeout_id
            &&& made.registry.id == if d.registry.id == u32::MAX {
                u32::MAX as int
            } else {
                d.registry.id + 1
            }
            &&& fx.frame is None
            &&& fx.timer is None
            &&& fx.resets.len() == 0
            &&& fx.deconnect == (d.registry.id == u32::MAX)
            &&& d.registry.id == u32::MAX ==> fx.reply == Some((sender, Error::ConnectionReset))
            &&& d.registry.id < u32::MAX && !announced ==> fx.reply is None
            &&& d.registry.id < u32::MAX && announced ==> fx.reply == Some(
                (sender, Error::MessageTooBig),
            )
        }),
{
}

/// An answer ends the wait of who gets just one or did not take it; everybody
/// else goes on waiting. It starts a timer, and has nothing written or told.
pub proof fn law_answer_changes_one_wait<S, U>(d: DispatcherView<S>, msg_id: u32, taken: bool)
    requires
        d.timeout_id < u128::MAX,
    ensures
        ({
            let (after, fx) = d.on_recv::<U>(msg_id, taken);
            let regs = d.registry.regs;
            &&& after.registry.id == d.registry.id
            &&& after.registry.regs == if regs.contains_key(msg_id) && (!taken || regs[msg_id].1) {
                regs.remove(msg_id)
            } else {
                regs
            }
            &&& after.timeout_id == d.timeout_id + 1
            &&& fx.timer == Some(after.timeout_id)
            &&& fx.frame is None
            &&& fx.reply is None
            &&& fx.resets.len() == 0
            &&& !fx.deconnect
        }),
{
}

/// A timer that runs out changes nothing, and gives the connection up if and
/// only if it is the one that was started last.
pub proof fn law_timer_gives_up_if_it_is_the_last<S, U>(d: DispatcherView<S>, timeout_id: u128)
    ensures
        ({
            let (after, fx) = d.on_timeout::<U>(timeout_id);
            &&& after == d
            &&& fx.deconnect <==> timeout_id == d.timeout_id
            &&& fx.frame is None
            &&& fx.reply is None
            &&& fx.resets.len() == 0
            &&& fx.timer is None
        }),
{
}

/// An upload item is written to the highest channel under the number of its
/// upload, as the server reads it, with the handle to let know, and starts a
/// timer. One that is too long does nothing at all. Neither changes who waits.
pub proof fn law_item_goes_to_the_upload_channel<S, U>(
    d: DispatcherView<S>,
    on_ok: U,
    data: Seq<u8>,
    msg_id: u32,
)
    requires
        d.timeout_id < u128::MAX,
    ensures
        ({
            let (after, fx) = d.on_uploading::<U>(on_ok, data, msg_id);
            &&& after.registry == d.registry
            &&& fx.reply is None
            &&& fx.resets.len() == 0
            &&& !fx.deconnect
            &&& data.len() <= 65535 ==> {
                &&& fx.frame matches Some((frame, handle)) && handle == Some(on_ok)
                    && wire_laws::take_request(frame) == Some(
                    (RequestParts { channel_id: 4294967295, msg_id, data }, Seq::<u8>::empty()),
                )
                &&& after.timeout_id == d.timeout_id + 1
                &&& fx.timer == Some(after.timeout_id)
            }
            &&& data.len() > 65535 ==> {
                &&& fx.frame is None
                &&& fx.timer is None
                &&& after.timeout_id == d.timeout_id
            }
        }),
{
    if data.len() <= 65535 {
        lemma_request_is_read(4294967295, msg_id, data);
    }
}

/// A requester that wants no more answers is forgotten, and nobody else is.
/// Nothing is written, told or started.
pub proof fn law_end_concerns_one_number<S, U>(d: DispatcherView<S>, msg_id: u32)
    ensures
        ({
            let (after, fx) = d.on_end::<U>(msg_id);
            &&& after.registry.id == d.registry.id
            &&& after.registry.regs == d.registry.regs.remove(msg_id)
            &&& after.timeout_id == d.timeout_id
            &&& fx.frame is None
            &&& fx.reply is None
            &&& fx.resets.len() == 0
            &&& fx.timer is None
            &&& !fx.deconnect
        }),
{
}

/// Giving the connection up forgets everybody and starts numbering over; those
/// who waited are told, by number and once each, and nothing else is done.
pub proof fn law_deconnect_forgets_everybody<S, U>(d: DispatcherView<S>) -> (ids: Seq<u32>)
    requires
        d.valid(),
    ensures
        ({
            let (after, fx) = d.on_deconnect::<U>();
            &&& after.registry.id == 0
            &&& after.registry.regs == Map::<u32, (S, bool)>::empty()
            &&& after.timeout_id == d.timeout_id
            &&& fx.frame is None
            &&& fx.reply is None
            &&& fx.timer is None
            &&& !fx.deconnect
            &&& fx.resets.len() == ids.len()
            &&& forall|i: int|
                0 <= i < ids.len() ==> d.registry.regs.contains_key(#[trigger] ids[i])
                    && fx.resets[i] == d.registry.regs[ids[i]].0
            &&& forall|k: u32| #[trigger]
                d.registry.regs.contains_key(k) ==> exists|i: int|
                    0 <= i < ids.len() && ids[i] == k
            &&& forall|i: int, j: int| 0 <= i < j < ids.len() ==> ids[i] < ids[j]
        }),
{
    d.registry.law_everybody_is_told_once()
}

// ---------------------------------------------------------------------
// Runs of operations
// ---------------------------------------------------------------------

/// A new request does not disturb the others: its number is not in use, and
/// everybody else waits as before. If it is refused, it does not wait.
pub proof fn law_new_request_disturbs_nobody<S, U>(
    d: DispatcherView<S>,
    sender: S,
    once: bool,
    channel_id: u32,
    data: Seq<u8>,
)
    requires
        d.valid(),
    ensures
        ({
            let (after, fx) = d.on_request::<U>(sender, once, channel_id, data);
            let regs = d.registry.regs;
            &&& fx.frame is Some <==> d.registry.id < u32::MAX && data.len() <= MAX_PAYLOAD
            &&& fx.frame is Some ==> {
                let msg_id = after.registry.id;
                &&& !regs.contains_key(msg_id)
                &&& after.registry.regs == regs.insert(msg_id, (sender, once))
                &&& fx.frame == Some(
                    (wire::request_frame(channel_id, msg_id, data), None::<U>),
                )
                &&& fx.reply is None
            }
            &&& fx.frame is None ==> {
                &&& after.registry.regs == regs
                &&& fx.reply matches Some((told, e)) && told == sender && e
                    == if d.registry.id == u32::MAX {
                    Error::ConnectionReset
                } else {
                    Error::MessageTooBig
                }
            }
        }),
{
}

/// Whoever waits goes on waiting through any run of events that do not end
/// the wait: what arrives under the number is still handed to the same
/// requester.
pub proof fn law_requester_keeps_waiting<S, U>(
    d: DispatcherView<S>,
    events: Seq<Event<S, U>>,
    msg_id: u32,
)
    requires
        d.valid(),
        d.registry.regs.contains_key(msg_id),
        forall|i: int|
            0 <= i < events.len() ==> (#[trigger] events[i]).spares(
                msg_id,
                d.registry.regs[msg_id].1,
            ),
    ensures
        state_after(d, events).valid(),
        state_after(d, events).registry.regs.contains_key(msg_id),
        state_after(d, events).registry.regs[msg_id] == d.registry.regs[msg_id],
    decreases events.len(),
{
    if events.len() > 0 {
        let after = events.first().apply(d).0;
        assert(events[0].spares(msg_id, d.registry.regs[msg_id].1));
        assert forall|i: int| 0 <= i < events.drop_first().len() implies (
        #[trigger] events.drop_first()[i]).spares(msg_id, after.registry.regs[msg_id].1) by {
            assert(events.drop_first()[i] == events[i + 1]);
        }
        law_requester_keeps_waiting(after, events.drop_first(), msg_id);
    }
}

/// A number under which nobody waits any more stays unused until the
/// connection is given up: no later request gets an answer to an earlier one.
pub proof fn law_number_is_not_reused<S, U>(
    d: DispatcherView<S>,
    events: Seq<Event<S, U>>,
    msg_id: u32,
)
    requires
        d.valid(),
        msg_id <= d.registry.id,
        !d.registry.regs.contains_key(msg_id),
        forall|i: int| 0 <= i < events.len() ==> !(#[trigger] events[i] is Deconnect),
    ensures
        !state_after(d, events).registry.regs.contains_key(msg_id),
        d.registry.id <= state_after(d, events).registry.id,
    decreases events.len(),
{
    if events.len() > 0 {
        let after = events.first().apply(d).0;
        assert(!(events[0] is Deconnect));
        assert forall|i: int| 0 <= i < events.drop_first().len() implies !(
        #[trigger] events.drop_first()[i] is Deconnect) by {
            assert(events.drop_first()[i] == events[i + 1]);
        }
        law_number_is_not_reused(after, events.drop_first(), msg_id);
    }
}

/// The requesters that are handed an answer under `msg_id` over a run of
/// events, in order.
pub open spec fn delivered<S, U>(
    d: DispatcherView<S>,
    events: Seq<Event<S, U>>,
    msg_id: u32,
) -> Seq<S>
    decreases events.len(),
{
    if events.len() == 0 {
        Seq::empty()
    } else {
        let event = events.first();
        let rest = delivered(event.apply(d).0, events.drop_first(), msg_id);
        match event {
            Event::Recv { msg_id: answered, taken: _ } if answered == msg_id
                && d.registry.regs.contains_key(msg_id) => seq![d.registry.regs[msg_id].0] + rest,
            _ => rest,
        }
    }
}

/// An answer under a number that has been given out, and under which nobody
/// waits any more, reaches nobody, until the connection is given up.
pub proof fn law_stray_answer_reaches_nobody<S, U>(
    d: DispatcherView<S>,
    events: Seq<Event<S, U>>,
    msg_id: u32,
)
    requires
        d.valid(),
        msg_id <= d.registry.id,
        !d.registry.regs.contains_key(msg_id),
        forall|i: int| 0 <= i < events.len() ==> !(#[trigger] events[i] is Deconnect),
    ensures
        delivered(d, events, msg_id) == Seq::<S>::empty(),
    decreases events.len(),
{
    if events.len() > 0 {
        let rest = events.drop_first();
        assert(!(events[0] is Deconnect));
        assert forall|i: int| 0 <= i < rest.len() implies !(#[trigger] rest[i] is Deconnect) by {
            assert(rest[i] == events[i + 1]);
        }
        law_stray_answer_reaches_nobody(events.first().apply(d).0, rest, msg_id);
    }
}

/// A call is answered at most once, and nobody else gets its answer: over any
/// run of events until the connection is given up, what arrives under its
/// number reaches the requester once, or nobody at all.
pub proof fn law_call_is_answered_once<S, U>(
    d: DispatcherView<S>,
    events: Seq<Event<S, U>>,
    msg_id: u32,
)
    requires
        d.valid(),
        d.registry.regs.contains_key(msg_id),
        d.registry.regs[msg_id].1,
        forall|i: int| 0 <= i < events.len() ==> !(#[trigger] events[i] is Deconnect),
    ensures
        ({
            ||| delivered(d, events, msg_id) == Seq::<S>::empty()
            ||| delivered(d, events, msg_id) == seq![d.registry.regs[msg_id].0]
        }),
    decreases events.len(),
{
    if events.len() > 0 {
        let event = events.first();
        let after = event.apply(d).0;
        let rest = events.drop_first();
        assert(!(events[0] is Deconnect));
        assert forall|i: int| 0 <= i < rest.len() implies !(#[trigger] rest[i] is Deconnect) by {
            assert(rest[i] == events[i + 1]);
        }
        if after.registry.regs.contains_key(msg_id) {
            law_call_is_answered_once(after, rest, msg_id);
        } else {
            law_stray_answer_reaches_nobody(after, rest, msg_id);
            assert(seq![d.registry.regs[msg_id].0] + Seq::<S>::empty() =~= seq![
                d.registry.regs[msg_id].0,
            ]);
        }
    }
}

/// How many answers arrive under `msg_id` in a run of events.
pub open spec fn answers<S, U>(events: Seq<Event<S, U>>, msg_id: u32) -> nat
    decreases events.len(),
{
    if events.len() == 0 {
        0
    } else {
        let here: nat = match events.first() {
            Event::Recv { msg_id: answered, taken: _ } if answered == msg_id => 1,
            _ => 0,
        };
        here + answers(events.drop_first(), msg_id)
    }
}

/// Whoever waits is handed every answer that arrives under its number, as long
/// as nothing ends the wait, and nobody else is handed any.
pub proof fn law_every_answer_is_handed_over<S, U>(
    d: DispatcherView<S>,
    events: Seq<Event<S, U>>,
    msg_id: u32,
)
    requires
        d.valid(),
        d.registry.regs.contains_key(msg_id),
        forall|i: int|
            0 <= i < events.len() ==> (#[trigger] events[i]).spares(
                msg_id,
                d.registry.regs[msg_id].1,
            ),
    ensures
        delivered(d, events, msg_id) == Seq::new(
            answers(events, msg_id),
            |i: int| d.registry.regs[msg_id].0,
        ),
    decreases events.len(),
{
    let sender = d.registry.regs[msg_id].0;
    let expected = Seq::new(answers(events, msg_id), |i: int| sender);
    if events.len() > 0 {
        let after = events.first().apply(d).0;
        let rest = events.drop_first();
        assert(events[0].spares(msg_id, d.registry.regs[msg_id].1));
        assert forall|i: int| 0 <= i < rest.len() implies (#[trigger] rest[i]).spares(
            msg_id,
            after.registry.regs[msg_id].1,
        ) by {
            assert(rest[i] == events[i + 1]);
        }
        law_every_answer_is_handed_over(after, rest, msg_id);
    }
    assert(delivered(d, events, msg_id) =~= expected);
}

/// A subscriber whose request was written is handed every answer that arrives
/// under its number, in order and without loss, over any run in which it takes
/// them, does not end its request, and the connection is not given up.
pub proof fn law_subscriber_gets_every_answer<S, U>(
    d: DispatcherView<S>,
    sender: S,
    channel_id: u32,
    data: Seq<u8>,
    events: Seq<Event<S, U>>,
)
    requires
        d.valid(),
        d.registry.id < u32::MAX,
        data.len() <= 65535,
        forall|i: int|
            0 <= i < events.len() ==> match #[trigger] events[i] {
                Event::Deconnect => false,
                Event::EndNoCall { msg_id } => msg_id != d.registry.id + 1,
                Event::Recv { msg_id, taken } => msg_id != d.registry.id + 1 || taken,
                _ => true,
            },
    ensures
        ({
            let after = d.on_req_no_call::<U>(sender, channel_id, data, true).0;
            let msg_id = (d.registry.id + 1) as u32;
            &&& delivered(after, events, msg_id) == Seq::new(
                answers(events, msg_id),
                |i: int| sender,
            )
            &&& state_after(after, events).registry.regs.contains_key(msg_id)
            &&& state_after(after, events).registry.regs[msg_id].0 == sender
        }),
{
    let after = d.on_req_no_call::<U>(sender, channel_id, data, true).0;
    let msg_id = (d.registry.id + 1) as u32;
    assert forall|i: int| 0 <= i < events.len() implies (#[trigger] events[i]).spares(
        msg_id,
        after.registry.regs[msg_id].1,
    ) by {}
    law_every_answer_is_handed_over(after, events, msg_id);
    law_requester_keeps_waiting(after, events, msg_id);
    assert(delivered(after, events, msg_id) =~= Seq::new(
        answers(events, msg_id),
        |i: int| sender,
    ));
}

/// How many requests are made in a run of events.
pub open spec fn requests<S, U>(events: Seq<Event<S, U>>) -> nat
    decreases events.len(),
{
    if events.len() == 0 {
        0
    } else {
        let here: nat = if events.first() is Req || events.first() is ReqNoCall {
            1
        } else {
            0
        };
        here + requests(events.drop_first())
    }
}

/// Every request takes the next number, whatever becomes of it: the k-th one
/// since the start, or since the connection was last given up, has number k,
/// as long as there are numbers.
pub proof fn law_requests_are_numbered_in_order<S, U>(
    d: DispatcherView<S>,
    events: Seq<Event<S, U>>,
)
    requires
        forall|i: int| 0 <= i < events.len() ==> !(#[trigger] events[i] is Deconnect),
    ensures
        d.registry.id + requests(events) <= u32::MAX ==> state_after(d, events).registry.id
            == d.registry.id + requests(events),
        DispatcherView::<S>::fresh().registry.id == 0,
        d.on_deconnect::<U>().0.registry.id == 0,
    decreases events.len(),
{
    if events.len() > 0 {
        let after = events.first().apply(d).0;
        let rest = events.drop_first();
        assert(!(events[0] is Deconnect));
        assert forall|i: int| 0 <= i < rest.len() implies !(#[trigger] rest[i] is Deconnect) by {
            assert(rest[i] == events[i + 1]);
        }
        law_requests_are_numbered_in_order(after, rest);
    }
}

/// The k-th request since the start, or since the connection was last given
/// up, is written under number k, if it is written.
pub proof fn law_kth_request_has_number_k<S, U>(
    d: DispatcherView<S>,
    events: Seq<Event<S, U>>,
    sender: S,
    once: bool,
    channel_id: u32,
    data: Seq<u8>,
)
    requires
        d.registry.id == 0,
        requests(events) < u32::MAX,
        forall|i: int| 0 <= i < events.len() ==> !(#[trigger] events[i] is Deconnect),
    ensures
        ({
            let k = (requests(events) + 1) as u32;
            let (after, fx) = state_after(d, events).on_request::<U>(sender, once, channel_id, data);
            &&& after.registry.id == k
            &&& fx.frame == if data.len() <= MAX_PAYLOAD {
                Some((wire::request_frame(channel_id, k, data), None::<U>))
            } else {
                None
            }
        }),
{
    law_requests_are_numbered_in_order(d, events);
}

/// A request that is too long never gets an answer: until the connection is
/// given up, what arrives under the number that it used up reaches nobody.
pub proof fn law_refused_request_gets_no_answer<S, U>(
    d: DispatcherView<S>,
    sender: S,
    once: bool,
    channel_id: u32,
    data: Seq<u8>,
    events: Seq<Event<S, U>>,
)
    requires
        d.valid(),
        d.registry.id < u32::MAX,
        data.len() > MAX_PAYLOAD,
        forall|i: int| 0 <= i < events.len() ==> !(#[trigger] events[i] is Deconnect),
    ensures
        delivered(
            d.on_request::<U>(sender, once, channel_id, data).0,
            events,
            (d.registry.id + 1) as u32,
        ) == Seq::<S>::empty(),
{
    law_stray_answer_reaches_nobody(
        d.on_request::<U>(sender, once, channel_id, data).0,
        events,
        (d.registry.id + 1) as u32,
    );
}

/// A request and its answer find their way: the server reads the channel, the
/// number and the payload that were asked for; what it answers under that
/// number is read back under it; and whatever happens in between, short of
/// the end of the wait, the requester is the one that waits there.
pub proof fn law_answer_finds_requester<S, U>(
    d: DispatcherView<S>,
    sender: S,
    once: bool,
    channel_id: u32,
    data: Seq<u8>,
    events: Seq<Event<S, U>>,
    msg: Seq<u8>,
)
    requires
        d.valid(),
        d.registry.id < u32::MAX,
        data.len() <= MAX_PAYLOAD,
        msg.len() <= usize::MAX,
        forall|i: int|
            0 <= i < events.len() ==> (#[trigger] events[i]).spares(
                (d.registry.id + 1) as u32,
                once,
            ),
    ensures
        ({
            let (after, fx) = d.on_request::<U>(sender, once, channel_id, data);
            let msg_id = (d.registry.id + 1) as u32;
            &&& fx.frame matches Some((frame, _)) && wire_laws::take_request(frame) == Some(
                (RequestParts { channel_id, msg_id, data }, Seq::<u8>::empty()),
            )
            &&& wire_laws::take_response(wire::response_frame(msg_id, msg)) == Some(
                (ResponseParts { msg_id, msg }, Seq::<u8>::empty()),
            )
            &&& state_after(after, events).registry.regs.contains_key(msg_id)
            &&& state_after(after, events).registry.regs[msg_id] == (sender, once)
        }),
{
    let (after, fx) = d.on_request::<U>(sender, once, channel_id, data);
    let msg_id = (d.registry.id + 1) as u32;
    let empty = Seq::<u8>::empty();
    law_new_request_disturbs_nobody::<S, U>(d, sender, once, channel_id, data);
    wire_laws::law_request_read_back(channel_id, msg_id, data, empty);
    wire_laws::law_response_read_back(msg_id, msg, empty);
    assert(wire::request_frame(channel_id, msg_id, data) + empty =~= wire::request_frame(
        channel_id,
        msg_id,
        data,
    ));
    assert(wire::response_frame(msg_id, msg) + empty =~= wire::response_frame(msg_id, msg));
    law_requester_keeps_waiting(after, events, msg_id);
}

/// Giving the connection up tells everybody who waits, once each and by
/// number, and leaves nobody waiting.
pub proof fn law_deconnect_tells_everybody<S, U>(d: DispatcherView<S>)
    requires
        d.valid(),
    ensures
        ({
            let (after, fx) = d.on_deconnect::<U>();
            &&& after.registry.regs.dom().is_empty()
            &&& exists|ids: Seq<u32>|
                {
                    &&& #[trigger] d.registry.lists(ids)
                    &&& fx.resets == ids.map_values(|id: u32| d.registry.regs[id].0)
                }
        }),
{
    d.registry.law_all_waiting();
}

/// Only the last timer counts: one that runs out gives the connection up if
/// no other was started since, and does nothing if one was.
pub proof fn law_only_last_timer_counts<S, U>(d: DispatcherView<S>, events: Seq<Event<S, U>>)
    requires
        d.timeout_id + events.len() <= u128::MAX,
    ensures
        state_after(d, events).timeout_id == d.timeout_id + timers(d, events),
        timers(d, events) <= events.len(),
        state_after(d, events).on_timeout::<U>(d.timeout_id) == (
            state_after(d, events),
            if timers(d, events) == 0 {
                EffectsView::<S, U>::disconnect()
            } else {
                EffectsView::none()
            },
        ),
    decreases events.len(),
{
    if events.len() > 0 {
        let after = events.first().apply(d).0;
        law_only_last_timer_counts(after, events.drop_first());
    }
}

// ---------------------------------------------------------------------
// The socket
// ---------------------------------------------------------------------

/// Every event of the run can happen where the writer then stands.
pub open spec fn socket_possible(socket: Socket, events: Seq<SocketEvent>) -> bool
    decreases events.len(),
{
    events.len() == 0 || {
        &&& socket.expects(events.first())
        &&& socket_possible(socket.after(events.first()).0, events.drop_first())
    }
}

/// Where the writer stands behind a run of events.
pub open spec fn socket_after(socket: Socket, events: Seq<SocketEvent>) -> Socket
    decreases events.len(),
{
    if events.len() == 0 {
        socket
    } else {
        socket_after(socket.after(events.first()).0, events.drop_first())
    }
}

/// How often a run of events has the writer do `action`.
pub open spec fn socket_actions(
    socket: Socket,
    events: Seq<SocketEvent>,
    action: SocketAction,
) -> nat
    decreases events.len(),
{
    if events.len() == 0 {
        0
    } else {
        let (after, done) = socket.after(events.first());
        let here: nat = if done == action {
            1
        } else {
            0
        };
        here + socket_actions(after, events.drop_first(), action)
    }
}

/// How often `event` occurs in a run of events.
pub open spec fn socket_events(events: Seq<SocketEvent>, event: SocketEvent) -> nat
    decreases events.len(),
{
    if events.len() == 0 {
        0
    } else {
        let here: nat = if events.first() == event {
            1
        } else {
            0
        };
        here + socket_events(events.drop_first(), event)
    }
}

/// A frame is acknowledged if and only if it has been written, and every
/// connection is given up once: the ones that were given up, and the one
/// there is, are the ones that were made.
pub proof fn law_socket_keeps_count(socket: Socket, events: Seq<SocketEvent>)
    requires
        socket_possible(socket, events),
    ensures
        socket_actions(socket, events, SocketAction::Acknowledge) == socket_events(
            events,
            SocketEvent::Written(true),
        ),
        socket_actions(socket, events, SocketAction::GiveUp) + (if socket_after(
            socket,
            events,
        ).connected() {
            1nat
        } else {
            0nat
        }) == socket_events(events, SocketEvent::Connected(true)) + (if socket.connected() {
            1nat
        } else {
            0nat
        }),
    decreases events.len(),
{
    if events.len() > 0 {
        law_socket_keeps_count(socket.after(events.first()).0, events.drop_first());
    }
}

/// What the writer of a connection does about an event, and what it then waits
/// for: a frame is written if one was taken, and acknowledged if it was
/// written; a connection that has no more frames, or fails to write one, is
/// given up; and there is a pause before each new attempt to connect.
pub proof fn law_socket_decides(socket: Socket, event: SocketEvent)
    requires
        socket.expects(event),
    ensures
        ({
            let (next, action) = socket.after(event);
            &&& action == SocketAction::Serve <==> event == SocketEvent::Connected(true)
            &&& action == SocketAction::Pause <==> event == SocketEvent::Connected(false)
            &&& action == SocketAction::Write <==> event == SocketEvent::Taken(true)
            &&& action == SocketAction::Acknowledge <==> event == SocketEvent::Written(true)
            &&& action == SocketAction::GiveUp <==> event == SocketEvent::Taken(false) || event
                == SocketEvent::Written(false)
            &&& action == SocketAction::Connect <==> event == SocketEvent::Paused
            &&& action == SocketAction::Connect <==> next == Socket::Connecting
            &&& action == SocketAction::Serve || action == SocketAction::Acknowledge <==> next
                == Socket::Taking
            &&& action == SocketAction::Write <==> next == Socket::Writing
            &&& action == SocketAction::GiveUp || action == SocketAction::Pause <==> next
                == Socket::Pausing
        }),
{
}

} // verus!
