//! What holds of a browser client's connection task over any run of
//! operations.
use vstd::prelude::*;

use crate::rpc::Error;
use crate::web;
use crate::web::{DispatcherView, Effects, EffectsView};
use crate::wire;
use crate::wire::MAX_PAYLOAD;
use crate::wire_laws;
use crate::wire_laws::{RequestParts, ResponseParts};

verus! {

/// An operation together with what its outside part came to. `sent` is what
/// came of writing a frame.
pub enum Event<S> {
    Req { sender: S, sent: Result<(), Error> },
    ReqNoCall { sender: S, announced: bool, sent: Result<(), Error> },
    Deconnect,
    Recv { msg_id: u32, taken: bool },
    Timeout { timeout_id: u128 },
    Opened,
    Uploading { sent: Result<(), Error> },
    EndNoCall { msg_id: u32 },
}

impl<S> Event<S> {
    /// The state behind the event, and what has to be done about it.
    pub open spec fn apply(self, d: DispatcherView<S>) -> (DispatcherView<S>, EffectsView<S>) {
        match self {
            Event::Req { sender, sent } => if d.registry.id == u32::MAX {
                d.on_overflow()
            } else {
                d.on_req(sender, sent)
            },
            Event::ReqNoCall { sender, announced, sent } => if d.registry.id == u32::MAX {
                d.on_overflow()
            } else if !announced {
                d.on_abandoned()
            } else {
                d.on_req_no_call(sender, sent)
            },
            Event::Deconnect => d.on_deconnect(),
            Event::Recv { msg_id, taken } => d.on_recv(msg_id, taken),
            Event::Timeout { timeout_id } => d.on_timeout(timeout_id),
            Event::Opened => d.on_opened(),
            Event::Uploading { sent } => d.on_uploading(sent),
            Event::EndNoCall { msg_id } => d.on_end(msg_id),
        }
    }

    /// The event does not end the wait under `msg_id`. `once` tells whether
    /// whoever waits there gets just one answer.
    pub open spec fn spares(self, msg_id: u32, once: bool) -> bool {
        match self {
            Event::Deconnect => false,
            Event::Recv { msg_id: answered, taken } => answered != msg_id || (taken && !once),
            Event::EndNoCall { msg_id: ended } => ended != msg_id,
            _ => true,
        }
    }
}

/// The state behind a run of events.
pub open spec fn state_after<S>(d: DispatcherView<S>, events: Seq<Event<S>>) -> DispatcherView<S>
    decreases events.len(),
{
    if events.len() == 0 {
        d
    } else {
        state_after(events.first().apply(d).0, events.drop_first())
    }
}

/// How many timers a run of events starts.
pub open spec fn timers<S>(d: DispatcherView<S>, events: Seq<Event<S>>) -> nat
    decreases events.len(),
{
    if events.len() == 0 {
        0
    } else {
        let (after, fx) = events.first().apply(d);
        let here: nat = if fx.timer is Some {
            1
        } else {
            0
        };
        here + timers(after, events.drop_first())
    }
}

/// How often a run of events reports that the socket is open.
pub open spec fn openings<S>(d: DispatcherView<S>, events: Seq<Event<S>>) -> nat
    decreases events.len(),
{
    if events.len() == 0 {
        0
    } else {
        let (after, fx) = events.first().apply(d);
        let here: nat = if fx.opened {
            1
        } else {
            0
        };
        here + openings(after, events.drop_first())
    }
}

/// Every event keeps the state valid: whoever waits does so under a number
/// that has been given out and not been taken back.
pub proof fn law_valid_is_kept<S>(d: DispatcherView<S>, event: Event<S>)
    requires
        d.valid(),
    ensures
        event.apply(d).0.valid(),
{
}

// ---------------------------------------------------------------------
// Single operations
// ---------------------------------------------------------------------

/// Writing pauses from 262144 bytes in the socket on, for 50 milliseconds at a
/// time.
pub proof fn law_send_buffer()
    ensures
        web::SEND_BUFFER_LIMIT == 262144,
        web::SEND_BUFFER_PAUSE == 50,
{
}

/// The effects that a task finds in an `Effects` are the ones that are spoken
/// of.
pub proof fn law_effects_are_what_they_say<S>(fx: Effects<S>)
    ensures
        fx@.resets == fx.resets@,
        fx@.reconnect == fx.reconnect,
        fx@.deconnect == fx.deconnect,
        fx@.opened == fx.opened,
        fx@.reply == fx.reply,
        fx@.timer == fx.timer,
{
}

/// A new connection task has nobody waiting, no number or timer given out, and
/// a socket that has never been open.
pub proof fn law_fresh_task<S>()
    ensures
        DispatcherView::<S>::fresh().registry.id == 0,
        DispatcherView::<S>::fresh().registry.regs == Map::<u32, (S, bool)>::empty(),
        DispatcherView::<S>::fresh().timeout_id == 0,
        DispatcherView::<S>::fresh().never_open,
{
}

/// A call that is written has its requester wait under the next number for one
/// answer, a subscription or an upload for any number of them; one that is not
/// written has its requester told why. Everybody else waits as before, a call
/// starts a timer in any case and the others if they are written, and nothing
/// else happens.
pub proof fn law_request_concerns_one_number<S>(
    d: DispatcherView<S>,
    sender: S,
    sent: Result<(), Error>,
)
    requires
        d.valid(),
        d.registry.id < u32::MAX,
        d.timeout_id < u128::MAX,
    ensures
        ({
            let (after, fx) = d.on_req(sender, sent);
            let msg_id = (d.registry.id + 1) as u32;
            &&& !d.registry.regs.contains_key(msg_id)
            &&& after.registry.id == msg_id
            &&& sent is Ok ==> after.registry.regs == d.registry.regs.insert(
                msg_id,
                (sender, true),
            ) && fx.reply is None
            &&& sent matches Err(e) ==> after.registry.regs == d.registry.regs && fx.reply == Some(
                (sender, e),
            )
            &&& after.timeout_id == d.timeout_id + 1
            &&& fx.timer == Some(after.timeout_id)
            &&& after.never_open == d.never_open
            &&& fx.resets.len() == 0
            &&& !fx.reconnect && !fx.deconnect && !fx.opened
        }),
        ({
            let (after, fx) = d.on_req_no_call(sender, sent);
            let msg_id = (d.registry.id + 1) as u32;
            &&& after.registry.id == msg_id
            &&& sent is Ok ==> {
                &&& after.registry.regs == d.registry.regs.insert(msg_id, (sender, false))
                &&& after.timeout_id == d.timeout_id + 1
                &&& fx.timer == Some(after.timeout_id)
                &&& fx.reply is None
            }
            &&& sent matches Err(e) ==> {
                &&& after.registry.regs == d.registry.regs
                &&& after.timeout_id == d.timeout_id
                &&& fx.timer is None
                &&& fx.reply == Some((sender, e))
            }
            &&& after.never_open == d.never_open
            &&& fx.resets.len() == 0
            &&& !fx.reconnect && !fx.deconnect && !fx.opened
        }),
{
}

/// A request whose number was not taken uses that up and does nothing else;
/// one for which there is no number changes nothing, and has the socket opened
/// anew and the connection given up.
pub proof fn law_request_that_is_dropped<S>(d: DispatcherView<S>)
    ensures
        ({
            let (after, fx) = d.on_abandoned();
            &&& d.registry.id < u32::MAX ==> after.registry.id == d.registry.id + 1
            &&& after.registry.regs == d.registry.regs
            &&& after.timeout_id == d.timeout_id
            &&& after.never_open == d.never_open
            &&& fx.resets.len() == 0
            &&& fx.reply is None
            &&& fx.timer is None
            &&& !fx.reconnect && !fx.deconnect && !fx.opened
        }),
        ({
            let (after, fx) = d.on_overflow();
            &&& after == d
            &&& fx.resets.len() == 0
            &&& fx.reply is None
            &&& fx.timer is None
            &&& fx.reconnect && fx.deconnect && !fx.opened
        }),
{
}

/// Whoever waits, and whether or not the socket has been open before, losing
/// the connection has the socket opened anew, once; everybody who waits is
/// told, by number and once each, and forgotten, and numbering starts over. It
/// asks for no further `Deconnect`, and reports no opening.
pub proof fn law_deconnect_opens_the_socket_anew<S>(d: DispatcherView<S>) -> (ids: Seq<u32>)
    requires
        d.valid(),
    ensures
        ({
            let (after, fx) = d.on_deconnect();
            &&& fx.reconnect
            &&& !fx.deconnect
            &&& !fx.opened
            &&& fx.reply is None
            &&& fx.timer is None
            &&& after.registry.id == 0
            &&& after.registry.regs == Map::<u32, (S, bool)>::empty()
            &&& after.timeout_id == d.timeout_id
            &&& after.never_open == d.never_open
            &&& fx.resets.len() == ids.len()
            &&& forall|i: int|
                0 <= i < ids.len() ==> d.registry.regs.contains_key(#[trigger] ids[i])
                    && fx.resets[i] == d.registry.regs[ids[i]].0
            &&& forall|k: u32| #[trigger]
                d.registry.regs.contains_key(k) ==> exists|i: int|
                    0 <= i < ids.len() && ids[i] == k
            &&& forall|i: int, j: int| 0 <= i < j < ids.len() ==> ids[i] < ids[j]
        }),
{
    d.registry.law_everybody_is_told_once()
}

/// An answer ends the wait of who gets just one or did not take it; everybody
/// else goes on waiting. It starts a timer, and does nothing else.
pub proof fn law_answer_changes_one_wait<S>(d: DispatcherView<S>, msg_id: u32, taken: bool)
    requires
        d.timeout_id < u128::MAX,
    ensures
        ({
            let (after, fx) = d.on_recv(msg_id, taken);
            let regs = d.registry.regs;
            &&& after.registry.id == d.registry.id
            &&& after.registry.regs == if regs.contains_key(msg_id) && (!taken || regs[msg_id].1) {
                regs.remove(msg_id)
            } else {
                regs
            }
            &&& after.timeout_id == d.timeout_id + 1
            &&& fx.timer == Some(after.timeout_id)
            &&& after.never_open == d.never_open
            &&& fx.resets.len() == 0
            &&& fx.reply is None
            &&& !fx.reconnect && !fx.deconnect && !fx.opened
        }),
{
}

/// A timer that runs out changes nothing, and gives the connection up if and
/// only if it is the one that was started last.
pub proof fn law_timer_gives_up_if_it_is_the_last<S>(d: DispatcherView<S>, timeout_id: u128)
    ensures
        ({
            let (after, fx) = d.on_timeout(timeout_id);
            &&& after == d
            &&& fx.deconnect <==> timeout_id == d.timeout_id
            &&& fx.resets.len() == 0
            &&& fx.reply is None
            &&& fx.timer is None
            &&& !fx.reconnect && !fx.opened
        }),
{
}

/// An open socket starts a timer, and is reported if there was none before;
/// nobody's wait is changed.
pub proof fn law_open_socket_is_reported_the_first_time<S>(d: DispatcherView<S>)
    requires
        d.timeout_id < u128::MAX,
    ensures
        ({
            let (after, fx) = d.on_opened();
            &&& after.registry == d.registry
            &&& !after.never_open
            &&& fx.opened <==> d.never_open
            &&& after.timeout_id == d.timeout_id + 1
            &&& fx.timer == Some(after.timeout_id)
            &&& fx.resets.len() == 0
            &&& fx.reply is None
            &&& !fx.reconnect && !fx.deconnect
        }),
{
}

/// An upload item that is written starts a timer, and one that is not does
/// nothing; ending a request forgets it, and nobody else. Neither has anything
/// told or opened.
pub proof fn law_item_and_end_tell_nobody<S>(
    d: DispatcherView<S>,
    sent: Result<(), Error>,
    msg_id: u32,
)
    requires
        d.timeout_id < u128::MAX,
    ensures
        ({
            let (after, fx) = d.on_uploading(sent);
            &&& after.registry == d.registry
            &&& after.never_open == d.never_open
            &&& sent is Ok ==> after.timeout_id == d.timeout_id + 1 && fx.timer == Some(
                after.timeout_id,
            )
            &&& sent is Err ==> after.timeout_id == d.timeout_id && fx.timer is None
            &&& fx.resets.len() == 0
            &&& fx.reply is None
            &&& !fx.reconnect && !fx.deconnect && !fx.opened
        }),
        ({
            let (after, fx) = d.on_end(msg_id);
            &&& after.registry.id == d.registry.id
            &&& after.registry.regs == d.registry.regs.remove(msg_id)
            &&& after.timeout_id == d.timeout_id
            &&& after.never_open == d.never_open
            &&& fx.resets.len() == 0
            &&& fx.reply is None
            &&& fx.timer is None
            &&& !fx.reconnect && !fx.deconnect && !fx.opened
        }),
{
}

/// A frame is written for the channel, the number and the payload that it is
/// for, as a server reads it, and only if the payload is short enough; and
/// that it could not be written is known from the outcome.
pub proof fn law_written_frame_is_read<U, T: FnOnce(Vec<u8>, Option<U>) -> bool>(
    channel_id: u32,
    msg_id: u32,
    data: Seq<u8>,
    on_ok: Option<U>,
    transmit: T,
    res: Result<(), Error>,
)
    requires
        web::sent(channel_id, msg_id, data, on_ok, transmit, res),
    ensures
        match res {
            Err(Error::MessageTooBig) => data.len() > 65535,
            Err(e) => e == Error::ConnectionReset && data.len() <= 65535 && exists|frame: Vec<u8>|
                {
                    &&& wire_laws::take_request(frame@) == Some(
                        (RequestParts { channel_id, msg_id, data }, Seq::<u8>::empty()),
                    )
                    &&& #[trigger] call_ensures(transmit, (frame, on_ok), false)
                },
            Ok(_) => data.len() <= 65535 && exists|frame: Vec<u8>|
                {
                    &&& wire_laws::take_request(frame@) == Some(
                        (RequestParts { channel_id, msg_id, data }, Seq::<u8>::empty()),
                    )
                    &&& #[trigger] call_ensures(transmit, (frame, on_ok), true)
                },
        },
{
    if data.len() <= 65535 {
        let empty = Seq::<u8>::empty();
        wire_laws::law_request_read_back(channel_id, msg_id, data, empty);
        let (frame, taken) = choose|frame: Vec<u8>, taken: bool|
            {
                &&& web::written(channel_id, msg_id, data, frame)
                &&& #[trigger] call_ensures(transmit, (frame, on_ok), taken)
                &&& res == if taken {
                    Ok::<(), Error>(())
                } else {
                    Err(Error::ConnectionReset)
                }
            };
        assert(frame@ + empty =~= frame@);
        assert(call_ensures(transmit, (frame, on_ok), taken));
    }
}

/// Only frames that a server reads as the request they are for are written.
pub proof fn law_only_requests_are_written(
    channel_id: u32,
    msg_id: u32,
    data: Seq<u8>,
    frame: Vec<u8>,
)
    requires
        web::written(channel_id, msg_id, data, frame),
    ensures
        data.len() <= 65535,
        wire_laws::take_request(frame@) == Some(
            (RequestParts { channel_id, msg_id, data }, Seq::<u8>::empty()),
        ),
{
    let empty = Seq::<u8>::empty();
    wire_laws::law_request_read_back(channel_id, msg_id, data, empty);
    assert(frame@ + empty =~= frame@);
}

/// What is taken out of a message as an answer is all that stands behind its
/// first twelve bytes, under the number in the last four of them, if the first
/// eight announce just that much.
pub proof fn law_held_answer_is_the_rest(n: Seq<u8>)
    ensures
        web::held_answer(n) matches Some((msg, msg_id)) ==> {
            &&& n.len() == 12 + msg.len()
            &&& n.skip(12) == msg
            &&& msg_id == n[8] * 0x100_0000 + n[9] * 0x1_0000 + n[10] * 0x100 + n[11]
            &&& wire::word_len(n.subrange(0, 8)) == msg.len()
        },
        web::held_answer(n) is None ==> n.len() < 12 || wire::word_len(n.subrange(0, 8)) != n.len()
            - 12,
{
    if n.len() >= 12 {
        wire_laws::law_numbers_are_read_big_endian(n.subrange(8, 12));
    }
}

// ---------------------------------------------------------------------
// Runs of operations
// ---------------------------------------------------------------------

/// How often the connection is lost in a run of events.
pub open spec fn losses<S>(events: Seq<Event<S>>) -> nat
    decreases events.len(),
{
    if events.len() == 0 {
        0
    } else {
        let here: nat = if events.first() is Deconnect {
            1
        } else {
            0
        };
        here + losses(events.drop_first())
    }
}

/// How often the socket is opened anew in a run of events.
pub open spec fn reopenings<S>(d: DispatcherView<S>, events: Seq<Event<S>>) -> nat
    decreases events.len(),
{
    if events.len() == 0 {
        0
    } else {
        let (after, fx) = events.first().apply(d);
        let here: nat = if fx.reconnect {
            1
        } else {
            0
        };
        here + reopenings(after, events.drop_first())
    }
}

/// The socket is opened anew at least once for each time that the connection
/// is lost, and otherwise only for requests that find no number.
pub proof fn law_socket_is_opened_for_each_loss<S>(d: DispatcherView<S>, events: Seq<Event<S>>)
    ensures
        reopenings(d, events) >= losses(events),
        requests(events) == 0 ==> reopenings(d, events) == losses(events),
    decreases events.len(),
{
    if events.len() > 0 {
        law_socket_is_opened_for_each_loss(events.first().apply(d).0, events.drop_first());
    }
}

/// A new request does not disturb the others: its number is not in use, and
/// everybody else waits as before. One that is not written does not wait, and
/// its requester is told why.
pub proof fn law_new_request_disturbs_nobody<S>(
    d: DispatcherView<S>,
    sender: S,
    sent: Result<(), Error>,
)
    requires
        d.valid(),
        d.registry.id < u32::MAX,
    ensures
        ({
            let msg_id = (d.registry.id + 1) as u32;
            let regs = d.registry.regs;
            let (called, call_fx) = d.on_req(sender, sent);
            let (subscribed, subscribe_fx) = d.on_req_no_call(sender, sent);
            &&& !regs.contains_key(msg_id)
            &&& match sent {
                Ok(_) => {
                    &&& called.registry.regs == regs.insert(msg_id, (sender, true))
                    &&& subscribed.registry.regs == regs.insert(msg_id, (sender, false))
                    &&& call_fx.reply is None
                    &&& subscribe_fx.reply is None
                },
                Err(e) => {
                    &&& called.registry.regs == regs
                    &&& subscribed.registry.regs == regs
                    &&& call_fx.reply == Some((sender, e))
                    &&& subscribe_fx.reply == Some((sender, e))
                },
            }
        }),
{
}

/// Whoever waits goes on waiting through any run of events that do not end
/// the wait: what arrives under the number is still handed to the same
/// requester.
pub proof fn law_requester_keeps_waiting<S>(
    d: DispatcherView<S>,
    events: Seq<Event<S>>,
    msg_id: u32,
)
    requires
        d.valid(),
        d.registry.regs.contains_key(msg_id),
        forall|i: int|
            0 <= i < events.len() ==> (#[trigger] events[i]).spares(
                msg_id,
                d.registry.regs[msg_id].1,
            ),
    ensures
        state_after(d, events).valid(),
        state_after(d, events).registry.regs.contains_key(msg_id),
        state_after(d, events).registry.regs[msg_id] == d.registry.regs[msg_id],
    decreases events.len(),
{
    if events.len() > 0 {
        let after = events.first().apply(d).0;
        assert(events[0].spares(msg_id, d.registry.regs[msg_id].1));
        assert forall|i: int| 0 <= i < events.drop_first().len() implies (
        #[trigger] events.drop_first()[i]).spares(msg_id, after.registry.regs[msg_id].1) by {
            assert(events.drop_first()[i] == events[i + 1]);
        }
        law_requester_keeps_waiting(after, events.drop_first(), msg_id);
    }
}

/// A number under which nobody waits any more stays unused until the
/// connection is given up: no later request gets an answer to an earlier one.
pub proof fn law_number_is_not_reused<S>(d: DispatcherView<S>, events: Seq<Event<S>>, msg_id: u32)
    requires
        d.valid(),
        msg_id <= d.registry.id,
        !d.registry.regs.contains_key(msg_id),
        forall|i: int| 0 <= i < events.len() ==> !(#[trigger] events[i] is Deconnect),
    ensures
        !state_after(d, events).registry.regs.contains_key(msg_id),
        d.registry.id <= state_after(d, events).registry.id,
    decreases events.len(),
{
    if events.len() > 0 {
        let after = events.first().apply(d).0;
        assert(!(events[0] is Deconnect));
        assert forall|i: int| 0 <= i < events.drop_first().len() implies !(
        #[trigger] events.drop_first()[i] is Deconnect) by {
            assert(events.drop_first()[i] == events[i + 1]);
        }
        law_number_is_not_reused(after, events.drop_first(), msg_id);
    }
}

/// The requesters that are handed an answer under `msg_id` over a run of
/// events, in order.
pub open spec fn delivered<S>(
    d: DispatcherView<S>,
    events: Seq<Event<S>>,
    msg_id: u32,
) -> Seq<S>
    decreases events.len(),
{
    if events.len() == 0 {
        Seq::empty()
    } else {
        let event = events.first();
        let rest = delivered(event.apply(d).0, events.drop_first(), msg_id);
        match event {
            Event::Recv { msg_id: answered, taken: _ } if answered == msg_id
                && d.registry.regs.contains_key(msg_id) => seq![d.registry.regs[msg_id].0] + rest,
            _ => rest,
        }
    }
}

/// An answer under a number that has been given out, and under which nobody
/// waits any more, reaches nobody, until the connection is given up.
pub proof fn law_stray_answer_reaches_nobody<S>(
    d: DispatcherView<S>,
    events: Seq<Event<S>>,
    msg_id: u32,
)
    requires
        d.valid(),
        msg_id <= d.registry.id,
        !d.registry.regs.contains_key(msg_id),
        forall|i: int| 0 <= i < events.len() ==> !(#[trigger] events[i] is Deconnect),
    ensures
        delivered(d, events, msg_id) == Seq::<S>::empty(),
    decreases events.len(),
{
    if events.len() > 0 {
        let rest = events.drop_first();
        assert(!(events[0] is Deconnect));
        assert forall|i: int| 0 <= i < rest.len() implies !(#[trigger] rest[i] is Deconnect) by {
            assert(rest[i] == events[i + 1]);
        }
        law_stray_answer_reaches_nobody(events.first().apply(d).0, rest, msg_id);
    }
}

/// A call is answered at most once, and nobody else gets its answer: over any
/// run of events until the connection is given up, what arrives under its
/// number reaches the requester once, or nobody at all.
pub proof fn law_call_is_answered_once<S>(
    d: DispatcherView<S>,
    events: Seq<Event<S>>,
    msg_id: u32,
)
    requires
        d.valid(),
        d.registry.regs.contains_key(msg_id),
        d.registry.regs[msg_id].1,
        forall|i: int| 0 <= i < events.len() ==> !(#[trigger] events[i] is Deconnect),
    ensures
        ({
            ||| delivered(d, events, msg_id) == Seq::<S>::empty()
            ||| delivered(d, events, msg_id) == seq![d.registry.regs[msg_id].0]
        }),
    decreases events.len(),
{
    if events.len() > 0 {
        let event = events.first();
        let after = event.apply(d).0;
        let rest = events.drop_first();
        assert(!(events[0] is Deconnect));
        assert forall|i: int| 0 <= i < rest.len() implies !(#[trigger] rest[i] is Deconnect) by {
            assert(rest[i] == events[i + 1]);
        }
        if after.registry.regs.contains_key(msg_id) {
            law_call_is_answered_once(after, rest, msg_id);
        } else {
            law_stray_answer_reaches_nobody(after, rest, msg_id);
            assert(seq![d.registry.regs[msg_id].0] + Seq::<S>::empty() =~= seq![
                d.registry.regs[msg_id].0,
            ]);
        }
    }
}

/// How many answers arrive under `msg_id` in a run of events.
pub open spec fn answers<S>(events: Seq<Event<S>>, msg_id: u32) -> nat
    decreases events.len(),
{
    if events.len() == 0 {
        0
    } else {
        let here: nat = match events.first() {
            Event::Recv { msg_id: answered, taken: _ } if answered == msg_id => 1,
            _ => 0,
        };
        here + answers(events.drop_first(), msg_id)
    }
}

/// Whoever waits is handed every answer that arrives under its number, as long
/// as nothing ends the wait, and nobody else is handed any.
pub proof fn law_every_answer_is_handed_over<S>(
    d: DispatcherView<S>,
    events: Seq<Event<S>>,
    msg_id: u32,
)
    requires
        d.valid(),
        d.registry.regs.contains_key(msg_id),
        forall|i: int|
            0 <= i < events.len() ==> (#[trigger] events[i]).spares(
                msg_id,
                d.registry.regs[msg_id].1,
            ),
    ensures
        delivered(d, events, msg_id) == Seq::new(
            answers(events, msg_id),
            |i: int| d.registry.regs[msg_id].0,
        ),
    decreases events.len(),
{
    let sender = d.registry.regs[msg_id].0;
    let expected = Seq::new(answers(events, msg_id), |i: int| sender);
    if events.len() > 0 {
        let after = events.first().apply(d).0;
        let rest = events.drop_first();
        assert(events[0].spares(msg_id, d.registry.regs[msg_id].1));
        assert forall|i: int| 0 <= i < rest.len() implies (#[trigger] rest[i]).spares(
            msg_id,
            after.registry.regs[msg_id].1,
        ) by {
            assert(rest[i] == events[i + 1]);
        }
        law_every_answer_is_handed_over(after, rest, msg_id);
    }
    assert(delivered(d, events, msg_id) =~= expected);
}

/// A subscriber whose request was written is handed every answer that arrives
/// under its number, in order and without loss, over any run in which it takes
/// them, does not end its request, and the connection is not given up.
pub proof fn law_subscriber_gets_every_answer<S>(
    d: DispatcherView<S>,
    sender: S,
    events: Seq<Event<S>>,
)
    requires
        d.valid(),
        d.registry.id < u32::MAX,
        forall|i: int|
            0 <= i < events.len() ==> match #[trigger] events[i] {
                Event::Deconnect => false,
                Event::EndNoCall { msg_id } => msg_id != d.registry.id + 1,
                Event::Recv { msg_id, taken } => msg_id != d.registry.id + 1 || taken,
                _ => true,
            },
    ensures
        ({
            let after = d.on_req_no_call(sender, Ok(())).0;
            let msg_id = (d.registry.id + 1) as u32;
            &&& delivered(after, events, msg_id) == Seq::new(
                answers(events, msg_id),
                |i: int| sender,
            )
            &&& state_after(after, events).registry.regs.contains_key(msg_id)
            &&& state_after(after, events).registry.regs[msg_id].0 == sender
        }),
{
    let after = d.on_req_no_call(sender, Ok(())).0;
    let msg_id = (d.registry.id + 1) as u32;
    assert forall|i: int| 0 <= i < events.len() implies (#[trigger] events[i]).spares(
        msg_id,
        after.registry.regs[msg_id].1,
    ) by {}
    law_every_answer_is_handed_over(after, events, msg_id);
    law_requester_keeps_waiting(after, events, msg_id);
    assert(delivered(after, events, msg_id) =~= Seq::new(
        answers(events, msg_id),
        |i: int| sender,
    ));
}

/// How many requests are made in a run of events.
pub open spec fn requests<S>(events: Seq<Event<S>>) -> nat
    decreases events.len(),
{
    if events.len() == 0 {
        0
    } else {
        let here: nat = if events.first() is Req || events.first() is ReqNoCall {
            1
        } else {
            0
        };
        here + requests(events.drop_first())
    }
}

/// Every request takes the next number, whatever becomes of it: the k-th one
/// since the start, or since the connection was last given up, has number k,
/// as long as there are numbers.
pub proof fn law_requests_are_numbered_in_order<S>(
    d: DispatcherView<S>,
    events: Seq<Event<S>>,
)
    requires
        forall|i: int| 0 <= i < events.len() ==> !(#[trigger] events[i] is Deconnect),
    ensures
        d.registry.id + requests(events) <= u32::MAX ==> state_after(d, events).registry.id
            == d.registry.id + requests(events),
        DispatcherView::<S>::fresh().registry.id == 0,
        d.on_deconnect().0.registry.id == 0,
    decreases events.len(),
{
    if events.len() > 0 {
        let after = events.first().apply(d).0;
        let rest = events.drop_first();
        assert(!(events[0] is Deconnect));
        assert forall|i: int| 0 <= i < rest.len() implies !(#[trigger] rest[i] is Deconnect) by {
            assert(rest[i] == events[i + 1]);
        }
        law_requests_are_numbered_in_order(after, rest);
    }
}

/// The k-th request since the start, or since the connection was last given
/// up, waits under number k, if it is written.
pub proof fn law_kth_request_has_number_k<S>(
    d: DispatcherView<S>,
    events: Seq<Event<S>>,
    sender: S,
)
    requires
        d.registry.id == 0,
        requests(events) < u32::MAX,
        forall|i: int| 0 <= i < events.len() ==> !(#[trigger] events[i] is Deconnect),
    ensures
        ({
            let k = (requests(events) + 1) as u32;
            let (called, _) = state_after(d, events).on_req(sender, Ok(()));
            let (subscribed, _) = state_after(d, events).on_req_no_call(sender, Ok(()));
            &&& called.registry.id == k
            &&& called.registry.regs.contains_key(k)
            &&& called.registry.regs[k] == (sender, true)
            &&& subscribed.registry.id == k
            &&& subscribed.registry.regs.contains_key(k)
            &&& subscribed.registry.regs[k] == (sender, false)
        }),
{
    law_requests_are_numbered_in_order(d, events);
}

/// A request that is not written never gets an answer: until the connection
/// is given up, what arrives under the number that it used up reaches nobody.
pub proof fn law_refused_request_gets_no_answer<S>(
    d: DispatcherView<S>,
    sender: S,
    e: Error,
    events: Seq<Event<S>>,
)
    requires
        d.valid(),
        d.registry.id < u32::MAX,
        forall|i: int| 0 <= i < events.len() ==> !(#[trigger] events[i] is Deconnect),
    ensures
        delivered(d.on_req(sender, Err(e)).0, events, (d.registry.id + 1) as u32) == Seq::<
            S,
        >::empty(),
        delivered(d.on_req_no_call(sender, Err(e)).0, events, (d.registry.id + 1) as u32)
            == Seq::<S>::empty(),
{
    let msg_id = (d.registry.id + 1) as u32;
    law_stray_answer_reaches_nobody(d.on_req(sender, Err(e)).0, events, msg_id);
    law_stray_answer_reaches_nobody(d.on_req_no_call(sender, Err(e)).0, events, msg_id);
}

/// A request and its answer find their way: the server reads the channel, the
/// number and the payload out of the frame that is written for the request;
/// what it answers under that number is read back under it; and whatever
/// happens in between, short of the end of the wait, the requester is the one
/// that waits there.
pub proof fn law_answer_finds_requester<S>(
    d: DispatcherView<S>,
    sender: S,
    once: bool,
    channel_id: u32,
    data: Seq<u8>,
    events: Seq<Event<S>>,
    msg: Seq<u8>,
)
    requires
        d.valid(),
        d.registry.id < u32::MAX,
        data.len() <= MAX_PAYLOAD,
        msg.len() <= usize::MAX,
        forall|i: int|
            0 <= i < events.len() ==> (#[trigger] events[i]).spares(
                (d.registry.id + 1) as u32,
                once,
            ),
    ensures
        ({
            let msg_id = (d.registry.id + 1) as u32;
            let after = if once {
                d.on_req(sender, Ok(())).0
            } else {
                d.on_req_no_call(sender, Ok(())).0
            };
            &&& wire_laws::take_request(wire::request_frame(channel_id, msg_id, data)) == Some(
                (RequestParts { channel_id, msg_id, data }, Seq::<u8>::empty()),
            )
            &&& wire_laws::take_response(wire::response_frame(msg_id, msg)) == Some(
                (ResponseParts { msg_id, msg }, Seq::<u8>::empty()),
            )
            &&& state_after(after, events).registry.regs.contains_key(msg_id)
            &&& state_after(after, events).registry.regs[msg_id] == (sender, once)
        }),
{
    let msg_id = (d.registry.id + 1) as u32;
    let after = if once {
        d.on_req(sender, Ok(())).0
    } else {
        d.on_req_no_call(sender, Ok(())).0
    };
    let empty = Seq::<u8>::empty();
    law_new_request_disturbs_nobody(d, sender, Ok(()));
    wire_laws::law_request_read_back(channel_id, msg_id, data, empty);
    wire_laws::law_response_read_back(msg_id, msg, empty);
    assert(wire::request_frame(channel_id, msg_id, data) + empty =~= wire::request_frame(
        channel_id,
        msg_id,
        data,
    ));
    assert(wire::response_frame(msg_id, msg) + empty =~= wire::response_frame(msg_id, msg));
    law_requester_keeps_waiting(after, events, msg_id);
}

/// Giving the connection up tells everybody who waits, once each and by
/// number, and leaves nobody waiting.
pub proof fn law_deconnect_tells_everybody<S>(d: DispatcherView<S>)
    requires
        d.valid(),
    ensures
        ({
            let (after, fx) = d.on_deconnect();
            &&& after.registry.regs.dom().is_empty()
            &&& exists|ids: Seq<u32>|
                {
                    &&& #[trigger] d.registry.lists(ids)
                    &&& fx.resets == ids.map_values(|id: u32| d.registry.regs[id].0)
                }
        }),
{
    d.registry.law_all_waiting();
}

/// Only the last timer counts: one that runs out gives the connection up if
/// no other was started since, and does nothing if one was.
pub proof fn law_only_last_timer_counts<S>(d: DispatcherView<S>, events: Seq<Event<S>>)
    requires
        d.timeout_id + events.len() <= u128::MAX,
    ensures
        state_after(d, events).timeout_id == d.timeout_id + timers(d, events),
        timers(d, events) <= events.len(),
        state_after(d, events).on_timeout(d.timeout_id) == (
            state_after(d, events),
            EffectsView::<S> { deconnect: timers(d, events) == 0, ..EffectsView::none() },
        ),
    decreases events.len(),
{
    if events.len() > 0 {
        let after = events.first().apply(d).0;
        law_only_last_timer_counts(after, events.drop_first());
    }
}

/// That the socket is open is reported the first time and never again, however
/// often it is opened anew.
pub proof fn law_opening_is_reported_once<S>(d: DispatcherView<S>, events: Seq<Event<S>>)
    ensures
        openings(d, events) == if d.never_open && exists|i: int|
            0 <= i < events.len() && #[trigger] events[i] is Opened {
            1nat
        } else {
            0nat
        },
    decreases events.len(),
{
    if events.len() > 0 {
        let after = events.first().apply(d).0;
        let rest = events.drop_first();
        law_opening_is_reported_once(after, rest);
        assert(events.first() == events[0]);
        if exists|i: int| 0 <= i < rest.len() && #[trigger] rest[i] is Opened {
            let i = choose|i: int| 0 <= i < rest.len() && #[trigger] rest[i] is Opened;
            assert(events[i + 1] is Opened);
        }
        if exists|i: int| 0 <= i < events.len() && #[trigger] events[i] is Opened {
            let i = choose|i: int| 0 <= i < events.len() && #[trigger] events[i] is Opened;
            if i > 0 {
                assert(rest[i - 1] is Opened);
            }
        }
    }
}

/// An answer that a server wrote as a message of its own is taken out of the
/// message as it was.
pub proof fn law_answer_is_taken_out(msg_id: u32, msg: Seq<u8>)
    requires
        msg.len() <= usize::MAX,
    ensures
        web::held_answer(wire::response_frame(msg_id, msg)) == Some((msg, msg_id)),
{
    let n = wire::response_frame(msg_id, msg);
    wire::lemma_pow256_values();
    wire::lemma_be_roundtrip(msg.len(), 8);
    wire::lemma_be_roundtrip(msg_id as nat, 4);
    assert(n.subrange(0, 8) =~= wire::be_bytes(msg.len(), 8));
    assert(n.subrange(8, 12) =~= wire::be_bytes(msg_id as nat, 4));
    assert(n.skip(12) =~= msg);
}

/// A message that lacks some of an answer, or holds more than one, holds none.
pub proof fn law_other_than_an_answer_is_refused(msg_id: u32, msg: Seq<u8>, n: int, more: Seq<u8>)
    requires
        msg.len() <= usize::MAX,
        0 <= n < wire::response_frame(msg_id, msg).len(),
        more.len() > 0,
    ensures
        web::held_answer(wire::response_frame(msg_id, msg).take(n)) is None,
        web::held_answer(wire::response_frame(msg_id, msg) + more) is None,
{
    let frame = wire::response_frame(msg_id, msg);
    wire::lemma_pow256_values();
    wire::lemma_be_roundtrip(msg.len(), 8);
    wire::lemma_be_bytes_len(msg_id as nat, 4);
    if n >= 12 {
        assert(frame.take(n).subrange(0, 8) =~= wire::be_bytes(msg.len(), 8));
    }
    assert((frame + more).subrange(0, 8) =~= wire::be_bytes(msg.len(), 8));
}

} // verus!
