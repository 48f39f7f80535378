//! What holds of a server over several calls, and between a server and its
//! clients.
use vstd::prelude::*;

use crate::exchange;
use crate::rpc::{Error, Message, Response, Verify, RPC};
use crate::server_core;
use crate::server_core::{ChannelsView, Frame, OnChannelMsg};
use crate::server_websocket;
use crate::wire;
use crate::wire::{MAX_PAYLOAD, UPLOAD_CHANNEL};
use crate::wire_laws;
use crate::wire_laws::RequestParts;

verus! {

// ---------------------------------------------------------------------
// Handlers
// ---------------------------------------------------------------------

/// A channel is served by what was last set for it, and setting one leaves
/// all other channels as they were.
pub proof fn law_channel_is_served<R: RPC, N, W, C>(
    before: ChannelsView<N, W, C>,
    handler: OnChannelMsg<N, W>,
    after: ChannelsView<N, W, C>,
    rpc_channel: u32,
)
    requires
        before.serves::<R>(handler, after),
        forall|id: u32| #[trigger] call_ensures(R::rpc_channel, (), id) ==> id == rpc_channel,
    ensures
        after.handler(rpc_channel) == Some(handler),
        forall|other: u32|
            other != rpc_channel ==> #[trigger] after.handler(other) == before.handler(other),
        after.on_close == before.on_close,
{
}

/// The payload of a request is taken for what it decodes to, passed or refused
/// by the request's own check, or, if it does not decode, for an error, which
/// comes in no other case.
pub proof fn law_payload_is_what_it_decodes_to<R: Verify>(
    bytes: Seq<u8>,
    res: Result<Result<R, Error>, R::Return>,
)
    requires
        server_core::decoded::<R>(bytes, res),
    ensures
        match res {
            Ok(Ok(passed)) => exists|b: &[u8], r: R|
                {
                    &&& b@ == bytes
                    &&& #[trigger] call_ensures(R::decode, (b,), Some(r))
                    &&& call_ensures(R::verify_result, (r,), Ok(passed))
                },
            Ok(Err(e)) => e == Error::DeserializeFaild && exists|b: &[u8]| b@ == bytes
                && #[trigger] call_ensures(R::decode, (b,), None),
            Err(ret) => exists|b: &[u8], r: R|
                {
                    &&& b@ == bytes
                    &&& #[trigger] call_ensures(R::decode, (b,), Some(r))
                    &&& call_ensures(R::verify_result, (r,), Err(ret))
                },
        },
{
    let (b, parsed) = choose|b: &[u8], parsed: Option<R>|
        {
            &&& b@ == bytes
            &&& #[trigger] call_ensures(R::decode, (b,), parsed)
            &&& match parsed {
                None => res == Ok::<Result<R, Error>, R::Return>(Err(Error::DeserializeFaild)),
                Some(r) => match res {
                    Ok(Ok(passed)) => call_ensures(R::verify_result, (r,), Ok(passed)),
                    Ok(Err(_)) => false,
                    Err(ret) => call_ensures(R::verify_result, (r,), Err(ret)),
                },
            }
        };
    assert(call_ensures(R::decode, (b,), parsed));
}

/// An answer that is said to be sent was encoded, and the sender was handed
/// just those bytes, however many, and took them; one that failed could not be
/// encoded, or the sender did not take it, and the error tells which. No
/// answer that can be encoded goes unsent.
pub proof fn law_answer_is_sent_or_failed<R: RPC, T: FnOnce(Response) -> bool>(
    msg: &R::Return,
    sender: T,
    res: Result<(), Error>,
)
    requires
        server_core::answered::<R, T>(msg, sender, res),
    ensures
        match res {
            Ok(_) => exists|bytes: Vec<u8>|
                {
                    &&& call_ensures(R::encode_return, (msg,), Some(bytes))
                    &&& #[trigger] call_ensures(sender, (Response { msg: bytes },), true)
                },
            Err(e) => {
                ||| e == Error::SerializeFaild && call_ensures(R::encode_return, (msg,), None)
                ||| e == Error::ConnectionReset && exists|bytes: Vec<u8>|
                    {
                        &&& call_ensures(R::encode_return, (msg,), Some(bytes))
                        &&& #[trigger] call_ensures(sender, (Response { msg: bytes },), false)
                    }
            },
        },
{
}

/// What may be sent for a refused request is an encoding of the answer that
/// its own check refuses it with.
pub proof fn law_refusal_is_the_answer_of_the_check<R: Verify>(bytes: Seq<u8>, answer: Vec<u8>)
    requires
        server_core::refusal::<R>(bytes, answer),
    ensures
        exists|ret: R::Return, b: &[u8], r: R|
            {
                &&& b@ == bytes
                &&& #[trigger] call_ensures(R::decode, (b,), Some(r))
                &&& #[trigger] call_ensures(R::verify_result, (r,), Err(ret))
                &&& call_ensures(R::encode_return, (&ret,), Some(answer))
            },
{
    let ret = choose|ret: R::Return|
        {
            &&& server_core::decoded::<R>(bytes, Err(ret))
            &&& #[trigger] call_ensures(R::encode_return, (&ret,), Some(answer))
        };
    law_payload_is_what_it_decodes_to::<R>(bytes, Err(ret));
    let (b, r) = choose|b: &[u8], r: R|
        {
            &&& b@ == bytes
            &&& #[trigger] call_ensures(R::decode, (b,), Some(r))
            &&& call_ensures(R::verify_result, (r,), Err(ret))
        };
    assert(call_ensures(R::decode, (b,), Some(r)) && call_ensures(
        R::verify_result,
        (r,),
        Err(ret),
    ));
}

/// The handler of a channel is the one that stands under its number, and there
/// is none where none does.
pub proof fn law_handler_stands_under_its_channel<N, W, C>(
    channels: ChannelsView<N, W, C>,
    channel_id: u32,
)
    ensures
        channels.handler(channel_id) is Some <==> channels.channels.contains_key(channel_id),
        channels.handler(channel_id) matches Some(f) ==> channels.channels[channel_id] == f,
{
}

/// The codec of `R` reads back the requests that it writes.
pub open spec fn reads_back_requests<R: RPC>() -> bool {
    forall|param: &R, data: Vec<u8>, bytes: &[u8], parsed: Option<R>|
        #![trigger call_ensures(R::encode, (param,), Some(data)), call_ensures(R::decode, (bytes,), parsed)]
        {
            &&& call_ensures(R::encode, (param,), Some(data))
            &&& bytes@ == data@
            &&& call_ensures(R::decode, (bytes,), parsed)
        } ==> parsed == Some(*param)
}

/// The codec of `R` reads back the answers that it writes.
pub open spec fn reads_back_answers<R: RPC>() -> bool {
    forall|ret: &R::Return, data: Vec<u8>, bytes: &[u8], parsed: Option<R::Return>|
        #![trigger call_ensures(R::encode_return, (ret,), Some(data)), call_ensures(R::decode_return, (bytes,), parsed)]
        {
            &&& call_ensures(R::encode_return, (ret,), Some(data))
            &&& bytes@ == data@
            &&& call_ensures(R::decode_return, (bytes,), parsed)
        } ==> parsed == Some(*ret)
}

/// With a codec that reads back what it writes, the server takes the payload
/// of a request for the request itself: the handler gets the request if it
/// passes its check, and if not, the refusal is what its own check gives.
pub proof fn law_request_reaches_handler<R: Verify>(
    param: &R,
    data: Vec<u8>,
    outcome: Result<Result<R, Error>, R::Return>,
)
    requires
        reads_back_requests::<R>(),
        call_ensures(R::encode, (param,), Some(data)),
        server_core::decoded::<R>(data@, outcome),
    ensures
        match outcome {
            Ok(Ok(passed)) => call_ensures(R::verify_result, (*param,), Ok(passed)),
            Ok(Err(_)) => false,
            Err(ret) => call_ensures(R::verify_result, (*param,), Err(ret)),
        },
{
}

/// With a codec that reads back what it writes, the requester gets the answer
/// that the server gave.
pub proof fn law_answer_reaches_requester<R: RPC>(
    ret: &R::Return,
    data: Vec<u8>,
    res: Result<R::Return, Error>,
)
    requires
        reads_back_answers::<R>(),
        call_ensures(R::encode_return, (ret,), Some(data)),
        exchange::decoded_return::<R>(data@, res),
    ensures
        res == Ok::<R::Return, Error>(*ret),
{
}

// ---------------------------------------------------------------------
// Uploads
// ---------------------------------------------------------------------

/// What is handed on to whom, of the upload with number `msg_id`, over a run
/// of frames that begins while the uploads `list` run.
pub open spec fn handed_on<U>(list: Map<u32, U>, frames: Seq<Frame<U>>, msg_id: u32) -> Seq<
    (U, Seq<u8>),
>
    decreases frames.len(),
{
    if frames.len() == 0 {
        Seq::empty()
    } else {
        let frame = frames.first();
        let rest = handed_on(frame.after(list), frames.drop_first(), msg_id);
        match frame.taker(list) {
            Some(tx) if frame.msg_id == msg_id => seq![(tx, frame.data)] + rest,
            _ => rest,
        }
    }
}

/// The items of the upload with number `msg_id` in a run of frames: the
/// payloads of the frames for the upload channel that carry its number, up to
/// the first without payload.
pub open spec fn items<U>(frames: Seq<Frame<U>>, msg_id: u32) -> Seq<Seq<u8>>
    decreases frames.len(),
{
    if frames.len() == 0 {
        Seq::empty()
    } else {
        let frame = frames.first();
        if frame.channel_id != UPLOAD_CHANNEL || frame.msg_id != msg_id {
            items(frames.drop_first(), msg_id)
        } else if frame.data.len() == 0 {
            Seq::empty()
        } else {
            seq![frame.data] + items(frames.drop_first(), msg_id)
        }
    }
}

/// The frame begins an upload with number `msg_id`.
pub open spec fn begins<U>(frame: Frame<U>, msg_id: u32) -> bool {
    frame.channel_id != UPLOAD_CHANNEL && frame.msg_id == msg_id && frame.begun is Some
}

/// A frame is what was read, and an upload item is handed on exactly where it
/// has a payload, is for the highest channel, and carries the number of an
/// upload that runs: to what takes the items of that upload.
pub proof fn law_item_is_handed_to_its_upload<U>(
    list: Map<u32, U>,
    msg: Message,
    msg_id: u32,
    begun: Option<U>,
)
    ensures
        ({
            let frame = Frame::read(msg, msg_id, begun);
            &&& frame.channel_id == msg.channel_id
            &&& frame.msg_id == msg_id
            &&& frame.data == msg.msg@
            &&& frame.begun == begun
            &&& frame.taker(list) is Some <==> msg.channel_id == 4294967295u32
                && list.contains_key(msg_id) && msg.msg@.len() > 0
            &&& frame.taker(list) matches Some(tx) ==> tx == list[msg_id]
        }),
{
}

/// Behind a frame that begins an upload, whatever its number, exactly what it
/// begins takes the items under that number, and all other uploads are as
/// before. A frame that begins none, on any other channel than the highest,
/// leaves them all as they are, and so does an item; an item without payload
/// ends its own upload alone.
pub proof fn law_upload_runs_once_it_is_begun<U>(list: Map<u32, U>, frame: Frame<U>)
    ensures
        frame.after(list).remove(frame.msg_id) == list.remove(frame.msg_id),
        frame.channel_id != 4294967295u32 ==> match frame.begun {
            Some(tx) => frame.after(list).contains_key(frame.msg_id)
                && frame.after(list)[frame.msg_id] == tx,
            None => frame.after(list) == list,
        },
        frame.channel_id == 4294967295u32 && frame.data.len() > 0 ==> frame.after(list) == list,
        frame.channel_id == 4294967295u32 && frame.data.len() == 0 ==> !frame.after(
            list,
        ).contains_key(frame.msg_id),
{
    assert(frame.after(list).remove(frame.msg_id) =~= list.remove(frame.msg_id));
}

/// The frame that a server reads as the request `parts`, which does not begin
/// an upload.
pub open spec fn plain_frame<U>(parts: RequestParts) -> Frame<U> {
    Frame {
        channel_id: parts.channel_id,
        msg_id: parts.msg_id,
        data: parts.data,
        begun: None,
    }
}

/// What a client writes as an item of a running upload, the server reads as
/// one: it hands the payload to what takes the items of that upload, or ends
/// the upload if there is no payload, and leaves all other uploads alone.
pub proof fn law_written_item_is_taken<U>(list: Map<u32, U>, msg_id: u32, data: Seq<u8>)
    requires
        list.contains_key(msg_id),
        data.len() <= MAX_PAYLOAD,
    ensures
        wire_laws::take_request(wire::request_frame(UPLOAD_CHANNEL, msg_id, data)) matches Some(
            (parts, rest),
        ) && {
            let frame = plain_frame::<U>(parts);
            &&& rest.len() == 0
            &&& data.len() > 0 ==> frame.data == data && frame.taker(list) == Some(list[msg_id])
                && frame.after(list) == list
            &&& data.len() == 0 ==> frame.taker(list) is None && frame.after(list) == list.remove(
                msg_id,
            )
        },
{
    let empty = Seq::<u8>::empty();
    let written = wire::request_frame(UPLOAD_CHANNEL, msg_id, data);
    wire_laws::law_request_read_back(UPLOAD_CHANNEL, msg_id, data, empty);
    assert(written + empty =~= written);
}

/// The handler of an upload gets all its items and nothing else, in the order
/// in which they came, up to the end of the upload, whatever else happens on
/// the connection.
pub proof fn law_upload_items_reach_handler<U>(
    list: Map<u32, U>,
    frames: Seq<Frame<U>>,
    msg_id: u32,
)
    requires
        list.contains_key(msg_id),
        forall|i: int| 0 <= i < frames.len() ==> !begins(#[trigger] frames[i], msg_id),
    ensures
        handed_on(list, frames, msg_id) == items(frames, msg_id).map_values(
            |data: Seq<u8>| (list[msg_id], data),
        ),
    decreases frames.len(),
{
    let with_taker = |data: Seq<u8>| (list[msg_id], data);
    if frames.len() == 0 {
        assert(items(frames, msg_id).map_values(with_taker) =~= Seq::empty());
    } else {
        let frame = frames.first();
        let after = frame.after(list);
        let rest = frames.drop_first();
        assert(!begins(frames[0], msg_id));
        assert forall|i: int| 0 <= i < rest.len() implies !begins(#[trigger] rest[i], msg_id) by {
            assert(rest[i] == frames[i + 1]);
        }
        if frame.channel_id == UPLOAD_CHANNEL && frame.msg_id == msg_id && frame.data.len() == 0 {
            lemma_nothing_handed_on(after, rest, msg_id);
            assert(items(frames, msg_id).map_values(with_taker) =~= Seq::empty());
        } else {
            law_upload_items_reach_handler(after, rest, msg_id);
            assert(after[msg_id] == list[msg_id]);
            let with_taker_after = |data: Seq<u8>| (after[msg_id], data);
            assert(items(rest, msg_id).map_values(with_taker_after) =~= items(
                rest,
                msg_id,
            ).map_values(with_taker));
            if frame.channel_id == UPLOAD_CHANNEL && frame.msg_id == msg_id {
                assert((seq![frame.data] + items(rest, msg_id)).map_values(with_taker) =~= seq![
                    (list[msg_id], frame.data),
                ] + items(rest, msg_id).map_values(with_taker));
            }
        }
    }
}

/// An upload gets all its items from its first frame on: behind the frame that
/// begins it, whatever ran before and whatever its number, what is handed on
/// under that number is the items that follow, in order, each to what the
/// frame began.
pub proof fn law_upload_gets_its_items_from_the_start<U>(
    list: Map<u32, U>,
    first: Frame<U>,
    tx: U,
    frames: Seq<Frame<U>>,
)
    requires
        first.channel_id != 4294967295u32,
        first.begun == Some(tx),
        forall|i: int| 0 <= i < frames.len() ==> !begins(#[trigger] frames[i], first.msg_id),
    ensures
        handed_on(list, seq![first] + frames, first.msg_id) == items(
            frames,
            first.msg_id,
        ).map_values(|data: Seq<u8>| (tx, data)),
{
    let all = seq![first] + frames;
    let after = first.after(list);
    law_upload_runs_once_it_is_begun(list, first);
    law_upload_items_reach_handler(after, frames, first.msg_id);
    assert(all.drop_first() =~= frames);
    assert(all.first() == first);
    assert(items(frames, first.msg_id).map_values(
        |data: Seq<u8>| (after[first.msg_id], data),
    ) =~= items(frames, first.msg_id).map_values(|data: Seq<u8>| (tx, data)));
}

/// The frames of an upload with number `msg_id` that has the items `datas` and
/// is closed by an empty one.
pub open spec fn closed_upload<U>(msg_id: u32, datas: Seq<Seq<u8>>) -> Seq<Frame<U>>
    decreases datas.len(),
{
    if datas.len() == 0 {
        seq![Frame { channel_id: UPLOAD_CHANNEL, msg_id, data: Seq::empty(), begun: None }]
    } else {
        seq![Frame { channel_id: UPLOAD_CHANNEL, msg_id, data: datas.first(), begun: None }]
            + closed_upload(msg_id, datas.drop_first())
    }
}

/// Of an upload that is closed by an empty item, the items are those that were
/// written, unless one of them is empty itself.
pub proof fn law_closed_upload_has_its_items<U>(msg_id: u32, datas: Seq<Seq<u8>>)
    requires
        forall|i: int| 0 <= i < datas.len() ==> (#[trigger] datas[i]).len() > 0,
    ensures
        items(closed_upload::<U>(msg_id, datas), msg_id) == datas,
    decreases datas.len(),
{
    let frames = closed_upload::<U>(msg_id, datas);
    if datas.len() > 0 {
        let rest = datas.drop_first();
        assert forall|i: int| 0 <= i < rest.len() implies (#[trigger] rest[i]).len() > 0 by {
            assert(rest[i] == datas[i + 1]);
        }
        law_closed_upload_has_its_items::<U>(msg_id, rest);
        assert(datas[0].len() > 0);
        assert(frames.drop_first() =~= closed_upload::<U>(msg_id, rest));
        assert(seq![datas.first()] + rest =~= datas);
    } else {
        assert(items(frames, msg_id) =~= datas);
    }
}

/// Nothing is handed on for an upload that does not run.
proof fn lemma_nothing_handed_on<U>(list: Map<u32, U>, frames: Seq<Frame<U>>, msg_id: u32)
    requires
        !list.contains_key(msg_id),
        forall|i: int| 0 <= i < frames.len() ==> !begins(#[trigger] frames[i], msg_id),
    ensures
        handed_on(list, frames, msg_id) == Seq::<(U, Seq<u8>)>::empty(),
    decreases frames.len(),
{
    if frames.len() > 0 {
        let rest = frames.drop_first();
        assert(!begins(frames[0], msg_id));
        assert forall|i: int| 0 <= i < rest.len() implies !begins(#[trigger] rest[i], msg_id) by {
            assert(rest[i] == frames[i + 1]);
        }
        lemma_nothing_handed_on(frames.first().after(list), rest, msg_id);
    }
}

// ---------------------------------------------------------------------
// Connections
// ---------------------------------------------------------------------

/// The numbers of the next `n` connections after `count` of them.
pub open spec fn connection_ids(count: nat, n: nat) -> Seq<nat>
    decreases n,
{
    if n == 0 {
        Seq::empty()
    } else {
        let (id, after) = server_core::numbered(count);
        seq![id] + connection_ids(after, (n - 1) as nat)
    }
}

/// Connections are numbered one by one: after `count` connections come
/// `count`, `count + 1` and so on, and so the first `n` have the numbers below
/// `n`.
pub proof fn law_connections_are_counted(count: nat, n: nat)
    ensures
        server_core::numbered(count) == (count, count + 1),
        connection_ids(count, n) == Seq::new(n, |i: int| (count + i) as nat),
    decreases n,
{
    if n > 0 {
        law_connections_are_counted(count + 1, (n - 1) as nat);
    }
    assert(connection_ids(count, n) =~= Seq::new(n, |i: int| (count + i) as nat));
}

// ---------------------------------------------------------------------
// Byte streams over messages
// ---------------------------------------------------------------------

/// A step of a reader of messages.
pub enum ReadEvent {
    /// A message came, while none was being read.
    Message { data: Seq<u8> },
    /// There was a read into this many bytes.
    Read { room: nat },
}

/// What is left of the message that is being read, behind a run of steps.
pub open spec fn left(state: Option<Seq<u8>>, events: Seq<ReadEvent>) -> Seq<u8>
    decreases events.len(),
{
    if events.len() == 0 {
        match state {
            Some(pending) => pending,
            None => Seq::empty(),
        }
    } else {
        left(after(state, events.first()), events.drop_first())
    }
}

/// The state of a reader behind a step.
pub open spec fn after(state: Option<Seq<u8>>, event: ReadEvent) -> Option<Seq<u8>> {
    match event {
        ReadEvent::Message { data } => Some(data),
        ReadEvent::Read { room } => match state {
            Some(pending) => server_websocket::read_rest(pending, room),
            None => None,
        },
    }
}

/// The bytes that a run of steps gives to the reading side.
pub open spec fn given(state: Option<Seq<u8>>, events: Seq<ReadEvent>) -> Seq<u8>
    decreases events.len(),
{
    if events.len() == 0 {
        Seq::empty()
    } else {
        let here = match (events.first(), state) {
            (ReadEvent::Read { room }, Some(pending)) => pending.take(
                server_websocket::read_len(pending, room) as int,
            ),
            _ => Seq::empty(),
        };
        here + given(after(state, events.first()), events.drop_first())
    }
}

/// The bytes of all messages that come in a run of steps.
pub open spec fn received(events: Seq<ReadEvent>) -> Seq<u8>
    decreases events.len(),
{
    if events.len() == 0 {
        Seq::empty()
    } else {
        let here = match events.first() {
            ReadEvent::Message { data } => data,
            ReadEvent::Read { room } => Seq::empty(),
        };
        here + received(events.drop_first())
    }
}

/// A message comes only while none is being read.
pub open spec fn in_turn(state: Option<Seq<u8>>, events: Seq<ReadEvent>) -> bool
    decreases events.len(),
{
    events.len() == 0 || {
        &&& events.first() is Message ==> state is None
        &&& in_turn(after(state, events.first()), events.drop_first())
    }
}

/// What is read is what the messages carried, in order and without gaps,
/// however it was cut into messages and however much is read at a time.
pub proof fn law_read_is_what_was_sent(state: Option<Seq<u8>>, events: Seq<ReadEvent>)
    requires
        in_turn(state, events),
    ensures
        given(state, events) + left(state, events) == (match state {
            Some(pending) => pending,
            None => Seq::empty(),
        }) + received(events),
    decreases events.len(),
{
    if events.len() == 0 {
        assert(given(state, events) + left(state, events) =~= left(state, events));
        assert(left(state, events) + received(events) =~= left(state, events));
    } else {
        let event = events.first();
        let rest = events.drop_first();
        let next = after(state, event);
        law_read_is_what_was_sent(next, rest);
        match event {
            ReadEvent::Message { data } => {
                assert(given(state, events) + left(state, events) =~= data + received(rest));
                assert(Seq::<u8>::empty() + received(events) =~= data + received(rest));
            },
            ReadEvent::Read { room } => {
                assert(received(events) =~= received(rest));
                match state {
                    None => {
                        assert(given(state, events) =~= given(next, rest));
                    },
                    Some(pending) => {
                        let len = server_websocket::read_len(pending, room) as int;
                        let pending_next = match next {
                            Some(p) => p,
                            None => Seq::empty(),
                        };
                        assert(pending.take(len) + pending_next =~= pending);
                        assert(given(state, events) + left(state, events) =~= pending.take(len) + (
                        given(next, rest) + left(next, rest)));
                        assert(pending.take(len) + (pending_next + received(rest)) =~= pending
                            + received(rest));
                    },
                }
            },
        }
    }
}

/// Requests that are written over messages are read as they were, in order,
/// once all messages have been read to their ends, however the requests were
/// cut into messages.
pub proof fn law_requests_over_messages(requests: Seq<RequestParts>, events: Seq<ReadEvent>)
    requires
        forall|i: int|
            0 <= i < requests.len() ==> (#[trigger] requests[i]).data.len() <= MAX_PAYLOAD,
        in_turn(None, events),
        received(events) == wire_laws::request_stream(requests),
        left(None, events).len() == 0,
    ensures
        wire_laws::read_requests(given(None, events)) == requests,
{
    law_read_is_what_was_sent(None, events);
    assert(given(None, events) + left(None, events) =~= given(None, events));
    assert(Seq::<u8>::empty() + received(events) =~= received(events));
    wire_laws::law_request_stream_read_back(requests);
}

} // verus!
