//! The client of a QUIC connection, where every exchange has a stream of its
//! own.
use vstd::prelude::*;

use crate::exchange;
use crate::rpc::{Error, Verify, RPC};
use crate::wire;
use crate::wire::MAX_PAYLOAD;

verus! {

/// What is left of a failed read or write.
pub fn map_io_error<E>(e: E) -> (res: Error)
    ensures
        res == Error::TransportError,
{
    Error::TransportError
}

/// Whether a stream may be opened for a request.
pub fn check<R: Verify>(param: &R) -> (res: Result<(), Error>)
    ensures
        match res {
            Ok(_) => call_ensures(R::verify, (param,), Ok(())),
            Err(e) => e == Error::VerifyFailed && exists|ret: R::Return|
                call_ensures(R::verify, (param,), Err(ret)),
        },
{
    let verdict = param.verify();
    match verdict {
        Err(ret) => {
            proof {
                assert(call_ensures(R::verify, (param,), Err(ret)));
            }
            Err(Error::VerifyFailed)
        },
        Ok(unit) => {
            proof {
                assert(verdict == Ok::<(), R::Return>(()));
            }
            Ok(())
        },
    }
}

/// The bytes to write for a request.
pub fn send_param<R: RPC>(param: &R) -> (res: Result<Vec<u8>, Error>)
    ensures
        ({
            ||| {
                &&& call_ensures(R::encode, (param,), None)
                &&& res == Err::<Vec<u8>, Error>(Error::SerializeFaild)
            }
            ||| exists|ser: Vec<u8>|
                {
                    &&& #[trigger] call_ensures(R::encode, (param,), Some(ser))
                    &&& match res {
                        Err(e) => e == Error::MessageTooBig && ser@.len() > MAX_PAYLOAD,
                        Ok(frame) => ser@.len() <= MAX_PAYLOAD && exists|channel_id: u32|
                            {
                                &&& #[trigger] call_ensures(R::rpc_channel, (), channel_id)
                                &&& frame@ == wire::stream_request_frame(channel_id, ser@)
                            },
                    }
                }
        }),
{
    match param.encode() {
        None => Err(Error::SerializeFaild),
        Some(ser) => {
            let channel_id = R::rpc_channel();
            wire::encode_stream_request(channel_id, ser.as_slice())
        },
    }
}

/// The answer in the payload of a reply.
pub fn read_result<R: RPC>(msg_bytes: &[u8]) -> (res: Result<R::Return, Error>)
    ensures
        exchange::decoded_return::<R>(msg_bytes@, res),
{
    exchange::decode_return::<R>(msg_bytes)
}

/// What is to be done once a request that is made again has been written, or
/// not.
#[derive(Clone, Copy, Debug, PartialEq, Eq, Structural)]
pub enum Resend {
    /// Go on with the stream.
    Done,
    /// Pause, then write the request again to the same stream.
    Again,
}

/// Decides on the outcome of writing a request that is made again: it is
/// written until that succeeds.
pub fn on_resent(sent: Result<(), Error>) -> (res: Resend)
    ensures
        res == if sent is Ok {
            Resend::Done
        } else {
            Resend::Again
        },
{
    match sent {
        Ok(_) => Resend::Done,
        Err(_) => Resend::Again,
    }
}

/// What a subscription does with the outcome of reading an answer.
pub enum Received<T> {
    /// Hand the answer on, and go on with the same stream.
    Forward(T),
    /// Request again on a new stream; once that is done, hand on this error
    /// and go on with the new stream.
    Rerequest(Error),
}

/// What comes of the outcome of reading an answer.
pub open spec fn received<T>(read: Result<T, Error>) -> Received<T> {
    match read {
        Ok(item) => Received::Forward(item),
        Err(_) => Received::Rerequest(Error::ConnectionReset),
    }
}

/// Decides on the outcome of reading an answer: after a failure the request
/// is made again, and the subscriber learns that the connection was reset.
pub fn on_read<T>(read: Result<T, Error>) -> (res: Received<T>)
    ensures
        res == received(read),
        res == match read {
            Ok(item) => Received::Forward(item),
            Err(_) => Received::Rerequest(Error::ConnectionReset),
        },
{
    match read {
        Ok(item) => Received::Forward(item),
        Err(_e) => Received::Rerequest(Error::ConnectionReset),
    }
}

/// Whether a subscription goes on, from whether the subscriber took what it
/// was handed.
pub fn on_forwarded(taken: bool) -> (res: Result<(), Error>)
    ensures
        res == if taken {
            Ok::<(), Error>(())
        } else {
            Err(Error::ConnectionReset)
        },
{
    if taken {
        Ok(())
    } else {
        Err(Error::ConnectionReset)
    }
}

/// What comes of asking for a stream, from whether one came.
pub fn stream_opened<T>(stream: Option<T>) -> (res: Result<T, Error>)
    ensures
        res == match stream {
            Some(s) => Ok::<T, Error>(s),
            None => Err(Error::ConnectionDroped),
        },
{
    match stream {
        Some(s) => Ok(s),
        None => Err(Error::ConnectionDroped),
    }
}

/// What is left of a failed attempt to connect.
pub fn connect_failed<E>(e: E) -> (res: Error)
    ensures
        res == Error::ConnectionFailed,
{
    Error::ConnectionFailed
}

/// What happens to a subscription around one answer.
pub struct ReadEvent<T> {
    /// The outcome of reading the answer.
    pub read: Result<T, Error>,
    /// Whether a new stream came, if the request is made again.
    pub reopened: bool,
    /// Whether the subscriber took what it was handed.
    pub taken: bool,
}

/// What a subscriber is handed over a run of answers. The run is over once no
/// new stream comes, or once the subscriber does not take what it is handed.
pub open spec fn handed<T>(events: Seq<ReadEvent<T>>) -> Seq<Result<T, Error>>
    decreases events.len(),
{
    if events.len() == 0 {
        Seq::empty()
    } else {
        let event = events.first();
        let rest = if event.taken {
            handed(events.drop_first())
        } else {
            Seq::empty()
        };
        match received(event.read) {
            Received::Forward(item) => seq![Ok::<T, Error>(item)] + rest,
            Received::Rerequest(e) => if event.reopened {
                seq![Err::<T, Error>(e)] + rest
            } else {
                Seq::empty()
            },
        }
    }
}

/// What a subscriber learns of the outcome of a read: the answer, or that the
/// connection was reset.
pub open spec fn learned<T>(read: Result<T, Error>) -> Result<T, Error> {
    match read {
        Ok(item) => Ok(item),
        Err(_) => Err(Error::ConnectionReset),
    }
}

/// Over any run of reads the subscriber gets each answer, in order, and for
/// each failure that the connection was reset; and all of them, unless the
/// run is over before its end.
pub proof fn law_subscriber_gets_every_read<T>(events: Seq<ReadEvent<T>>)
    ensures
        handed(events).len() <= events.len(),
        forall|i: int|
            0 <= i < handed(events).len() ==> #[trigger] handed(events)[i] == learned(
                events[i].read,
            ),
        forall|i: int|
            0 <= i < handed(events).len() ==> #[trigger] handed(events)[i]
                == match events[i].read {
                Ok(item) => Ok::<T, Error>(item),
                Err(_) => Err(Error::ConnectionReset),
            },
        (forall|i: int|
            0 <= i < events.len() ==> (#[trigger] events[i]).taken && events[i].reopened)
            ==> handed(events).len() == events.len(),
    decreases events.len(),
{
    if events.len() > 0 {
        let rest = events.drop_first();
        law_subscriber_gets_every_read(rest);
        assert(forall|i: int| 0 <= i < rest.len() ==> #[trigger] rest[i] == events[i + 1]);
        let all = forall|i: int|
            0 <= i < events.len() ==> (#[trigger] events[i]).taken && events[i].reopened;
        assert(events.first() == events[0]);
        assert forall|i: int| 0 <= i < handed(events).len() implies #[trigger] handed(events)[i]
            == learned(events[i].read) by {
            if i > 0 {
                assert(handed(events)[i] == handed(rest)[i - 1]);
                assert(rest[i - 1] == events[i]);
            }
        }
        if all {
            assert(events[0].taken && events[0].reopened);
            assert forall|i: int| 0 <= i < rest.len() implies (#[trigger] rest[i]).taken
                && rest[i].reopened by {
                assert(rest[i] == events[i + 1]);
            }
        }
    }
}

// ---------------------------------------------------------------------
// Keeping a connection
// ---------------------------------------------------------------------

/// Where the keeper of a connection stands. `asked` tells whether a stream has
/// been asked for and not been handed out.
#[derive(Clone, Copy, Debug, PartialEq, Eq, Structural)]
pub enum Link {
    /// It tries to connect.
    Connecting { asked: bool },
    /// It pauses before it tries to connect again.
    Pausing { asked: bool },
    /// It is connected, and nobody has asked for a stream.
    Idle,
    /// It opens a stream.
    Opening,
}

/// What has happened to the keeper of a connection.
#[derive(Clone, Copy, Debug, PartialEq, Eq, Structural)]
pub enum LinkEvent {
    /// The attempt to connect is over; tells whether it succeeded.
    Connected(bool),
    /// The pause is over.
    Paused,
    /// Somebody has asked for a stream.
    Asked,
    /// The attempt to open a stream is over; tells whether it succeeded.
    Opened(bool),
}

/// What the keeper of a connection does next.
#[derive(Clone, Copy, Debug, PartialEq, Eq, Structural)]
pub enum LinkAction {
    /// Try to connect.
    Connect,
    /// Pause.
    Pause,
    /// Wait until somebody asks for a stream.
    Take,
    /// Open a stream.
    Open,
    /// Close the connection, and try to connect.
    Reset,
    /// Hand the stream out, and wait until somebody asks for another.
    HandOut,
}

impl Link {
    /// A stream has been asked for and not been handed out.
    pub open spec fn asked(self) -> bool {
        match self {
            Link::Connecting { asked } => asked,
            Link::Pausing { asked } => asked,
            Link::Idle => false,
            Link::Opening => true,
        }
    }

    /// The event can happen here.
    pub open spec fn expects(self, event: LinkEvent) -> bool {
        match event {
            LinkEvent::Connected(_) => self is Connecting,
            LinkEvent::Paused => self is Pausing,
            LinkEvent::Asked => self is Idle,
            LinkEvent::Opened(_) => self is Opening,
        }
    }

    /// Where the keeper stands behind an event, and what it does then. A
    /// stream that cannot be opened is asked for again on a new connection.
    pub open spec fn after(self, event: LinkEvent) -> (Link, LinkAction) {
        match event {
            LinkEvent::Connected(true) => if self.asked() {
                (Link::Opening, LinkAction::Open)
            } else {
                (Link::Idle, LinkAction::Take)
            },
            LinkEvent::Connected(false) => (
                Link::Pausing { asked: self.asked() },
                LinkAction::Pause,
            ),
            LinkEvent::Paused => (
                Link::Connecting { asked: self.asked() },
                LinkAction::Connect,
            ),
            LinkEvent::Asked => (Link::Opening, LinkAction::Open),
            LinkEvent::Opened(true) => (Link::Idle, LinkAction::HandOut),
            LinkEvent::Opened(false) => (Link::Connecting { asked: true }, LinkAction::Reset),
        }
    }

    /// A keeper that has yet to connect.
    pub fn new() -> (res: (Link, LinkAction))
        ensures
            res == (Link::Connecting { asked: false }, LinkAction::Connect),
    {
        (Link::Connecting { asked: false }, LinkAction::Connect)
    }

    /// Handles an event.
    pub fn on_event(self, event: LinkEvent) -> (res: (Link, LinkAction))
        requires
            self.expects(event),
        ensures
            res == self.after(event),
    {
        let asked = match self {
            Link::Connecting { asked } => asked,
            Link::Pausing { asked } => asked,
            Link::Idle => false,
            Link::Opening => true,
        };
        match event {
            LinkEvent::Connected(true) => if asked {
                (Link::Opening, LinkAction::Open)
            } else {
                (Link::Idle, LinkAction::Take)
            },
            LinkEvent::Connected(false) => (Link::Pausing { asked }, LinkAction::Pause),
            LinkEvent::Paused => (Link::Connecting { asked }, LinkAction::Connect),
            LinkEvent::Asked => (Link::Opening, LinkAction::Open),
            LinkEvent::Opened(true) => (Link::Idle, LinkAction::HandOut),
            LinkEvent::Opened(false) => (Link::Connecting { asked: true }, LinkAction::Reset),
        }
    }
}

/// Every event of the run can happen where the keeper then stands.
pub open spec fn possible(link: Link, events: Seq<LinkEvent>) -> bool
    decreases events.len(),
{
    events.len() == 0 || {
        &&& link.expects(events.first())
        &&& possible(link.after(events.first()).0, events.drop_first())
    }
}

/// Where the keeper stands behind a run of events.
pub open spec fn link_after(link: Link, events: Seq<LinkEvent>) -> Link
    decreases events.len(),
{
    if events.len() == 0 {
        link
    } else {
        link_after(link.after(events.first()).0, events.drop_first())
    }
}

/// How many streams are asked for in a run of events.
pub open spec fn asked_for(events: Seq<LinkEvent>) -> nat
    decreases events.len(),
{
    if events.len() == 0 {
        0
    } else {
        let here: nat = if events.first() is Asked {
            1
        } else {
            0
        };
        here + asked_for(events.drop_first())
    }
}

/// How many streams are handed out in a run of events.
pub open spec fn handed_out(link: Link, events: Seq<LinkEvent>) -> nat
    decreases events.len(),
{
    if events.len() == 0 {
        0
    } else {
        let (next, action) = link.after(events.first());
        let here: nat = if action is HandOut {
            1
        } else {
            0
        };
        here + handed_out(next, events.drop_first())
    }
}

/// Every stream that is asked for is handed out once, before the next can be
/// asked for, however often connecting and opening fail in between: what has
/// been handed out, and the one that is still owed, are what was asked for.
pub proof fn law_streams_are_handed_out_once(link: Link, events: Seq<LinkEvent>)
    requires
        possible(link, events),
    ensures
        handed_out(link, events) + (if link_after(link, events).asked() {
            1nat
        } else {
            0nat
        }) == asked_for(events) + (if link.asked() {
            1nat
        } else {
            0nat
        }),
    decreases events.len(),
{
    if events.len() > 0 {
        law_streams_are_handed_out_once(link.after(events.first()).0, events.drop_first());
    }
}

/// What the keeper of a connection does about an event, and what it then waits
/// for: it opens a stream exactly where one is owed and there is a connection,
/// hands out each stream that opens, gives up the connection where none opens,
/// and pauses behind each failed attempt to connect. A stream is owed from when
/// it is asked for until one opens.
pub proof fn law_link_decides(link: Link, event: LinkEvent)
    requires
        link.expects(event),
    ensures
        ({
            let (next, action) = link.after(event);
            let owed = link == Link::Opening || link == (Link::Connecting { asked: true }) || link
                == (Link::Pausing { asked: true });
            &&& action == LinkAction::HandOut <==> event == LinkEvent::Opened(true)
            &&& action == LinkAction::Reset <==> event == LinkEvent::Opened(false)
            &&& action == LinkAction::Pause <==> event == LinkEvent::Connected(false)
            &&& action == LinkAction::Connect <==> event == LinkEvent::Paused
            &&& action == LinkAction::Open <==> event == LinkEvent::Asked || (event
                == LinkEvent::Connected(true) && owed)
            &&& action == LinkAction::Take <==> event == LinkEvent::Connected(true) && !owed
            &&& action == LinkAction::Open ==> next == Link::Opening
            &&& action == LinkAction::Take || action == LinkAction::HandOut ==> next == Link::Idle
            &&& action == LinkAction::Reset ==> next == (Link::Connecting { asked: true })
            &&& action == LinkAction::Pause ==> next == (Link::Pausing { asked: owed })
            &&& action == LinkAction::Connect ==> next == (Link::Connecting { asked: owed })
        }),
{
}

} // verus!
