use std::io::{Error as IoError, ErrorKind};
use todorpc::client_core::{
    from_io_result, prepare, received, Connect, ConnectNoSend, ConnectSend,
};
use todorpc::client_quic::{
    check, connect_failed, map_io_error, on_forwarded, on_read, on_resent, read_result, send_param,
    stream_opened, Link, LinkAction, LinkEvent, Received, Resend,
};
use todorpc::rpc::{Call, Error, Verify, RPC};
use todorpc::server_quic::{on_stream_end, ConnectionEnd, StreamEnd};

/// Passes its check if it holds an odd number.
struct Foo(u32);

impl RPC for Foo {
    type Return = u32;
    fn rpc_channel() -> u32 {
        1
    }
    fn encode(&self) -> Option<Vec<u8>> {
        match self.0 {
            13 => None,
            15 => Some(vec![0; 65536]),
            n => bincode::serialize(&n).ok(),
        }
    }
    fn decode(bytes: &[u8]) -> Option<Self> {
        bincode::deserialize(bytes).ok().map(Foo)
    }
    fn encode_return(ret: &u32) -> Option<Vec<u8>> {
        bincode::serialize(ret).ok()
    }
    fn decode_return(bytes: &[u8]) -> Option<u32> {
        bincode::deserialize(bytes).ok()
    }
}

impl Verify for Foo {
    fn verify(&self) -> Result<(), u32> {
        if (self.0 & 1) == 1 {
            Ok(())
        } else {
            Err(0)
        }
    }
}

impl Call for Foo {}

type Handler = Box<dyn Fn(Result<Vec<u8>, Error>) -> bool + Send>;

struct Line(bool);

impl Connect<Handler> for Line {
    fn is_connected(&self) -> bool {
        self.0
    }
    fn send<F: FnOnce(&Self, Result<(), Error>) + 'static + Send>(&self, _bytes: &[u8], cb: F) {
        cb(self, Ok(()))
    }
    fn on_msg<F2: FnOnce(&Self, u32) + 'static + Send>(&self, _f: Handler, cb: F2) {
        cb(self, 1)
    }
    fn close_msg_handle<F: FnOnce(Option<Handler>) + 'static + Send>(&self, _msg_id: u32, f: F) {
        f(None)
    }
}

impl ConnectNoSend<Handler> for Line {}
impl ConnectSend<Handler> for Line {}

#[test]
fn request_is_prepared() {
    let (channel_id, msg) = prepare(&Foo(5), Line(true).is_connected()).unwrap();
    assert_eq!((channel_id, msg), (1, vec![5, 0, 0, 0]));
    assert!(matches!(prepare(&Foo(4), Line(true).is_connected()), Err(Error::VerifyFailed)));
    assert!(matches!(prepare(&Foo(13), Line(true).is_connected()), Err(Error::BincodeError)));
    // The connection is looked at first.
    assert!(matches!(prepare(&Foo(4), Line(false).is_connected()), Err(Error::NoConnected)));
}

#[test]
fn answer_is_received() {
    assert!(matches!(received::<Foo>(Ok(vec![7, 0, 0, 0])), Ok(7)));
    assert!(matches!(received::<Foo>(Ok(vec![7])), Err(Error::BincodeError)));
    assert!(matches!(received::<Foo>(Err(Error::Timeout)), Err(Error::Timeout)));
}

#[test]
fn io_error_keeps_its_text() {
    let e = from_io_result(IoError::new(ErrorKind::Other, "write header faild"));
    match e {
        Error::IoError(text) => assert_eq!(text, "write header faild"),
        _ => panic!("an I/O error"),
    }
}

#[test]
fn stream_request_is_checked_and_laid_out() {
    assert!(check(&Foo(1)).is_ok());
    assert!(matches!(check(&Foo(2)), Err(Error::VerifyFailed)));
    assert_eq!(send_param(&Foo(5)).unwrap(), vec![0, 4, 0, 0, 0, 1, 5, 0, 0, 0]);
    assert!(matches!(send_param(&Foo(13)), Err(Error::SerializeFaild)));
    assert!(matches!(send_param(&Foo(15)), Err(Error::MessageTooBig)));
}

#[test]
fn stream_reply_is_decoded() {
    assert!(matches!(read_result::<Foo>(&[9, 0, 0, 0]), Ok(9)));
    assert!(matches!(read_result::<Foo>(&[9]), Err(Error::DeserializeFaild)));
}

#[test]
fn stream_subscription_is_taken_up_again() {
    assert!(matches!(on_read(Ok(3)), Received::Forward(3)));
    let failed: Result<u8, Error> = Err(Error::TransportError);
    assert!(matches!(on_read(failed), Received::Rerequest(Error::ConnectionReset)));
    assert!(on_forwarded(true).is_ok());
    assert!(matches!(on_forwarded(false), Err(Error::ConnectionReset)));
}

#[test]
fn failures_have_their_errors() {
    assert!(matches!(map_io_error("gone"), Error::TransportError));
    assert!(matches!(connect_failed("gone"), Error::ConnectionFailed));
    assert_eq!(stream_opened(Some(4)).unwrap(), 4);
    assert!(matches!(stream_opened::<u8>(None), Err(Error::ConnectionDroped)));
}

#[test]
fn stream_is_handed_out_once_whatever_fails() {
    let (mut link, action) = Link::new();
    assert_eq!((link, action), (Link::Connecting { asked: false }, LinkAction::Connect));
    let run = vec![
        (LinkEvent::Connected(false), LinkAction::Pause),
        (LinkEvent::Paused, LinkAction::Connect),
        (LinkEvent::Connected(true), LinkAction::Take),
        (LinkEvent::Asked, LinkAction::Open),
        (LinkEvent::Opened(false), LinkAction::Reset),
        (LinkEvent::Connected(false), LinkAction::Pause),
        (LinkEvent::Paused, LinkAction::Connect),
        (LinkEvent::Connected(true), LinkAction::Open),
        (LinkEvent::Opened(true), LinkAction::HandOut),
        (LinkEvent::Asked, LinkAction::Open),
        (LinkEvent::Opened(true), LinkAction::HandOut),
    ];
    for (event, expected) in run {
        let (next, action) = link.on_event(event);
        assert_eq!(action, expected);
        link = next;
    }
    assert_eq!(link, Link::Idle);
}

#[test]
fn request_is_written_again_until_that_succeeds() {
    assert_eq!(on_resent(Ok(())), Resend::Done);
    assert_eq!(on_resent(Err(Error::TransportError)), Resend::Again);
    assert_eq!(on_resent(Err(Error::MessageTooBig)), Resend::Again);
}

#[test]
fn subscriber_gets_every_read_in_order() {
    let reads: Vec<Result<u8, Error>> =
        vec![Ok(1), Err(Error::TransportError), Ok(2), Err(Error::DeserializeFaild)];
    let mut handed = Vec::new();
    for read in reads {
        match on_read(read) {
            Received::Forward(item) => handed.push(format!("{}", item)),
            Received::Rerequest(e) => handed.push(format!("{:?}", e)),
        }
    }
    assert_eq!(handed, vec!["1", "ConnectionReset", "2", "ConnectionReset"]);
}

#[test]
fn end_of_streams_is_decided_on() {
    assert_eq!(on_stream_end(StreamEnd::Ended), ConnectionEnd::TellClosed);
    assert_eq!(on_stream_end(StreamEnd::ApplicationClosed), ConnectionEnd::Done);
    assert_eq!(on_stream_end(StreamEnd::Failed), ConnectionEnd::Fail);
}
