use std::cell::RefCell;
use todorpc::client_tcp::{Dispatcher, Effects};
use todorpc::exchange::finish;
use todorpc::ops::{Recv, Req, Uploading};
use todorpc::rpc::{Call, Error, Message, Response, Subscribe, Upload, Verify, RPC};
use todorpc::server_core::{
    decode, decode_item, handle, handle_subscribe, is_reserved, reserved_check, send, Channels, ConnectionIds,
    ConnectionInfo, Dispatch, Step, Token, Uploads,
};
use todorpc::server_websocket::{write_packet, Next, Packet, Reader};
use todorpc::wire::{
    encode_request, encode_response, RequestHeader, ResponseHeader, UPLOAD_CHANNEL,
};

/// Passes its check if it holds an odd number.
struct Foo(u32);

impl RPC for Foo {
    type Return = u32;
    fn rpc_channel() -> u32 {
        1
    }
    fn encode(&self) -> Option<Vec<u8>> {
        bincode::serialize(&self.0).ok()
    }
    fn decode(bytes: &[u8]) -> Option<Self> {
        bincode::deserialize(bytes).ok().map(Foo)
    }
    fn encode_return(ret: &u32) -> Option<Vec<u8>> {
        if *ret == 13 {
            None
        } else {
            bincode::serialize(ret).ok()
        }
    }
    fn decode_return(bytes: &[u8]) -> Option<u32> {
        bincode::deserialize(bytes).ok()
    }
}

impl Verify for Foo {
    fn verify(&self) -> Result<(), u32> {
        if (self.0 & 1) == 1 {
            Ok(())
        } else {
            Err(0)
        }
    }
}

impl Call for Foo {}
impl Subscribe for Foo {}

struct UploadSample;

impl RPC for UploadSample {
    type Return = ();
    fn rpc_channel() -> u32 {
        3
    }
    fn encode(&self) -> Option<Vec<u8>> {
        bincode::serialize(&()).ok()
    }
    fn decode(bytes: &[u8]) -> Option<Self> {
        bincode::deserialize(bytes).ok().map(|_: ()| UploadSample)
    }
    fn encode_return(ret: &()) -> Option<Vec<u8>> {
        bincode::serialize(ret).ok()
    }
    fn decode_return(bytes: &[u8]) -> Option<()> {
        bincode::deserialize(bytes).ok()
    }
}

impl Verify for UploadSample {}
impl Upload for UploadSample {
    type UploadStream = String;
    fn encode_item(item: &String) -> Option<Vec<u8>> {
        bincode::serialize(item).ok()
    }
    fn decode_item(bytes: &[u8]) -> Option<String> {
        bincode::deserialize(bytes).ok()
    }
}

/// Another request for the channel of `UploadSample`.
struct Rival;

impl RPC for Rival {
    type Return = ();
    fn rpc_channel() -> u32 {
        3
    }
    fn encode(&self) -> Option<Vec<u8>> {
        None
    }
    fn decode(_bytes: &[u8]) -> Option<Self> {
        None
    }
    fn encode_return(_ret: &()) -> Option<Vec<u8>> {
        None
    }
    fn decode_return(_bytes: &[u8]) -> Option<()> {
        None
    }
}

impl Verify for Rival {}
impl Call for Rival {}

type TestChannels = Channels<&'static str, &'static str, &'static str>;

fn channels() -> TestChannels {
    Channels::new().set_call::<Foo>("foo").set_upload::<UploadSample>("upload")
}

fn message(channel_id: u32, msg: &[u8]) -> Message {
    Message { channel_id, msg: msg.to_vec() }
}

#[test]
fn payload_is_decoded_and_checked() {
    assert!(matches!(decode::<Foo>(&[3, 0, 0, 0]), Ok(Ok(Foo(3)))));
    assert!(matches!(decode::<Foo>(&[2, 0, 0, 0]), Err(0)));
    assert!(matches!(decode::<Foo>(&[3, 0]), Ok(Err(Error::DeserializeFaild))));
    assert!(matches!(decode::<UploadSample>(&[]), Ok(Ok(UploadSample))));
}

#[test]
fn handler_runs_unless_the_request_is_refused() {
    let run = |param: Result<Foo, Error>| match param {
        Ok(foo) => foo.0,
        Err(_) => 99,
    };
    assert_eq!(handle::<Foo, u32, _>(&[5, 0, 0, 0], run), Ok(5));
    assert_eq!(handle::<Foo, u32, _>(&[5], run), Ok(99));
    let never = |_: Result<Foo, Error>| -> u32 { panic!("the request is refused") };
    assert_eq!(handle::<Foo, u32, _>(&[4, 0, 0, 0], never), Err(0));
}

#[test]
fn request_that_was_encoded_reaches_the_handler() {
    for value in vec![1u32, 7, 0xffff_ffff] {
        let bytes = Foo(value).encode().unwrap();
        let got = handle::<Foo, u32, _>(&bytes, |param| param.unwrap().0);
        assert_eq!(got, Ok(value));
        let answer = Foo::encode_return(&value).unwrap();
        assert_eq!(Foo::decode_return(&answer), Some(value));
    }
}

#[test]
fn refused_subscription_is_answered_at_once() {
    let sent = RefCell::new(Vec::new());
    let sender = |response: Response| {
        sent.borrow_mut().push(response.msg);
        true
    };
    let never = |_: Result<Foo, Error>| -> u32 { panic!("the request is refused") };
    assert_eq!(handle_subscribe::<Foo, u32, _, _>(&[4, 0, 0, 0], never, sender), None);
    assert_eq!(sent.borrow().clone(), vec![vec![0u8, 0, 0, 0]]);
    let run = |param: Result<Foo, Error>| param.unwrap().0;
    assert_eq!(handle_subscribe::<Foo, u32, _, _>(&[5, 0, 0, 0], run, sender), Some(5));
    assert_eq!(sent.borrow().len(), 1);
}

#[test]
fn answers_are_encoded_and_sent() {
    let res = send::<Foo, _>(&258, |response| response.msg == vec![2, 1, 0, 0]);
    assert!(res.is_ok());
    assert!(matches!(send::<Foo, _>(&1, |_| false), Err(Error::ConnectionReset)));
    assert!(matches!(
        send::<Foo, _>(&13, |_| panic!("nothing to send")),
        Err(Error::SerializeFaild)
    ));
}

#[test]
fn upload_items_are_decoded() {
    let bytes = UploadSample::encode_item(&"hi 0".to_string()).unwrap();
    assert_eq!(decode_item::<UploadSample>(&bytes).unwrap(), "hi 0");
    assert!(matches!(
        decode_item::<UploadSample>(&[1]),
        Err(Error::DeserializeFaild)
    ));
}

#[test]
fn messages_are_dispatched_by_channel() {
    let channels = channels();
    assert!(channels.contains(1) && channels.contains(3) && !channels.contains(2));
    let open = || ('t', 'r');
    match channels.on_message(message(1, &[8]), open) {
        Dispatch::NoRecv(f, bytes) => assert_eq!((*f, bytes), ("foo", vec![8])),
        _ => panic!("a call"),
    }
    match channels.on_message(message(3, &[9]), open) {
        Dispatch::WithRecv(f, bytes, tx, rx) => {
            assert_eq!((*f, bytes, tx, rx), ("upload", vec![9], 't', 'r'))
        }
        _ => panic!("an upload"),
    }
    assert!(matches!(channels.on_message(message(2, &[]), open), Dispatch::Unknown(2)));
}

#[test]
fn upload_handler_takes_a_channel_over() {
    let channels: TestChannels =
        Channels::new().set_call::<Rival>("rival").set_upload::<UploadSample>("upload");
    assert!(matches!(
        channels.on_message(message(3, &[]), || (0, 0)),
        Dispatch::WithRecv(&"upload", _, _, _)
    ));
}

#[test]
fn closing_handler_is_kept() {
    assert!(channels().on_close().is_none());
    let channels = channels().set_onclose("bye").finish();
    assert_eq!(channels.on_close(), Some(&"bye"));
    assert!(channels.contains(1));
}

#[test]
fn subscription_handler_is_set() {
    let channels: TestChannels = Channels::new().set_subscribe::<Foo>("sub");
    assert!(matches!(
        channels.on_message(message(1, &[]), || (0, 0)),
        Dispatch::NoRecv(&"sub", _)
    ));
}

#[test]
fn frames_of_a_connection_are_sorted_out() {
    let channels = channels();
    let mut uploads: Uploads<char> = Uploads::new();
    let handed = RefCell::new(Vec::new());
    let forward = |tx: &char, data: Vec<u8>| {
        handed.borrow_mut().push((*tx, data));
        true
    };
    let step = uploads.on_frame(&channels, message(1, &[1]), 1, forward, || ('x', 'y'));
    assert!(matches!(step, Step::NoRecv(&"foo", _)));
    let step = uploads.on_frame(&channels, message(UPLOAD_CHANNEL, &[1]), 2, forward, || ('x', 'y'));
    assert!(matches!(step, Step::Stray));
    match uploads.on_frame(&channels, message(3, &[]), 2, forward, || ('a', 'b')) {
        Step::WithRecv(f, bytes, rx) => assert_eq!((*f, bytes, rx), ("upload", vec![], 'b')),
        _ => panic!("an upload"),
    }
    let step = uploads.on_frame(&channels, message(3, &[]), 4, forward, || ('c', 'd'));
    assert!(matches!(step, Step::WithRecv(_, _, 'd')));
    for (msg_id, data) in vec![(2u32, 10u8), (4, 20), (2, 11)] {
        let item = message(UPLOAD_CHANNEL, &[data]);
        let step = uploads.on_frame(&channels, item, msg_id, forward, || ('x', 'y'));
        assert!(matches!(step, Step::Item));
    }
    let step = uploads.on_frame(&channels, message(UPLOAD_CHANNEL, &[]), 2, forward, || ('x', 'y'));
    assert!(matches!(step, Step::End));
    let step = uploads.on_frame(&channels, message(UPLOAD_CHANNEL, &[5]), 2, forward, || ('x', 'y'));
    assert!(matches!(step, Step::Stray));
    let step = uploads.on_frame(&channels, message(UPLOAD_CHANNEL, &[]), 2, forward, || ('x', 'y'));
    assert!(matches!(step, Step::Stray));
    let step = uploads.on_frame(&channels, message(77, &[]), 9, forward, || ('x', 'y'));
    assert!(matches!(step, Step::Unknown(77)));
    let expected = vec![('a', vec![10]), ('c', vec![20]), ('a', vec![11])];
    assert_eq!(handed.into_inner(), expected);
}

#[test]
fn token_is_what_was_last_set() {
    let mut token = Token::new();
    assert!(token.get().is_empty());
    assert!(!token.set(vec![1, 2, 3]));
    assert_eq!(token.get(), vec![1, 2, 3]);
    assert!(!token.set(vec![0; 1024]));
    assert!(token.set(vec![0; 1025]));
    assert_eq!(token.get().len(), 1025);
}

#[test]
fn connections_are_numbered_from_zero() {
    let mut ids = ConnectionIds::new();
    assert_eq!(ids.count(), 0);
    assert_eq!((ids.next(), ids.next(), ids.next()), (0, 1, 2));
    assert_eq!(ids.count(), 3);
}

#[test]
fn the_last_hundred_channels_are_reserved() {
    assert!(!is_reserved(0));
    assert!(!is_reserved(4294967195));
    assert!(is_reserved(4294967196));
    assert!(is_reserved(UPLOAD_CHANNEL));
    reserved_check(0);
    reserved_check(4294967195);
}

struct Peer;

impl ConnectionInfo for Peer {
    fn remote_address(&self) -> String {
        "127.0.0.1:1".to_string()
    }
    fn protocol(&self) -> &'static str {
        "tcp"
    }
}

#[test]
fn connection_info_can_be_shared() {
    let info: std::sync::Arc<dyn ConnectionInfo> = std::sync::Arc::new(Peer);
    assert_eq!(info.remote_address(), "127.0.0.1:1");
    assert_eq!(info.protocol(), "tcp");
}

#[test]
fn written_bytes_become_one_binary_message() {
    let (packet, len) = write_packet(&[1, 2, 3]);
    assert_eq!(len, 3);
    assert!(matches!(packet, Packet::Binary(_)));
    assert_eq!(packet.into_data(), vec![1, 2, 3]);
}

#[test]
fn every_message_carries_bytes() {
    assert_eq!(Packet::Text("h\u{e9}".to_string()).into_data(), vec![b'h', 0xc3, 0xa9]);
    assert_eq!(Packet::Ping(vec![1]).into_data(), vec![1]);
    assert_eq!(Packet::Pong(vec![2]).into_data(), vec![2]);
    assert_eq!(Packet::Close(None).into_data(), Vec::<u8>::new());
    assert_eq!(Packet::Close(Some("bye".to_string())).into_data(), b"bye".to_vec());
}

#[test]
fn message_is_read_in_pieces() {
    let mut reader = Reader::new();
    let mut buf = [9u8; 2];
    assert_eq!(reader.read(&mut buf), None);
    let next: Next<()> = reader.on_next(Some(Ok(Packet::Binary(vec![1, 2, 3]))));
    assert!(matches!(next, Next::Read));
    assert_eq!(reader.read(&mut buf), Some(2));
    assert_eq!(buf, [1, 2]);
    assert_eq!(reader.read(&mut []), Some(0));
    assert_eq!(reader.read(&mut buf), Some(1));
    assert_eq!(buf, [3, 2]);
    assert_eq!(reader.read(&mut buf), None);
}

#[test]
fn empty_message_reads_as_nothing() {
    let mut reader = Reader::new();
    let _: Next<()> = reader.on_next(Some(Ok(Packet::Binary(vec![]))));
    let mut buf = [9u8; 2];
    assert_eq!(reader.read(&mut buf), Some(0));
    assert_eq!(buf, [9, 9]);
    assert_eq!(reader.read(&mut buf), None);
}

#[test]
fn messages_read_one_behind_the_other() {
    let sent: Vec<u8> = (0..100).collect();
    let mut reader = Reader::new();
    let mut read: Vec<u8> = Vec::new();
    for (i, chunk) in sent.chunks(7).enumerate() {
        let (packet, _) = write_packet(chunk);
        let _: Next<()> = reader.on_next(Some(Ok(packet)));
        let mut buf = vec![0u8; 1 + i % 5];
        while let Some(len) = reader.read(&mut buf) {
            read.extend_from_slice(&buf[..len]);
        }
    }
    assert_eq!(read, sent);
}

#[test]
fn reading_ends_or_fails() {
    let mut reader = Reader::new();
    assert!(matches!(reader.on_next::<u8>(None), Next::End));
    assert!(matches!(reader.on_next::<u8>(Some(Err(4))), Next::Fail(4)));
    assert_eq!(reader.read(&mut [0u8; 4]), None);
}

#[test]
fn requests_over_messages_are_read_back() {
    let requests = vec![(1u32, 1u32, vec![1u8, 2, 3]), (UPLOAD_CHANNEL, 1, vec![]), (3, 2, vec![7; 40])];
    let mut stream: Vec<u8> = Vec::new();
    for (channel_id, msg_id, data) in &requests {
        stream.extend(encode_request(*channel_id, *msg_id, data).unwrap());
    }
    let mut reader = Reader::new();
    let mut bytes: Vec<u8> = Vec::new();
    for chunk in stream.chunks(9) {
        let _: Next<()> = reader.on_next(Some(Ok(write_packet(chunk).0)));
        let mut buf = [0u8; 4];
        while let Some(len) = reader.read(&mut buf) {
            bytes.extend_from_slice(&buf[..len]);
        }
    }
    let mut read = Vec::new();
    let mut rest = bytes.as_slice();
    while !rest.is_empty() {
        let mut h = [0u8; 10];
        h.copy_from_slice(&rest[..10]);
        let header = RequestHeader::parse(&h);
        let (message, msg_id) = header.with_body(rest[10..10 + header.len].to_vec());
        read.push((message.channel_id, msg_id, message.msg));
        rest = &rest[10 + header.len..];
    }
    assert_eq!(read, requests);
}

#[test]
fn call_goes_there_and_back() {
    let mut client: Dispatcher<char> = Dispatcher::new();
    let param = Foo(77);
    let data = param.encode().unwrap();
    let fx: Effects<char, ()> =
        client.on_req(Req { sender: 's', channel_id: Foo::rpc_channel(), data });
    let (frame, _) = fx.frame.unwrap();

    let channels = channels();
    let mut uploads: Uploads<char> = Uploads::new();
    let mut h = [0u8; 10];
    h.copy_from_slice(&frame[..10]);
    let (message, msg_id) = RequestHeader::parse(&h).with_body(frame[10..].to_vec());
    let step = uploads.on_frame(&channels, message, msg_id, |_, _| false, || ('x', 'y'));
    let bytes = match step {
        Step::NoRecv(&"foo", bytes) => bytes,
        _ => panic!("a call"),
    };
    let answer = handle::<Foo, u32, _>(&bytes, |param| param.unwrap().0 + 1).unwrap();
    let sent = RefCell::new(Vec::new());
    let res = send::<Foo, _>(&answer, |response| {
        *sent.borrow_mut() = encode_response(msg_id, &response.msg);
        true
    });
    assert!(res.is_ok());

    let reply = sent.into_inner();
    let mut h = [0u8; 12];
    h.copy_from_slice(&reply[..12]);
    let header = ResponseHeader::parse(&h);
    let delivered = RefCell::new(None);
    let recv = Recv { msg_id: header.msg_id, data: Ok(reply[12..].to_vec()) };
    let _: Effects<char, ()> = client.on_recv(recv, |sender: &char, data| {
        *delivered.borrow_mut() = Some((*sender, data));
        true
    });
    let (sender, data) = delivered.into_inner().unwrap();
    assert_eq!(sender, 's');
    assert!(matches!(finish::<Foo>(Some(data)), Ok(78)));
}

#[test]
fn item_that_a_client_writes_is_taken_as_an_item() {
    let mut client: Dispatcher<char> = Dispatcher::new();
    let channels = channels();
    let mut uploads: Uploads<char> = Uploads::new();
    let handed = RefCell::new(Vec::new());
    let forward = |tx: &char, data: Vec<u8>| {
        handed.borrow_mut().push((*tx, data));
        true
    };
    let _ = uploads.on_frame(&channels, message(3, &[]), 5, forward, || ('a', 'b'));
    for (data, ends) in vec![(vec![4u8, 5], false), (vec![], true)] {
        let fx: Effects<char, char> =
            client.on_uploading(Uploading { upload_ok_tx: 'u', data, msg_id: 5 });
        let (frame, on_ok) = fx.frame.unwrap();
        assert_eq!(on_ok, Some('u'));
        let mut h = [0u8; 10];
        h.copy_from_slice(&frame[..10]);
        let (item, msg_id) = RequestHeader::parse(&h).with_body(frame[10..].to_vec());
        let step = uploads.on_frame(&channels, item, msg_id, forward, || ('x', 'y'));
        assert_eq!(matches!(step, Step::End), ends);
    }
    assert_eq!(handed.into_inner(), vec![('a', vec![4, 5])]);
}

#[test]
fn upload_yields_its_items_and_ends() {
    let channels = channels();
    let mut uploads: Uploads<char> = Uploads::new();
    let bytes: Vec<u8> = vec![
        0, 0, 0, 0, 0, 3, 0, 0, 0, 5, // the request
        0, 1, 255, 255, 255, 255, 0, 0, 0, 5, 7, // an item
        0, 0, 255, 255, 255, 255, 0, 0, 0, 5, // the end
        0, 1, 255, 255, 255, 255, 0, 0, 0, 5, 8, // too late
    ];
    let handed = RefCell::new(Vec::new());
    let mut rest = bytes.as_slice();
    while !rest.is_empty() {
        let mut h = [0u8; 10];
        h.copy_from_slice(&rest[..10]);
        let header = RequestHeader::parse(&h);
        let (message, msg_id) = header.with_body(rest[10..10 + header.len].to_vec());
        rest = &rest[10 + header.len..];
        let forward = |tx: &char, data: Vec<u8>| {
            handed.borrow_mut().push((*tx, data));
            true
        };
        let _ = uploads.on_frame(&channels, message, msg_id, forward, || ('a', 'b'));
    }
    assert_eq!(handed.into_inner(), vec![('a', vec![7])]);
    assert_eq!(encode_response(5, &[]), vec![0, 0, 0, 0, 0, 0, 0, 0, 0, 0, 0, 5]);
}

#[test]
fn closed_upload_has_its_items() {
    let channels = channels();
    let mut uploads: Uploads<char> = Uploads::new();
    let handed = RefCell::new(Vec::new());
    let forward = |_: &char, data: Vec<u8>| {
        handed.borrow_mut().push(data);
        true
    };
    let _ = uploads.on_frame(&channels, message(3, &[]), 9, forward, || ('a', 'b'));
    let datas: Vec<Vec<u8>> = vec![vec![1], vec![2, 3], vec![4]];
    for data in datas.iter().chain(vec![vec![]].iter()) {
        let item = message(UPLOAD_CHANNEL, data);
        let _ = uploads.on_frame(&channels, item, 9, forward, || ('x', 'y'));
    }
    assert_eq!(handed.into_inner(), datas);
}
