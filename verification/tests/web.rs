use std::cell::RefCell;
use todorpc::ops::{Recv, Req, ReqNoCall, Timeout, Uploading};
use todorpc::rpc::{Call, Error, Subscribe, Upload, Verify, RPC};
use todorpc::web::{
    begin_call, begin_subscribe, begin_upload, may_send, read_msg, send, subscribe_inner,
    upload_end, upload_item, Dispatcher, Early, ItemStep, Op, SEND_BUFFER_LIMIT,
    SEND_BUFFER_PAUSE,
};
use todorpc::exchange::Begun;
use todorpc::wire::{encode_request, encode_response, UPLOAD_CHANNEL};

struct Sample(u32);

impl RPC for Sample {
    type Return = (String, u32);
    fn rpc_channel() -> u32 {
        2
    }
    fn encode(&self) -> Option<Vec<u8>> {
        bincode::serialize(&self.0).ok()
    }
    fn decode(bytes: &[u8]) -> Option<Self> {
        bincode::deserialize(bytes).ok().map(Sample)
    }
    fn encode_return(ret: &(String, u32)) -> Option<Vec<u8>> {
        bincode::serialize(ret).ok()
    }
    fn decode_return(bytes: &[u8]) -> Option<(String, u32)> {
        bincode::deserialize(bytes).ok()
    }
}

impl Verify for Sample {
    fn verify(&self) -> Result<(), (String, u32)> {
        if self.0 > 100 {
            Err(("too much".to_string(), self.0))
        } else {
            Ok(())
        }
    }
}

impl Call for Sample {}
impl Subscribe for Sample {}
impl Upload for Sample {
    type UploadStream = String;
    fn encode_item(item: &String) -> Option<Vec<u8>> {
        if item == "no" {
            None
        } else {
            bincode::serialize(item).ok()
        }
    }
    fn decode_item(bytes: &[u8]) -> Option<String> {
        bincode::deserialize(bytes).ok()
    }
}

type Frames = RefCell<Vec<(Vec<u8>, Option<char>)>>;

fn writer<'a>(frames: &'a Frames) -> impl FnOnce(Vec<u8>, Option<char>) -> bool + 'a {
    move |frame: Vec<u8>, on_ok: Option<char>| {
        frames.borrow_mut().push((frame, on_ok));
        true
    }
}

fn closed(_frame: Vec<u8>, _on_ok: Option<char>) -> bool {
    false
}

#[test]
fn answer_is_taken_out_of_a_message() {
    let frame = encode_response(9, &[1, 2, 3]);
    let (msg, msg_id) = read_msg(&frame).unwrap();
    assert_eq!((msg, msg_id), (&[1u8, 2, 3][..], 9));
    let empty = encode_response(10, &[]);
    assert_eq!(read_msg(&empty).unwrap(), (&[][..], 10));
}

#[test]
fn message_that_does_not_hold_exactly_an_answer_is_refused() {
    let frame = encode_response(9, &[1, 2, 3]);
    assert!(matches!(read_msg(&frame[..14]), Err(Error::TransportError)));
    assert!(matches!(read_msg(&frame[..11]), Err(Error::TransportError)));
    assert!(matches!(read_msg(&[]), Err(Error::TransportError)));
    let mut long = frame;
    long.push(0);
    assert!(matches!(read_msg(&long), Err(Error::TransportError)));
    let huge = [255u8; 12];
    assert!(matches!(read_msg(&huge), Err(Error::TransportError)));
}

#[test]
fn writing_pauses_while_much_is_buffered() {
    assert_eq!(SEND_BUFFER_LIMIT, 262144);
    assert_eq!(SEND_BUFFER_PAUSE, 50);
    assert!(may_send(0));
    assert!(may_send(262143));
    assert!(!may_send(262144));
}

#[test]
fn send_lays_out_and_transmits() {
    let frames: Frames = RefCell::new(Vec::new());
    assert!(send(3, 4, vec![5], Some('u'), writer(&frames)).is_ok());
    assert_eq!(frames.into_inner(), vec![(encode_request(3, 4, &[5]).unwrap(), Some('u'))]);
    assert!(matches!(send(3, 4, vec![5], None, closed), Err(Error::ConnectionReset)));
    assert!(matches!(send(3, 4, vec![5; 65536], None, closed), Err(Error::MessageTooBig)));
}

#[test]
fn exchanges_begin_or_not() {
    let never = |_: u32, _: Vec<u8>| panic!("nothing is to be queued");
    match begin_call(&Sample(101), never) {
        Begun::Over(Ok(ret)) => assert_eq!(ret, ("too much".to_string(), 101)),
        _ => panic!("the check refuses this"),
    }
    assert!(matches!(begin_subscribe(&Sample(101), never), Begun::Over(Ok(_))));
    assert!(matches!(begin_upload(&Sample(101), never), Begun::Over(Ok(_))));
    assert!(matches!(
        begin_call(&Sample(1), |_, _| false),
        Begun::Over(Err(Error::ConnectionDroped))
    ));
    assert!(matches!(
        begin_subscribe(&Sample(1), |_, _| false),
        Begun::Over(Err(Error::ConnectionDroped))
    ));
    assert!(matches!(
        begin_upload(&Sample(1), |_, _| false),
        Begun::Over(Err(Error::ConnectionDroped))
    ));
    let took = |channel_id: u32, data: Vec<u8>| channel_id == 2 && data == vec![1, 0, 0, 0];
    assert!(matches!(begin_subscribe(&Sample(1), took), Begun::Queued));
    assert!(subscribe_inner(&Sample(1), took).is_ok());
    assert!(matches!(
        subscribe_inner(&Sample(1), |_, _| false),
        Err(Error::ConnectionDroped)
    ));
}

#[test]
fn upload_sends_items_until_there_is_an_answer() {
    let item = "hi".to_string();
    let step = upload_item::<Sample, _>(Early::Pending, &item, |data| {
        data == vec![2, 0, 0, 0, 0, 0, 0, 0, b'h', b'i']
    });
    assert!(matches!(step, ItemStep::Queued));
    let step = upload_item::<Sample, _>(Early::Pending, &item, |_| false);
    assert!(matches!(step, ItemStep::Failed(Error::ConnectionReset)));
    let step = upload_item::<Sample, _>(Early::Pending, &"no".to_string(), |_| true);
    assert!(matches!(step, ItemStep::Failed(Error::SerializeFaild)));
    let never = |_: Vec<u8>| panic!("nothing is to be queued");
    let step = upload_item::<Sample, _>(Early::Closed, &item, never);
    assert!(matches!(step, ItemStep::Failed(Error::ConnectionReset)));
    match upload_item::<Sample, _>(Early::Answer(Ok(vec![4])), &item, never) {
        ItemStep::Answered(Ok(bytes)) => assert_eq!(bytes, vec![4]),
        _ => panic!("the answer ends the upload"),
    }
}

#[test]
fn upload_ends_with_the_empty_item() {
    assert!(upload_end(|data: Vec<u8>| data.is_empty()).is_ok());
    assert!(matches!(upload_end(|_: Vec<u8>| false), Err(Error::ConnectionReset)));
}

#[test]
fn call_waits_under_the_number_in_its_frame() {
    let mut d: Dispatcher<u8> = Dispatcher::new();
    let frames: Frames = RefCell::new(Vec::new());
    let fx = d.on_req(Req { sender: 5, channel_id: 2, data: vec![1] }, writer(&frames));
    assert_eq!(fx.timer, Some(1));
    assert!(fx.reply.is_none() && !fx.deconnect && !fx.reconnect && !fx.opened);
    assert_eq!(frames.into_inner(), vec![(encode_request(2, 1, &[1]).unwrap(), None)]);
    let log = RefCell::new(Vec::new());
    let deliver = |s: &u8, data: Result<Vec<u8>, Error>| {
        log.borrow_mut().push((*s, data.unwrap()));
        true
    };
    let fx = d.on_recv(Recv { msg_id: 1, data: Ok(vec![6]) }, deliver);
    assert_eq!(fx.timer, Some(2));
    let _ = d.on_recv(Recv { msg_id: 1, data: Ok(vec![7]) }, deliver);
    let _ = d.on_recv(Recv { msg_id: 2, data: Ok(vec![8]) }, deliver);
    assert_eq!(log.into_inner(), vec![(5, vec![6])]);
    assert_eq!(d.timeout_id(), 4);
}

#[test]
fn call_that_is_not_written_is_told_so() {
    let mut d: Dispatcher<u8> = Dispatcher::new();
    let fx = d.on_req(Req { sender: 5, channel_id: 2, data: vec![1] }, closed);
    assert!(matches!(fx.reply, Some((5, Error::ConnectionReset))));
    assert_eq!(fx.timer, Some(1));
    let fx = d.on_req(Req { sender: 6, channel_id: 2, data: vec![1; 65536] }, closed);
    assert!(matches!(fx.reply, Some((6, Error::MessageTooBig))));
    assert_eq!(fx.timer, Some(2));
    assert!(d.on_deconnect().resets.is_empty());
}

#[test]
fn subscription_request_is_announced() {
    let mut d: Dispatcher<u8> = Dispatcher::new();
    let request = |sender: u8, data: Vec<u8>| ReqNoCall {
        sender,
        msg_id_sender: 'm',
        channel_id: 2,
        data,
    };
    let fx = d.on_req_no_call(request(1, vec![]), |_: char, _| false, closed);
    assert!(fx.reply.is_none() && fx.timer.is_none());
    let fx = d.on_req_no_call(request(2, vec![]), |_: char, id| id == 2, closed);
    assert!(matches!(fx.reply, Some((2, Error::ConnectionReset))));
    assert!(fx.timer.is_none());
    let frames: Frames = RefCell::new(Vec::new());
    let fx = d.on_req_no_call(request(3, vec![7]), |m: char, id| m == 'm' && id == 3, writer(&frames));
    assert_eq!(fx.timer, Some(1));
    assert_eq!(frames.into_inner(), vec![(encode_request(2, 3, &[7]).unwrap(), None)]);
    for _ in 0..3 {
        let count = RefCell::new(0);
        let _ = d.on_recv(Recv { msg_id: 3, data: Ok(vec![]) }, |s: &u8, _| {
            assert_eq!(*s, 3);
            *count.borrow_mut() += 1;
            true
        });
        assert_eq!(count.into_inner(), 1);
    }
    let fx = d.on_deconnect();
    assert_eq!(fx.resets, vec![3]);
    assert!(fx.reconnect && !fx.deconnect);
}

#[test]
fn opening_is_reported_once() {
    let mut d: Dispatcher<u8> = Dispatcher::new();
    let fx = d.on_opened();
    assert!(fx.opened);
    assert_eq!(fx.timer, Some(1));
    let _ = d.on_deconnect();
    let fx = d.on_opened();
    assert!(!fx.opened);
    assert_eq!(fx.timer, Some(2));
}

#[test]
fn timer_counts_only_if_it_is_the_last() {
    let mut d: Dispatcher<u8> = Dispatcher::new();
    let _ = d.on_opened();
    let _ = d.on_opened();
    assert!(!d.on_timeout(Timeout { timeout_id: 1 }).deconnect);
    assert!(d.on_timeout(Timeout { timeout_id: 2 }).deconnect);
}

#[test]
fn upload_item_is_written_for_the_upload_channel() {
    let mut d: Dispatcher<u8> = Dispatcher::new();
    let frames: Frames = RefCell::new(Vec::new());
    let item = |data: Vec<u8>| Uploading { upload_ok_tx: 'u', data, msg_id: 6 };
    let fx = d.on_uploading(item(vec![1, 2]), writer(&frames));
    assert_eq!(fx.timer, Some(1));
    assert_eq!(
        frames.into_inner(),
        vec![(encode_request(UPLOAD_CHANNEL, 6, &[1, 2]).unwrap(), Some('u'))]
    );
    let fx = d.on_uploading(item(vec![1; 65536]), closed);
    assert!(fx.timer.is_none() && fx.reply.is_none());
}

#[test]
fn web_step_carries_out_each_operation() {
    let mut d: Dispatcher<u8> = Dispatcher::new();
    let announce = |_: char, _: u32| true;
    let deliver = |_: &u8, _: Result<Vec<u8>, Error>| true;
    let transmit = |_: Vec<u8>, _: Option<char>| true;
    let req = Req { sender: 1, channel_id: 1, data: vec![] };
    assert_eq!(d.step(Op::Req(req), announce, deliver, transmit).timer, Some(1));
    let many = ReqNoCall { sender: 2, msg_id_sender: 'm', channel_id: 1, data: vec![] };
    assert_eq!(d.step(Op::ReqNoCall(many), announce, deliver, transmit).timer, Some(2));
    assert!(d.step(Op::Opened, announce, deliver, transmit).opened);
    let recv = Recv { msg_id: 1, data: Ok(vec![]) };
    assert_eq!(d.step(Op::Recv(recv), announce, deliver, transmit).timer, Some(4));
    let item = Uploading { upload_ok_tx: 'u', data: vec![], msg_id: 2 };
    assert_eq!(d.step(Op::Uploading(item), announce, deliver, transmit).timer, Some(5));
    let timeout = Timeout { timeout_id: 5 };
    assert!(d.step(Op::Timeout(timeout), announce, deliver, transmit).deconnect);
    assert!(d.step(Op::EndNoCall(2), announce, deliver, transmit).timer.is_none());
    let fx = d.step(Op::Deconnect, announce, deliver, transmit);
    assert!(fx.reconnect && fx.resets.is_empty());
}

#[test]
fn request_that_is_too_long_is_not_written() {
    let never = |_: Vec<u8>, _: Option<char>| panic!("nothing is to be written");
    let announce = |_: char, _: u32| true;
    let deliver = |_: &u8, _: Result<Vec<u8>, Error>| true;
    let mut d: Dispatcher<u8> = Dispatcher::new();
    let _ = d.step(Op::Opened, announce, deliver, never);
    let long = Req { sender: 1, channel_id: 1, data: vec![0; 65536] };
    let fx = d.step(Op::Req(long), announce, deliver, never);
    assert!(matches!(fx.reply, Some((1, Error::MessageTooBig))));
    let frames: Frames = RefCell::new(Vec::new());
    let short = Req { sender: 2, channel_id: 1, data: vec![7] };
    let fx = d.step(Op::Req(short), announce, deliver, writer(&frames));
    assert!(fx.reply.is_none());
    assert_eq!(frames.into_inner(), vec![(vec![0, 1, 0, 0, 0, 1, 0, 0, 0, 2, 7], None)]);
    let item = Uploading { upload_ok_tx: 'u', data: vec![0; 65536], msg_id: 2 };
    let _ = d.step(Op::Uploading(item), announce, deliver, never);
    let dropped = ReqNoCall { sender: 3, msg_id_sender: 'm', channel_id: 1, data: vec![] };
    let _ = d.step(Op::ReqNoCall(dropped), |_: char, _: u32| false, deliver, never);
    let stray = Recv { msg_id: 1, data: Ok(vec![]) };
    let nobody = |_: &u8, _: Result<Vec<u8>, Error>| panic!("nobody waits");
    let _ = d.step(Op::Recv(stray), announce, nobody, never);
}
