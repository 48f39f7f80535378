use std::cell::RefCell;
use todorpc::client_tcp::{
    begin_call, begin_subscribe, begin_upload, map_io_err, pack, req_no_call, upload, Dispatcher,
    Effects, Op, Socket, SocketAction, SocketEvent,
};
use todorpc::exchange::{
    finish, item_written, on_subscription, queue_item, request_number, Begun, Next, Subscription,
    SubscriptionAction, SubscriptionEvent, Uploader, UploaderAction, UploaderEvent,
};
use todorpc::ops::{Recv, Req, ReqNoCall, Timeout, Uploading};
use todorpc::rpc::{Call, Error, Subscribe, Upload, Verify, RPC};
use todorpc::wire::{encode_request, UPLOAD_CHANNEL};

/// Passes its check if it holds an odd number.
struct Foo(u32);

impl RPC for Foo {
    type Return = u32;
    fn rpc_channel() -> u32 {
        1
    }
    fn encode(&self) -> Option<Vec<u8>> {
        bincode::serialize(&self.0).ok()
    }
    fn decode(bytes: &[u8]) -> Option<Self> {
        bincode::deserialize(bytes).ok().map(Foo)
    }
    fn encode_return(ret: &u32) -> Option<Vec<u8>> {
        bincode::serialize(ret).ok()
    }
    fn decode_return(bytes: &[u8]) -> Option<u32> {
        bincode::deserialize(bytes).ok()
    }
}

impl Verify for Foo {
    fn verify(&self) -> Result<(), u32> {
        if (self.0 & 1) == 1 {
            Ok(())
        } else {
            Err(0)
        }
    }
}

impl Call for Foo {}
impl Subscribe for Foo {}
impl Upload for Foo {
    type UploadStream = String;
    fn encode_item(item: &String) -> Option<Vec<u8>> {
        if item == "no" {
            None
        } else {
            bincode::serialize(item).ok()
        }
    }
    fn decode_item(bytes: &[u8]) -> Option<String> {
        bincode::deserialize(bytes).ok()
    }
}

/// Cannot be encoded.
struct Stuck;

impl RPC for Stuck {
    type Return = u32;
    fn rpc_channel() -> u32 {
        9
    }
    fn encode(&self) -> Option<Vec<u8>> {
        None
    }
    fn decode(_bytes: &[u8]) -> Option<Self> {
        None
    }
    fn encode_return(_ret: &u32) -> Option<Vec<u8>> {
        None
    }
    fn decode_return(_bytes: &[u8]) -> Option<u32> {
        None
    }
}

impl Verify for Stuck {}
impl Call for Stuck {}

fn req(sender: u8, channel_id: u32, data: Vec<u8>) -> Req<u8> {
    Req { sender, channel_id, data }
}

fn req_many(sender: u8, channel_id: u32, data: Vec<u8>) -> ReqNoCall<u8, char> {
    ReqNoCall { sender, msg_id_sender: 'm', channel_id, data }
}

fn is_reset<T>(res: Result<T, Error>) -> bool {
    matches!(res, Err(Error::ConnectionReset))
}

#[test]
fn pack_and_upload_lay_out_requests() {
    let frame = encode_request(3, 4, &[1, 2]).unwrap();
    assert_eq!(pack(&req(0, 3, vec![1, 2]), 4).unwrap(), frame);
    assert_eq!(upload(3, &[1, 2], 4).unwrap(), frame);
    assert!(matches!(upload(3, &vec![0u8; 65536], 4), Err(Error::MessageTooBig)));
    assert!(matches!(map_io_err("gone"), Error::TransportError));
}

#[test]
fn call_is_written_and_answered_once() {
    let mut d: Dispatcher<u8> = Dispatcher::new();
    let fx: Effects<u8, ()> = d.on_req(req(5, 1, vec![3, 0, 0, 0]));
    assert!(!fx.deconnect && fx.resets.is_empty() && fx.reply.is_none());
    assert_eq!(fx.frame, Some((vec![0, 4, 0, 0, 0, 1, 0, 0, 0, 1, 3, 0, 0, 0], None)));
    assert_eq!(fx.timer, Some(1));

    let log = RefCell::new(Vec::new());
    let deliver = |s: &u8, data: Result<Vec<u8>, Error>| {
        log.borrow_mut().push((*s, data.unwrap()));
        true
    };
    let fx: Effects<u8, ()> = d.on_recv(Recv { msg_id: 1, data: Ok(vec![7]) }, deliver);
    assert_eq!(fx.timer, Some(2));
    let fx: Effects<u8, ()> = d.on_recv(Recv { msg_id: 1, data: Ok(vec![8]) }, deliver);
    assert_eq!(fx.timer, Some(3));
    assert_eq!(log.into_inner(), vec![(5, vec![7])]);
    assert_eq!(d.timeout_id(), 3);
}

#[test]
fn answers_go_to_their_requesters() {
    let mut d: Dispatcher<u8> = Dispatcher::new();
    for sender in 1..=3u8 {
        let fx: Effects<u8, ()> = d.on_req(req(sender, 1, vec![]));
        let (frame, _) = fx.frame.unwrap();
        assert_eq!(frame[6..10], [0, 0, 0, sender]);
    }
    for (msg_id, sender) in vec![(2u32, 2u8), (3, 3), (1, 1)] {
        let got = RefCell::new(None);
        let _: Effects<u8, ()> = d.on_recv(Recv { msg_id, data: Ok(vec![]) }, |s: &u8, _| {
            *got.borrow_mut() = Some(*s);
            true
        });
        assert_eq!(got.into_inner(), Some(sender));
    }
}

#[test]
fn subscription_gets_many_answers_until_nobody_takes_them() {
    let mut d: Dispatcher<u8> = Dispatcher::new();
    let announced = RefCell::new(None);
    let fx: Effects<u8, ()> = d.on_req_no_call(req_many(4, 2, vec![1]), |m: char, id: u32| {
        *announced.borrow_mut() = Some((m, id));
        true
    });
    assert_eq!(announced.into_inner(), Some(('m', 1)));
    assert_eq!(fx.frame, Some((encode_request(2, 1, &[1]).unwrap(), None)));
    let count = RefCell::new(0);
    for taken in vec![true, true, false, true] {
        let _: Effects<u8, ()> = d.on_recv(Recv { msg_id: 1, data: Ok(vec![]) }, |_: &u8, _| {
            *count.borrow_mut() += 1;
            taken
        });
    }
    assert_eq!(count.into_inner(), 3);
}

#[test]
fn abandoned_request_uses_up_its_number_only() {
    let mut d: Dispatcher<u8> = Dispatcher::new();
    let fx: Effects<u8, ()> = d.on_req_no_call(req_many(4, 2, vec![1]), |_, _| false);
    assert!(fx.frame.is_none() && fx.reply.is_none() && fx.timer.is_none() && !fx.deconnect);
    let fx: Effects<u8, ()> = d.on_req(req(5, 2, vec![]));
    assert_eq!(fx.frame.unwrap().0, encode_request(2, 2, &[]).unwrap());
}

#[test]
fn request_that_is_too_long_is_refused() {
    let mut d: Dispatcher<u8> = Dispatcher::new();
    let fx: Effects<u8, ()> = d.on_req(req(6, 2, vec![0; 65536]));
    assert!(matches!(fx.reply, Some((6, Error::MessageTooBig))));
    assert!(fx.frame.is_none() && fx.timer.is_none());
    let fx: Effects<u8, ()> = d.on_req_no_call(req_many(7, 2, vec![0; 65536]), |_, id| id == 2);
    assert!(matches!(fx.reply, Some((7, Error::MessageTooBig))));
    let fx: Effects<u8, ()> = d.on_deconnect();
    assert!(fx.resets.is_empty());
}

#[test]
fn deconnect_tells_everybody_and_numbering_starts_over() {
    let mut d: Dispatcher<u8> = Dispatcher::new();
    for sender in 10..14u8 {
        let _: Effects<u8, ()> = d.on_req(req(sender, 1, vec![]));
    }
    let _: Effects<u8, ()> = d.on_recv(Recv { msg_id: 2, data: Ok(vec![]) }, |_: &u8, _| true);
    let fx: Effects<u8, ()> = d.on_deconnect();
    assert_eq!(fx.resets, vec![10, 12, 13]);
    let fx: Effects<u8, ()> = d.on_deconnect();
    assert!(fx.resets.is_empty());
    let fx: Effects<u8, ()> = d.on_req(req(1, 1, vec![]));
    assert_eq!(fx.frame.unwrap().0, encode_request(1, 1, &[]).unwrap());
}

#[test]
fn only_the_last_timer_counts() {
    let mut d: Dispatcher<u8> = Dispatcher::new();
    let first: Effects<u8, ()> = d.on_req(req(1, 1, vec![]));
    let second: Effects<u8, ()> = d.on_req(req(2, 1, vec![]));
    let fx: Effects<u8, ()> = d.on_timeout(Timeout { timeout_id: first.timer.unwrap() });
    assert!(!fx.deconnect);
    let fx: Effects<u8, ()> = d.on_timeout(Timeout { timeout_id: second.timer.unwrap() });
    assert!(fx.deconnect);
}

#[test]
fn upload_items_are_written() {
    let mut d: Dispatcher<u8> = Dispatcher::new();
    let fx = d.on_uploading(Uploading { upload_ok_tx: 'u', data: vec![1], msg_id: 3 });
    assert_eq!(fx.frame, Some((encode_request(UPLOAD_CHANNEL, 3, &[1]).unwrap(), Some('u'))));
    assert_eq!(fx.timer, Some(1));
    let fx = d.on_uploading(Uploading { upload_ok_tx: 'u', data: vec![1; 65536], msg_id: 3 });
    assert!(fx.frame.is_none() && fx.timer.is_none() && fx.reply.is_none());
}

#[test]
fn ended_request_is_forgotten() {
    let mut d: Dispatcher<u8> = Dispatcher::new();
    let _: Effects<u8, ()> = d.on_req_no_call(req_many(4, 2, vec![1]), |_, _| true);
    let _: Effects<u8, ()> = d.on_end_no_call(1);
    let _: Effects<u8, ()> = d.on_end_no_call(1);
    let _: Effects<u8, ()> =
        d.on_recv(Recv { msg_id: 1, data: Ok(vec![]) }, |_: &u8, _| panic!("nobody waits"));
}

#[test]
fn step_carries_out_each_operation() {
    let mut d: Dispatcher<u8> = Dispatcher::new();
    let announce = |_: char, _: u32| true;
    let deliver = |_: &u8, _: Result<Vec<u8>, Error>| true;
    let fx: Effects<u8, u16> = d.step(Op::Req(req(1, 1, vec![])), announce, deliver);
    assert_eq!(fx.timer, Some(1));
    let fx: Effects<u8, u16> = d.step(Op::ReqNoCall(req_many(2, 1, vec![])), announce, deliver);
    assert_eq!(fx.timer, Some(2));
    let fx: Effects<u8, u16> =
        d.step(Op::Recv(Recv { msg_id: 1, data: Ok(vec![]) }), announce, deliver);
    assert_eq!(fx.timer, Some(3));
    let uploading = Uploading { upload_ok_tx: 8u16, data: vec![], msg_id: 2 };
    let fx = d.step(Op::Uploading(uploading), announce, deliver);
    assert_eq!(fx.frame, Some((encode_request(UPLOAD_CHANNEL, 2, &[]).unwrap(), Some(8))));
    let fx: Effects<u8, u16> =
        d.step(Op::Timeout(Timeout { timeout_id: 4 }), announce, deliver);
    assert!(fx.deconnect);
    let fx: Effects<u8, u16> = d.step(Op::EndNoCall(2), announce, deliver);
    assert!(fx.resets.is_empty());
    let fx: Effects<u8, u16> = d.step(Op::Deconnect, announce, deliver);
    assert!(fx.resets.is_empty());
}

#[test]
fn exchange_begins() {
    let queued = RefCell::new(None);
    let began = begin_call(&Foo(3), |channel_id, data| {
        *queued.borrow_mut() = Some((channel_id, data));
        true
    });
    assert!(matches!(began, Begun::Queued));
    assert_eq!(queued.into_inner(), Some((1, vec![3, 0, 0, 0])));
}

#[test]
fn refused_exchange_is_answered_by_its_check() {
    let never = |_: u32, _: Vec<u8>| panic!("nothing is to be queued");
    assert!(matches!(begin_call(&Foo(2), never), Begun::Over(Ok(0))));
    assert!(matches!(begin_subscribe(&Foo(2), never), Begun::Over(Ok(0))));
    assert!(matches!(begin_upload(&Foo(2), never), Begun::Over(Ok(0))));
}

#[test]
fn exchange_fails_to_begin() {
    let never = |_: u32, _: Vec<u8>| panic!("nothing is to be queued");
    assert!(matches!(begin_call(&Stuck, never), Begun::Over(Err(Error::SerializeFaild))));
    assert!(matches!(
        begin_call(&Foo(1), |_, _| false),
        Begun::Over(Err(Error::ConnectionDroped))
    ));
    assert!(matches!(
        begin_subscribe(&Foo(1), |_, _| false),
        Begun::Over(Err(Error::ConnectionReset))
    ));
    assert!(matches!(
        begin_upload(&Foo(1), |_, _| false),
        Begun::Over(Err(Error::ConnectionReset))
    ));
    // A subscription that is taken up again is not checked again.
    assert!(req_no_call(&Foo(2), |_, _| true).is_ok());
    assert!(is_reset(req_no_call(&Foo(2), |_, _| false)));
}

#[test]
fn exchange_finishes() {
    let bytes = Foo::encode_return(&77).unwrap();
    assert!(matches!(finish::<Foo>(Some(Ok(bytes))), Ok(77)));
    assert!(matches!(finish::<Foo>(Some(Ok(vec![1]))), Err(Error::DeserializeFaild)));
    assert!(matches!(finish::<Foo>(Some(Err(Error::Timeout))), Err(Error::Timeout)));
    assert!(is_reset(finish::<Foo>(None)));
    assert_eq!(request_number(Some(6)).unwrap(), 6);
    assert!(is_reset(request_number(None)));
}

#[test]
fn subscription_goes_on_or_stops() {
    let got = RefCell::new(Vec::new());
    let bytes = Foo::encode_return(&5).unwrap();
    let next = on_subscription::<Foo, _>(Some(Ok(bytes.clone())), |item| {
        got.borrow_mut().push(item.unwrap());
        true
    });
    assert_eq!(next, Next::Continue);
    assert_eq!(got.into_inner(), vec![5]);
    assert_eq!(on_subscription::<Foo, _>(Some(Ok(bytes)), |_| false), Next::Stop);
    let next = on_subscription::<Foo, _>(Some(Ok(vec![])), |item| {
        matches!(item, Err(Error::DeserializeFaild))
    });
    assert_eq!(next, Next::Continue);
    let reset = Some(Err(Error::ConnectionReset));
    assert_eq!(on_subscription::<Foo, _>(reset.clone(), |item| is_reset(item)), Next::Continue);
    assert_eq!(on_subscription::<Foo, _>(reset, |_| false), Next::EndRequest);
    assert_eq!(on_subscription::<Foo, _>(None, |_| panic!("no item")), Next::Resubscribe);
}

#[test]
fn items_are_encoded_and_queued() {
    let queued = RefCell::new(None);
    let res = queue_item::<Foo, _>(&"hi".to_string(), |data| {
        *queued.borrow_mut() = Some(data);
        true
    });
    assert!(res.is_ok());
    assert_eq!(queued.into_inner(), Some(vec![2, 0, 0, 0, 0, 0, 0, 0, b'h', b'i']));
    assert!(is_reset(queue_item::<Foo, _>(&"hi".to_string(), |_| false)));
    assert!(matches!(
        queue_item::<Foo, _>(&"no".to_string(), |_| true),
        Err(Error::SerializeFaild)
    ));
    assert!(item_written(true).is_ok());
    assert!(is_reset(item_written(false)));
}

#[test]
fn nothing_happens_for_a_refused_or_stray_operation() {
    let never = |_: u32, _: Vec<u8>| panic!("nothing is to be queued");
    assert!(matches!(req_no_call(&Stuck, never), Err(Error::SerializeFaild)));
    assert!(matches!(
        queue_item::<Foo, _>(&"no".to_string(), |_| panic!("nothing is to be queued")),
        Err(Error::SerializeFaild)
    ));
    let mut d: Dispatcher<u8> = Dispatcher::new();
    let _: Effects<u8, ()> = d.on_req(req(1, 1, vec![0; 65536]));
    let _: Effects<u8, ()> = d.on_req(req(2, 1, vec![]));
    for msg_id in vec![0u32, 1, 3, u32::MAX] {
        let stray = Recv { msg_id, data: Ok(vec![]) };
        let _: Effects<u8, ()> = d.on_recv(stray, |_: &u8, _| panic!("nobody waits"));
    }
    let _: Effects<u8, ()> = d.on_deconnect();
    let old = Recv { msg_id: 2, data: Ok(vec![]) };
    let _: Effects<u8, ()> = d.on_recv(old, |_: &u8, _| panic!("nobody waits"));
}

#[test]
fn operations_of_a_connection() {
    let mut d: Dispatcher<char> = Dispatcher::new();
    let frames = RefCell::new(Vec::new());
    let delivered = RefCell::new(Vec::new());
    let announced = RefCell::new(Vec::new());
    let ops = vec![
        Op::Req(Req { sender: 'a', channel_id: 1, data: vec![7] }),
        Op::ReqNoCall(ReqNoCall { sender: 'b', msg_id_sender: 'm', channel_id: 2, data: vec![8] }),
        Op::Recv(Recv { msg_id: 1, data: Ok(vec![5]) }),
        Op::Recv(Recv { msg_id: 2, data: Ok(vec![6]) }),
        Op::Recv(Recv { msg_id: 1, data: Ok(vec![4]) }),
        Op::Recv(Recv { msg_id: 2, data: Ok(vec![9]) }),
        Op::Deconnect,
    ];
    for op in ops {
        let fx: Effects<char, ()> = d.step(
            op,
            |m: char, id: u32| {
                announced.borrow_mut().push((m, id));
                true
            },
            |s: &char, data: Result<Vec<u8>, Error>| {
                delivered.borrow_mut().push((*s, data.ok()));
                true
            },
        );
        for s in fx.resets {
            delivered.borrow_mut().push((s, None));
        }
        if let Some((frame, _)) = fx.frame {
            frames.borrow_mut().push(frame);
        }
    }
    assert_eq!(announced.into_inner(), vec![('m', 2)]);
    assert_eq!(
        delivered.into_inner(),
        vec![('a', Some(vec![5])), ('b', Some(vec![6])), ('b', Some(vec![9])), ('b', None)]
    );
    assert_eq!(
        frames.into_inner(),
        vec![vec![0, 1, 0, 0, 0, 1, 0, 0, 0, 1, 7], vec![0, 1, 0, 0, 0, 2, 0, 0, 0, 2, 8]]
    );
}

#[test]
fn kth_request_has_number_k() {
    let mut d: Dispatcher<u8> = Dispatcher::new();
    for _ in 0..2 {
        for k in 1..=50u32 {
            let len = if k % 7 == 0 { 65536 } else { 1 };
            let fx: Effects<u8, ()> = d.on_req(req(1, 1, vec![0; len]));
            match fx.frame {
                Some((frame, _)) => assert_eq!(frame[6..10], k.to_be_bytes()),
                None => assert_eq!(len, 65536),
            }
        }
        let _: Effects<u8, ()> = d.on_deconnect();
    }
}

#[test]
fn socket_is_connected_again() {
    let (mut socket, action) = Socket::new();
    assert_eq!(action, SocketAction::Connect);
    let run = vec![
        (SocketEvent::Connected(false), SocketAction::Pause),
        (SocketEvent::Paused, SocketAction::Connect),
        (SocketEvent::Connected(true), SocketAction::Serve),
        (SocketEvent::Taken(true), SocketAction::Write),
        (SocketEvent::Written(true), SocketAction::Acknowledge),
        (SocketEvent::Taken(true), SocketAction::Write),
        (SocketEvent::Written(false), SocketAction::GiveUp),
        (SocketEvent::Paused, SocketAction::Connect),
        (SocketEvent::Connected(true), SocketAction::Serve),
        (SocketEvent::Taken(false), SocketAction::GiveUp),
    ];
    for (event, expected) in run {
        let (next, action) = socket.on_event(event);
        assert_eq!(action, expected);
        socket = next;
    }
    assert_eq!(socket, Socket::Pausing);
}

#[test]
fn reset_subscription_is_requested_again() {
    let (mut subscription, action) = Subscription::new();
    assert_eq!(action, SubscriptionAction::Listen);
    let told = RefCell::new(Vec::new());
    let mut events = Vec::new();
    for msg in vec![Some(Err(Error::ConnectionReset)), None] {
        let next = on_subscription::<Foo, _>(msg, |item| {
            told.borrow_mut().push(format!("{:?}", item));
            true
        });
        events.push(SubscriptionEvent::Delivered(next));
    }
    events.push(SubscriptionEvent::Paused);
    events.push(SubscriptionEvent::Requested(false));
    events.push(SubscriptionEvent::Paused);
    events.push(SubscriptionEvent::Requested(true));
    let mut actions = Vec::new();
    for event in events {
        let (next, action) = subscription.on_event(event);
        subscription = next;
        actions.push(action);
    }
    assert_eq!(told.into_inner(), vec!["Err(ConnectionReset)"]);
    assert_eq!(
        actions,
        vec![
            SubscriptionAction::Listen,
            SubscriptionAction::Pause,
            SubscriptionAction::Request,
            SubscriptionAction::Pause,
            SubscriptionAction::Request,
            SubscriptionAction::Listen,
        ]
    );
    let (over, action) = subscription.on_event(SubscriptionEvent::Delivered(Next::Stop));
    assert_eq!((over, action), (Subscription::Over, SubscriptionAction::Stop));
    let ended = Subscription::Listening.on_event(SubscriptionEvent::Delivered(Next::EndRequest));
    assert_eq!(ended, (Subscription::Over, SubscriptionAction::EndRequest));
    let queued = RefCell::new(Vec::new());
    for _ in 0..2 {
        let res = req_no_call(&Foo(3), |channel_id, data| {
            queued.borrow_mut().push((channel_id, data));
            true
        });
        assert!(res.is_ok());
    }
    assert_eq!(queued.into_inner(), vec![(1, vec![3, 0, 0, 0]), (1, vec![3, 0, 0, 0])]);
}

/// Runs an upload of `items` in which the writes succeed as told, and logs
/// what it does.
fn run_upload(closes: bool, items: Vec<char>, mut writes: Vec<bool>) -> String {
    let mut log = String::new();
    let mut items = items.into_iter();
    writes.reverse();
    let (mut uploader, mut action) = Uploader::new(closes);
    loop {
        let event = match action {
            UploaderAction::Pull => match items.next() {
                Some(item) => UploaderEvent::Item(item),
                None => UploaderEvent::Exhausted,
            },
            UploaderAction::Write(item) => {
                log.push(item);
                UploaderEvent::Written(writes.pop().unwrap())
            }
            UploaderAction::Close => {
                log.push('|');
                UploaderEvent::Written(writes.pop().unwrap())
            }
            UploaderAction::Await => {
                log.push('?');
                UploaderEvent::Answered
            }
            UploaderAction::Stop => {
                assert_eq!(uploader, Uploader::Over);
                return log;
            }
        };
        let (next, next_action) = uploader.on_event(event);
        uploader = next;
        action = next_action;
    }
}

#[test]
fn upload_queues_its_items_in_order_and_awaits_the_answer_last() {
    assert_eq!(run_upload(false, vec!['a', 'b', 'c'], vec![true, true, true]), "abc?");
    assert_eq!(run_upload(true, vec!['a', 'b', 'c'], vec![true; 4]), "abc|?");
    assert_eq!(run_upload(false, vec![], vec![]), "?");
    assert_eq!(run_upload(true, vec![], vec![true]), "|?");
    assert_eq!(run_upload(true, vec!['a', 'b', 'c'], vec![true, false]), "ab");
    assert_eq!(run_upload(true, vec!['a'], vec![true, false]), "a|");
}
