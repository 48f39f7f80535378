//! The server: which handler serves a request, what the handler is given and
//! what goes back, and where the frames of a connection go.
//!
//! The handlers themselves run in the surrounding task. `N` is a handler that
//! is given a request, `W` one that is also given the items of an upload, and
//! `C` one that is told of a closed connection.
use std::collections::BTreeMap;
use std::sync::Arc;
use vstd::prelude::*;

use crate::rpc::{Call, Error, Message, Response, Subscribe, Upload, Verify, RPC};
use crate::wire::UPLOAD_CHANNEL;

verus! {

/// What is known of the other end of a connection.
pub trait ConnectionInfo: Sync + Send {
    fn remote_address(&self) -> String;

    fn protocol(&self) -> &'static str;
}

/// The channel numbers above this one are reserved.
pub const LAST_CHANNEL: u32 = 0xffff_ff9b;

/// Whether a channel number is reserved, and so not for requests.
pub fn is_reserved(rpc_channel: u32) -> (reserved: bool)
    ensures
        reserved == (rpc_channel > u32::MAX - 100),
{
    rpc_channel > LAST_CHANNEL
}

/// Lets a channel number pass that is not reserved. Such a number is never
/// taken for the upload channel.
pub fn reserved_check(rpc_channel: u32)
    requires
        rpc_channel <= u32::MAX - 100,
    ensures
        rpc_channel != UPLOAD_CHANNEL,
{
}

// ---------------------------------------------------------------------
// Handlers
// ---------------------------------------------------------------------

/// The handler of a channel.
pub enum OnChannelMsg<N, W> {
    WithRecv(W),
    NoRecv(N),
}

/// The channels that a server serves, as a value.
pub struct ChannelsView<N, W, C> {
    pub channels: Map<u32, OnChannelMsg<N, W>>,
    pub on_close: Option<C>,
}

/// The channels that a server serves.
pub struct Channels<N, W, C> {
    channels: BTreeMap<u32, OnChannelMsg<N, W>>,
    on_close: Option<C>,
}

impl<N, W, C> View for Channels<N, W, C> {
    type V = ChannelsView<N, W, C>;

    closed spec fn view(&self) -> ChannelsView<N, W, C> {
        ChannelsView { channels: self.channels@, on_close: self.on_close }
    }
}

impl<N, W, C> ChannelsView<N, W, C> {
    /// The handler of a channel.
    pub open spec fn handler(self, channel_id: u32) -> Option<OnChannelMsg<N, W>> {
        if self.channels.contains_key(channel_id) {
            Some(self.channels[channel_id])
        } else {
            None
        }
    }

    /// With `handler` serving the channel of `R`.
    pub open spec fn serves<R: RPC>(self, handler: OnChannelMsg<N, W>, after: Self) -> bool {
        exists|rpc_channel: u32|
            {
                &&& #[trigger] call_ensures(R::rpc_channel, (), rpc_channel)
                &&& after.channels == self.channels.insert(rpc_channel, handler)
                &&& after.on_close == self.on_close
            }
    }

    /// Nothing serves the channel of `R` yet.
    pub open spec fn lacks<R: RPC>(self) -> bool {
        forall|rpc_channel: u32| #[trigger]
            call_ensures(R::rpc_channel, (), rpc_channel) ==> !self.channels.contains_key(
                rpc_channel,
            )
    }
}

/// Who is to serve a message. `U` and `V` are the ends of a queue of upload
/// items.
pub enum Dispatch<'a, N, W, U, V> {
    /// Nobody serves this channel.
    Unknown(u32),
    /// This handler, with this payload.
    NoRecv(&'a N, Vec<u8>),
    /// This handler, with this payload and with the items that come out of
    /// the second end of the queue.
    WithRecv(&'a W, Vec<u8>, U, V),
}

impl<N, W, C> Channels<N, W, C> {
    /// No channels.
    pub fn new() -> (res: Self)
        ensures
            res@.channels == Map::<u32, OnChannelMsg<N, W>>::empty(),
            res@.on_close == None::<C>,
    {
        Channels { channels: BTreeMap::new(), on_close: None }
    }

    /// Whether a channel is served.
    pub fn contains(&self, rpc_channel: u32) -> (res: bool)
        ensures
            res == self@.channels.contains_key(rpc_channel),
    {
        broadcast use vstd::std_specs::btree::group_btree_axioms;

        self.channels.contains_key(&rpc_channel)
    }

    /// Has subscriptions of type `R` served by `p`. Their channel must be
    /// free.
    pub fn set_subscribe<R: Subscribe>(self, p: N) -> (res: Self)
        requires
            self@.lacks::<R>(),
        ensures
            self@.serves::<R>(OnChannelMsg::NoRecv(p), res@),
            exists|rpc_channel: u32|
                {
                    &&& #[trigger] call_ensures(R::rpc_channel, (), rpc_channel)
                    &&& res@.channels == self@.channels.insert(rpc_channel, OnChannelMsg::NoRecv(p))
                    &&& res@.on_close == self@.on_close
                },
    {
        self.set::<R>(OnChannelMsg::NoRecv(p))
    }

    /// Has calls of type `R` served by `p`. Their channel must be free.
    pub fn set_call<R: Call>(self, p: N) -> (res: Self)
        requires
            self@.lacks::<R>(),
        ensures
            self@.serves::<R>(OnChannelMsg::NoRecv(p), res@),
            exists|rpc_channel: u32|
                {
                    &&& #[trigger] call_ensures(R::rpc_channel, (), rpc_channel)
                    &&& res@.channels == self@.channels.insert(rpc_channel, OnChannelMsg::NoRecv(p))
                    &&& res@.on_close == self@.on_close
                },
    {
        self.set::<R>(OnChannelMsg::NoRecv(p))
    }

    /// Has uploads of type `R` served by `p`, in place of whatever served
    /// their channel.
    pub fn set_upload<R: Upload>(self, p: W) -> (res: Self)
        ensures
            self@.serves::<R>(OnChannelMsg::WithRecv(p), res@),
            exists|rpc_channel: u32|
                {
                    &&& #[trigger] call_ensures(R::rpc_channel, (), rpc_channel)
                    &&& res@.channels == self@.channels.insert(rpc_channel, OnChannelMsg::WithRecv(p))
                    &&& res@.on_close == self@.on_close
                },
    {
        self.set::<R>(OnChannelMsg::WithRecv(p))
    }

    fn set<R: RPC>(self, handler: OnChannelMsg<N, W>) -> (res: Self)
        ensures
            self@.serves::<R>(handler, res@),
    {
        broadcast use vstd::std_specs::btree::group_btree_axioms;

        let mut res = self;
        let rpc_channel = R::rpc_channel();
        let _ = res.channels.insert(rpc_channel, handler);
        proof {
            assert(call_ensures(R::rpc_channel, (), rpc_channel));
        }
        res
    }

    /// Has `onclose` told of closed connections.
    pub fn set_onclose(self, onclose: C) -> (res: Self)
        ensures
            res@.channels == self@.channels,
            res@.on_close == Some(onclose),
    {
        let mut res = self;
        res.on_close = Some(onclose);
        res
    }

    /// Shares the finished channels.
    pub fn finish(self) -> (res: Arc<Self>)
        ensures
            *res == self,
    {
        Arc::new(self)
    }

    /// Finds who is to serve a message. `open` makes a queue for the items of
    /// an upload.
    pub fn on_message<U, V, O: FnOnce() -> (U, V)>(&self, msg: Message, open: O) -> (res: Dispatch<
        '_,
        N,
        W,
        U,
        V,
    >)
        requires
            self@.handler(msg.channel_id) matches Some(OnChannelMsg::WithRecv(_)) ==> call_requires(
                open,
                (),
            ),
        ensures
            match res {
                Dispatch::Unknown(channel_id) => {
                    &&& channel_id == msg.channel_id
                    &&& self@.handler(channel_id) is None
                },
                Dispatch::NoRecv(f, bytes) => {
                    &&& self@.handler(msg.channel_id) == Some(OnChannelMsg::<N, W>::NoRecv(*f))
                    &&& bytes == msg.msg
                },
                Dispatch::WithRecv(f, bytes, tx, rx) => {
                    &&& self@.handler(msg.channel_id) == Some(OnChannelMsg::<N, W>::WithRecv(*f))
                    &&& bytes == msg.msg
                    &&& call_ensures(open, (), (tx, rx))
                },
            },
            res is Unknown <==> !self@.channels.contains_key(msg.channel_id),
            res matches Dispatch::NoRecv(f, bytes) ==> self@.channels[msg.channel_id]
                == OnChannelMsg::<N, W>::NoRecv(*f) && bytes@ == msg.msg@,
            res matches Dispatch::WithRecv(f, bytes, tx, rx) ==> self@.channels[msg.channel_id]
                == OnChannelMsg::<N, W>::WithRecv(*f) && bytes@ == msg.msg@,
    {
        broadcast use vstd::std_specs::btree::group_btree_axioms;

        match self.channels.get(&msg.channel_id) {
            None => Dispatch::Unknown(msg.channel_id),
            Some(OnChannelMsg::NoRecv(f)) => Dispatch::NoRecv(f, msg.msg),
            Some(OnChannelMsg::WithRecv(f)) => {
                let (tx, rx) = open();
                Dispatch::WithRecv(f, msg.msg, tx, rx)
            },
        }
    }

    /// Who is to be told of a closed connection.
    pub fn on_close(&self) -> (res: Option<&C>)
        ensures
            match res {
                None => self@.on_close == None::<C>,
                Some(f) => self@.on_close == Some(*f),
            },
    {
        match &self.on_close {
            None => None,
            Some(f) => Some(f),
        }
    }
}

/// `res` is what the payload of a request is taken for: a request that
/// passed its check, an error if the payload does not hold an `R`, or the
/// answer to its refusal.
pub open spec fn decoded<R: Verify>(bytes: Seq<u8>, res: Result<Result<R, Error>, R::Return>) -> bool {
    exists|b: &[u8], parsed: Option<R>|
        {
            &&& b@ == bytes
            &&& #[trigger] call_ensures(R::decode, (b,), parsed)
            &&& match parsed {
                None => res == Ok::<Result<R, Error>, R::Return>(Err(Error::DeserializeFaild)),
                Some(r) => match res {
                    Ok(Ok(passed)) => call_ensures(R::verify_result, (r,), Ok(passed)),
                    Ok(Err(_)) => false,
                    Err(ret) => call_ensures(R::verify_result, (r,), Err(ret)),
                },
            }
        }
}

/// Takes the payload of a request for what it is, and checks it.
pub fn decode<R: Verify>(bytes: &[u8]) -> (res: Result<Result<R, Error>, R::Return>)
    ensures
        decoded::<R>(bytes@, res),
        match res {
            Ok(Ok(passed)) => exists|r: R|
                {
                    &&& call_ensures(R::decode, (bytes,), Some(r))
                    &&& #[trigger] call_ensures(R::verify_result, (r,), Ok(passed))
                },
            Ok(Err(e)) => e == Error::DeserializeFaild && call_ensures(R::decode, (bytes,), None),
            Err(ret) => exists|r: R|
                {
                    &&& call_ensures(R::decode, (bytes,), Some(r))
                    &&& #[trigger] call_ensures(R::verify_result, (r,), Err(ret))
                },
        },
{
    let parsed = R::decode(bytes);
    proof {
        assert(call_ensures(R::decode, (bytes,), parsed));
    }
    match parsed {
        Some(r) => {
            let ghost given = r;
            proof {
                assert(parsed == Some(given));
            }
            match r.verify_result() {
                Ok(passed) => {
                    let res: Result<Result<R, Error>, R::Return> = Ok(Ok(passed));
                    proof {
                        assert(match res {
                            Ok(Ok(p)) => call_ensures(R::verify_result, (given,), Ok(p)),
                            _ => false,
                        });
                    }
                    res
                },
                Err(ret) => {
                    let res: Result<Result<R, Error>, R::Return> = Err(ret);
                    proof {
                        assert(match res {
                            Err(p) => call_ensures(R::verify_result, (given,), Err(p)),
                            _ => false,
                        });
                    }
                    res
                },
            }
        },
        None => Ok(Err(Error::DeserializeFaild)),
    }
}

/// Gives the payload of a request to the handler `p`, unless the request is
/// refused: then the answer to the refusal comes back, and `p` is dropped.
pub fn handle<R: Verify, T, P: FnOnce(Result<R, Error>) -> T>(bytes: &[u8], p: P) -> (res: Result<
    T,
    R::Return,
>)
    requires
        forall|param: Result<R, Error>|
            decoded::<R>(bytes@, Ok(param)) ==> #[trigger] call_requires(p, (param,)),
    ensures
        exists|outcome: Result<Result<R, Error>, R::Return>| #[trigger]
            decoded::<R>(bytes@, outcome) && match outcome {
                Err(ret) => res == Err::<T, R::Return>(ret),
                Ok(param) => res is Ok && call_ensures(p, (param,), res->Ok_0),
            },
{
    let outcome = decode::<R>(bytes);
    let ghost given = outcome;
    proof {
        assert(decoded::<R>(bytes@, given));
    }
    match outcome {
        Err(ret) => Err(ret),
        Ok(param) => Ok(p(param)),
    }
}

/// `res` is what comes of having `sender` send the answer `msg`: an error if
/// the answer cannot be encoded, another if it was not taken.
pub open spec fn answered<R: RPC, T: FnOnce(Response) -> bool>(
    msg: &R::Return,
    sender: T,
    res: Result<(), Error>,
) -> bool {
    ||| {
        &&& call_ensures(R::encode_return, (msg,), None)
        &&& res == Err::<(), Error>(Error::SerializeFaild)
    }
    ||| exists|bytes: Vec<u8>, taken: bool|
        {
            &&& call_ensures(R::encode_return, (msg,), Some(bytes))
            &&& #[trigger] call_ensures(sender, (Response { msg: bytes },), taken)
            &&& res == if taken {
                Ok::<(), Error>(())
            } else {
                Err(Error::ConnectionReset)
            }
        }
}

/// Encodes an answer and has it sent. `sender` hands a response to the
/// connection, and tells whether it was taken.
pub fn send<R: RPC, T: FnOnce(Response) -> bool>(msg: &R::Return, sender: T) -> (res: Result<
    (),
    Error,
>)
    requires
        forall|bytes: Vec<u8>|
            call_ensures(R::encode_return, (msg,), Some(bytes)) ==> #[trigger] call_requires(
                sender,
                (Response { msg: bytes },),
            ),
    ensures
        answered::<R, T>(msg, sender, res),
        match res {
            Ok(_) => exists|bytes: Vec<u8>|
                {
                    &&& call_ensures(R::encode_return, (msg,), Some(bytes))
                    &&& #[trigger] call_ensures(sender, (Response { msg: bytes },), true)
                },
            Err(e) => {
                ||| e == Error::SerializeFaild && call_ensures(R::encode_return, (msg,), None)
                ||| e == Error::ConnectionReset && exists|bytes: Vec<u8>|
                    {
                        &&& call_ensures(R::encode_return, (msg,), Some(bytes))
                        &&& #[trigger] call_ensures(sender, (Response { msg: bytes },), false)
                    }
            },
        },
{
    match R::encode_return(msg) {
        None => Err(Error::SerializeFaild),
        Some(bytes) => {
            let ghost sent = bytes;
            let taken = sender(Response { msg: bytes });
            proof {
                assert(call_ensures(sender, (Response { msg: sent },), taken));
            }
            if taken {
                Ok(())
            } else {
                Err(Error::ConnectionReset)
            }
        },
    }
}

/// `answer` is how the answer to the refusal of the request in `bytes` is
/// encoded.
pub open spec fn refusal<R: Verify>(bytes: Seq<u8>, answer: Vec<u8>) -> bool {
    exists|ret: R::Return|
        {
            &&& decoded::<R>(bytes, Err(ret))
            &&& #[trigger] call_ensures(R::encode_return, (&ret,), Some(answer))
        }
}

/// Gives the payload of a subscription to the handler `p`, unless the request
/// is refused: then the answer to the refusal is sent, and `p` is dropped.
pub fn handle_subscribe<R: Subscribe, T, P: FnOnce(Result<R, Error>) -> T, S: FnOnce(Response) -> bool>(
    bytes: &[u8],
    p: P,
    sender: S,
) -> (res: Option<T>)
    requires
        forall|param: Result<R, Error>|
            decoded::<R>(bytes@, Ok(param)) ==> #[trigger] call_requires(p, (param,)),
        forall|answer: Vec<u8>|
            refusal::<R>(bytes@, answer) ==> #[trigger] call_requires(
                sender,
                (Response { msg: answer },),
            ),
    ensures
        exists|outcome: Result<Result<R, Error>, R::Return>| #[trigger]
            decoded::<R>(bytes@, outcome) && match outcome {
                Ok(param) => res is Some && call_ensures(p, (param,), res->Some_0),
                Err(ret) => res is None && exists|sent: Result<(), Error>| #[trigger]
                    answered::<R, S>(&ret, sender, sent),
            },
{
    let outcome = decode::<R>(bytes);
    let ghost given = outcome;
    proof {
        assert(decoded::<R>(bytes@, given));
    }
    match outcome {
        Ok(param) => Some(p(param)),
        Err(ret) => {
            let sent = send::<R, S>(&ret, sender);
            proof {
                assert(answered::<R, S>(&ret, sender, sent));
            }
            None
        },
    }
}

/// Takes the payload of an upload item for what it is.
pub fn decode_item<R: Upload>(bytes: &[u8]) -> (res: Result<R::UploadStream, Error>)
    ensures
        match res {
            Ok(item) => call_ensures(R::decode_item, (bytes,), Some(item)),
            Err(e) => e == Error::DeserializeFaild && call_ensures(R::decode_item, (bytes,), None),
        },
{
    match R::decode_item(bytes) {
        Some(item) => Ok(item),
        None => Err(Error::DeserializeFaild),
    }
}

// ---------------------------------------------------------------------
// Connections
// ---------------------------------------------------------------------

/// A frame that has been read off a connection. `begun` is what takes the
/// items of the upload that the frame begins, if it begins one.
pub struct Frame<U> {
    pub channel_id: u32,
    pub msg_id: u32,
    pub data: Seq<u8>,
    pub begun: Option<U>,
}

impl<U> Frame<U> {
    /// The frame that was read as `msg` with the number `msg_id`.
    pub open spec fn read(msg: Message, msg_id: u32, begun: Option<U>) -> Self {
        Frame { channel_id: msg.channel_id, msg_id, data: msg.msg@, begun }
    }

    /// Where the frame's payload goes as an upload item, while the uploads
    /// `list` run.
    pub open spec fn taker(self, list: Map<u32, U>) -> Option<U> {
        if self.channel_id == UPLOAD_CHANNEL && list.contains_key(self.msg_id) && self.data.len()
            > 0 {
            Some(list[self.msg_id])
        } else {
            None
        }
    }

    /// The uploads that run behind the frame, while the uploads `list` run
    /// before it. A frame without payload for the upload channel ends an
    /// upload.
    pub open spec fn after(self, list: Map<u32, U>) -> Map<u32, U> {
        if self.channel_id == UPLOAD_CHANNEL {
            if self.data.len() == 0 {
                list.remove(self.msg_id)
            } else {
                list
            }
        } else {
            match self.begun {
                Some(tx) => list.insert(self.msg_id, tx),
                None => list,
            }
        }
    }
}

/// What is to be done about a frame. `V` is the end of a queue out of which
/// upload items come.
pub enum Step<'a, N, W, V> {
    /// It was an upload item, which has been handed on.
    Item,
    /// It was the end of an upload.
    End,
    /// It was meant for an upload that does not run.
    Stray,
    /// It is a request for a channel that nobody serves.
    Unknown(u32),
    /// It is a request, which this handler is to serve.
    NoRecv(&'a N, Vec<u8>),
    /// It is a request, which this handler is to serve, with the items of the
    /// upload that it begins.
    WithRecv(&'a W, Vec<u8>, V),
}

/// The uploads that run on a connection, by the number of the request that
/// began them. `U` takes the items of an upload.
pub struct Uploads<U> {
    upload_list: BTreeMap<u32, U>,
}

impl<U> View for Uploads<U> {
    type V = Map<u32, U>;

    closed spec fn view(&self) -> Map<u32, U> {
        self.upload_list@
    }
}

impl<U> Uploads<U> {
    pub fn new() -> (res: Self)
        ensures
            res@ == Map::<u32, U>::empty(),
    {
        Uploads { upload_list: BTreeMap::new() }
    }

    /// Handles a frame. `forward` hands an upload item on to what takes the
    /// items of its upload, and `open` makes a queue for the items of a new
    /// upload.
    pub fn on_frame<
        'a,
        N,
        W,
        C,
        V,
        F: FnOnce(&U, Vec<u8>) -> bool,
        O: FnOnce() -> (U, V),
    >(
        &mut self,
        channels: &'a Channels<N, W, C>,
        msg: Message,
        msg_id: u32,
        forward: F,
        open: O,
    ) -> (res: Step<'a, N, W, V>)
        requires
            Frame::read(msg, msg_id, None::<U>).taker(old(self)@) matches Some(tx) ==> call_requires(
                forward,
                (&tx, msg.msg),
            ),
            msg.channel_id != UPLOAD_CHANNEL ==> (channels@.handler(msg.channel_id) matches Some(
                OnChannelMsg::WithRecv(_),
            ) ==> call_requires(open, ())),
        ensures
            !(res is WithRecv) ==> final(self)@ == Frame::read(msg, msg_id, None::<U>).after(
                old(self)@,
            ),
            old(self)@.remove(msg_id) == final(self)@.remove(msg_id),
            res is WithRecv <==> msg.channel_id != 4294967295u32 && channels@.channels.contains_key(
                msg.channel_id,
            ) && channels@.channels[msg.channel_id] is WithRecv,
            res is NoRecv <==> msg.channel_id != 4294967295u32 && channels@.channels.contains_key(
                msg.channel_id,
            ) && channels@.channels[msg.channel_id] is NoRecv,
            res is Unknown <==> msg.channel_id != 4294967295u32
                && !channels@.channels.contains_key(msg.channel_id),
            res is Stray <==> msg.channel_id == 4294967295u32 && !old(self)@.contains_key(msg_id),
            res is End <==> msg.channel_id == 4294967295u32 && old(self)@.contains_key(msg_id)
                && msg.msg@.len() == 0,
            res is Item ==> exists|taken: bool| #[trigger]
                call_ensures(forward, (&old(self)@[msg_id], msg.msg), taken),
            res is End ==> !final(self)@.contains_key(msg_id),
            !(res is End) && !(res is WithRecv) ==> final(self)@ == old(self)@,
            res matches Step::WithRecv(f, bytes, rx) ==> final(self)@.contains_key(msg_id)
                && call_ensures(open, (), (final(self)@[msg_id], rx)) && bytes@ == msg.msg@
                && channels@.channels[msg.channel_id] == OnChannelMsg::<N, W>::WithRecv(*f),
            res matches Step::NoRecv(f, bytes) ==> bytes@ == msg.msg@
                && channels@.channels[msg.channel_id] == OnChannelMsg::<N, W>::NoRecv(*f),
            match res {
                Step::Item => {
                    &&& Frame::read(msg, msg_id, None::<U>).taker(old(self)@) is Some
                    &&& exists|taken: bool| #[trigger]
                        call_ensures(
                            forward,
                            (&Frame::read(msg, msg_id, None::<U>).taker(old(self)@)->Some_0, msg.msg),
                            taken,
                        )
                },
                Step::End => {
                    &&& msg.channel_id == UPLOAD_CHANNEL
                    &&& old(self)@.contains_key(msg_id)
                    &&& msg.msg@.len() == 0
                },
                Step::Stray => {
                    &&& msg.channel_id == UPLOAD_CHANNEL
                    &&& !old(self)@.contains_key(msg_id)
                },
                Step::Unknown(channel_id) => {
                    &&& msg.channel_id != UPLOAD_CHANNEL
                    &&& channel_id == msg.channel_id
                    &&& channels@.handler(channel_id) is None
                },
                Step::NoRecv(f, bytes) => {
                    &&& msg.channel_id != UPLOAD_CHANNEL
                    &&& channels@.handler(msg.channel_id) == Some(OnChannelMsg::<N, W>::NoRecv(*f))
                    &&& bytes == msg.msg
                },
                Step::WithRecv(f, bytes, rx) => {
                    &&& msg.channel_id != UPLOAD_CHANNEL
                    &&& channels@.handler(msg.channel_id) == Some(OnChannelMsg::<N, W>::WithRecv(*f))
                    &&& bytes == msg.msg
                    &&& exists|tx: U|
                        {
                            &&& #[trigger] call_ensures(open, (), (tx, rx))
                            &&& final(self)@ == Frame::read(msg, msg_id, Some(tx)).after(old(self)@)
                        }
                },
            },
    {
        broadcast use vstd::std_specs::btree::group_btree_axioms;

        if msg.channel_id == UPLOAD_CHANNEL {
            match self.upload_list.get(&msg_id) {
                None => {
                    proof {
                        assert(self@.remove(msg_id) =~= self@);
                    }
                    return Step::Stray;
                },
                Some(upload_tx) => {
                    if !msg.msg.is_empty() {
                        let ghost data = msg.msg;
                        let taken = forward(upload_tx, msg.msg);
                        proof {
                            assert(call_ensures(forward, (&self@[msg_id], data), taken));
                        }
                        return Step::Item;
                    }
                },
            }
            let _ = self.upload_list.remove(&msg_id);
            return Step::End;
        }
        match channels.on_message(msg, open) {
            Dispatch::Unknown(channel_id) => Step::Unknown(channel_id),
            Dispatch::NoRecv(f, bytes) => Step::NoRecv(f, bytes),
            Dispatch::WithRecv(f, bytes, tx, rx) => {
                let ghost begun = tx;
                let _ = self.upload_list.insert(msg_id, tx);
                let res = Step::WithRecv(f, bytes, rx);
                proof {
                    assert(match res {
                        Step::WithRecv(_, _, end) => call_ensures(open, (), (begun, end)),
                        _ => false,
                    });
                }
                res
            },
        }
    }
}

/// The longest token that is not worth a warning.
pub const LONG_TOKEN: usize = 1024;

/// The token of a connection: whatever bytes the handlers last kept there.
pub struct Token {
    token: Vec<u8>,
}

impl View for Token {
    type V = Seq<u8>;

    closed spec fn view(&self) -> Seq<u8> {
        self.token@
    }
}

impl Token {
    /// No bytes.
    pub fn new() -> (res: Self)
        ensures
            res@ == Seq::<u8>::empty(),
    {
        Token { token: Vec::new() }
    }

    /// A copy of the token.
    pub fn get(&self) -> (res: Vec<u8>)
        ensures
            res@ == self@,
    {
        let res = self.token.clone();
        proof {
            assert(res@ =~= self@);
        }
        res
    }

    /// Replaces the token. Tells whether the new one is unusually long.
    pub fn set(&mut self, new_token: Vec<u8>) -> (long: bool)
        ensures
            final(self)@ == new_token@,
            long == (new_token@.len() > LONG_TOKEN),
            long == (new_token@.len() > 1024),
    {
        let long = new_token.len() > LONG_TOKEN;
        self.token = new_token;
        long
    }
}

/// The number of the next connection after `count` of them, and how many
/// there are with it.
pub open spec fn numbered(count: nat) -> (nat, nat) {
    (count, count + 1)
}

/// Numbers the connections of a server in the order in which they come.
pub struct ConnectionIds {
    count: u128,
}

impl View for ConnectionIds {
    type V = nat;

    closed spec fn view(&self) -> nat {
        self.count as nat
    }
}

impl ConnectionIds {
    pub fn new() -> (res: Self)
        ensures
            res@ == 0,
    {
        ConnectionIds { count: 0 }
    }

    /// How many connections have been numbered.
    pub fn count(&self) -> (count: u128)
        ensures
            count == self@,
    {
        self.count
    }

    /// The number of the next connection.
    pub fn next(&mut self) -> (id: u128)
        requires
            old(self)@ < u128::MAX,
        ensures
            (id as nat, final(self)@) == numbered(old(self)@),
            id == old(self)@,
            final(self)@ == old(self)@ + 1,
    {
        let id = self.count;
        self.count = self.count + 1;
        id
    }
}

} // verus!
