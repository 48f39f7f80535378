//! The client of a TCP connection: what its connection task does with each
//! operation.
use vstd::prelude::*;

use crate::exchange;
use crate::exchange::Begun;
use crate::ops::{Recv, Req, ReqNoCall, Timeout, Uploading};
use crate::registry::{Registry, RegistryView};
use crate::rpc::{Call, Error, Subscribe, Upload, RPC};
use crate::wire;
use crate::wire::{MAX_PAYLOAD, UPLOAD_CHANNEL};

verus! {

/// What is left of a failed read or write.
pub fn map_io_err<E>(e: E) -> (res: Error)
    ensures
        res == Error::TransportError,
{
    Error::TransportError
}

/// Lays out a request under the number `msg_id`.
pub fn pack<S>(req: &Req<S>, msg_id: u32) -> (res: Result<Vec<u8>, Error>)
    ensures
        match res {
            Ok(frame) => req.data@.len() <= MAX_PAYLOAD && frame@ == wire::request_frame(
                req.channel_id,
                msg_id,
                req.data@,
            ),
            Err(e) => req.data@.len() > MAX_PAYLOAD && e == Error::MessageTooBig,
        },
{
    upload(req.channel_id, req.data.as_slice(), msg_id)
}

/// Lays out a payload for the channel `channel_id` under the number `msg_id`.
pub fn upload(channel_id: u32, data: &[u8], msg_id: u32) -> (res: Result<Vec<u8>, Error>)
    ensures
        match res {
            Ok(frame) => data@.len() <= MAX_PAYLOAD && frame@ == wire::request_frame(
                channel_id,
                msg_id,
                data@,
            ),
            Err(e) => data@.len() > MAX_PAYLOAD && e == Error::MessageTooBig,
        },
{
    wire::encode_request(channel_id, msg_id, data)
}

/// Begins a call. A refused one is not queued.
pub fn begin_call<R: Call, Q: FnOnce(u32, Vec<u8>) -> bool>(param: &R, queue: Q) -> (res: Begun<
    R::Return,
>)
    requires
        call_ensures(R::verify, (param,), Ok(())) ==> forall|channel_id: u32, data: Vec<u8>|
            exchange::encoded(param, channel_id, data) ==> #[trigger] call_requires(
                queue,
                (channel_id, data),
            ),
    ensures
        exchange::begun(param, queue, Error::ConnectionDroped, res),
{
    exchange::begin(param, queue, Error::ConnectionDroped)
}

/// Begins a subscription. A refused one is not queued.
pub fn begin_subscribe<R: Subscribe, Q: FnOnce(u32, Vec<u8>) -> bool>(param: &R, queue: Q) -> (res:
    Begun<R::Return>)
    requires
        call_ensures(R::verify, (param,), Ok(())) ==> forall|channel_id: u32, data: Vec<u8>|
            exchange::encoded(param, channel_id, data) ==> #[trigger] call_requires(
                queue,
                (channel_id, data),
            ),
    ensures
        exchange::begun(param, queue, Error::ConnectionReset, res),
{
    exchange::begin(param, queue, Error::ConnectionReset)
}

/// Begins an upload. A refused one is not queued.
pub fn begin_upload<R: Upload, Q: FnOnce(u32, Vec<u8>) -> bool>(param: &R, queue: Q) -> (res: Begun<
    R::Return,
>)
    requires
        call_ensures(R::verify, (param,), Ok(())) ==> forall|channel_id: u32, data: Vec<u8>|
            exchange::encoded(param, channel_id, data) ==> #[trigger] call_requires(
                queue,
                (channel_id, data),
            ),
    ensures
        exchange::begun(param, queue, Error::ConnectionReset, res),
{
    exchange::begin(param, queue, Error::ConnectionReset)
}

/// Encodes a request that may get many answers, and has it queued, without
/// checking it: a subscription that is taken up again has been checked.
pub fn req_no_call<R: RPC, Q: FnOnce(u32, Vec<u8>) -> bool>(param: &R, queue: Q) -> (res: Result<
    (),
    Error,
>)
    requires
        forall|channel_id: u32, data: Vec<u8>|
            exchange::encoded(param, channel_id, data) ==> #[trigger] call_requires(
                queue,
                (channel_id, data),
            ),
    ensures
        exchange::requested(param, queue, Error::ConnectionReset, res),
{
    exchange::request(param, queue, Error::ConnectionReset)
}

/// What the connection task can be asked to do.
pub enum Op<S, M, U> {
    Deconnect,
    Recv(Recv),
    Timeout(Timeout),
    Req(Req<S>),
    Uploading(Uploading<U>),
    ReqNoCall(ReqNoCall<S, M>),
    EndNoCall(u32),
}

/// What the connection task has to do in answer to an operation, in this
/// order.
pub struct Effects<S, U> {
    /// Queue a `Deconnect` behind the operations that wait already.
    pub deconnect: bool,
    /// Tell these that the connection was reset.
    pub resets: Vec<S>,
    /// Tell this requester that its request failed.
    pub reply: Option<(S, Error)>,
    /// Hand this to the writer, and let the handle know once it is written.
    pub frame: Option<(Vec<u8>, Option<U>)>,
    /// Start a timer that will ask for a `Timeout` with this number.
    pub timer: Option<u128>,
}

/// The value of an `Effects`.
pub struct EffectsView<S, U> {
    pub deconnect: bool,
    pub resets: Seq<S>,
    pub reply: Option<(S, Error)>,
    pub frame: Option<(Seq<u8>, Option<U>)>,
    pub timer: Option<u128>,
}

impl<S, U> View for Effects<S, U> {
    type V = EffectsView<S, U>;

    open spec fn view(&self) -> EffectsView<S, U> {
        EffectsView {
            deconnect: self.deconnect,
            resets: self.resets@,
            reply: self.reply,
            frame: match self.frame {
                None => None,
                Some((bytes, on_ok)) => Some((bytes@, on_ok)),
            },
            timer: self.timer,
        }
    }
}

impl<S, U> EffectsView<S, U> {
    /// Nothing to do.
    pub open spec fn none() -> Self {
        EffectsView {
            deconnect: false,
            resets: Seq::empty(),
            reply: None,
            frame: None,
            timer: None,
        }
    }

    /// Queue a `Deconnect`.
    pub open spec fn disconnect() -> Self {
        EffectsView { deconnect: true, ..Self::none() }
    }

    /// Tell `sender` that its request failed.
    pub open spec fn refuse(sender: S, e: Error) -> Self {
        EffectsView { reply: Some((sender, e)), ..Self::none() }
    }

    /// Write `frame` and start timer `timer`.
    pub open spec fn transmit(frame: Seq<u8>, on_ok: Option<U>, timer: u128) -> Self {
        EffectsView { frame: Some((frame, on_ok)), timer: Some(timer), ..Self::none() }
    }
}

impl<S, U> Effects<S, U> {
    fn none() -> (fx: Self)
        ensures
            fx@ == EffectsView::<S, U>::none(),
    {
        let fx: Self = Effects {
            deconnect: false,
            resets: Vec::new(),
            reply: None,
            frame: None,
            timer: None,
        };
        proof {
            assert(fx@.resets =~= Seq::<S>::empty());
        }
        fx
    }
}

/// The state of a connection task, as a value: the requesters that wait, and
/// the number of the timer that counts.
pub struct DispatcherView<S> {
    pub registry: RegistryView<S>,
    pub timeout_id: u128,
}

impl<S> DispatcherView<S> {
    pub open spec fn fresh() -> Self {
        DispatcherView { registry: RegistryView::fresh(), timeout_id: 0 }
    }

    pub open spec fn valid(self) -> bool {
        self.registry.valid()
    }

    /// With another timer: from now on only the timer `timeout_id + 1` counts.
    pub open spec fn armed(self) -> Self {
        DispatcherView { registry: self.registry, timeout_id: (self.timeout_id + 1) as u128 }
    }

    /// A request that gets one answer. With all numbers given out, the
    /// requester is told that the connection was reset, and the connection is
    /// given up. Else the request uses up a number; it is refused if its
    /// payload is too long, and else written, its requester waiting under the
    /// number that the frame carries.
    pub open spec fn on_req<U>(self, sender: S, channel_id: u32, data: Seq<u8>) -> (
        Self,
        EffectsView<S, U>,
    ) {
        self.on_request(sender, true, channel_id, data)
    }

    /// A request that may get many answers. `announced` tells whether the
    /// requester took the number; if not, the request is dropped.
    pub open spec fn on_req_no_call<U>(
        self,
        sender: S,
        channel_id: u32,
        data: Seq<u8>,
        announced: bool,
    ) -> (Self, EffectsView<S, U>) {
        if self.registry.id < u32::MAX && !announced {
            (
                DispatcherView { registry: self.registry.advanced(), ..self },
                EffectsView::none(),
            )
        } else {
            self.on_request(sender, false, channel_id, data)
        }
    }

    /// The part that both kinds of request share.
    pub open spec fn on_request<U>(
        self,
        sender: S,
        once: bool,
        channel_id: u32,
        data: Seq<u8>,
    ) -> (Self, EffectsView<S, U>) {
        let numbered = self.registry.advanced();
        if self.registry.id == u32::MAX {
            (
                self,
                EffectsView {
                    deconnect: true,
                    ..EffectsView::refuse(sender, Error::ConnectionReset)
                },
            )
        } else if data.len() > MAX_PAYLOAD {
            (
                DispatcherView { registry: numbered, ..self },
                EffectsView::refuse(sender, Error::MessageTooBig),
            )
        } else {
            (
                DispatcherView { registry: numbered.with(sender, once), ..self }.armed(),
                EffectsView::transmit(
                    wire::request_frame(channel_id, numbered.id, data),
                    None,
                    self.armed().timeout_id,
                ),
            )
        }
    }

    /// The connection is gone: everybody who waits is told so, and numbering
    /// starts over.
    pub open spec fn on_deconnect<U>(self) -> (Self, EffectsView<S, U>) {
        (
            DispatcherView { registry: RegistryView::fresh(), ..self },
            EffectsView { resets: self.registry.all_waiting(), ..EffectsView::none() },
        )
    }

    /// An answer has arrived. `taken` tells whether whoever waits under
    /// `msg_id` took it.
    pub open spec fn on_recv<U>(self, msg_id: u32, taken: bool) -> (Self, EffectsView<S, U>) {
        (
            DispatcherView { registry: self.registry.answered(msg_id, taken), ..self }.armed(),
            EffectsView { timer: Some(self.armed().timeout_id), ..EffectsView::none() },
        )
    }

    /// A timer has run out: the connection is given up if it is the one that
    /// counts.
    pub open spec fn on_timeout<U>(self, timeout_id: u128) -> (Self, EffectsView<S, U>) {
        (
            self,
            if self.timeout_id == timeout_id {
                EffectsView::disconnect()
            } else {
                EffectsView::none()
            },
        )
    }

    /// An upload item is written, unless it is too long; then nothing
    /// happens.
    pub open spec fn on_uploading<U>(self, on_ok: U, data: Seq<u8>, msg_id: u32) -> (
        Self,
        EffectsView<S, U>,
    ) {
        if data.len() > MAX_PAYLOAD {
            (self, EffectsView::none())
        } else {
            (
                self.armed(),
                EffectsView::transmit(
                    wire::request_frame(UPLOAD_CHANNEL, msg_id, data),
                    Some(on_ok),
                    self.armed().timeout_id,
                ),
            )
        }
    }

    /// The requester no longer wants the answers to `msg_id`.
    pub open spec fn on_end<U>(self, msg_id: u32) -> (Self, EffectsView<S, U>) {
        (DispatcherView { registry: self.registry.without(msg_id), ..self }, EffectsView::none())
    }
}

/// The state of a connection task.
pub struct Dispatcher<S> {
    registry: Registry<S>,
    timeout_id: u128,
}

impl<S> View for Dispatcher<S> {
    type V = DispatcherView<S>;

    closed spec fn view(&self) -> DispatcherView<S> {
        DispatcherView { registry: self.registry@, timeout_id: self.timeout_id }
    }
}

impl<S> Dispatcher<S> {
    pub fn new() -> (d: Self)
        ensures
            d@ == DispatcherView::<S>::fresh(),
            d@.valid(),
    {
        Dispatcher { registry: Registry::new(), timeout_id: 0 }
    }

    /// The number of the timer that counts.
    pub fn timeout_id(&self) -> (id: u128)
        ensures
            id == self@.timeout_id,
    {
        self.timeout_id
    }

    /// Makes a new timer the one that counts, and gives its number.
    fn timeout_checker(&mut self) -> (id: u128)
        requires
            old(self)@.timeout_id < u128::MAX,
        ensures
            final(self)@ == old(self)@.armed(),
            id == final(self)@.timeout_id,
    {
        self.timeout_id = self.timeout_id + 1;
        self.timeout_id
    }

    /// A request that gets one answer.
    pub fn on_req<U>(&mut self, req: Req<S>) -> (fx: Effects<S, U>)
        requires
            old(self)@.valid(),
            old(self)@.timeout_id < u128::MAX,
        ensures
            final(self)@.valid(),
            (final(self)@, fx@) == old(self)@.on_req::<U>(
                req.sender,
                req.channel_id,
                req.data@,
            ),
    {
        let mut fx: Effects<S, U> = Effects::none();
        match self.registry.next_id() {
            None => {
                fx.deconnect = true;
                fx.reply = Some((req.sender, Error::ConnectionReset));
            },
            Some(id) => {
                match pack(&req, id) {
                    Ok(data) => {
                        self.registry.register(req.sender, true);
                        fx.frame = Some((data, None));
                        fx.timer = Some(self.timeout_checker());
                    },
                    Err(e) => {
                        fx.reply = Some((req.sender, e));
                    },
                }
            },
        }
        fx
    }

    /// A request that may get many answers. `announce` hands the requester
    /// the number of its request, and tells whether it was taken.
    pub fn on_req_no_call<M, U, A: FnOnce(M, u32) -> bool>(
        &mut self,
        req: ReqNoCall<S, M>,
        announce: A,
    ) -> (fx: Effects<S, U>)
        requires
            old(self)@.valid(),
            old(self)@.timeout_id < u128::MAX,
            old(self)@.registry.id < u32::MAX ==> call_requires(
                announce,
                (req.msg_id_sender, (old(self)@.registry.id + 1) as u32),
            ),
        ensures
            final(self)@.valid(),
            old(self)@.registry.id == u32::MAX ==> (final(self)@, fx@)
                == old(self)@.on_req_no_call::<U>(req.sender, req.channel_id, req.data@, false),
            old(self)@.registry.id < u32::MAX ==> exists|announced: bool|
                {
                    &&& #[trigger] call_ensures(
                        announce,
                        (req.msg_id_sender, (old(self)@.registry.id + 1) as u32),
                        announced,
                    )
                    &&& (final(self)@, fx@) == old(self)@.on_req_no_call::<U>(
                        req.sender,
                        req.channel_id,
                        req.data@,
                        announced,
                    )
                },
    {
        let mut fx: Effects<S, U> = Effects::none();
        match self.registry.next_id() {
            None => {
                fx.deconnect = true;
                fx.reply = Some((req.sender, Error::ConnectionReset));
            },
            Some(id) => {
                if !announce(req.msg_id_sender, id) {
                    return fx;
                }
                match upload(req.channel_id, req.data.as_slice(), id) {
                    Ok(data) => {
                        self.registry.register(req.sender, false);
                        fx.frame = Some((data, None));
                        fx.timer = Some(self.timeout_checker());
                    },
                    Err(e) => {
                        fx.reply = Some((req.sender, e));
                    },
                }
            },
        }
        fx
    }

    /// The connection is gone.
    pub fn on_deconnect<U>(&mut self) -> (fx: Effects<S, U>)
        requires
            old(self)@.valid(),
        ensures
            final(self)@.valid(),
            (final(self)@, fx@) == old(self)@.on_deconnect::<U>(),
    {
        let mut fx: Effects<S, U> = Effects::none();
        fx.resets = self.registry.close();
        fx
    }

    /// An answer has arrived. `deliver` hands it on to whoever waits for it,
    /// and tells whether it was taken.
    pub fn on_recv<U, D: FnOnce(&S, Result<Vec<u8>, Error>) -> bool>(
        &mut self,
        recv: Recv,
        deliver: D,
    ) -> (fx: Effects<S, U>)
        requires
            old(self)@.valid(),
            old(self)@.timeout_id < u128::MAX,
            old(self)@.registry.regs.contains_key(recv.msg_id) ==> call_requires(
                deliver,
                (&old(self)@.registry.regs[recv.msg_id].0, recv.data),
            ),
        ensures
            final(self)@.valid(),
            !old(self)@.registry.regs.contains_key(recv.msg_id) ==> (final(self)@, fx@)
                == old(self)@.on_recv::<U>(recv.msg_id, false),
            old(self)@.registry.regs.contains_key(recv.msg_id) ==> exists|taken: bool|
                {
                    &&& #[trigger] call_ensures(
                        deliver,
                        (&old(self)@.registry.regs[recv.msg_id].0, recv.data),
                        taken,
                    )
                    &&& (final(self)@, fx@) == old(self)@.on_recv::<U>(recv.msg_id, taken)
                },
    {
        let mut fx: Effects<S, U> = Effects::none();
        self.registry.answer(recv.msg_id, recv.data, deliver);
        fx.timer = Some(self.timeout_checker());
        fx
    }

    /// A timer has run out.
    pub fn on_timeout<U>(&mut self, timeout: Timeout) -> (fx: Effects<S, U>)
        requires
            old(self)@.valid(),
        ensures
            final(self)@.valid(),
            (final(self)@, fx@) == old(self)@.on_timeout::<U>(timeout.timeout_id),
    {
        let mut fx: Effects<S, U> = Effects::none();
        if self.timeout_id == timeout.timeout_id {
            fx.deconnect = true;
        }
        fx
    }

    /// An upload item has to be written.
    pub fn on_uploading<U>(&mut self, uploading: Uploading<U>) -> (fx: Effects<S, U>)
        requires
            old(self)@.valid(),
            old(self)@.timeout_id < u128::MAX,
        ensures
            final(self)@.valid(),
            (final(self)@, fx@) == old(self)@.on_uploading::<U>(
                uploading.upload_ok_tx,
                uploading.data@,
                uploading.msg_id,
            ),
    {
        let mut fx: Effects<S, U> = Effects::none();
        match upload(UPLOAD_CHANNEL, uploading.data.as_slice(), uploading.msg_id) {
            Ok(data) => {
                fx.frame = Some((data, Some(uploading.upload_ok_tx)));
                fx.timer = Some(self.timeout_checker());
            },
            Err(_e) => {},
        }
        fx
    }

    /// The requester no longer wants the answers to `msg_id`.
    pub fn on_end_no_call<U>(&mut self, msg_id: u32) -> (fx: Effects<S, U>)
        requires
            old(self)@.valid(),
        ensures
            final(self)@.valid(),
            (final(self)@, fx@) == old(self)@.on_end::<U>(msg_id),
    {
        let _known = self.registry.remove(msg_id);
        Effects::none()
    }

    /// Carries out one operation of the connection task.
    pub fn step<M, U, A, D>(&mut self, op: Op<S, M, U>, announce: A, deliver: D) -> (fx: Effects<
        S,
        U,
    >) where A: FnOnce(M, u32) -> bool, D: FnOnce(&S, Result<Vec<u8>, Error>) -> bool
        requires
            old(self)@.valid(),
            old(self)@.timeout_id < u128::MAX,
            op matches Op::ReqNoCall(req) ==> old(self)@.registry.id < u32::MAX ==> call_requires(
                announce,
                (req.msg_id_sender, (old(self)@.registry.id + 1) as u32),
            ),
            op matches Op::Recv(recv) ==> old(self)@.registry.regs.contains_key(recv.msg_id)
                ==> call_requires(
                deliver,
                (&old(self)@.registry.regs[recv.msg_id].0, recv.data),
            ),
        ensures
            final(self)@.valid(),
            match op {
                Op::Deconnect => (final(self)@, fx@) == old(self)@.on_deconnect::<U>(),
                Op::Timeout(t) => (final(self)@, fx@) == old(self)@.on_timeout::<U>(t.timeout_id),
                Op::Req(req) => (final(self)@, fx@) == old(self)@.on_req::<U>(
                    req.sender,
                    req.channel_id,
                    req.data@,
                ),
                Op::Uploading(u) => (final(self)@, fx@) == old(self)@.on_uploading::<U>(
                    u.upload_ok_tx,
                    u.data@,
                    u.msg_id,
                ),
                Op::EndNoCall(msg_id) => (final(self)@, fx@) == old(self)@.on_end::<U>(msg_id),
                Op::Recv(recv) => exists|taken: bool|
                    {
                        &&& old(self)@.registry.regs.contains_key(recv.msg_id) ==> call_ensures(
                            deliver,
                            (&old(self)@.registry.regs[recv.msg_id].0, recv.data),
                            taken,
                        )
                        &&& (final(self)@, fx@) == #[trigger] old(self)@.on_recv::<U>(
                            recv.msg_id,
                            taken,
                        )
                    },
                Op::ReqNoCall(req) => exists|announced: bool|
                    {
                        &&& old(self)@.registry.id < u32::MAX ==> call_ensures(
                            announce,
                            (req.msg_id_sender, (old(self)@.registry.id + 1) as u32),
                            announced,
                        )
                        &&& (final(self)@, fx@) == #[trigger] old(self)@.on_req_no_call::<U>(
                            req.sender,
                            req.channel_id,
                            req.data@,
                            announced,
                        )
                    },
            },
    {
        match op {
            Op::Req(req) => self.on_req(req),
            Op::Deconnect => self.on_deconnect(),
            Op::Recv(recv) => self.on_recv(recv, deliver),
            Op::Timeout(timeout) => self.on_timeout(timeout),
            Op::ReqNoCall(req) => self.on_req_no_call(req, announce),
            Op::Uploading(uploading) => self.on_uploading(uploading),
            Op::EndNoCall(msg_id) => self.on_end_no_call(msg_id),
        }
    }
}

// ---------------------------------------------------------------------
// The socket
// ---------------------------------------------------------------------

/// Where the writer of a connection stands.
#[derive(Clone, Copy, Debug, PartialEq, Eq, Structural)]
pub enum Socket {
    /// It tries to connect.
    Connecting,
    /// It is connected, and waits for a frame.
    Taking,
    /// It is connected, and writes a frame.
    Writing,
    /// It pauses before it tries to connect again.
    Pausing,
}

/// What has happened to the writer of a connection.
#[derive(Clone, Copy, Debug, PartialEq, Eq, Structural)]
pub enum SocketEvent {
    /// The attempt to connect is over; tells whether it succeeded.
    Connected(bool),
    /// The wait for a frame is over; tells whether there is one.
    Taken(bool),
    /// The frame has been written, or not.
    Written(bool),
    /// The pause is over.
    Paused,
}

/// What the writer of a connection has to do.
#[derive(Clone, Copy, Debug, PartialEq, Eq, Structural)]
pub enum SocketAction {
    /// Try to connect.
    Connect,
    /// Read answers from the new connection, and wait for a frame.
    Serve,
    /// Write the frame.
    Write,
    /// Let the handle that came with the frame know, if there is one, and
    /// wait for the next frame.
    Acknowledge,
    /// Close the connection, queue a `Deconnect`, and pause.
    GiveUp,
    /// Pause.
    Pause,
}

impl Socket {
    /// There is a connection.
    pub open spec fn connected(self) -> bool {
        self is Taking || self is Writing
    }

    /// The event can happen here.
    pub open spec fn expects(self, event: SocketEvent) -> bool {
        match event {
            SocketEvent::Connected(_) => self is Connecting,
            SocketEvent::Taken(_) => self is Taking,
            SocketEvent::Written(_) => self is Writing,
            SocketEvent::Paused => self is Pausing,
        }
    }

    /// Where the writer stands behind an event, and what it has to do.
    pub open spec fn after(self, event: SocketEvent) -> (Self, SocketAction) {
        match event {
            SocketEvent::Connected(true) => (Socket::Taking, SocketAction::Serve),
            SocketEvent::Connected(false) => (Socket::Pausing, SocketAction::Pause),
            SocketEvent::Taken(true) => (Socket::Writing, SocketAction::Write),
            SocketEvent::Taken(false) => (Socket::Pausing, SocketAction::GiveUp),
            SocketEvent::Written(true) => (Socket::Taking, SocketAction::Acknowledge),
            SocketEvent::Written(false) => (Socket::Pausing, SocketAction::GiveUp),
            SocketEvent::Paused => (Socket::Connecting, SocketAction::Connect),
        }
    }

    /// A writer that has yet to connect.
    pub fn new() -> (res: (Socket, SocketAction))
        ensures
            res == (Socket::Connecting, SocketAction::Connect),
    {
        (Socket::Connecting, SocketAction::Connect)
    }

    /// Handles an event.
    pub fn on_event(self, event: SocketEvent) -> (res: (Socket, SocketAction))
        requires
            self.expects(event),
        ensures
            res == self.after(event),
    {
        match event {
            SocketEvent::Connected(true) => (Socket::Taking, SocketAction::Serve),
            SocketEvent::Connected(false) => (Socket::Pausing, SocketAction::Pause),
            SocketEvent::Taken(true) => (Socket::Writing, SocketAction::Write),
            SocketEvent::Taken(false) => (Socket::Pausing, SocketAction::GiveUp),
            SocketEvent::Written(true) => (Socket::Taking, SocketAction::Acknowledge),
            SocketEvent::Written(false) => (Socket::Pausing, SocketAction::GiveUp),
            SocketEvent::Paused => (Socket::Connecting, SocketAction::Connect),
        }
    }
}

} // verus!
