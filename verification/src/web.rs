//! The client of a browser's WebSocket: how it reads and writes messages, and
//! what its connection task does with each operation.
use vstd::prelude::*;
use vstd::slice::slice_subrange;

use crate::exchange;
use crate::exchange::Begun;
use crate::ops::{Recv, Req, ReqNoCall, Timeout, Uploading};
use crate::registry::{Registry, RegistryView};
use crate::rpc::{Call, Error, Subscribe, Upload};
use crate::wire;
use crate::wire::{ResponseHeader, MAX_PAYLOAD, UPLOAD_CHANNEL};

verus! {

/// From this many bytes waiting in the socket on, writing pauses.
pub const SEND_BUFFER_LIMIT: u32 = 0x4_0000;

/// For how many milliseconds writing pauses before it looks again.
pub const SEND_BUFFER_PAUSE: i32 = 50;

/// Whether the next message may be written while `buffered` bytes wait in the
/// socket.
pub fn may_send(buffered: u32) -> (yes: bool)
    ensures
        yes == (buffered < SEND_BUFFER_LIMIT),
{
    buffered < SEND_BUFFER_LIMIT
}

/// The payload and the number of the answer that a WebSocket message holds.
/// `None` if the message does not hold an answer exactly.
pub open spec fn held_answer(n: Seq<u8>) -> Option<(Seq<u8>, u32)> {
    if n.len() < 12 || n.len() != 12 + wire::word_len(n.subrange(0, 8)) {
        None
    } else {
        Some((n.skip(12), wire::be_value(n.subrange(8, 12)) as u32))
    }
}

/// Takes an answer out of a WebSocket message, which has to hold it exactly:
/// gives its payload and its number.
pub fn read_msg(n: &[u8]) -> (res: Result<(&[u8], u32), Error>)
    ensures
        match res {
            Ok((msg, msg_id)) => held_answer(n@) == Some((msg@, msg_id)),
            Err(e) => e == Error::TransportError && held_answer(n@) is None,
        },
{
    if n.len() < 12 {
        return Err(Error::TransportError);
    }
    let h: [u8; 12] = [
        n[0], n[1], n[2], n[3], n[4], n[5], n[6], n[7], n[8], n[9], n[10], n[11],
    ];
    let header = ResponseHeader::parse(&h);
    proof {
        assert(h@.subrange(0, 8) =~= n@.subrange(0, 8));
        assert(h@.subrange(8, 12) =~= n@.subrange(8, 12));
    }
    if n.len() - 12 != header.len {
        return Err(Error::TransportError);
    }
    let msg = slice_subrange(n, 12, n.len());
    proof {
        assert(msg@ =~= n@.skip(12));
    }
    Ok((msg, header.msg_id))
}

/// `frame` is what is written of the payload `data` for `channel_id` and
/// `msg_id`. Of a payload that is too long nothing is written.
pub open spec fn written(channel_id: u32, msg_id: u32, data: Seq<u8>, frame: Vec<u8>) -> bool {
    data.len() <= MAX_PAYLOAD && frame@ == wire::request_frame(channel_id, msg_id, data)
}

/// `res` is what comes of handing the payload `data`, laid out for
/// `channel_id` and `msg_id`, to `transmit`.
pub open spec fn sent<U, T: FnOnce(Vec<u8>, Option<U>) -> bool>(
    channel_id: u32,
    msg_id: u32,
    data: Seq<u8>,
    on_ok: Option<U>,
    transmit: T,
    res: Result<(), Error>,
) -> bool {
    if data.len() > MAX_PAYLOAD {
        res == Err::<(), Error>(Error::MessageTooBig)
    } else {
        exists|frame: Vec<u8>, taken: bool|
            {
                &&& written(channel_id, msg_id, data, frame)
                &&& #[trigger] call_ensures(transmit, (frame, on_ok), taken)
                &&& res == if taken {
                    Ok::<(), Error>(())
                } else {
                    Err(Error::ConnectionReset)
                }
            }
    }
}

/// Lays a payload out and hands it to the writer by `transmit`, which tells
/// whether it was taken.
pub fn send<U, T: FnOnce(Vec<u8>, Option<U>) -> bool>(
    channel_id: u32,
    msg_id: u32,
    data: Vec<u8>,
    on_ok: Option<U>,
    transmit: T,
) -> (res: Result<(), Error>)
    requires
        forall|frame: Vec<u8>|
            written(channel_id, msg_id, data@, frame) ==> #[trigger] call_requires(
                transmit,
                (frame, on_ok),
            ),
    ensures
        sent(channel_id, msg_id, data@, on_ok, transmit, res),
{
    match wire::encode_request(channel_id, msg_id, data.as_slice()) {
        Err(e) => Err(e),
        Ok(frame) => {
            let ghost written = frame;
            let ghost handle = on_ok;
            let taken = transmit(frame, on_ok);
            proof {
                assert(call_ensures(transmit, (written, handle), taken));
            }
            if taken {
                Ok(())
            } else {
                Err(Error::ConnectionReset)
            }
        },
    }
}

/// Begins a call. A refused one is not queued.
pub fn begin_call<R: Call, Q: FnOnce(u32, Vec<u8>) -> bool>(param: &R, queue: Q) -> (res: Begun<
    R::Return,
>)
    requires
        call_ensures(R::verify, (param,), Ok(())) ==> forall|channel_id: u32, data: Vec<u8>|
            exchange::encoded(param, channel_id, data) ==> #[trigger] call_requires(
                queue,
                (channel_id, data),
            ),
    ensures
        exchange::begun(param, queue, Error::ConnectionDroped, res),
{
    exchange::begin(param, queue, Error::ConnectionDroped)
}

/// Begins a subscription. A refused one is not queued.
pub fn begin_subscribe<R: Subscribe, Q: FnOnce(u32, Vec<u8>) -> bool>(param: &R, queue: Q) -> (res:
    Begun<R::Return>)
    requires
        call_ensures(R::verify, (param,), Ok(())) ==> forall|channel_id: u32, data: Vec<u8>|
            exchange::encoded(param, channel_id, data) ==> #[trigger] call_requires(
                queue,
                (channel_id, data),
            ),
    ensures
        exchange::begun(param, queue, Error::ConnectionDroped, res),
{
    exchange::begin(param, queue, Error::ConnectionDroped)
}

/// Begins an upload. A refused one is not queued.
pub fn begin_upload<R: Upload, Q: FnOnce(u32, Vec<u8>) -> bool>(param: &R, queue: Q) -> (res: Begun<
    R::Return,
>)
    requires
        call_ensures(R::verify, (param,), Ok(())) ==> forall|channel_id: u32, data: Vec<u8>|
            exchange::encoded(param, channel_id, data) ==> #[trigger] call_requires(
                queue,
                (channel_id, data),
            ),
    ensures
        exchange::begun(param, queue, Error::ConnectionDroped, res),
{
    exchange::begin(param, queue, Error::ConnectionDroped)
}

/// Encodes a subscription and has it queued, without checking it: one that is
/// taken up again has been checked.
pub fn subscribe_inner<R: Subscribe, Q: FnOnce(u32, Vec<u8>) -> bool>(param: &R, queue: Q) -> (res:
    Result<(), Error>)
    requires
        forall|channel_id: u32, data: Vec<u8>|
            exchange::encoded(param, channel_id, data) ==> #[trigger] call_requires(
                queue,
                (channel_id, data),
            ),
    ensures
        exchange::requested(param, queue, Error::ConnectionDroped, res),
{
    exchange::request(param, queue, Error::ConnectionDroped)
}

/// What has been delivered to a running upload.
pub enum Early {
    /// Nothing so far.
    Pending,
    /// The requester was forgotten.
    Closed,
    /// The answer, before all items were sent.
    Answer(Result<Vec<u8>, Error>),
}

/// How a running upload goes on.
pub enum ItemStep {
    /// Wait until the item is reported as written, then go on.
    Queued,
    /// Stop: this is the answer.
    Answered(Result<Vec<u8>, Error>),
    /// Stop with this error.
    Failed(Error),
}

/// Handles the next item of an upload: an answer that is there already ends
/// the upload; else the item is encoded and queued.
pub fn upload_item<R: Upload, Q: FnOnce(Vec<u8>) -> bool>(
    early: Early,
    item: &R::UploadStream,
    queue: Q,
) -> (step: ItemStep)
    requires
        early is Pending ==> forall|data: Vec<u8>|
            call_ensures(R::encode_item, (item,), Some(data)) ==> #[trigger] call_requires(
                queue,
                (data,),
            ),
    ensures
        match early {
            Early::Answer(answer) => step == ItemStep::Answered(answer),
            Early::Closed => step == ItemStep::Failed(Error::ConnectionReset),
            Early::Pending => match step {
                ItemStep::Queued => exchange::item_queued::<R, Q>(item, queue, Ok(())),
                ItemStep::Failed(e) => exchange::item_queued::<R, Q>(item, queue, Err(e)),
                ItemStep::Answered(_) => false,
            },
        },
{
    match early {
        Early::Answer(answer) => ItemStep::Answered(answer),
        Early::Closed => ItemStep::Failed(Error::ConnectionReset),
        Early::Pending => {
            let queued = exchange::queue_item::<R, Q>(item, queue);
            match queued {
                Ok(unit) => {
                    proof {
                        assert(queued == Ok::<(), Error>(()));
                    }
                    ItemStep::Queued
                },
                Err(e) => ItemStep::Failed(e),
            }
        },
    }
}

/// Ends an upload: queues the empty item behind the last one.
pub fn upload_end<Q: FnOnce(Vec<u8>) -> bool>(queue: Q) -> (res: Result<(), Error>)
    requires
        forall|data: Vec<u8>|
            data@ == Seq::<u8>::empty() ==> #[trigger] call_requires(queue, (data,)),
    ensures
        exists|data: Vec<u8>, taken: bool|
            {
                &&& data@ == Seq::<u8>::empty()
                &&& #[trigger] call_ensures(queue, (data,), taken)
                &&& res == if taken {
                    Ok::<(), Error>(())
                } else {
                    Err(Error::ConnectionReset)
                }
            },
{
    let data: Vec<u8> = Vec::new();
    let ghost last = data;
    let taken = queue(data);
    proof {
        assert(call_ensures(queue, (last,), taken));
    }
    if taken {
        Ok(())
    } else {
        Err(Error::ConnectionReset)
    }
}

// ---------------------------------------------------------------------
// The connection task
// ---------------------------------------------------------------------

/// What the connection task can be asked to do.
pub enum Op<S, M, U> {
    Req(Req<S>),
    Deconnect,
    Recv(Recv),
    Timeout(Timeout),
    Opened,
    Uploading(Uploading<U>),
    ReqNoCall(ReqNoCall<S, M>),
    EndNoCall(u32),
}

/// What the connection task has to do in answer to an operation, in this
/// order.
pub struct Effects<S> {
    /// Tell these that the connection was reset.
    pub resets: Vec<S>,
    /// Open the socket anew.
    pub reconnect: bool,
    /// Queue a `Deconnect` behind the operations that wait already.
    pub deconnect: bool,
    /// Report that the socket is open for the first time.
    pub opened: bool,
    /// Tell this requester that its request failed.
    pub reply: Option<(S, Error)>,
    /// Start a timer that will ask for a `Timeout` with this number.
    pub timer: Option<u128>,
}

/// The value of an `Effects`.
pub struct EffectsView<S> {
    pub resets: Seq<S>,
    pub reconnect: bool,
    pub deconnect: bool,
    pub opened: bool,
    pub reply: Option<(S, Error)>,
    pub timer: Option<u128>,
}

impl<S> View for Effects<S> {
    type V = EffectsView<S>;

    open spec fn view(&self) -> EffectsView<S> {
        EffectsView {
            resets: self.resets@,
            reconnect: self.reconnect,
            deconnect: self.deconnect,
            opened: self.opened,
            reply: self.reply,
            timer: self.timer,
        }
    }
}

impl<S> EffectsView<S> {
    /// Nothing to do.
    pub open spec fn none() -> Self {
        EffectsView {
            resets: Seq::empty(),
            reconnect: false,
            deconnect: false,
            opened: false,
            reply: None,
            timer: None,
        }
    }

    /// Start timer `timer`.
    pub open spec fn arm(timer: u128) -> Self {
        EffectsView { timer: Some(timer), ..Self::none() }
    }

    /// Tell `sender` that its request failed.
    pub open spec fn refuse(sender: S, e: Error) -> Self {
        EffectsView { reply: Some((sender, e)), ..Self::none() }
    }
}

impl<S> Effects<S> {
    fn none() -> (fx: Self)
        ensures
            fx@ == EffectsView::<S>::none(),
    {
        let fx: Self = Effects {
            resets: Vec::new(),
            reconnect: false,
            deconnect: false,
            opened: false,
            reply: None,
            timer: None,
        };
        proof {
            assert(fx@.resets =~= Seq::<S>::empty());
        }
        fx
    }
}

/// The state of a connection task, as a value: the requesters that wait, the
/// number of the timer that counts, and whether the socket has never been
/// open.
pub struct DispatcherView<S> {
    pub registry: RegistryView<S>,
    pub timeout_id: u128,
    pub never_open: bool,
}

impl<S> DispatcherView<S> {
    pub open spec fn fresh() -> Self {
        DispatcherView { registry: RegistryView::fresh(), timeout_id: 0, never_open: true }
    }

    pub open spec fn valid(self) -> bool {
        self.registry.valid()
    }

    /// With another timer: from now on only the timer `timeout_id + 1` counts.
    pub open spec fn armed(self) -> Self {
        DispatcherView { timeout_id: (self.timeout_id + 1) as u128, ..self }
    }

    /// With other requesters waiting.
    pub open spec fn with(self, registry: RegistryView<S>) -> Self {
        DispatcherView { registry, ..self }
    }

    /// All numbers have been given out: the socket is opened anew and the
    /// connection given up; the requester is dropped.
    pub open spec fn on_overflow(self) -> (Self, EffectsView<S>) {
        (self, EffectsView { reconnect: true, deconnect: true, ..EffectsView::none() })
    }

    /// A request that gets one answer. It uses up a number and a timer.
    /// `sent` is what came of writing it under that number; if it was
    /// written, the requester waits under the number.
    pub open spec fn on_req(self, sender: S, sent: Result<(), Error>) -> (Self, EffectsView<S>) {
        let numbered = self.registry.advanced();
        let timer = self.armed().timeout_id;
        match sent {
            Ok(_) => (
                self.with(numbered.with(sender, true)).armed(),
                EffectsView::arm(timer),
            ),
            Err(e) => (
                self.with(numbered).armed(),
                EffectsView { reply: Some((sender, e)), ..EffectsView::arm(timer) },
            ),
        }
    }

    /// A request that may get many answers and whose number the requester
    /// took. It uses up a number; if it was written, also a timer, and the
    /// requester waits under the number.
    pub open spec fn on_req_no_call(self, sender: S, sent: Result<(), Error>) -> (
        Self,
        EffectsView<S>,
    ) {
        let numbered = self.registry.advanced();
        match sent {
            Ok(_) => (
                self.with(numbered.with(sender, false)).armed(),
                EffectsView::arm(self.armed().timeout_id),
            ),
            Err(e) => (self.with(numbered), EffectsView::refuse(sender, e)),
        }
    }

    /// A request that may get many answers and whose number the requester
    /// did not take: only the number is used up.
    pub open spec fn on_abandoned(self) -> (Self, EffectsView<S>) {
        (self.with(self.registry.advanced()), EffectsView::none())
    }

    /// The connection is gone: everybody who waits is told so, numbering
    /// starts over, and the socket is opened anew.
    pub open spec fn on_deconnect(self) -> (Self, EffectsView<S>) {
        (
            self.with(RegistryView::fresh()),
            EffectsView {
                resets: self.registry.all_waiting(),
                reconnect: true,
                ..EffectsView::none()
            },
        )
    }

    /// An answer has arrived. `taken` tells whether whoever waits under
    /// `msg_id` took it.
    pub open spec fn on_recv(self, msg_id: u32, taken: bool) -> (Self, EffectsView<S>) {
        (
            self.with(self.registry.answered(msg_id, taken)).armed(),
            EffectsView::arm(self.armed().timeout_id),
        )
    }

    /// A timer has run out: the connection is given up if it is the one that
    /// counts.
    pub open spec fn on_timeout(self, timeout_id: u128) -> (Self, EffectsView<S>) {
        (
            self,
            EffectsView { deconnect: self.timeout_id == timeout_id, ..EffectsView::none() },
        )
    }

    /// The socket is open: the first time this is reported.
    pub open spec fn on_opened(self) -> (Self, EffectsView<S>) {
        (
            DispatcherView { never_open: false, ..self.armed() },
            EffectsView {
                opened: self.never_open,
                ..EffectsView::arm(self.armed().timeout_id)
            },
        )
    }

    /// An upload item. `sent` is what came of writing it.
    pub open spec fn on_uploading(self, sent: Result<(), Error>) -> (Self, EffectsView<S>) {
        match sent {
            Ok(_) => (self.armed(), EffectsView::arm(self.armed().timeout_id)),
            Err(_) => (self, EffectsView::none()),
        }
    }

    /// The requester no longer wants the answers to `msg_id`.
    pub open spec fn on_end(self, msg_id: u32) -> (Self, EffectsView<S>) {
        (self.with(self.registry.without(msg_id)), EffectsView::none())
    }
}

/// The state of a connection task.
pub struct Dispatcher<S> {
    registry: Registry<S>,
    timeout_id: u128,
    never_open: bool,
}

impl<S> View for Dispatcher<S> {
    type V = DispatcherView<S>;

    closed spec fn view(&self) -> DispatcherView<S> {
        DispatcherView {
            registry: self.registry@,
            timeout_id: self.timeout_id,
            never_open: self.never_open,
        }
    }
}

impl<S> Dispatcher<S> {
    pub fn new() -> (d: Self)
        ensures
            d@ == DispatcherView::<S>::fresh(),
            d@.valid(),
    {
        Dispatcher { registry: Registry::new(), timeout_id: 0, never_open: true }
    }

    /// The number of the timer that counts.
    pub fn timeout_id(&self) -> (id: u128)
        ensures
            id == self@.timeout_id,
    {
        self.timeout_id
    }

    /// Makes a new timer the one that counts, and gives its number.
    fn timeout_checker(&mut self) -> (id: u128)
        requires
            old(self)@.timeout_id < u128::MAX,
        ensures
            final(self)@ == old(self)@.armed(),
            id == final(self)@.timeout_id,
    {
        self.timeout_id = self.timeout_id + 1;
        self.timeout_id
    }

    /// A request that gets one answer.
    pub fn on_req<U, T: FnOnce(Vec<u8>, Option<U>) -> bool>(&mut self, req: Req<S>, transmit: T) -> (
    fx: Effects<S>)
        requires
            old(self)@.valid(),
            old(self)@.timeout_id < u128::MAX,
            old(self)@.registry.id < u32::MAX ==> forall|frame: Vec<u8>|
                written(
                    req.channel_id,
                    (old(self)@.registry.id + 1) as u32,
                    req.data@,
                    frame,
                ) ==> #[trigger] call_requires(transmit, (frame, None)),
        ensures
            final(self)@.valid(),
            old(self)@.registry.id == u32::MAX ==> (final(self)@, fx@) == old(self)@.on_overflow(),
            old(self)@.registry.id < u32::MAX ==> exists|res: Result<(), Error>|
                {
                    &&& sent(
                        req.channel_id,
                        (old(self)@.registry.id + 1) as u32,
                        req.data@,
                        None,
                        transmit,
                        res,
                    )
                    &&& (final(self)@, fx@) == #[trigger] old(self)@.on_req(req.sender, res)
                },
    {
        let mut fx: Effects<S> = Effects::none();
        match self.registry.next_id() {
            None => {
                fx.reconnect = true;
                fx.deconnect = true;
            },
            Some(id) => {
                let res = send(req.channel_id, id, req.data, None, transmit);
                let ghost outcome = res;
                match res {
                    Ok(_) => {
                        self.registry.register(req.sender, true);
                    },
                    Err(e) => {
                        fx.reply = Some((req.sender, e));
                    },
                }
                fx.timer = Some(self.timeout_checker());
                proof {
                    assert((self@, fx@) == old(self)@.on_req(req.sender, outcome));
                }
            },
        }
        fx
    }

    /// A request that may get many answers. `announce` hands the requester
    /// the number of its request, and tells whether it was taken.
    pub fn on_req_no_call<M, U, A, T>(
        &mut self,
        req: ReqNoCall<S, M>,
        announce: A,
        transmit: T,
    ) -> (fx: Effects<S>) where
        A: FnOnce(M, u32) -> bool,
        T: FnOnce(Vec<u8>, Option<U>) -> bool,

        requires
            old(self)@.valid(),
            old(self)@.timeout_id < u128::MAX,
            old(self)@.registry.id < u32::MAX ==> {
                let id = (old(self)@.registry.id + 1) as u32;
                &&& call_requires(announce, (req.msg_id_sender, id))
                &&& call_ensures(announce, (req.msg_id_sender, id), true) ==> forall|frame: Vec<u8>|
                    written(req.channel_id, id, req.data@, frame) ==> #[trigger] call_requires(
                        transmit,
                        (frame, None),
                    )
            },
        ensures
            final(self)@.valid(),
            old(self)@.registry.id == u32::MAX ==> (final(self)@, fx@) == old(self)@.on_overflow(),
            old(self)@.registry.id < u32::MAX ==> {
                let id = (old(self)@.registry.id + 1) as u32;
                ||| {
                    &&& call_ensures(announce, (req.msg_id_sender, id), false)
                    &&& (final(self)@, fx@) == old(self)@.on_abandoned()
                }
                ||| exists|res: Result<(), Error>|
                    {
                        &&& call_ensures(announce, (req.msg_id_sender, id), true)
                        &&& sent(req.channel_id, id, req.data@, None, transmit, res)
                        &&& (final(self)@, fx@) == #[trigger] old(self)@.on_req_no_call(
                            req.sender,
                            res,
                        )
                    }
            },
    {
        let mut fx: Effects<S> = Effects::none();
        match self.registry.next_id() {
            None => {
                fx.reconnect = true;
                fx.deconnect = true;
            },
            Some(id) => {
                if !announce(req.msg_id_sender, id) {
                    return fx;
                }
                let res = send(req.channel_id, id, req.data, None, transmit);
                let ghost outcome = res;
                match res {
                    Ok(_) => {
                        self.registry.register(req.sender, false);
                        fx.timer = Some(self.timeout_checker());
                    },
                    Err(e) => {
                        fx.reply = Some((req.sender, e));
                    },
                }
                proof {
                    assert((self@, fx@) == old(self)@.on_req_no_call(req.sender, outcome));
                }
            },
        }
        fx
    }

    /// The connection is gone.
    pub fn on_deconnect(&mut self) -> (fx: Effects<S>)
        requires
            old(self)@.valid(),
        ensures
            final(self)@.valid(),
            (final(self)@, fx@) == old(self)@.on_deconnect(),
    {
        let mut fx: Effects<S> = Effects::none();
        fx.resets = self.registry.close();
        fx.reconnect = true;
        fx
    }

    /// An answer has arrived. `deliver` hands it on to whoever waits for it,
    /// and tells whether it was taken.
    pub fn on_recv<D: FnOnce(&S, Result<Vec<u8>, Error>) -> bool>(
        &mut self,
        recv: Recv,
        deliver: D,
    ) -> (fx: Effects<S>)
        requires
            old(self)@.valid(),
            old(self)@.timeout_id < u128::MAX,
            old(self)@.registry.regs.contains_key(recv.msg_id) ==> call_requires(
                deliver,
                (&old(self)@.registry.regs[recv.msg_id].0, recv.data),
            ),
        ensures
            final(self)@.valid(),
            exists|taken: bool|
                {
                    &&& old(self)@.registry.regs.contains_key(recv.msg_id) ==> call_ensures(
                        deliver,
                        (&old(self)@.registry.regs[recv.msg_id].0, recv.data),
                        taken,
                    )
                    &&& (final(self)@, fx@) == #[trigger] old(self)@.on_recv(recv.msg_id, taken)
                },
    {
        let mut fx: Effects<S> = Effects::none();
        self.registry.answer(recv.msg_id, recv.data, deliver);
        let ghost answered = self@.registry;
        fx.timer = Some(self.timeout_checker());
        proof {
            let before = old(self)@.registry;
            if before.regs.contains_key(recv.msg_id) {
                let taken = choose|taken: bool|
                    {
                        &&& #[trigger] call_ensures(
                            deliver,
                            (&before.regs[recv.msg_id].0, recv.data),
                            taken,
                        )
                        &&& answered == before.answered(recv.msg_id, taken)
                    };
                assert((self@, fx@) == old(self)@.on_recv(recv.msg_id, taken));
            } else {
                assert((self@, fx@) == old(self)@.on_recv(recv.msg_id, true));
            }
        }
        fx
    }

    /// A timer has run out.
    pub fn on_timeout(&mut self, timeout: Timeout) -> (fx: Effects<S>)
        requires
            old(self)@.valid(),
        ensures
            final(self)@.valid(),
            (final(self)@, fx@) == old(self)@.on_timeout(timeout.timeout_id),
    {
        let mut fx: Effects<S> = Effects::none();
        if self.timeout_id == timeout.timeout_id {
            fx.deconnect = true;
        }
        fx
    }

    /// The socket is open.
    pub fn on_opened(&mut self) -> (fx: Effects<S>)
        requires
            old(self)@.valid(),
            old(self)@.timeout_id < u128::MAX,
        ensures
            final(self)@.valid(),
            (final(self)@, fx@) == old(self)@.on_opened(),
    {
        let mut fx: Effects<S> = Effects::none();
        if self.never_open {
            fx.opened = true;
        }
        self.never_open = false;
        fx.timer = Some(self.timeout_checker());
        fx
    }

    /// An upload item has to be written.
    pub fn on_uploading<U, T: FnOnce(Vec<u8>, Option<U>) -> bool>(
        &mut self,
        uploading: Uploading<U>,
        transmit: T,
    ) -> (fx: Effects<S>)
        requires
            old(self)@.valid(),
            old(self)@.timeout_id < u128::MAX,
            forall|frame: Vec<u8>|
                written(UPLOAD_CHANNEL, uploading.msg_id, uploading.data@, frame)
                    ==> #[trigger] call_requires(
                    transmit,
                    (frame, Some(uploading.upload_ok_tx)),
                ),
        ensures
            final(self)@.valid(),
            exists|res: Result<(), Error>|
                {
                    &&& sent(
                        UPLOAD_CHANNEL,
                        uploading.msg_id,
                        uploading.data@,
                        Some(uploading.upload_ok_tx),
                        transmit,
                        res,
                    )
                    &&& (final(self)@, fx@) == #[trigger] old(self)@.on_uploading(res)
                },
    {
        let mut fx: Effects<S> = Effects::none();
        let res = send(
            UPLOAD_CHANNEL,
            uploading.msg_id,
            uploading.data,
            Some(uploading.upload_ok_tx),
            transmit,
        );
        let ghost outcome = res;
        match res {
            Ok(_) => {
                fx.timer = Some(self.timeout_checker());
            },
            Err(_e) => {},
        }
        proof {
            assert((self@, fx@) == old(self)@.on_uploading(outcome));
        }
        fx
    }

    /// The requester no longer wants the answers to `msg_id`.
    pub fn on_end_no_call(&mut self, msg_id: u32) -> (fx: Effects<S>)
        requires
            old(self)@.valid(),
        ensures
            final(self)@.valid(),
            (final(self)@, fx@) == old(self)@.on_end(msg_id),
    {
        let _known = self.registry.remove(msg_id);
        Effects::none()
    }

    /// Carries out one operation of the connection task.
    pub fn step<M, U, A, D, T>(
        &mut self,
        op: Op<S, M, U>,
        announce: A,
        deliver: D,
        transmit: T,
    ) -> (fx: Effects<S>) where
        A: FnOnce(M, u32) -> bool,
        D: FnOnce(&S, Result<Vec<u8>, Error>) -> bool,
        T: FnOnce(Vec<u8>, Option<U>) -> bool,

        requires
            old(self)@.valid(),
            old(self)@.timeout_id < u128::MAX,
            op matches Op::Req(req) ==> old(self)@.registry.id < u32::MAX ==> forall|frame: Vec<u8>|
                written(
                    req.channel_id,
                    (old(self)@.registry.id + 1) as u32,
                    req.data@,
                    frame,
                ) ==> #[trigger] call_requires(transmit, (frame, None)),
            op matches Op::ReqNoCall(req) ==> old(self)@.registry.id < u32::MAX ==> {
                let id = (old(self)@.registry.id + 1) as u32;
                &&& call_requires(announce, (req.msg_id_sender, id))
                &&& call_ensures(announce, (req.msg_id_sender, id), true) ==> forall|frame: Vec<u8>|
                    written(req.channel_id, id, req.data@, frame) ==> #[trigger] call_requires(
                        transmit,
                        (frame, None),
                    )
            },
            op matches Op::Recv(recv) ==> old(self)@.registry.regs.contains_key(recv.msg_id)
                ==> call_requires(
                deliver,
                (&old(self)@.registry.regs[recv.msg_id].0, recv.data),
            ),
            op matches Op::Uploading(u) ==> forall|frame: Vec<u8>|
                written(UPLOAD_CHANNEL, u.msg_id, u.data@, frame) ==> #[trigger] call_requires(
                    transmit,
                    (frame, Some(u.upload_ok_tx)),
                ),
        ensures
            final(self)@.valid(),
            match op {
                Op::Deconnect => (final(self)@, fx@) == old(self)@.on_deconnect(),
                Op::Timeout(t) => (final(self)@, fx@) == old(self)@.on_timeout(t.timeout_id),
                Op::Opened => (final(self)@, fx@) == old(self)@.on_opened(),
                Op::EndNoCall(msg_id) => (final(self)@, fx@) == old(self)@.on_end(msg_id),
                Op::Recv(recv) => exists|taken: bool|
                    {
                        &&& old(self)@.registry.regs.contains_key(recv.msg_id) ==> call_ensures(
                            deliver,
                            (&old(self)@.registry.regs[recv.msg_id].0, recv.data),
                            taken,
                        )
                        &&& (final(self)@, fx@) == #[trigger] old(self)@.on_recv(
                            recv.msg_id,
                            taken,
                        )
                    },
                Op::Uploading(u) => exists|res: Result<(), Error>|
                    {
                        &&& sent(
                            UPLOAD_CHANNEL,
                            u.msg_id,
                            u.data@,
                            Some(u.upload_ok_tx),
                            transmit,
                            res,
                        )
                        &&& (final(self)@, fx@) == #[trigger] old(self)@.on_uploading(res)
                    },
                Op::Req(req) => if old(self)@.registry.id == u32::MAX {
                    (final(self)@, fx@) == old(self)@.on_overflow()
                } else {
                    exists|res: Result<(), Error>|
                        {
                            &&& sent(
                                req.channel_id,
                                (old(self)@.registry.id + 1) as u32,
                                req.data@,
                                None,
                                transmit,
                                res,
                            )
                            &&& (final(self)@, fx@) == #[trigger] old(self)@.on_req(
                                req.sender,
                                res,
                            )
                        }
                },
                Op::ReqNoCall(req) => if old(self)@.registry.id == u32::MAX {
                    (final(self)@, fx@) == old(self)@.on_overflow()
                } else {
                    let id = (old(self)@.registry.id + 1) as u32;
                    ||| {
                        &&& call_ensures(announce, (req.msg_id_sender, id), false)
                        &&& (final(self)@, fx@) == old(self)@.on_abandoned()
                    }
                    ||| exists|res: Result<(), Error>|
                        {
                            &&& call_ensures(announce, (req.msg_id_sender, id), true)
                            &&& sent(req.channel_id, id, req.data@, None, transmit, res)
                            &&& (final(self)@, fx@) == #[trigger] old(self)@.on_req_no_call(
                                req.sender,
                                res,
                            )
                        }
                },
            },
    {
        match op {
            Op::Deconnect => self.on_deconnect(),
            Op::Recv(recv) => self.on_recv(recv, deliver),
            Op::Timeout(timeout) => self.on_timeout(timeout),
            Op::Req(req) => self.on_req(req, transmit),
            Op::Opened => self.on_opened(),
            Op::ReqNoCall(req) => self.on_req_no_call(req, announce, transmit),
            Op::Uploading(uploading) => self.on_uploading(uploading, transmit),
            Op::EndNoCall(msg_id) => self.on_end_no_call(msg_id),
        }
    }
}

} // verus!
