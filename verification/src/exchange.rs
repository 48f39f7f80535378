//! The steps of an exchange on a connection that carries many: how a request
//! is checked, encoded and queued, and what becomes of the answers.
//!
//! The closures that the functions take do what only the surrounding task can
//! do, such as putting an operation on a queue; they tell whether it worked.
//! What a function asks of a closure in its `requires` is all that the closure
//! can be called with.
use vstd::prelude::*;

use crate::rpc::{Error, Subscribe, Upload, Verify, RPC};

verus! {

/// The request `param` is sent to the channel `channel_id` with the payload
/// `data`.
pub open spec fn encoded<R: RPC>(param: &R, channel_id: u32, data: Vec<u8>) -> bool {
    &&& call_ensures(R::encode, (param,), Some(data))
    &&& call_ensures(R::rpc_channel, (), channel_id)
}

/// `res` is what comes of asking `queue` to take the request `param`: an
/// error if the request cannot be encoded, the error `lost` if it was not
/// taken.
pub open spec fn requested<R: RPC, Q: FnOnce(u32, Vec<u8>) -> bool>(
    param: &R,
    queue: Q,
    lost: Error,
    res: Result<(), Error>,
) -> bool {
    ||| {
        &&& call_ensures(R::encode, (param,), None)
        &&& res == Err::<(), Error>(Error::SerializeFaild)
    }
    ||| exists|channel_id: u32, data: Vec<u8>, taken: bool|
        {
            &&& encoded(param, channel_id, data)
            &&& #[trigger] call_ensures(queue, (channel_id, data), taken)
            &&& res == if taken {
                Ok::<(), Error>(())
            } else {
                Err(lost)
            }
        }
}

/// Encodes a request and has it queued for its channel. Fails with `lost` if
/// the queue does not take it. A request that cannot be encoded is not queued.
pub fn request<R: RPC, Q: FnOnce(u32, Vec<u8>) -> bool>(param: &R, queue: Q, lost: Error) -> (res:
    Result<(), Error>)
    requires
        forall|channel_id: u32, data: Vec<u8>|
            encoded(param, channel_id, data) ==> #[trigger] call_requires(
                queue,
                (channel_id, data),
            ),
    ensures
        requested(param, queue, lost, res),
        match res {
            Ok(_) => exists|channel_id: u32, data: Vec<u8>|
                {
                    &&& call_ensures(R::encode, (param,), Some(data))
                    &&& call_ensures(R::rpc_channel, (), channel_id)
                    &&& #[trigger] call_ensures(queue, (channel_id, data), true)
                },
            Err(e) => {
                ||| e == Error::SerializeFaild && call_ensures(R::encode, (param,), None)
                ||| e == lost && exists|channel_id: u32, data: Vec<u8>|
                    {
                        &&& call_ensures(R::encode, (param,), Some(data))
                        &&& call_ensures(R::rpc_channel, (), channel_id)
                        &&& #[trigger] call_ensures(queue, (channel_id, data), false)
                    }
            },
        },
{
    match param.encode() {
        None => Err(Error::SerializeFaild),
        Some(data) => {
            let channel_id = R::rpc_channel();
            let ghost sent = data;
            let taken = queue(channel_id, data);
            proof {
                assert(call_ensures(queue, (channel_id, sent), taken));
            }
            if taken {
                Ok(())
            } else {
                Err(lost)
            }
        },
    }
}

/// How far an exchange got before the first answer.
pub enum Begun<T> {
    /// It is over, with this outcome.
    Over(Result<T, Error>),
    /// The request is queued.
    Queued,
}

/// `res` is what comes of beginning an exchange for `param`: a request that
/// is refused is answered with what the refusal gives, and any other is
/// queued.
pub open spec fn begun<R: Verify, Q: FnOnce(u32, Vec<u8>) -> bool>(
    param: &R,
    queue: Q,
    lost: Error,
    res: Begun<R::Return>,
) -> bool {
    match res {
        Begun::Over(Ok(ret)) => call_ensures(R::verify, (param,), Err(ret)),
        Begun::Over(Err(e)) => {
            &&& call_ensures(R::verify, (param,), Ok(()))
            &&& requested(param, queue, lost, Err(e))
        },
        Begun::Queued => {
            &&& call_ensures(R::verify, (param,), Ok(()))
            &&& requested(param, queue, lost, Ok(()))
        },
    }
}

/// Begins an exchange. A request that is refused is answered with what the
/// refusal gives, and nothing is queued.
pub fn begin<R: Verify, Q: FnOnce(u32, Vec<u8>) -> bool>(param: &R, queue: Q, lost: Error) -> (res:
    Begun<R::Return>)
    requires
        call_ensures(R::verify, (param,), Ok(())) ==> forall|channel_id: u32, data: Vec<u8>|
            encoded(param, channel_id, data) ==> #[trigger] call_requires(
                queue,
                (channel_id, data),
            ),
    ensures
        begun(param, queue, lost, res),
{
    let verdict = param.verify();
    match verdict {
        Err(ret) => Begun::Over(Ok(ret)),
        Ok(unit) => {
            proof {
                assert(verdict == Ok::<(), R::Return>(()));
            }
            let queued = request(param, queue, lost);
            match queued {
                Err(e) => Begun::Over(Err(e)),
                Ok(none) => {
                    proof {
                        assert(queued == Ok::<(), Error>(()));
                    }
                    Begun::Queued
                },
            }
        },
    }
}

/// `res` is what the payload of an answer to an `R` is decoded to.
pub open spec fn decoded_return<R: RPC>(bytes: Seq<u8>, res: Result<R::Return, Error>) -> bool {
    exists|b: &[u8], r: Option<R::Return>|
        {
            &&& b@ == bytes
            &&& #[trigger] call_ensures(R::decode_return, (b,), r)
            &&& match r {
                Some(ret) => res == Ok::<R::Return, Error>(ret),
                None => res == Err::<R::Return, Error>(Error::DeserializeFaild),
            }
        }
}

/// Decodes the payload of an answer.
pub fn decode_return<R: RPC>(bytes: &[u8]) -> (res: Result<R::Return, Error>)
    ensures
        decoded_return::<R>(bytes@, res),
        match res {
            Ok(ret) => call_ensures(R::decode_return, (bytes,), Some(ret)),
            Err(e) => e == Error::DeserializeFaild && call_ensures(
                R::decode_return,
                (bytes,),
                None,
            ),
        },
{
    let r = R::decode_return(bytes);
    proof {
        assert(call_ensures(R::decode_return, (bytes,), r));
    }
    match r {
        Some(ret) => Ok(ret),
        None => Err(Error::DeserializeFaild),
    }
}

/// The outcome of an exchange with a single answer, from what was delivered
/// as the answer. `None` stands for a requester that was forgotten.
pub fn finish<R: RPC>(answer: Option<Result<Vec<u8>, Error>>) -> (res: Result<R::Return, Error>)
    ensures
        match answer {
            None => res == Err::<R::Return, Error>(Error::ConnectionReset),
            Some(Err(e)) => res == Err::<R::Return, Error>(e),
            Some(Ok(bytes)) => decoded_return::<R>(bytes@, res),
        },
{
    match answer {
        None => Err(Error::ConnectionReset),
        Some(Err(e)) => Err(e),
        Some(Ok(bytes)) => decode_return::<R>(bytes.as_slice()),
    }
}

/// The number that a request was given. `None` stands for a request that was
/// dropped before it was given one.
pub fn request_number(msg_id: Option<u32>) -> (res: Result<u32, Error>)
    ensures
        res == match msg_id {
            Some(id) => Ok::<u32, Error>(id),
            None => Err(Error::ConnectionReset),
        },
{
    match msg_id {
        Some(id) => Ok(id),
        None => Err(Error::ConnectionReset),
    }
}

// ---------------------------------------------------------------------
// Subscriptions
// ---------------------------------------------------------------------

/// What a subscription does next.
#[derive(Clone, Copy, Debug, PartialEq, Eq, Structural)]
pub enum Next {
    /// Wait for the next answer.
    Continue,
    /// Stop.
    Stop,
    /// Stop, and have the request forgotten.
    EndRequest,
    /// Wait a while, then request again until that succeeds.
    Resubscribe,
}

/// `item` is what a subscriber is handed for what was delivered. `None` stands
/// for a requester that was forgotten, for which there is nothing to hand on.
pub open spec fn handed<R: RPC>(
    msg: Option<Result<Vec<u8>, Error>>,
    item: Result<R::Return, Error>,
) -> bool {
    match msg {
        None => false,
        Some(Err(e)) => item == Err::<R::Return, Error>(e),
        Some(Ok(bytes)) => decoded_return::<R>(bytes@, item),
    }
}

/// What a subscription does next, from what was delivered and whether the
/// subscriber took what it was handed.
pub open spec fn next_of(msg: Option<Result<Vec<u8>, Error>>, taken: bool) -> Next {
    match msg {
        None => Next::Resubscribe,
        Some(Err(_)) => if taken {
            Next::Continue
        } else {
            Next::EndRequest
        },
        Some(Ok(_)) => if taken {
            Next::Continue
        } else {
            Next::Stop
        },
    }
}

/// Handles what was delivered to a subscription. `forward` hands an item on to
/// the subscriber, and tells whether it was taken.
pub fn on_subscription<R: Subscribe, F: FnOnce(Result<R::Return, Error>) -> bool>(
    msg: Option<Result<Vec<u8>, Error>>,
    forward: F,
) -> (next: Next)
    requires
        forall|item: Result<R::Return, Error>|
            handed::<R>(msg, item) ==> #[trigger] call_requires(forward, (item,)),
    ensures
        match msg {
            None => next == Next::Resubscribe,
            Some(_) => exists|item: Result<R::Return, Error>, taken: bool|
                {
                    &&& handed::<R>(msg, item)
                    &&& #[trigger] call_ensures(forward, (item,), taken)
                    &&& next == next_of(msg, taken)
                },
        },
{
    match msg {
        None => Next::Resubscribe,
        Some(Err(e)) => {
            let item: Result<R::Return, Error> = Err(e);
            let ghost forwarded = item;
            let taken = forward(item);
            proof {
                assert(call_ensures(forward, (forwarded,), taken));
            }
            if taken {
                Next::Continue
            } else {
                Next::EndRequest
            }
        },
        Some(Ok(bytes)) => {
            let item = decode_return::<R>(bytes.as_slice());
            let ghost forwarded = item;
            let taken = forward(item);
            proof {
                assert(call_ensures(forward, (forwarded,), taken));
            }
            if taken {
                Next::Continue
            } else {
                Next::Stop
            }
        },
    }
}

/// Where a subscription stands.
#[derive(Clone, Copy, Debug, PartialEq, Eq, Structural)]
pub enum Subscription {
    /// It waits for the next answer.
    Listening,
    /// It pauses before it requests again.
    Pausing,
    /// It requests again.
    Requesting,
    /// It is over.
    Over,
}

/// What has happened to a subscription.
#[derive(Clone, Copy, Debug, PartialEq, Eq, Structural)]
pub enum SubscriptionEvent {
    /// Something was delivered; this is to be done about it.
    Delivered(Next),
    /// The pause is over.
    Paused,
    /// The new request is made; tells whether that succeeded.
    Requested(bool),
}

/// What a subscription has to do.
#[derive(Clone, Copy, Debug, PartialEq, Eq, Structural)]
pub enum SubscriptionAction {
    /// Wait for the next answer.
    Listen,
    /// Pause.
    Pause,
    /// Request again.
    Request,
    /// Have the request forgotten, and stop.
    EndRequest,
    /// Stop.
    Stop,
}

impl Subscription {
    /// The event can happen here.
    pub open spec fn expects(self, event: SubscriptionEvent) -> bool {
        match event {
            SubscriptionEvent::Delivered(_) => self is Listening,
            SubscriptionEvent::Paused => self is Pausing,
            SubscriptionEvent::Requested(_) => self is Requesting,
        }
    }

    /// Where the subscription stands behind an event, and what it has to do.
    /// Once its requester is forgotten, it requests again, with a pause before
    /// each attempt, until that succeeds.
    pub open spec fn after(self, event: SubscriptionEvent) -> (Self, SubscriptionAction) {
        match event {
            SubscriptionEvent::Delivered(Next::Continue) => (
                Subscription::Listening,
                SubscriptionAction::Listen,
            ),
            SubscriptionEvent::Delivered(Next::Stop) => (
                Subscription::Over,
                SubscriptionAction::Stop,
            ),
            SubscriptionEvent::Delivered(Next::EndRequest) => (
                Subscription::Over,
                SubscriptionAction::EndRequest,
            ),
            SubscriptionEvent::Delivered(Next::Resubscribe) => (
                Subscription::Pausing,
                SubscriptionAction::Pause,
            ),
            SubscriptionEvent::Paused => (Subscription::Requesting, SubscriptionAction::Request),
            SubscriptionEvent::Requested(true) => (
                Subscription::Listening,
                SubscriptionAction::Listen,
            ),
            SubscriptionEvent::Requested(false) => (
                Subscription::Pausing,
                SubscriptionAction::Pause,
            ),
        }
    }

    /// A subscription whose request has been made.
    pub fn new() -> (res: (Subscription, SubscriptionAction))
        ensures
            res == (Subscription::Listening, SubscriptionAction::Listen),
    {
        (Subscription::Listening, SubscriptionAction::Listen)
    }

    /// Handles an event.
    pub fn on_event(self, event: SubscriptionEvent) -> (res: (Subscription, SubscriptionAction))
        requires
            self.expects(event),
        ensures
            res == self.after(event),
    {
        match event {
            SubscriptionEvent::Delivered(next) => match next {
                Next::Continue => (Subscription::Listening, SubscriptionAction::Listen),
                Next::Stop => (Subscription::Over, SubscriptionAction::Stop),
                Next::EndRequest => (Subscription::Over, SubscriptionAction::EndRequest),
                Next::Resubscribe => (Subscription::Pausing, SubscriptionAction::Pause),
            },
            SubscriptionEvent::Paused => (Subscription::Requesting, SubscriptionAction::Request),
            SubscriptionEvent::Requested(succeeded) => if succeeded {
                (Subscription::Listening, SubscriptionAction::Listen)
            } else {
                (Subscription::Pausing, SubscriptionAction::Pause)
            },
        }
    }
}

// ---------------------------------------------------------------------
// Uploads
// ---------------------------------------------------------------------

/// `res` is what comes of asking `queue` to take an upload item: an error if
/// the item cannot be encoded, another if it was not taken.
pub open spec fn item_queued<R: Upload, Q: FnOnce(Vec<u8>) -> bool>(
    item: &R::UploadStream,
    queue: Q,
    res: Result<(), Error>,
) -> bool {
    ||| {
        &&& call_ensures(R::encode_item, (item,), None)
        &&& res == Err::<(), Error>(Error::SerializeFaild)
    }
    ||| exists|data: Vec<u8>, taken: bool|
        {
            &&& call_ensures(R::encode_item, (item,), Some(data))
            &&& #[trigger] call_ensures(queue, (data,), taken)
            &&& res == if taken {
                Ok::<(), Error>(())
            } else {
                Err(Error::ConnectionReset)
            }
        }
}

/// Encodes an item of an upload and has it queued. An item that cannot be
/// encoded is not queued.
pub fn queue_item<R: Upload, Q: FnOnce(Vec<u8>) -> bool>(item: &R::UploadStream, queue: Q) -> (res:
    Result<(), Error>)
    requires
        forall|data: Vec<u8>|
            call_ensures(R::encode_item, (item,), Some(data)) ==> #[trigger] call_requires(
                queue,
                (data,),
            ),
    ensures
        item_queued::<R, Q>(item, queue, res),
        match res {
            Ok(_) => exists|data: Vec<u8>|
                {
                    &&& call_ensures(R::encode_item, (item,), Some(data))
                    &&& #[trigger] call_ensures(queue, (data,), true)
                },
            Err(e) => {
                ||| e == Error::SerializeFaild && call_ensures(R::encode_item, (item,), None)
                ||| e == Error::ConnectionReset && exists|data: Vec<u8>|
                    {
                        &&& call_ensures(R::encode_item, (item,), Some(data))
                        &&& #[trigger] call_ensures(queue, (data,), false)
                    }
            },
        },
{
    match R::encode_item(item) {
        None => Err(Error::SerializeFaild),
        Some(data) => {
            let ghost sent = data;
            let taken = queue(data);
            proof {
                assert(call_ensures(queue, (sent,), taken));
            }
            if taken {
                Ok(())
            } else {
                Err(Error::ConnectionReset)
            }
        },
    }
}

/// Whether an upload goes on behind an item, from whether the item was
/// reported as written.
pub fn item_written(written: bool) -> (res: Result<(), Error>)
    ensures
        res == if written {
            Ok::<(), Error>(())
        } else {
            Err(Error::ConnectionReset)
        },
{
    if written {
        Ok(())
    } else {
        Err(Error::ConnectionReset)
    }
}

/// Where an upload stands whose request has been made. `closes` tells whether
/// an empty item goes behind the last one.
#[derive(Clone, Copy, Debug, PartialEq, Eq, Structural)]
pub enum Uploader {
    /// It waits for the next item.
    Pulling { closes: bool },
    /// It queues an item, and waits until that is reported as written.
    Writing { closes: bool },
    /// It queues the empty item, and waits until that is reported as written.
    Closing,
    /// It waits for the answer.
    Awaiting,
    /// It is over.
    Over,
}

/// What has happened to an upload. `T` is an item.
pub enum UploaderEvent<T> {
    /// There is another item.
    Item(T),
    /// There are no more items.
    Exhausted,
    /// What was to be queued has been reported as written. If not, the upload
    /// has failed, or was answered before.
    Written(bool),
    /// The answer has come, or will not come.
    Answered,
}

/// What an upload has to do. `T` is an item.
pub enum UploaderAction<T> {
    /// Wait for the next item.
    Pull,
    /// Queue this item, and wait until it is reported as written.
    Write(T),
    /// Queue the empty item, and wait until it is reported as written.
    Close,
    /// Wait for the answer.
    Await,
    /// Stop.
    Stop,
}

impl Uploader {
    /// The event can happen here.
    pub open spec fn expects<T>(self, event: UploaderEvent<T>) -> bool {
        match event {
            UploaderEvent::Item(_) => self is Pulling,
            UploaderEvent::Exhausted => self is Pulling,
            UploaderEvent::Written(_) => self is Writing || self is Closing,
            UploaderEvent::Answered => self is Awaiting,
        }
    }

    /// Where the upload stands behind an event, and what it has to do. The
    /// next item is waited for once the one before is written, and the answer
    /// once all items are.
    pub open spec fn after<T>(self, event: UploaderEvent<T>) -> (Self, UploaderAction<T>) {
        match (self, event) {
            (Uploader::Pulling { closes }, UploaderEvent::Item(item)) => (
                Uploader::Writing { closes },
                UploaderAction::Write(item),
            ),
            (Uploader::Pulling { closes: true }, UploaderEvent::Exhausted) => (
                Uploader::Closing,
                UploaderAction::Close,
            ),
            (Uploader::Pulling { closes: false }, UploaderEvent::Exhausted) => (
                Uploader::Awaiting,
                UploaderAction::Await,
            ),
            (Uploader::Writing { closes }, UploaderEvent::Written(true)) => (
                Uploader::Pulling { closes },
                UploaderAction::Pull,
            ),
            (Uploader::Closing, UploaderEvent::Written(true)) => (
                Uploader::Awaiting,
                UploaderAction::Await,
            ),
            _ => (Uploader::Over, UploaderAction::Stop),
        }
    }

    /// An upload whose request has been made.
    pub fn new<T>(closes: bool) -> (res: (Uploader, UploaderAction<T>))
        ensures
            res == (Uploader::Pulling { closes }, UploaderAction::<T>::Pull),
    {
        (Uploader::Pulling { closes }, UploaderAction::Pull)
    }

    /// Handles an event.
    pub fn on_event<T>(self, event: UploaderEvent<T>) -> (res: (Uploader, UploaderAction<T>))
        requires
            self.expects(event),
        ensures
            res == self.after(event),
    {
        match (self, event) {
            (Uploader::Pulling { closes }, UploaderEvent::Item(item)) => (
                Uploader::Writing { closes },
                UploaderAction::Write(item),
            ),
            (Uploader::Pulling { closes }, UploaderEvent::Exhausted) => if closes {
                (Uploader::Closing, UploaderAction::Close)
            } else {
                (Uploader::Awaiting, UploaderAction::Await)
            },
            (Uploader::Writing { closes }, UploaderEvent::Written(true)) => (
                Uploader::Pulling { closes },
                UploaderAction::Pull,
            ),
            (Uploader::Closing, UploaderEvent::Written(true)) => (
                Uploader::Awaiting,
                UploaderAction::Await,
            ),
            _ => (Uploader::Over, UploaderAction::Stop),
        }
    }
}

} // verus!
