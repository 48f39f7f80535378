//! What holds of subscriptions over several deliveries and requests, and of
//! uploads over all their items.
use vstd::prelude::*;

use crate::exchange;
use crate::exchange::{
    Next, Subscription, SubscriptionAction, SubscriptionEvent, Uploader, UploaderAction,
    UploaderEvent,
};
use crate::exchange::Begun;
use crate::rpc::{Error, Subscribe, Upload, Verify, RPC};

verus! {

// ---------------------------------------------------------------------
// Single steps
// ---------------------------------------------------------------------

/// A request that is said to be queued was encoded, and the queue took just
/// those bytes for the channel of its type; one that failed could not be
/// encoded, or the queue did not take it, and the error tells which.
pub proof fn law_request_is_queued_or_failed<R: RPC, Q: FnOnce(u32, Vec<u8>) -> bool>(
    param: &R,
    queue: Q,
    lost: Error,
    res: Result<(), Error>,
)
    requires
        exchange::requested(param, queue, lost, res),
    ensures
        match res {
            Ok(_) => exists|channel_id: u32, data: Vec<u8>|
                {
                    &&& call_ensures(R::encode, (param,), Some(data))
                    &&& call_ensures(R::rpc_channel, (), channel_id)
                    &&& #[trigger] call_ensures(queue, (channel_id, data), true)
                },
            Err(e) => {
                ||| e == Error::SerializeFaild && call_ensures(R::encode, (param,), None)
                ||| e == lost && exists|channel_id: u32, data: Vec<u8>|
                    {
                        &&& call_ensures(R::encode, (param,), Some(data))
                        &&& call_ensures(R::rpc_channel, (), channel_id)
                        &&& #[trigger] call_ensures(queue, (channel_id, data), false)
                    }
            },
        },
{
}

/// An exchange is over with an answer only if the check of its request refused
/// it with that answer, and is begun only if the check passed and the request
/// was encoded and taken by the queue.
pub proof fn law_exchange_begins_if_it_may<R: Verify, Q: FnOnce(u32, Vec<u8>) -> bool>(
    param: &R,
    queue: Q,
    lost: Error,
    res: Begun<R::Return>,
)
    requires
        exchange::begun(param, queue, lost, res),
    ensures
        match res {
            Begun::Over(Ok(ret)) => call_ensures(R::verify, (param,), Err(ret)),
            Begun::Over(Err(e)) => {
                &&& call_ensures(R::verify, (param,), Ok(()))
                &&& {
                    ||| e == Error::SerializeFaild && call_ensures(R::encode, (param,), None)
                    ||| e == lost && exists|channel_id: u32, data: Vec<u8>|
                        {
                            &&& call_ensures(R::encode, (param,), Some(data))
                            &&& call_ensures(R::rpc_channel, (), channel_id)
                            &&& #[trigger] call_ensures(queue, (channel_id, data), false)
                        }
                }
            },
            Begun::Queued => {
                &&& call_ensures(R::verify, (param,), Ok(()))
                &&& exists|channel_id: u32, data: Vec<u8>|
                    {
                        &&& call_ensures(R::encode, (param,), Some(data))
                        &&& call_ensures(R::rpc_channel, (), channel_id)
                        &&& #[trigger] call_ensures(queue, (channel_id, data), true)
                    }
            },
        },
{
    match res {
        Begun::Over(Ok(_)) => {},
        Begun::Over(Err(e)) => {
            law_request_is_queued_or_failed(param, queue, lost, Err(e));
        },
        Begun::Queued => {
            law_request_is_queued_or_failed(param, queue, lost, Ok(()));
        },
    }
}

/// What may be queued for a request is what it encodes to, for the channel of
/// its type.
pub proof fn law_only_the_request_is_queued<R: RPC>(param: &R, channel_id: u32, data: Vec<u8>)
    ensures
        exchange::encoded(param, channel_id, data) <==> call_ensures(
            R::encode,
            (param,),
            Some(data),
        ) && call_ensures(R::rpc_channel, (), channel_id),
{
}

/// An answer is what its bytes decode to; only bytes that do not decode give
/// an error.
pub proof fn law_answer_is_what_was_decoded<R: RPC>(bytes: Seq<u8>, res: Result<R::Return, Error>)
    requires
        exchange::decoded_return::<R>(bytes, res),
    ensures
        match res {
            Ok(ret) => exists|b: &[u8]| b@ == bytes && #[trigger] call_ensures(
                R::decode_return,
                (b,),
                Some(ret),
            ),
            Err(e) => e == Error::DeserializeFaild && exists|b: &[u8]| b@ == bytes
                && #[trigger] call_ensures(R::decode_return, (b,), None),
        },
{
    let (b, r) = choose|b: &[u8], r: Option<R::Return>|
        {
            &&& b@ == bytes
            &&& #[trigger] call_ensures(R::decode_return, (b,), r)
            &&& match r {
                Some(ret) => res == Ok::<R::Return, Error>(ret),
                None => res == Err::<R::Return, Error>(Error::DeserializeFaild),
            }
        };
    match res {
        Ok(ret) => {
            assert(r == Some(ret));
            assert(call_ensures(R::decode_return, (b,), Some(ret)));
        },
        Err(_) => {
            assert(r is None);
            assert(call_ensures(R::decode_return, (b,), None));
        },
    }
}

/// An upload item that is said to be queued was encoded, and the queue took
/// just those bytes; one that failed could not be encoded, or the queue did
/// not take it, and the error tells which.
pub proof fn law_item_is_queued_or_failed<R: Upload, Q: FnOnce(Vec<u8>) -> bool>(
    item: &R::UploadStream,
    queue: Q,
    res: Result<(), Error>,
)
    requires
        exchange::item_queued::<R, Q>(item, queue, res),
    ensures
        match res {
            Ok(_) => exists|data: Vec<u8>|
                {
                    &&& call_ensures(R::encode_item, (item,), Some(data))
                    &&& #[trigger] call_ensures(queue, (data,), true)
                },
            Err(e) => {
                ||| e == Error::SerializeFaild && call_ensures(R::encode_item, (item,), None)
                ||| e == Error::ConnectionReset && exists|data: Vec<u8>|
                    {
                        &&& call_ensures(R::encode_item, (item,), Some(data))
                        &&& #[trigger] call_ensures(queue, (data,), false)
                    }
            },
        },
{
}

/// A subscriber is handed an error as it was delivered, and what the bytes of
/// an answer decode to; a forgotten requester gives it nothing. It stops once
/// it does not take what it is handed, has its request forgotten if that was
/// an error, and requests again exactly where the requester is forgotten.
pub proof fn law_subscriber_is_handed_what_was_delivered<R: RPC>(
    e: Error,
    bytes: Vec<u8>,
    item: Result<R::Return, Error>,
    taken: bool,
)
    ensures
        !exchange::handed::<R>(None, item),
        exchange::handed::<R>(Some(Err(e)), item) <==> item == Err::<R::Return, Error>(e),
        exchange::handed::<R>(Some(Ok(bytes)), item) ==> match item {
            Ok(ret) => exists|b: &[u8]| b@ == bytes@ && #[trigger] call_ensures(
                R::decode_return,
                (b,),
                Some(ret),
            ),
            Err(failed) => failed == Error::DeserializeFaild && exists|b: &[u8]| b@ == bytes@
                && #[trigger] call_ensures(R::decode_return, (b,), None),
        },
        exchange::next_of(None, taken) == Next::Resubscribe,
        taken ==> exchange::next_of(Some(Err(e)), taken) == Next::Continue && exchange::next_of(
            Some(Ok(bytes)),
            taken,
        ) == Next::Continue,
        !taken ==> exchange::next_of(Some(Err(e)), taken) == Next::EndRequest && exchange::next_of(
            Some(Ok(bytes)),
            taken,
        ) == Next::Stop,
{
    if exchange::handed::<R>(Some(Ok(bytes)), item) {
        law_answer_is_what_was_decoded::<R>(bytes@, item);
    }
}

/// What a subscription does about an event, and what it then waits for. It
/// listens as long as it is told to, and again once a new request succeeds; it
/// pauses before each new request.
pub proof fn law_subscription_decides(subscription: Subscription, event: SubscriptionEvent)
    requires
        subscription.expects(event),
    ensures
        ({
            let (next, action) = subscription.after(event);
            &&& action == SubscriptionAction::Listen <==> event == SubscriptionEvent::Delivered(
                Next::Continue,
            ) || event == SubscriptionEvent::Requested(true)
            &&& action == SubscriptionAction::Pause <==> event == SubscriptionEvent::Delivered(
                Next::Resubscribe,
            ) || event == SubscriptionEvent::Requested(false)
            &&& action == SubscriptionAction::Request <==> event == SubscriptionEvent::Paused
            &&& action == SubscriptionAction::EndRequest <==> event == SubscriptionEvent::Delivered(
                Next::EndRequest,
            )
            &&& action == SubscriptionAction::Stop <==> event == SubscriptionEvent::Delivered(
                Next::Stop,
            )
            &&& action == SubscriptionAction::Listen <==> next == Subscription::Listening
            &&& action == SubscriptionAction::Pause <==> next == Subscription::Pausing
            &&& action == SubscriptionAction::Request <==> next == Subscription::Requesting
            &&& action == SubscriptionAction::EndRequest || action == SubscriptionAction::Stop
                <==> next == Subscription::Over
        }),
{
}

/// What an upload does about an event, and what it then waits for: each item
/// is written as it comes; the next is waited for once it is written; the
/// empty item follows the last where the upload closes; the answer is waited
/// for once everything is written; and a failed write, or the answer, ends it.
pub proof fn law_upload_decides<T>(uploader: Uploader, event: UploaderEvent<T>, closes: bool)
    requires
        uploader.expects(event),
        uploader is Pulling || uploader is Writing ==> uploader == (Uploader::Pulling { closes })
            || uploader == (Uploader::Writing { closes }),
    ensures
        ({
            let (next, action) = uploader.after(event);
            &&& event matches UploaderEvent::Item(item) ==> action == UploaderAction::Write(item)
                && next == (Uploader::Writing { closes })
            &&& event is Exhausted && closes ==> action == UploaderAction::<T>::Close && next
                == Uploader::Closing
            &&& event is Exhausted && !closes ==> action == UploaderAction::<T>::Await && next
                == Uploader::Awaiting
            &&& event == UploaderEvent::<T>::Written(true) && uploader is Writing ==> action
                == UploaderAction::<T>::Pull && next == (Uploader::Pulling { closes })
            &&& event == UploaderEvent::<T>::Written(true) && uploader is Closing ==> action
                == UploaderAction::<T>::Await && next == Uploader::Awaiting
            &&& event == UploaderEvent::<T>::Written(false) || event is Answered ==> action
                == UploaderAction::<T>::Stop && next == Uploader::Over
        }),
{
}

// ---------------------------------------------------------------------
// Subscriptions
// ---------------------------------------------------------------------

/// Encoding `param` twice gives the same bytes, and its channel does not
/// change.
pub open spec fn encodes_alike<R: RPC>(param: &R) -> bool {
    &&& forall|a: Option<Vec<u8>>, b: Option<Vec<u8>>|
        #![trigger call_ensures(R::encode, (param,), a), call_ensures(R::encode, (param,), b)]
        call_ensures(R::encode, (param,), a) && call_ensures(R::encode, (param,), b) ==> match (
            a,
            b,
        ) {
            (Some(x), Some(y)) => x@ == y@,
            (None, None) => true,
            _ => false,
        }
    &&& forall|a: u32, b: u32|
        #![trigger call_ensures(R::rpc_channel, (), a), call_ensures(R::rpc_channel, (), b)]
        call_ensures(R::rpc_channel, (), a) && call_ensures(R::rpc_channel, (), b) ==> a == b
}

/// What has been delivered to a subscription whose connection was reset: that
/// it was reset, and then that its requester is forgotten.
pub open spec fn reset_deliveries() -> Seq<Option<Result<Vec<u8>, Error>>> {
    seq![Some(Err(Error::ConnectionReset)), None]
}

/// `items` are what a subscriber is handed, one behind the other, for what is
/// delivered, if it takes all of it.
pub open spec fn all_handed<R: RPC>(
    deliveries: Seq<Option<Result<Vec<u8>, Error>>>,
    items: Seq<Result<R::Return, Error>>,
) -> bool
    decreases deliveries.len(),
{
    if deliveries.len() == 0 {
        items.len() == 0
    } else if deliveries.first() is None {
        all_handed::<R>(deliveries.drop_first(), items)
    } else {
        &&& items.len() > 0
        &&& exchange::handed::<R>(deliveries.first(), items.first())
        &&& all_handed::<R>(deliveries.drop_first(), items.drop_first())
    }
}

/// The subscription behind a run of events.
pub open spec fn subscription_after(subscription: Subscription, events: Seq<SubscriptionEvent>) -> Subscription
    decreases events.len(),
{
    if events.len() == 0 {
        subscription
    } else {
        subscription_after(subscription.after(events.first()).0, events.drop_first())
    }
}

/// How many requests a run of events has a subscription make.
pub open spec fn requests(subscription: Subscription, events: Seq<SubscriptionEvent>) -> nat
    decreases events.len(),
{
    if events.len() == 0 {
        0
    } else {
        let (after, action) = subscription.after(events.first());
        let here: nat = if action == SubscriptionAction::Request {
            1
        } else {
            0
        };
        here + requests(after, events.drop_first())
    }
}

/// The events of `failures` failed requests and a successful one.
pub open spec fn retried(failures: nat) -> Seq<SubscriptionEvent>
    decreases failures,
{
    if failures == 0 {
        seq![SubscriptionEvent::Paused, SubscriptionEvent::Requested(true)]
    } else {
        seq![SubscriptionEvent::Paused, SubscriptionEvent::Requested(false)] + retried(
            (failures - 1) as nat,
        )
    }
}

/// A subscription whose connection was reset yields that error once, and
/// nothing more, to its subscriber; it goes on behind the error, and requests
/// again once its requester is forgotten.
pub proof fn law_reset_is_told_once<R: Subscribe>(items: Seq<Result<R::Return, Error>>)
    ensures
        all_handed::<R>(reset_deliveries(), items) <==> items == seq![
            Err::<R::Return, Error>(Error::ConnectionReset),
        ],
        exchange::next_of(reset_deliveries()[0], true) == Next::Continue,
        forall|taken: bool| exchange::next_of(reset_deliveries()[1], taken) == Next::Resubscribe,
{
    let deliveries = reset_deliveries();
    assert(deliveries.drop_first() =~= seq![None::<Result<Vec<u8>, Error>>]);
    assert(deliveries.drop_first().drop_first().len() == 0);
    reveal_with_fuel(all_handed, 3);
    if all_handed::<R>(deliveries, items) {
        assert(items.drop_first().len() == 0);
        assert(items =~= seq![Err::<R::Return, Error>(Error::ConnectionReset)]);
    }
    if items == seq![Err::<R::Return, Error>(Error::ConnectionReset)] {
        assert(items.drop_first().len() == 0);
    }
}

/// A subscription whose requester is forgotten requests again until that
/// succeeds, however often it fails, and then listens again.
pub proof fn law_forgotten_subscription_is_requested_again(failures: nat)
    ensures
        ({
            let (pausing, action) = Subscription::Listening.after(
                SubscriptionEvent::Delivered(Next::Resubscribe),
            );
            &&& action == SubscriptionAction::Pause
            &&& subscription_after(pausing, retried(failures)) == Subscription::Listening
            &&& requests(pausing, retried(failures)) == failures + 1
        }),
    decreases failures,
{
    let events = retried(failures);
    let rest = events.drop_first();
    reveal_with_fuel(subscription_after, 3);
    reveal_with_fuel(requests, 3);
    if failures > 0 {
        law_forgotten_subscription_is_requested_again((failures - 1) as nat);
        assert(rest.drop_first() =~= retried((failures - 1) as nat));
    } else {
        assert(rest.drop_first().len() == 0);
    }
    assert(events.first() == SubscriptionEvent::Paused);
    assert(rest.first() == SubscriptionEvent::Requested(failures == 0));
}

/// A request that is made again goes to the same channel with the same
/// payload as the first time, if it encodes alike.
pub proof fn law_request_is_made_alike<R: RPC>(
    param: &R,
    first_channel: u32,
    first: Vec<u8>,
    again_channel: u32,
    again: Vec<u8>,
)
    requires
        encodes_alike(param),
        exchange::encoded(param, first_channel, first),
        exchange::encoded(param, again_channel, again),
    ensures
        again_channel == first_channel,
        again@ == first@,
{
}

// ---------------------------------------------------------------------
// Uploads
// ---------------------------------------------------------------------

/// Every event of the run can happen where the upload then stands.
pub open spec fn upload_possible<T>(uploader: Uploader, events: Seq<UploaderEvent<T>>) -> bool
    decreases events.len(),
{
    events.len() == 0 || {
        &&& uploader.expects(events.first())
        &&& upload_possible(uploader.after(events.first()).0, events.drop_first())
    }
}

/// Where the upload stands behind a run of events.
pub open spec fn upload_after<T>(uploader: Uploader, events: Seq<UploaderEvent<T>>) -> Uploader
    decreases events.len(),
{
    if events.len() == 0 {
        uploader
    } else {
        upload_after(uploader.after(events.first()).0, events.drop_first())
    }
}

/// What an upload queues over a run of events, in order. `None` stands for the
/// empty item.
pub open spec fn upload_queued<T>(uploader: Uploader, events: Seq<UploaderEvent<T>>) -> Seq<
    Option<T>,
>
    decreases events.len(),
{
    if events.len() == 0 {
        Seq::empty()
    } else {
        let (after, action) = uploader.after(events.first());
        let rest = upload_queued(after, events.drop_first());
        match action {
            UploaderAction::Write(item) => seq![Some(item)] + rest,
            UploaderAction::Close => seq![None] + rest,
            _ => rest,
        }
    }
}

/// The items that there are in a run of events, in order.
pub open spec fn upload_items<T>(events: Seq<UploaderEvent<T>>) -> Seq<Option<T>>
    decreases events.len(),
{
    if events.len() == 0 {
        Seq::empty()
    } else {
        let rest = upload_items(events.drop_first());
        match events.first() {
            UploaderEvent::Item(item) => seq![Some(item)] + rest,
            _ => rest,
        }
    }
}

/// How often something is reported as written, or not, in a run of events.
pub open spec fn upload_reports<T>(events: Seq<UploaderEvent<T>>) -> nat
    decreases events.len(),
{
    if events.len() == 0 {
        0
    } else {
        let here: nat = if events.first() is Written {
            1
        } else {
            0
        };
        here + upload_reports(events.drop_first())
    }
}

/// The upload has queued something that is not reported as written.
pub open spec fn upload_pending(uploader: Uploader) -> bool {
    uploader is Writing || uploader is Closing
}

/// Some event of the run is the end of the items.
pub open spec fn upload_exhausted<T>(events: Seq<UploaderEvent<T>>) -> bool {
    exists|i: int| 0 <= i < events.len() && #[trigger] events[i] is Exhausted
}

/// All items are queued, in the order in which they come, and nothing else is;
/// where the upload closes, one empty item is queued behind the last.
pub proof fn law_items_are_queued_in_order<T>(closes: bool, events: Seq<UploaderEvent<T>>)
    requires
        upload_possible(Uploader::Pulling { closes }, events),
    ensures
        upload_queued(Uploader::Pulling { closes }, events) == upload_items(events) + (if closes
            && upload_exhausted(events) {
            seq![None::<T>]
        } else {
            Seq::empty()
        }),
    decreases events.len(),
{
    lemma_queued_in_order(Uploader::Pulling { closes }, closes, events);
}

/// The same, also from where an item is being written.
proof fn lemma_queued_in_order<T>(
    uploader: Uploader,
    closes: bool,
    events: Seq<UploaderEvent<T>>,
)
    requires
        uploader == (Uploader::Pulling { closes }) || uploader == (Uploader::Writing { closes }),
        upload_possible(uploader, events),
    ensures
        upload_queued(uploader, events) == upload_items(events) + (if closes && upload_exhausted(
            events,
        ) {
            seq![None::<T>]
        } else {
            Seq::empty()
        }),
    decreases events.len(),
{
    let end = if closes && upload_exhausted(events) {
        seq![None::<T>]
    } else {
        Seq::<Option<T>>::empty()
    };
    if events.len() > 0 {
        let after = uploader.after(events.first()).0;
        let rest = events.drop_first();
        if events.first() is Exhausted {
            assert(events[0] is Exhausted);
            lemma_nothing_queued_at_the_end(after, rest);
        } else {
            lemma_exhausted_later(events);
            if after is Over {
                lemma_over_is_the_end(after, rest);
                lemma_nothing_queued_at_the_end(after, rest);
            } else {
                lemma_queued_in_order(after, closes, rest);
            }
        }
    }
    assert(upload_queued(uploader, events) =~= upload_items(events) + end);
}

/// The end of the items comes later, unless it comes first.
proof fn lemma_exhausted_later<T>(events: Seq<UploaderEvent<T>>)
    requires
        events.len() > 0,
        !(events.first() is Exhausted),
    ensures
        upload_exhausted(events) == upload_exhausted(events.drop_first()),
{
    let rest = events.drop_first();
    if upload_exhausted(events) {
        let i = choose|i: int| 0 <= i < events.len() && #[trigger] events[i] is Exhausted;
        assert(rest[i - 1] is Exhausted);
    }
    if upload_exhausted(rest) {
        let i = choose|i: int| 0 <= i < rest.len() && #[trigger] rest[i] is Exhausted;
        assert(events[i + 1] is Exhausted);
    }
}

/// Behind the end of the items nothing more comes or is queued.
proof fn lemma_nothing_queued_at_the_end<T>(uploader: Uploader, events: Seq<UploaderEvent<T>>)
    requires
        uploader is Closing || uploader is Awaiting || uploader is Over,
        upload_possible(uploader, events),
    ensures
        upload_queued(uploader, events) == Seq::<Option<T>>::empty(),
        upload_items(events) == Seq::<Option<T>>::empty(),
        upload_after(uploader, events) is Closing || upload_after(uploader, events) is Awaiting
            || upload_after(uploader, events) is Over,
    decreases events.len(),
{
    if events.len() > 0 {
        lemma_nothing_queued_at_the_end(uploader.after(events.first()).0, events.drop_first());
    }
}

/// Something is queued only once all before it is written: what has been
/// queued is what has been reported, and at most the last one that has not,
/// and an upload that is not over has had everything reported as written.
pub proof fn law_items_are_written_one_by_one<T>(
    uploader: Uploader,
    events: Seq<UploaderEvent<T>>,
)
    requires
        upload_possible(uploader, events),
    ensures
        upload_queued(uploader, events).len() + (if upload_pending(uploader) {
            1nat
        } else {
            0nat
        }) == upload_reports(events) + (if upload_pending(upload_after(uploader, events)) {
            1nat
        } else {
            0nat
        }),
        !(upload_after(uploader, events) is Over) ==> forall|i: int|
            0 <= i < events.len() ==> #[trigger] events[i] != UploaderEvent::<T>::Written(false),
    decreases events.len(),
{
    if events.len() > 0 {
        let after = uploader.after(events.first()).0;
        let rest = events.drop_first();
        law_items_are_written_one_by_one(after, rest);
        if !(upload_after(uploader, events) is Over) {
            if after is Over {
                lemma_over_is_the_end(after, rest);
            }
            assert forall|i: int| 0 <= i < events.len() implies #[trigger] events[i]
                != UploaderEvent::<T>::Written(false) by {
                if i > 0 {
                    assert(events[i] == rest[i - 1]);
                }
            }
        }
    }
}

/// Nothing happens to an upload that is over.
proof fn lemma_over_is_the_end<T>(uploader: Uploader, events: Seq<UploaderEvent<T>>)
    requires
        uploader is Over,
        upload_possible(uploader, events),
    ensures
        events.len() == 0,
{
}

/// The answer is waited for last: by then all items there are have been queued
/// and written, with the empty item behind them where the upload closes, and
/// nothing is queued from then on.
pub proof fn law_answer_is_awaited_last<T>(
    closes: bool,
    events: Seq<UploaderEvent<T>>,
    later: Seq<UploaderEvent<T>>,
)
    requires
        upload_possible(Uploader::Pulling { closes }, events),
        upload_after(Uploader::Pulling { closes }, events) is Awaiting,
        upload_possible(Uploader::Awaiting, later),
    ensures
        upload_queued(Uploader::Pulling { closes }, events) == upload_items(events) + (if closes {
            seq![None::<T>]
        } else {
            Seq::empty()
        }),
        upload_queued(Uploader::Pulling { closes }, events).len() == upload_reports(events),
        forall|i: int|
            0 <= i < events.len() ==> #[trigger] events[i] != UploaderEvent::<T>::Written(false),
        upload_queued(Uploader::Awaiting, later) == Seq::<Option<T>>::empty(),
{
    let start = Uploader::Pulling { closes };
    law_items_are_queued_in_order(closes, events);
    law_items_are_written_one_by_one(start, events);
    lemma_nothing_queued_at_the_end(Uploader::Awaiting, later);
    lemma_awaiting_is_behind_the_items(start, events);
}

/// An upload waits for its answer only behind the end of its items.
proof fn lemma_awaiting_is_behind_the_items<T>(uploader: Uploader, events: Seq<UploaderEvent<T>>)
    requires
        uploader is Pulling || uploader is Writing,
        upload_possible(uploader, events),
        upload_after(uploader, events) is Awaiting,
    ensures
        upload_exhausted(events),
    decreases events.len(),
{
    assert(events.len() > 0);
    let after = uploader.after(events.first()).0;
    let rest = events.drop_first();
    assert(upload_after(uploader, events) == upload_after(after, rest));
    if events.first() is Exhausted {
        assert(events[0] is Exhausted);
    } else if after is Over {
        lemma_over_is_the_end(after, rest);
        assert(upload_after(after, rest) == after);
    } else {
        lemma_awaiting_is_behind_the_items(after, rest);
        lemma_exhausted_later(events);
    }
}

} // verus!
