//! The courier-coordinator decision layer. The matching service is reached
//! over a blocking RPC by the application shell; what comes back is handed
//! in here as plain values, and every decision taken on it is specified for
//! each possible answer. Inbound callbacks from the service land here too
//! and turn into courier-status events on the notification hub.

use vstd::prelude::*;

use crate::broker::{after_publish, CourierStatus, MutationType, NotificationBroker};
use crate::models::{OrderError, OrderQueueInfo};

verus! {

/// The matching service's answer to an assignment request, as plain values:
/// a courier was assigned, or the user was enrolled in the service's wait
/// queue, or the transport failed.
pub enum CourierReply {
    Assigned(u128),
    Queued,
    Unavailable,
}

/// The transport acknowledgement the inbound callbacks return. It is always
/// a generic failure: the acknowledgement says nothing about whether the
/// event went out.
#[derive(Clone, Copy, PartialEq, Eq, Structural, Debug)]
pub enum InboundStatus {
    Internal,
}

/// Decides the assignment step of order creation from the matching
/// service's answer: a queued user is the distinct `AddedToQueue` signal
/// (no order may be created), a transport failure is `UpstreamUnavailable`.
pub fn find_free_courier(reply: &CourierReply) -> (r: Result<u128, OrderError>)
    ensures
        match *reply {
            CourierReply::Assigned(c) => r == Ok::<u128, OrderError>(c),
            CourierReply::Queued => r == Err::<u128, OrderError>(OrderError::AddedToQueue),
            CourierReply::Unavailable => r == Err::<u128, OrderError>(
                OrderError::UpstreamUnavailable,
            ),
        },
{
    match reply {
        CourierReply::Assigned(c) => Ok(*c),
        CourierReply::Queued => Err(OrderError::AddedToQueue),
        CourierReply::Unavailable => Err(OrderError::UpstreamUnavailable),
    }
}

/// Decides the queue-status poll from the matching service's answer: the
/// reply passes through, a transport failure is `UpstreamUnavailable`.
pub fn check_courier_from_queue(reply: Option<OrderQueueInfo>) -> (r: Result<
    OrderQueueInfo,
    OrderError,
>)
    ensures
        match reply {
            Some(q) => r == Ok::<OrderQueueInfo, OrderError>(q),
            None => r == Err::<OrderQueueInfo, OrderError>(OrderError::UpstreamUnavailable),
        },
{
    match reply {
        Some(q) => Ok(q),
        None => Err(OrderError::UpstreamUnavailable),
    }
}

/// The inbound surface the matching service calls back into.
pub struct OrdersService {}

impl OrdersService {
    /// Callback: a courier was found for the user. A `Completed` event goes
    /// out to every matching subscription, and the acknowledgement is a
    /// generic failure regardless — the acknowledgement channel and the
    /// event-delivery channel are deliberately distinct.
    pub fn notify_founded_courier(
        &self,
        broker: &mut NotificationBroker,
        _courier_uuid: u128,
        user_uuid: u128,
    ) -> (r: Result<(), InboundStatus>)
        requires
            old(broker).wf(),
        ensures
            final(broker).wf(),
            final(broker).next_id == old(broker).next_id,
            final(broker).view_subs().len() == old(broker).view_subs().len(),
            forall|i: int|
                0 <= i < old(broker).view_subs().len() ==> #[trigger] final(broker).view_subs()[i]
                    == after_publish(
                    old(broker).view_subs()[i],
                    (CourierStatus { mutation_type: MutationType::Completed, user_uuid }),
                ),
            r == Err::<(), InboundStatus>(InboundStatus::Internal),
    {
        broker.publish(CourierStatus { mutation_type: MutationType::Completed, user_uuid });
        Err(InboundStatus::Internal)
    }

    /// Callback: the user's wait in the queue ran out. An `Expired` event
    /// goes out; the acknowledgement is the same generic failure.
    pub fn notify_expiration_time(&self, broker: &mut NotificationBroker, user_uuid: u128) -> (r:
        Result<(), InboundStatus>)
        requires
            old(broker).wf(),
        ensures
            final(broker).wf(),
            final(broker).next_id == old(broker).next_id,
            final(broker).view_subs().len() == old(broker).view_subs().len(),
            forall|i: int|
                0 <= i < old(broker).view_subs().len() ==> #[trigger] final(broker).view_subs()[i]
                    == after_publish(
                    old(broker).view_subs()[i],
                    (CourierStatus { mutation_type: MutationType::Expired, user_uuid }),
                ),
            r == Err::<(), InboundStatus>(InboundStatus::Internal),
    {
        broker.publish(CourierStatus { mutation_type: MutationType::Expired, user_uuid });
        Err(InboundStatus::Internal)
    }
}

} // verus!
