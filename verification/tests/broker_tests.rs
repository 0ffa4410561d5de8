use delivery_order::broker::{
    CourierStatus, MutationType, NotificationBroker, SubscriptionRoot, SUBSCRIPTION_QUEUE_BOUND,
};
use delivery_order::coordinator::{InboundStatus, OrdersService};

const ALICE: u128 = 1;
const BOB: u128 = 2;

fn event(kind: MutationType, user_uuid: u128) -> CourierStatus {
    CourierStatus { mutation_type: kind, user_uuid }
}

#[test]
fn publish_reaches_only_matching_subscribers_in_order() {
    let mut broker = NotificationBroker::new();
    let alice_sub = broker.subscribe(ALICE);
    let bob_sub = broker.subscribe(BOB);
    broker.publish(event(MutationType::Completed, ALICE));
    broker.publish(event(MutationType::Expired, ALICE));
    broker.publish(event(MutationType::Created, BOB));
    let first = broker.poll(alice_sub).unwrap();
    assert_eq!(first.mutation_type, MutationType::Completed);
    assert_eq!(first.user_uuid, ALICE);
    let second = broker.poll(alice_sub).unwrap();
    assert_eq!(second.mutation_type, MutationType::Expired);
    assert_eq!(broker.poll(alice_sub), None);
    let bobs = broker.poll(bob_sub).unwrap();
    assert_eq!(bobs.mutation_type, MutationType::Created);
    assert_eq!(broker.poll(bob_sub), None);
}

#[test]
fn events_before_subscription_are_not_replayed() {
    let mut broker = NotificationBroker::new();
    broker.publish(event(MutationType::Completed, ALICE));
    let sub = broker.subscribe(ALICE);
    assert_eq!(broker.poll(sub), None);
}

#[test]
fn unsubscribe_stops_delivery_and_polling() {
    let mut broker = NotificationBroker::new();
    let sub = broker.subscribe(ALICE);
    broker.publish(event(MutationType::Completed, ALICE));
    assert!(broker.unsubscribe(sub));
    assert_eq!(broker.poll(sub), None);
    assert!(!broker.unsubscribe(sub));
    broker.publish(event(MutationType::Expired, ALICE));
    assert_eq!(broker.poll(sub), None);
}

#[test]
fn full_queue_drops_newest_events() {
    let mut broker = NotificationBroker::new();
    let sub = broker.subscribe(ALICE);
    let mut published = 0;
    while published < SUBSCRIPTION_QUEUE_BOUND + 5 {
        broker.publish(event(MutationType::Completed, ALICE));
        published += 1;
    }
    let mut delivered = 0;
    while broker.poll(sub).is_some() {
        delivered += 1;
    }
    assert_eq!(delivered, SUBSCRIPTION_QUEUE_BOUND);
}

#[test]
fn subscription_root_opens_a_live_stream() {
    let mut broker = NotificationBroker::new();
    let root = SubscriptionRoot {};
    let sub = root.orders(&mut broker, ALICE);
    broker.publish(event(MutationType::Expired, ALICE));
    assert_eq!(broker.poll(sub).unwrap().mutation_type, MutationType::Expired);
}

#[test]
fn inbound_callbacks_publish_but_acknowledge_failure() {
    let mut broker = NotificationBroker::new();
    let service = OrdersService {};
    let sub = broker.subscribe(ALICE);
    // The acknowledgement channel reports a generic failure either way...
    let ack = service.notify_founded_courier(&mut broker, 777, ALICE);
    assert_eq!(ack, Err(InboundStatus::Internal));
    // ...while the event went out regardless.
    let ev = broker.poll(sub).unwrap();
    assert_eq!(ev.mutation_type, MutationType::Completed);
    assert_eq!(ev.user_uuid, ALICE);
    let ack = service.notify_expiration_time(&mut broker, ALICE);
    assert_eq!(ack, Err(InboundStatus::Internal));
    let ev = broker.poll(sub).unwrap();
    assert_eq!(ev.mutation_type, MutationType::Expired);
}
