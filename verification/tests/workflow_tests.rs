use delivery_order::coordinator::CourierReply;
use delivery_order::handlers::{Buckets, Orders, Products};
use delivery_order::models::{OrderError, OrderStatus};
use delivery_order::policy::{Policy, Role, TokenClaims};
use delivery_order::store::Store;

const USER: u128 = 100;
const COURIER: u128 = 200;
const WINDOW: i64 = 600;

fn user_claims() -> TokenClaims {
    TokenClaims { uuid: USER, role: Role::User }
}

fn courier_claims() -> TokenClaims {
    TokenClaims { uuid: COURIER, role: Role::Courier }
}

/// A store with two distinct products in the user's bucket.
fn store_with_bucket() -> Store {
    let mut store = Store::new();
    let buckets = Buckets;
    let claims = user_claims();
    buckets.add_to_bucket(&mut store, &claims, USER, 71, 2).unwrap();
    buckets.add_to_bucket(&mut store, &claims, USER, 72, 1).unwrap();
    store
}

fn created_order(store: &mut Store) -> delivery_order::models::OrderInfo {
    let orders = Orders;
    orders
        .create_order(
            store,
            &user_claims(),
            USER,
            "5 High St".to_owned(),
            &CourierReply::Assigned(COURIER),
            1000,
        )
        .unwrap()
}

#[test]
fn create_order_snapshots_bucket_and_drains_it() {
    let mut store = store_with_bucket();
    let orders = Orders;
    let snapshot = orders.create_order_begin(&store, &user_claims(), USER).unwrap();
    assert_eq!(snapshot.len(), 2);
    let order = created_order(&mut store);
    assert_eq!(order.user_uuid, USER);
    assert_eq!(order.courier_uuid, COURIER);
    assert_eq!(order.status, OrderStatus::InProgress);
    assert_eq!(order.rating, None);
    assert_eq!(order.address, "5 High St");
    // The order lines exactly match the bucket snapshot at call time...
    let items = store.order_items.clone();
    assert_eq!(items.len(), 2);
    assert_eq!(items[0].order_uuid, order.uuid);
    assert_eq!(items[0].product_uuid, 71);
    assert_eq!(items[0].amount, 2);
    assert_eq!(items[1].product_uuid, 72);
    assert_eq!(items[1].amount, 1);
    // ...and the bucket is empty immediately after.
    assert!(store.bucket.is_empty());
}

#[test]
fn create_order_with_empty_bucket_stops_at_the_gate() {
    let store = Store::new();
    let orders = Orders;
    // The begin phase runs before any courier assignment is requested.
    let gate = orders.create_order_begin(&store, &user_claims(), USER);
    assert_eq!(gate.unwrap_err(), OrderError::EmptyBucket);
    let mut store = Store::new();
    let r = orders.create_order(
        &mut store,
        &user_claims(),
        USER,
        "5 High St".to_owned(),
        &CourierReply::Assigned(COURIER),
        1000,
    );
    assert_eq!(r.unwrap_err(), OrderError::EmptyBucket);
    assert!(store.orders.is_empty());
}

#[test]
fn create_order_forbidden_for_foreign_identity() {
    let mut store = store_with_bucket();
    let orders = Orders;
    let stranger = TokenClaims { uuid: 999, role: Role::User };
    let r = orders.create_order(
        &mut store,
        &stranger,
        USER,
        "5 High St".to_owned(),
        &CourierReply::Assigned(COURIER),
        1000,
    );
    assert_eq!(r.unwrap_err(), OrderError::Forbidden);
}

#[test]
fn create_order_queued_creates_nothing() {
    let mut store = store_with_bucket();
    let orders = Orders;
    let r = orders.create_order(
        &mut store,
        &user_claims(),
        USER,
        "5 High St".to_owned(),
        &CourierReply::Queued,
        1000,
    );
    assert_eq!(r.unwrap_err(), OrderError::AddedToQueue);
    assert!(store.orders.is_empty());
    // The bucket is untouched: the caller retries later.
    assert_eq!(store.bucket.len(), 2);
}

#[test]
fn create_order_upstream_failure_creates_nothing() {
    let mut store = store_with_bucket();
    let orders = Orders;
    let r = orders.create_order(
        &mut store,
        &user_claims(),
        USER,
        "5 High St".to_owned(),
        &CourierReply::Unavailable,
        1000,
    );
    assert_eq!(r.unwrap_err(), OrderError::UpstreamUnavailable);
    assert!(store.orders.is_empty());
}

#[test]
fn complete_delivery_courier_only_then_already_finished() {
    let mut store = store_with_bucket();
    let orders = Orders;
    let order = created_order(&mut store);
    // A non-courier identity on an in-progress order is Forbidden.
    let r = orders.complete_delivery(&mut store, &user_claims(), order.uuid, 2000);
    assert_eq!(r.unwrap_err(), OrderError::Forbidden);
    assert_eq!(store.orders[0].status, OrderStatus::InProgress);
    // The assigned courier succeeds and the status flips.
    let msg = orders.complete_delivery(&mut store, &courier_claims(), order.uuid, 2000).unwrap();
    assert_eq!(msg, "Delivery finished");
    assert_eq!(store.orders[0].status, OrderStatus::Finished);
    // A second call fails AlreadyFinished, whoever makes it: the status
    // check runs before the access check.
    let r = orders.complete_delivery(&mut store, &courier_claims(), order.uuid, 2500);
    assert_eq!(r.unwrap_err(), OrderError::AlreadyFinished);
    let stranger = TokenClaims { uuid: 999, role: Role::User };
    let r = orders.complete_delivery(&mut store, &stranger, order.uuid, 2500);
    assert_eq!(r.unwrap_err(), OrderError::AlreadyFinished);
    let missing = orders.complete_delivery(&mut store, &courier_claims(), order.uuid.wrapping_add(1), 2500);
    assert_eq!(missing.unwrap_err(), OrderError::NotFound);
}

#[test]
fn estimate_delivery_rates_once_and_reports_the_score() {
    let mut store = store_with_bucket();
    let orders = Orders;
    let order = created_order(&mut store);
    orders.complete_delivery(&mut store, &courier_claims(), order.uuid, 2000).unwrap();
    // Within the window, by the order's user: the rating lands and the
    // courier's refreshed score comes back (one real 4 plus 50 fives).
    let upd = orders.estimate_delivery(&mut store, &user_claims(), order.uuid, 4, 2300, WINDOW).unwrap();
    assert_eq!(upd.courier_uuid, COURIER);
    assert_eq!(upd.score.score_num, 4 * 51 + 6375);
    assert_eq!(upd.score.score_den, 51 * 52 / 2);
    assert_eq!(store.orders[0].rating, Some(4));
    // Any further estimate on the same order fails AlreadyRated — the
    // rated check runs before the access check, so even a stranger sees
    // AlreadyRated, not Forbidden.
    let again = orders.estimate_delivery(&mut store, &user_claims(), order.uuid, 5, 2400, WINDOW);
    assert_eq!(again.unwrap_err(), OrderError::AlreadyRated);
    let stranger = TokenClaims { uuid: 999, role: Role::User };
    let again = orders.estimate_delivery(&mut store, &stranger, order.uuid, 5, 2400, WINDOW);
    assert_eq!(again.unwrap_err(), OrderError::AlreadyRated);
    assert_eq!(store.orders[0].rating, Some(4));
}

#[test]
fn estimate_delivery_gates() {
    let mut store = store_with_bucket();
    let orders = Orders;
    let order = created_order(&mut store);
    // Still in progress: the window check fails.
    let r = orders.estimate_delivery(&mut store, &user_claims(), order.uuid, 5, 1100, WINDOW);
    assert_eq!(r.unwrap_err(), OrderError::RatingWindowExpired);
    orders.complete_delivery(&mut store, &courier_claims(), order.uuid, 2000).unwrap();
    // A foreign identity is Forbidden.
    let r = orders.estimate_delivery(&mut store, &courier_claims(), order.uuid, 5, 2100, WINDOW);
    assert_eq!(r.unwrap_err(), OrderError::Forbidden);
    // The window runs out `WINDOW` seconds after the finishing write.
    let r = orders.estimate_delivery(&mut store, &user_claims(), order.uuid, 5, 2000 + WINDOW, WINDOW);
    assert_eq!(r.unwrap_err(), OrderError::RatingWindowExpired);
    // A missing order is NotFound.
    let r = orders.estimate_delivery(&mut store, &user_claims(), order.uuid.wrapping_add(1), 5, 2100, WINDOW);
    assert_eq!(r.unwrap_err(), OrderError::NotFound);
    // Just inside the window it still lands.
    let upd = orders.estimate_delivery(&mut store, &user_claims(), order.uuid, 5, 2000 + WINDOW - 1, WINDOW);
    assert!(upd.is_ok());
}

#[test]
fn order_and_items_access() {
    let mut store = store_with_bucket();
    let orders = Orders;
    let policy = Policy::new();
    let order = created_order(&mut store);
    let got = orders.order(&store, &policy, &user_claims(), order.uuid).unwrap();
    assert_eq!(got.uuid, order.uuid);
    let stranger = TokenClaims { uuid: 999, role: Role::User };
    let r = orders.order(&store, &policy, &stranger, order.uuid);
    assert_eq!(r.unwrap_err(), OrderError::Forbidden);
    let analyst = TokenClaims { uuid: 999, role: Role::Analyst };
    assert!(orders.order(&store, &policy, &analyst, order.uuid).is_ok());
    let items = orders.get_order_items(&store, &policy, &courier_claims(), order.uuid).unwrap();
    assert_eq!(items.len(), 2);
    let r = orders.get_order_items(&store, &policy, &stranger, order.uuid);
    assert_eq!(r.unwrap_err(), OrderError::Forbidden);
}

#[test]
fn filter_orders_policy_gate() {
    let mut store = store_with_bucket();
    let orders = Orders;
    let policy = Policy::new();
    created_order(&mut store);
    // A plain user browsing its own orders succeeds...
    let own = orders
        .filter_orders(&store, &policy, &user_claims(), None, None, Some(USER), None)
        .unwrap();
    assert_eq!(own.len(), 1);
    // ...and a foreign user filter without an elevated role is Forbidden.
    let r = orders.filter_orders(&store, &policy, &user_claims(), None, None, Some(999), None);
    assert_eq!(r.unwrap_err(), OrderError::Forbidden);
}

#[test]
fn wait_for_free_courier_decisions() {
    let orders = Orders;
    let q = delivery_order::models::OrderQueueInfo { status: "WAITING".to_owned(), avg_waiting_time: 42 };
    let ok = orders.wait_for_free_courier(&user_claims(), USER, Some(q)).unwrap();
    assert_eq!(ok.status, "WAITING");
    assert_eq!(ok.avg_waiting_time, 42);
    let r = orders.wait_for_free_courier(&user_claims(), USER, None);
    assert_eq!(r.unwrap_err(), OrderError::UpstreamUnavailable);
    let r = orders.wait_for_free_courier(&user_claims(), 999, None);
    assert_eq!(r.unwrap_err(), OrderError::Forbidden);
}

#[test]
fn product_handlers_respect_admin_policy() {
    let mut store = Store::new();
    let products = Products;
    let policy = Policy::new();
    let admin = TokenClaims { uuid: 1, role: Role::Admin };
    let r = products.create_product(
        &mut store,
        &policy,
        &user_claims(),
        "cake".to_owned(),
        500,
        "dessert".to_owned(),
        "north".to_owned(),
    );
    assert_eq!(r.unwrap_err(), OrderError::Forbidden);
    let msg = products
        .create_product(
            &mut store,
            &policy,
            &admin,
            "cake".to_owned(),
            500,
            "dessert".to_owned(),
            "north".to_owned(),
        )
        .unwrap();
    assert_eq!(msg, "Product created");
    let uuid = store.products[0].uuid;
    let r = products.update_product(&mut store, &policy, &user_claims(), None, Some(600), None, None, uuid);
    assert_eq!(r.unwrap_err(), OrderError::Forbidden);
    let updated = products
        .update_product(&mut store, &policy, &admin, None, Some(600), None, None, uuid)
        .unwrap();
    assert_eq!(updated.price, 600);
    // The secured field resolver tells non-admins off.
    assert_eq!(updated.product_type(&policy, &admin), "dessert");
    assert_eq!(updated.product_type(&policy, &user_claims()), "Forbidden");
}

#[test]
fn bucket_handlers_access() {
    let mut store = Store::new();
    let buckets = Buckets;
    let policy = Policy::new();
    let r = buckets.add_to_bucket(&mut store, &user_claims(), 999, 71, 1);
    assert_eq!(r.unwrap_err(), OrderError::Forbidden);
    buckets.add_to_bucket(&mut store, &user_claims(), USER, 71, 1).unwrap();
    // Admins read anyone's bucket; a user only its own.
    let admin = TokenClaims { uuid: 1, role: Role::Admin };
    assert_eq!(buckets.get_bucket_items(&store, &policy, &admin, USER).unwrap().len(), 1);
    assert_eq!(buckets.get_bucket_items(&store, &policy, &user_claims(), USER).unwrap().len(), 1);
    let r = buckets.get_bucket_items(&store, &policy, &user_claims(), 999);
    assert_eq!(r.unwrap_err(), OrderError::Forbidden);
    let msg = buckets.remove_from_bucket(&mut store, &user_claims(), USER, 71).unwrap();
    assert_eq!(msg, "Item deleted");
    buckets.add_to_bucket(&mut store, &user_claims(), USER, 72, 1).unwrap();
    let msg = buckets.clear_bucket(&mut store, &user_claims(), USER).unwrap();
    assert_eq!(msg, "Bucket cleared");
    assert!(store.bucket.is_empty());
}

#[test]
fn error_messages() {
    assert_eq!(OrderError::Forbidden.message(), "Forbidden");
    assert_eq!(OrderError::EmptyBucket.message(), "Empty bucket");
    assert_eq!(OrderError::AlreadyRated.message(), "This order already rated");
    assert_eq!(OrderError::AlreadyFinished.message(), "This order already finished");
    assert_eq!(OrderError::RatingWindowExpired.message(), "not available anymore");
    assert_eq!(OrderError::AddedToQueue.message(), "Added to queue");
    assert_eq!(OrderError::UpstreamUnavailable.message(), "upstream unavailable");
    assert_eq!(OrderError::NotFound.message(), "not found");
}
