//! The order orchestrator: the handlers behind the public API surface.
//! Each one gates its operation on the access policy, runs it against the
//! store, and decides on the matching service's answers where the workflow
//! needs them. The application shell resolves credentials, carries the RPC
//! traffic and the clock, and hands everything in as plain values.

use vstd::prelude::*;

use crate::coordinator::{check_courier_from_queue, find_free_courier, CourierReply};
use crate::models::{
    BucketItem, CreateOrder, CreateProduct, OrderError, OrderInfo, OrderItem, OrderQueueInfo,
    OrderStatus, ProductInfo, UpdateProduct,
};
use crate::policy::{
    filter_access_allowed, has_access, has_access_by_uuid, has_access_to_filters,
    has_access_to_order, order_access_allowed, Policy, TokenClaims,
};
use crate::rating::{
    padded_ratings, triangular, update_courier_rating, weighted_sum, RatingUpdate,
};
use crate::store;
use crate::store::{
    bucket_of, find_order, find_product, has_order, has_product, is_product_listing,
    is_recent_rating_history, items_of_order, order_filters_pred, order_pos, other_users_pred,
    select_bucket_items_by_uuid, select_order, select_order_items_by_uuid,
    select_orders_by_filters, select_product, select_products_by_filter, Store,
};
use crate::sys;

verus! {

/// The handlers over the product catalogue.
pub struct Products;

/// The handlers over users' buckets.
pub struct Buckets;

/// The handlers over orders: the state machine and the checkout workflow.
pub struct Orders;

// ---------------------------------------------------------------------------
// Service helpers
// ---------------------------------------------------------------------------

/// Fetches a user's bucket and requires it nonempty; an order may only be
/// created from a nonempty bucket.
pub fn check_bucket(store: &Store, user_uuid: u128) -> (r: Result<Vec<BucketItem>, OrderError>)
    ensures
        match r {
            Ok(items) => items@ == bucket_of(store@.bucket, user_uuid) && items@.len() > 0,
            Err(e) => e == OrderError::EmptyBucket && bucket_of(store@.bucket, user_uuid).len()
                == 0,
        },
{
    let items = select_bucket_items_by_uuid(store, user_uuid);
    if items.len() == 0 {
        return Err(OrderError::EmptyBucket);
    }
    Ok(items)
}

/// Whether a finished order may still be rated at clock reading `now`: the
/// order must be finished, and the estimation window, counted from the last
/// storage write, must not have run out.
pub open spec fn rating_window_open(order: OrderInfo, now: int, window: int) -> bool {
    order.status == OrderStatus::Finished && window - (now - order.updated_at) > 0
}

/// The rating-window check at a given clock reading.
pub fn check_time_expiration_at(order: &OrderInfo, window: i64, now: i64) -> (r: Result<
    (),
    OrderError,
>)
    ensures
        r is Ok <==> rating_window_open(*order, now as int, window as int),
        r is Err ==> r == Err::<(), OrderError>(OrderError::RatingWindowExpired),
{
    match order.status {
        OrderStatus::Finished => {
            let diff: i128 = (now as i128) - (order.updated_at as i128);
            if (window as i128) - diff > 0 {
                Ok(())
            } else {
                Err(OrderError::RatingWindowExpired)
            }
        },
        _ => Err(OrderError::RatingWindowExpired),
    }
}

/// The rating-window check against the system clock. The clock decides the
/// reading, so only what holds for every reading is promised here;
/// `check_time_expiration_at` carries the exact contract.
pub fn check_time_expiration(order: &OrderInfo, window: i64) -> (r: Result<(), OrderError>)
    ensures
        r is Ok ==> order.status == OrderStatus::Finished,
        order.status != OrderStatus::Finished ==> r == Err::<(), OrderError>(
            OrderError::RatingWindowExpired,
        ),
        r is Err ==> r == Err::<(), OrderError>(OrderError::RatingWindowExpired),
{
    let now = sys::now_seconds();
    check_time_expiration_at(order, window, now)
}

impl ProductInfo {
    /// The secured view of the product's type: admins read it, everyone
    /// else is told off.
    pub fn product_type(&self, policy: &Policy, claims: &TokenClaims) -> (r: String)
        ensures
            policy.admin_policy@.contains(claims.role) ==> r@ == self.product_type@,
            !policy.admin_policy@.contains(claims.role) ==> r@ == "Forbidden"@,
    {
        if has_access(&policy.admin_policy, claims) {
            self.product_type.clone()
        } else {
            "Forbidden".to_owned()
        }
    }
}

// ---------------------------------------------------------------------------
// Product handlers
// ---------------------------------------------------------------------------

impl Products {
    /// Reads one product by key.
    pub fn product(&self, store: &Store, uuid: u128) -> (r: Result<ProductInfo, OrderError>)
        requires
            store@.wf(),
        ensures
            match r {
                Ok(p) => find_product(store@.products, uuid) == Some(p),
                Err(e) => e == OrderError::NotFound && !has_product(store@.products, uuid),
            },
    {
        select_product(store, uuid)
    }

    /// Lists products under the optional filters and ordering flags.
    pub fn products(
        &self,
        store: &Store,
        name: Option<String>,
        price_from_cheap: Option<bool>,
        price_from_expensive: Option<bool>,
        product_type: Option<String>,
        restaurant: Option<String>,
    ) -> (r: Vec<ProductInfo>)
        ensures
            is_product_listing(
                store@.products,
                name,
                price_from_cheap,
                price_from_expensive,
                product_type,
                restaurant,
                r@,
            ),
    {
        select_products_by_filter(
            store,
            name,
            price_from_cheap,
            price_from_expensive,
            product_type,
            restaurant,
        )
    }

    /// Creates a product; admins only.
    pub fn create_product(
        &self,
        store: &mut Store,
        policy: &Policy,
        claims: &TokenClaims,
        name: String,
        price: u64,
        product_type: String,
        restaurant: String,
    ) -> (r: Result<String, OrderError>)
        requires
            old(store)@.wf(),
        ensures
            final(store)@.wf(),
            final(store)@.only_products_changed(old(store)@),
            !policy.admin_policy@.contains(claims.role) ==> r == Err::<String, OrderError>(
                OrderError::Forbidden,
            ) && final(store)@ == old(store)@,
            policy.admin_policy@.contains(claims.role) ==> match r {
                Ok(msg) => {
                    &&& msg@ == "Product created"@
                    &&& final(store)@.products.len() == old(store)@.products.len() + 1
                    &&& final(store)@.products.drop_last() == old(store)@.products
                    &&& !has_product(old(store)@.products, final(store)@.products.last().uuid)
                    &&& final(store)@.products.last() == store::new_product_info(
                        (CreateProduct { name, price, product_type, restaurant }),
                        final(store)@.products.last().uuid,
                    )
                },
                Err(e) => e == OrderError::UpstreamUnavailable && final(store)@ == old(store)@,
            },
    {
        if !has_access(&policy.admin_policy, claims) {
            return Err(OrderError::Forbidden);
        }
        let new_product = CreateProduct { name, price, product_type, restaurant };
        match store::create_product(store, new_product) {
            Ok(_) => Ok("Product created".to_owned()),
            Err(e) => Err(e),
        }
    }

    /// Partially updates a product; admins only.
    pub fn update_product(
        &self,
        store: &mut Store,
        policy: &Policy,
        claims: &TokenClaims,
        name: Option<String>,
        price: Option<u64>,
        product_type: Option<String>,
        restaurant: Option<String>,
        uuid: u128,
    ) -> (r: Result<ProductInfo, OrderError>)
        requires
            old(store)@.wf(),
        ensures
            final(store)@.wf(),
            final(store)@.only_products_changed(old(store)@),
            !policy.admin_policy@.contains(claims.role) ==> r == Err::<ProductInfo, OrderError>(
                OrderError::Forbidden,
            ) && final(store)@ == old(store)@,
            policy.admin_policy@.contains(claims.role) ==> match r {
                Ok(p) => {
                    &&& has_product(old(store)@.products, uuid)
                    &&& p == store::apply_product_update(
                        old(store)@.products[store::product_pos(old(store)@.products, uuid)],
                        (UpdateProduct { name, price, product_type, restaurant }),
                    )
                    &&& final(store)@.products == old(store)@.products.update(
                        store::product_pos(old(store)@.products, uuid),
                        p,
                    )
                },
                Err(e) => {
                    &&& e == OrderError::NotFound
                    &&& !has_product(old(store)@.products, uuid)
                    &&& final(store)@ == old(store)@
                },
            },
    {
        if !has_access(&policy.admin_policy, claims) {
            return Err(OrderError::Forbidden);
        }
        let new_product = UpdateProduct { name, price, product_type, restaurant };
        store::update_product(store, new_product, uuid)
    }
}

// ---------------------------------------------------------------------------
// Bucket handlers
// ---------------------------------------------------------------------------

impl Buckets {
    /// Adds one row to the caller's own bucket; repeated adds pile up rows.
    pub fn add_to_bucket(
        &self,
        store: &mut Store,
        claims: &TokenClaims,
        user_uuid: u128,
        product_uuid: u128,
        amount: i16,
    ) -> (r: Result<BucketItem, OrderError>)
        ensures
            final(store)@.only_bucket_changed(old(store)@),
            final(store)@.wf() == old(store)@.wf(),
            claims.uuid != user_uuid ==> r == Err::<BucketItem, OrderError>(OrderError::Forbidden)
                && final(store)@ == old(store)@,
            claims.uuid == user_uuid ==> r == Ok::<BucketItem, OrderError>(
                (BucketItem { user_uuid, product_uuid, amount }),
            ) && final(store)@.bucket == old(store)@.bucket.push(
                (BucketItem { user_uuid, product_uuid, amount }),
            ),
    {
        if let Err(e) = has_access_by_uuid(claims, user_uuid) {
            return Err(e);
        }
        let bucket_item = BucketItem { user_uuid, product_uuid, amount };
        let created = store::create_bucket_item(store, bucket_item);
        Ok(created)
    }

    /// Lists a bucket: admins read anyone's, everyone else only their own.
    pub fn get_bucket_items(
        &self,
        store: &Store,
        policy: &Policy,
        claims: &TokenClaims,
        uuid: u128,
    ) -> (r: Result<Vec<BucketItem>, OrderError>)
        ensures
            !policy.admin_policy@.contains(claims.role) && claims.uuid != uuid ==> r == Err::<
                Vec<BucketItem>,
                OrderError,
            >(OrderError::Forbidden),
            policy.admin_policy@.contains(claims.role) || claims.uuid == uuid ==> match r {
                Ok(items) => items@ == bucket_of(store@.bucket, uuid),
                Err(_) => false,
            },
    {
        if !has_access(&policy.admin_policy, claims) {
            if let Err(e) = has_access_by_uuid(claims, uuid) {
                return Err(e);
            }
        }
        Ok(select_bucket_items_by_uuid(store, uuid))
    }

    /// Deletes every row of one product from the caller's own bucket.
    pub fn remove_from_bucket(
        &self,
        store: &mut Store,
        claims: &TokenClaims,
        user_uuid: u128,
        product_uuid: u128,
    ) -> (r: Result<String, OrderError>)
        ensures
            final(store)@.only_bucket_changed(old(store)@),
            final(store)@.wf() == old(store)@.wf(),
            claims.uuid != user_uuid ==> r == Err::<String, OrderError>(OrderError::Forbidden)
                && final(store)@ == old(store)@,
            claims.uuid == user_uuid ==> {
                &&& final(store)@.bucket == old(store)@.bucket.filter(
                    store::keep_unless_pair_pred(user_uuid, product_uuid),
                )
                &&& match r {
                    Ok(msg) => msg@ == "Item deleted"@,
                    Err(_) => false,
                }
            },
    {
        if let Err(e) = has_access_by_uuid(claims, user_uuid) {
            return Err(e);
        }
        store::delete_item_from_bucket(store, user_uuid, product_uuid);
        Ok("Item deleted".to_owned())
    }

    /// Empties the caller's own bucket.
    pub fn clear_bucket(&self, store: &mut Store, claims: &TokenClaims, user_uuid: u128) -> (r:
        Result<String, OrderError>)
        ensures
            final(store)@.only_bucket_changed(old(store)@),
            final(store)@.wf() == old(store)@.wf(),
            claims.uuid != user_uuid ==> r == Err::<String, OrderError>(OrderError::Forbidden)
                && final(store)@ == old(store)@,
            claims.uuid == user_uuid ==> {
                &&& final(store)@.bucket == old(store)@.bucket.filter(other_users_pred(user_uuid))
                &&& match r {
                    Ok(msg) => msg@ == "Bucket cleared"@,
                    Err(_) => false,
                }
            },
    {
        if let Err(e) = has_access_by_uuid(claims, user_uuid) {
            return Err(e);
        }
        store::delete_items_from_user_bucket(store, user_uuid);
        Ok("Bucket cleared".to_owned())
    }
}

// ---------------------------------------------------------------------------
// Order handlers
// ---------------------------------------------------------------------------

/// The order lines a bucket snapshot turns into at checkout.
pub open spec fn bucket_to_order_item_fn(order_uuid: u128) -> spec_fn(BucketItem) -> OrderItem {
    |b: BucketItem| OrderItem { order_uuid, product_uuid: b.product_uuid, amount: b.amount }
}

pub open spec fn order_items_from_bucket(items: Seq<BucketItem>, order_uuid: u128) -> Seq<
    OrderItem,
> {
    items.map_values(bucket_to_order_item_fn(order_uuid))
}

/// What checkout checks before anything else: the caller must be the named
/// user and the bucket must be nonempty. Courier assignment is consulted
/// only after both checks let the request through.
pub open spec fn create_order_gate(
    bucket: Seq<BucketItem>,
    claims: TokenClaims,
    user_uuid: u128,
) -> Result<(), OrderError> {
    if claims.uuid != user_uuid {
        Err(OrderError::Forbidden)
    } else if bucket_of(bucket, user_uuid).len() == 0 {
        Err(OrderError::EmptyBucket)
    } else {
        Ok(())
    }
}

/// Law: a user with zero bucket items never reaches courier assignment —
/// `create_order_gate`, which precedes the assignment step, already fails
/// with `EmptyBucket`.
pub proof fn lemma_empty_bucket_rejected(bucket: Seq<BucketItem>, claims: TokenClaims, user_uuid: u128)
    requires
        claims.uuid == user_uuid,
        bucket_of(bucket, user_uuid).len() == 0,
    ensures
        create_order_gate(bucket, claims, user_uuid) == Err::<(), OrderError>(
            OrderError::EmptyBucket,
        ),
{
}

/// What `estimate_delivery` decides before touching anything, given the
/// order table, the caller and the clock: the checks run in this order —
/// existence, not yet rated, caller is the order's user, window still open.
pub open spec fn estimate_decision(
    orders: Seq<OrderInfo>,
    claims: TokenClaims,
    order_uuid: u128,
    now: int,
    window: int,
) -> Result<(), OrderError> {
    match find_order(orders, order_uuid) {
        None => Err(OrderError::NotFound),
        Some(o) => if o.rating is Some {
            Err(OrderError::AlreadyRated)
        } else if claims.uuid != o.user_uuid {
            Err(OrderError::Forbidden)
        } else if !rating_window_open(o, now, window) {
            Err(OrderError::RatingWindowExpired)
        } else {
            Ok(())
        },
    }
}

/// The order table after a successful rating: the rated row carries the
/// rating and the write timestamp, everything else is untouched.
pub open spec fn orders_after_rating(
    orders: Seq<OrderInfo>,
    order_uuid: u128,
    rating: i16,
    now: int,
) -> Seq<OrderInfo> {
    let pos = order_pos(orders, order_uuid);
    orders.update(pos, (OrderInfo { rating: Some(rating), updated_at: now as i64, ..orders[pos] }))
}

/// Law: an order is rated at most once. After any successful
/// `estimate_delivery`, every further `estimate_delivery` of the same order
/// fails with `AlreadyRated` — whoever calls it, whenever, with whatever
/// window.
pub proof fn lemma_rated_at_most_once(
    orders: Seq<OrderInfo>,
    claims: TokenClaims,
    order_uuid: u128,
    rating: i16,
    now: int,
    window: int,
    later_claims: TokenClaims,
    later_now: int,
    later_window: int,
)
    requires
        store::unique_order_uuids(orders),
        estimate_decision(orders, claims, order_uuid, now, window) is Ok,
    ensures
        estimate_decision(
            orders_after_rating(orders, order_uuid, rating, now),
            later_claims,
            order_uuid,
            later_now,
            later_window,
        ) == Err::<(), OrderError>(OrderError::AlreadyRated),
{
    let pos = order_pos(orders, order_uuid);
    assert(0 <= pos < orders.len() && orders[pos].uuid == order_uuid);
    let updated = orders_after_rating(orders, order_uuid, rating, now);
    assert(updated[pos].uuid == order_uuid);
    assert(has_order(updated, order_uuid)) by {
        assert(updated[pos].uuid == order_uuid);
    }
    let k = order_pos(updated, order_uuid);
    assert(0 <= k < updated.len() && updated[k].uuid == order_uuid);
    assert(k == pos) by {
        if k != pos {
            assert(updated[k] == orders[k]);
            assert(orders[k].uuid != orders[pos].uuid);
        }
    }
    assert(updated[pos].rating is Some);
}

impl Orders {
    /// The first phase of checkout: the policy and bucket gate, run before
    /// the application shell spends an RPC on courier assignment. An empty
    /// bucket or a foreign caller stops the workflow here.
    pub fn create_order_begin(&self, store: &Store, claims: &TokenClaims, user_uuid: u128) -> (r:
        Result<Vec<BucketItem>, OrderError>)
        ensures
            match r {
                Ok(items) => create_order_gate(store@.bucket, *claims, user_uuid) is Ok && items@
                    == bucket_of(store@.bucket, user_uuid),
                Err(e) => create_order_gate(store@.bucket, *claims, user_uuid) == Err::<
                    (),
                    OrderError,
                >(e),
            },
    {
        if let Err(e) = has_access_by_uuid(claims, user_uuid) {
            return Err(e);
        }
        check_bucket(store, user_uuid)
    }

    /// The checkout workflow, resumed with the matching service's answer:
    /// gate again, decide on the assignment, then persist the order, its
    /// lines snapshotted from the bucket, and drain the bucket. A queued
    /// user gets the distinct `AddedToQueue` signal and no order exists
    /// afterwards; the order's key is drawn fresh at random, and on the
    /// (collision) outcome where the draw is taken the storage anomaly is
    /// reported instead.
    pub fn create_order(
        &self,
        store: &mut Store,
        claims: &TokenClaims,
        user_uuid: u128,
        address: String,
        reply: &CourierReply,
        now: i64,
    ) -> (r: Result<OrderInfo, OrderError>)
        requires
            old(store)@.wf(),
        ensures
            final(store)@.wf(),
            final(store)@.products == old(store)@.products,
            r is Err ==> final(store)@ == old(store)@,
            match create_order_gate(old(store)@.bucket, *claims, user_uuid) {
                Err(e) => r == Err::<OrderInfo, OrderError>(e),
                Ok(_) => match *reply {
                    CourierReply::Queued => r == Err::<OrderInfo, OrderError>(
                        OrderError::AddedToQueue,
                    ),
                    CourierReply::Unavailable => r == Err::<OrderInfo, OrderError>(
                        OrderError::UpstreamUnavailable,
                    ),
                    CourierReply::Assigned(courier_uuid) => match r {
                        Ok(o) => {
                            &&& o == store::new_order_info(
                                (CreateOrder { user_uuid, courier_uuid, address }),
                                o.uuid,
                                now,
                            )
                            &&& !has_order(old(store)@.orders, o.uuid)
                            &&& final(store)@.orders == old(store)@.orders.push(o)
                            &&& final(store)@.order_items == old(store)@.order_items
                                + order_items_from_bucket(
                                bucket_of(old(store)@.bucket, user_uuid),
                                o.uuid,
                            )
                            &&& final(store)@.bucket == old(store)@.bucket.filter(
                                other_users_pred(user_uuid),
                            )
                        },
                        Err(e) => e == OrderError::UpstreamUnavailable && final(store)@ == old(
                            store,
                        )@,
                    },
                },
            },
    {
        if let Err(e) = has_access_by_uuid(claims, user_uuid) {
            return Err(e);
        }
        let bucket = match check_bucket(store, user_uuid) {
            Ok(b) => b,
            Err(e) => { return Err(e) },
        };
        let courier_uuid = match find_free_courier(reply) {
            Ok(c) => c,
            Err(e) => { return Err(e) },
        };
        let new_order = CreateOrder { user_uuid, courier_uuid, address };
        let order = match store::create_order(store, new_order, now) {
            Ok(o) => o,
            Err(e) => { return Err(e) },
        };
        let ghost snapshot = bucket@;
        let mut order_items: Vec<OrderItem> = Vec::new();
        let n = bucket.len();
        let mut i: usize = 0;
        proof {
            assert(order_items@ =~= snapshot.take(0).map_values(
                bucket_to_order_item_fn(order.uuid),
            ));
        }
        while i < n
            invariant
                n == bucket@.len(),
                bucket@ == snapshot,
                0 <= i <= n,
                order_items@ == snapshot.take(i as int).map_values(
                    bucket_to_order_item_fn(order.uuid),
                ),
            decreases n - i,
        {
            let b = bucket[i];
            let item = OrderItem {
                order_uuid: order.uuid,
                product_uuid: b.product_uuid,
                amount: b.amount,
            };
            proof {
                let prefix = snapshot.take(i as int);
                assert(snapshot.take(i as int + 1) =~= prefix.push(snapshot[i as int]));
                assert(prefix.push(snapshot[i as int]).map_values(
                    bucket_to_order_item_fn(order.uuid),
                ) =~= prefix.map_values(bucket_to_order_item_fn(order.uuid)).push(item));
            }
            order_items.push(item);
            i = i + 1;
        }
        proof {
            assert(snapshot.take(n as int) =~= snapshot);
        }
        store::move_from_bucket_to_order(store, order_items);
        store::delete_items_from_user_bucket(store, user_uuid);
        let copy = order.clone();
        Ok(copy)
    }

    /// Reads one order; its user, its courier, analysts and admins may.
    pub fn order(&self, store: &Store, policy: &Policy, claims: &TokenClaims, uuid: u128) -> (r:
        Result<OrderInfo, OrderError>)
        requires
            store@.wf(),
        ensures
            match find_order(store@.orders, uuid) {
                None => r == Err::<OrderInfo, OrderError>(OrderError::NotFound),
                Some(o) => if order_access_allowed(policy.analyst_policy@, *claims, o) {
                    r == Ok::<OrderInfo, OrderError>(o)
                } else {
                    r == Err::<OrderInfo, OrderError>(OrderError::Forbidden)
                },
            },
    {
        let order = match select_order(store, uuid) {
            Ok(o) => o,
            Err(e) => { return Err(e) },
        };
        if let Err(e) = has_access_to_order(&policy.analyst_policy, claims, &order) {
            return Err(e);
        }
        Ok(order)
    }

    /// Browses orders under the optional filters; the policy decides once,
    /// at the filter level, not per returned row.
    pub fn filter_orders(
        &self,
        store: &Store,
        policy: &Policy,
        claims: &TokenClaims,
        order_uuid: Option<u128>,
        courier_uuid: Option<u128>,
        user_uuid: Option<u128>,
        address: Option<String>,
    ) -> (r: Result<Vec<OrderInfo>, OrderError>)
        ensures
            !filter_access_allowed(*policy, *claims, courier_uuid, user_uuid) ==> r == Err::<
                Vec<OrderInfo>,
                OrderError,
            >(OrderError::Forbidden),
            filter_access_allowed(*policy, *claims, courier_uuid, user_uuid) ==> match r {
                Ok(v) => v@ == store@.orders.filter(
                    order_filters_pred(order_uuid, courier_uuid, user_uuid, address),
                ),
                Err(_) => false,
            },
    {
        if let Err(e) = has_access_to_filters(policy, claims, courier_uuid, user_uuid) {
            return Err(e);
        }
        Ok(select_orders_by_filters(store, order_uuid, courier_uuid, user_uuid, address))
    }

    /// Reads the lines of one order, under the same per-order access rule.
    pub fn get_order_items(
        &self,
        store: &Store,
        policy: &Policy,
        claims: &TokenClaims,
        uuid: u128,
    ) -> (r: Result<Vec<OrderItem>, OrderError>)
        requires
            store@.wf(),
        ensures
            match find_order(store@.orders, uuid) {
                None => r == Err::<Vec<OrderItem>, OrderError>(OrderError::NotFound),
                Some(o) => if order_access_allowed(policy.admin_policy@, *claims, o) {
                    match r {
                        Ok(items) => items@ == items_of_order(store@.order_items, uuid),
                        Err(_) => false,
                    }
                } else {
                    r == Err::<Vec<OrderItem>, OrderError>(OrderError::Forbidden)
                },
            },
    {
        let order = match select_order(store, uuid) {
            Ok(o) => o,
            Err(e) => { return Err(e) },
        };
        if let Err(e) = has_access_to_order(&policy.admin_policy, claims, &order) {
            return Err(e);
        }
        Ok(select_order_items_by_uuid(store, uuid))
    }

    /// Attaches the user's rating to a finished order, exactly once, while
    /// the estimation window is open, and hands back the courier's
    /// refreshed reputation score for the shell to push upstream.
    pub fn estimate_delivery(
        &self,
        store: &mut Store,
        claims: &TokenClaims,
        order_uuid: u128,
        rating: i16,
        now: i64,
        window: i64,
    ) -> (r: Result<RatingUpdate, OrderError>)
        requires
            old(store)@.wf(),
            1 <= rating <= 5,
        ensures
            final(store)@.wf(),
            final(store)@.only_orders_changed(old(store)@),
            r is Err ==> final(store)@ == old(store)@,
            match estimate_decision(
                old(store)@.orders,
                *claims,
                order_uuid,
                now as int,
                window as int,
            ) {
                Err(e) => r == Err::<RatingUpdate, OrderError>(e),
                Ok(_) => {
                    &&& final(store)@.orders == orders_after_rating(
                        old(store)@.orders,
                        order_uuid,
                        rating,
                        now as int,
                    )
                    &&& match r {
                        Ok(u) => {
                            let courier = old(store)@.orders[order_pos(
                                old(store)@.orders,
                                order_uuid,
                            )].courier_uuid;
                            &&& u.courier_uuid == courier
                            &&& exists|h: Seq<i16>|
                                {
                                    &&& #[trigger] is_recent_rating_history(
                                        final(store)@.orders,
                                        courier,
                                        h,
                                    )
                                    &&& u.score.score_num == weighted_sum(padded_ratings(h))
                                    &&& u.score.score_den == triangular(
                                        padded_ratings(h).len() as int,
                                    )
                                }
                            &&& u.score.score_den > 0
                        },
                        Err(_) => false,
                    }
                },
            },
    {
        let order = match select_order(store, order_uuid) {
            Ok(o) => o,
            Err(e) => { return Err(e) },
        };
        match order.rating {
            Some(_) => Err(OrderError::AlreadyRated),
            None => {
                if let Err(e) = has_access_by_uuid(claims, order.user_uuid) {
                    return Err(e);
                }
                if let Err(e) = check_time_expiration_at(&order, window, now) {
                    return Err(e);
                }
                store::update_order_rating(store, order.uuid, rating, now);
                let upd = update_courier_rating(store, order.courier_uuid);
                Ok(upd)
            },
        }
    }

    /// Moves an in-progress order to `FINISHED`; only the assigned courier
    /// may, and only once — the status never goes back.
    pub fn complete_delivery(
        &self,
        store: &mut Store,
        claims: &TokenClaims,
        order_uuid: u128,
        now: i64,
    ) -> (r: Result<String, OrderError>)
        requires
            old(store)@.wf(),
        ensures
            final(store)@.wf(),
            final(store)@.only_orders_changed(old(store)@),
            r is Err ==> final(store)@ == old(store)@,
            match find_order(old(store)@.orders, order_uuid) {
                None => r == Err::<String, OrderError>(OrderError::NotFound),
                Some(o) => if o.status != OrderStatus::InProgress {
                    r == Err::<String, OrderError>(OrderError::AlreadyFinished)
                } else if claims.uuid != o.courier_uuid {
                    r == Err::<String, OrderError>(OrderError::Forbidden)
                } else {
                    &&& final(store)@.orders == old(store)@.orders.update(
                        order_pos(old(store)@.orders, order_uuid),
                        (OrderInfo { status: OrderStatus::Finished, updated_at: now, ..o }),
                    )
                    &&& match r {
                        Ok(msg) => msg@ == "Delivery finished"@,
                        Err(_) => false,
                    }
                },
            },
    {
        let order = match select_order(store, order_uuid) {
            Ok(o) => o,
            Err(e) => { return Err(e) },
        };
        match order.status {
            OrderStatus::InProgress => {
                if let Err(e) = has_access_by_uuid(claims, order.courier_uuid) {
                    return Err(e);
                }
                store::update_order_status(store, order_uuid, OrderStatus::Finished, now);
                Ok("Delivery finished".to_owned())
            },
            _ => Err(OrderError::AlreadyFinished),
        }
    }

    /// Polls the matching service's wait queue for the caller itself; the
    /// shell makes the poll and hands the answer in.
    pub fn wait_for_free_courier(
        &self,
        claims: &TokenClaims,
        user_uuid: u128,
        reply: Option<OrderQueueInfo>,
    ) -> (r: Result<OrderQueueInfo, OrderError>)
        ensures
            claims.uuid != user_uuid ==> r == Err::<OrderQueueInfo, OrderError>(
                OrderError::Forbidden,
            ),
            claims.uuid == user_uuid ==> match reply {
                Some(q) => r == Ok::<OrderQueueInfo, OrderError>(q),
                None => r == Err::<OrderQueueInfo, OrderError>(OrderError::UpstreamUnavailable),
            },
    {
        if let Err(e) = has_access_by_uuid(claims, user_uuid) {
            return Err(e);
        }
        check_courier_from_queue(reply)
    }
}

} // verus!
