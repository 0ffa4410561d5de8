//! The repository model: an in-memory image of the four tables the core
//! works on, with the query and update semantics the order workflow relies
//! on. Persistence behind this surface is an external concern; every
//! operation here is specified exactly over the table contents.

use vstd::prelude::*;

use crate::models::{
    BucketItem, CreateOrder, CreateProduct, OrderError, OrderInfo, OrderItem, OrderStatus,
    ProductInfo, UpdateProduct,
};
use crate::sys;

verus! {

/// The four tables of the order domain.
pub struct Store {
    pub products: Vec<ProductInfo>,
    pub bucket: Vec<BucketItem>,
    pub orders: Vec<OrderInfo>,
    pub order_items: Vec<OrderItem>,
}

/// The mathematical content of a `Store`: each table as a sequence of rows.
#[verifier::ext_equal]
pub ghost struct StoreView {
    pub products: Seq<ProductInfo>,
    pub bucket: Seq<BucketItem>,
    pub orders: Seq<OrderInfo>,
    pub order_items: Seq<OrderItem>,
}

impl View for Store {
    type V = StoreView;

    open spec fn view(&self) -> StoreView {
        StoreView {
            products: self.products@,
            bucket: self.bucket@,
            orders: self.orders@,
            order_items: self.order_items@,
        }
    }
}

/// A stored rating is always between 1 and 5 once set.
pub open spec fn valid_rating(r: Option<i16>) -> bool {
    match r {
        Some(x) => 1 <= x <= 5,
        None => true,
    }
}

pub open spec fn unique_order_uuids(orders: Seq<OrderInfo>) -> bool {
    forall|i: int, j: int|
        #![trigger orders[i], orders[j]]
        0 <= i < j < orders.len() ==> orders[i].uuid != orders[j].uuid
}

pub open spec fn valid_ratings(orders: Seq<OrderInfo>) -> bool {
    forall|i: int| 0 <= i < orders.len() ==> valid_rating(#[trigger] orders[i].rating)
}

pub open spec fn unique_product_uuids(products: Seq<ProductInfo>) -> bool {
    forall|i: int, j: int|
        #![trigger products[i], products[j]]
        0 <= i < j < products.len() ==> products[i].uuid != products[j].uuid
}

impl StoreView {
    /// The store invariant: orders and products are keyed by their UUID, and
    /// a set rating is always in range.
    pub open spec fn wf(self) -> bool {
        &&& unique_order_uuids(self.orders)
        &&& valid_ratings(self.orders)
        &&& unique_product_uuids(self.products)
    }

    pub open spec fn only_orders_changed(self, other: StoreView) -> bool {
        &&& self.products == other.products
        &&& self.bucket == other.bucket
        &&& self.order_items == other.order_items
    }

    pub open spec fn only_products_changed(self, other: StoreView) -> bool {
        &&& self.bucket == other.bucket
        &&& self.orders == other.orders
        &&& self.order_items == other.order_items
    }

    pub open spec fn only_bucket_changed(self, other: StoreView) -> bool {
        &&& self.products == other.products
        &&& self.orders == other.orders
        &&& self.order_items == other.order_items
    }

    pub open spec fn only_order_items_changed(self, other: StoreView) -> bool {
        &&& self.products == other.products
        &&& self.bucket == other.bucket
        &&& self.orders == other.orders
    }
}

impl Store {
    pub fn new() -> (s: Store)
        ensures
            s@.products == Seq::<ProductInfo>::empty(),
            s@.bucket == Seq::<BucketItem>::empty(),
            s@.orders == Seq::<OrderInfo>::empty(),
            s@.order_items == Seq::<OrderItem>::empty(),
            s@.wf(),
    {
        Store { products: Vec::new(), bucket: Vec::new(), orders: Vec::new(), order_items: Vec::new() }
    }
}

// ---------------------------------------------------------------------------
// Lookup by key
// ---------------------------------------------------------------------------

pub open spec fn has_order(orders: Seq<OrderInfo>, uuid: u128) -> bool {
    exists|i: int| 0 <= i < orders.len() && (#[trigger] orders[i]).uuid == uuid
}

/// The index of the order with the given key; meaningful only under
/// `has_order`, and unique under `unique_order_uuids`.
pub open spec fn order_pos(orders: Seq<OrderInfo>, uuid: u128) -> int {
    choose|i: int| 0 <= i < orders.len() && (#[trigger] orders[i]).uuid == uuid
}

pub open spec fn find_order(orders: Seq<OrderInfo>, uuid: u128) -> Option<OrderInfo> {
    if has_order(orders, uuid) {
        Some(orders[order_pos(orders, uuid)])
    } else {
        None
    }
}

pub open spec fn has_product(products: Seq<ProductInfo>, uuid: u128) -> bool {
    exists|i: int| 0 <= i < products.len() && (#[trigger] products[i]).uuid == uuid
}

pub open spec fn product_pos(products: Seq<ProductInfo>, uuid: u128) -> int {
    choose|i: int| 0 <= i < products.len() && (#[trigger] products[i]).uuid == uuid
}

pub open spec fn find_product(products: Seq<ProductInfo>, uuid: u128) -> Option<ProductInfo> {
    if has_product(products, uuid) {
        Some(products[product_pos(products, uuid)])
    } else {
        None
    }
}

/// Selects the order with the given key, or `NotFound`.
pub fn select_order(store: &Store, order_uuid: u128) -> (r: Result<OrderInfo, OrderError>)
    requires
        store@.wf(),
    ensures
        match r {
            Ok(o) => find_order(store@.orders, order_uuid) == Some(o),
            Err(e) => e == OrderError::NotFound && !has_order(store@.orders, order_uuid),
        },
{
    let orders_len = store.orders.len();
    let mut i: usize = 0;
    while i < orders_len
        invariant
            orders_len == store@.orders.len(),
            0 <= i <= orders_len,
            store@.wf(),
            forall|j: int| 0 <= j < i ==> (#[trigger] store@.orders[j]).uuid != order_uuid,
        decreases orders_len - i,
    {
        if store.orders[i].uuid == order_uuid {
            proof {
                assert(has_order(store@.orders, order_uuid)) by {
                    assert(store@.orders[i as int].uuid == order_uuid);
                }
                let k = order_pos(store@.orders, order_uuid);
                assert(0 <= k < store@.orders.len() && store@.orders[k].uuid == order_uuid);
                assert(k == i as int);
            }
            return Ok(store.orders[i].clone());
        }
        i = i + 1;
    }
    Err(OrderError::NotFound)
}

/// Selects the product with the given key, or `NotFound`.
pub fn select_product(store: &Store, product_uuid: u128) -> (r: Result<ProductInfo, OrderError>)
    requires
        store@.wf(),
    ensures
        match r {
            Ok(p) => find_product(store@.products, product_uuid) == Some(p),
            Err(e) => e == OrderError::NotFound && !has_product(store@.products, product_uuid),
        },
{
    let products_len = store.products.len();
    let mut i: usize = 0;
    while i < products_len
        invariant
            products_len == store@.products.len(),
            0 <= i <= products_len,
            store@.wf(),
            forall|j: int| 0 <= j < i ==> (#[trigger] store@.products[j]).uuid != product_uuid,
        decreases products_len - i,
    {
        if store.products[i].uuid == product_uuid {
            proof {
                assert(has_product(store@.products, product_uuid)) by {
                    assert(store@.products[i as int].uuid == product_uuid);
                }
                let k = product_pos(store@.products, product_uuid);
                assert(0 <= k < store@.products.len() && store@.products[k].uuid == product_uuid);
                assert(k == i as int);
            }
            return Ok(store.products[i].clone());
        }
        i = i + 1;
    }
    Err(OrderError::NotFound)
}

// ---------------------------------------------------------------------------
// Filters
// ---------------------------------------------------------------------------

/// One step of a filtering loop: extending the scanned prefix by one element
/// extends the filtered image by that element exactly when it matches.
pub proof fn lemma_filter_take_step<A>(s: Seq<A>, pred: spec_fn(A) -> bool, i: int)
    requires
        0 <= i < s.len(),
    ensures
        s.take(i + 1).filter(pred) == if pred(s[i]) {
            s.take(i).filter(pred).push(s[i])
        } else {
            s.take(i).filter(pred)
        },
{
    assert(s.take(i + 1) =~= s.take(i).push(s[i]));
    s.take(i).lemma_filter_push(s[i], pred);
}

pub proof fn lemma_take_all<A>(s: Seq<A>)
    ensures
        s.take(s.len() as int) == s,
{
    assert(s.take(s.len() as int) =~= s);
}

pub open spec fn user_bucket_pred(user_uuid: u128) -> spec_fn(BucketItem) -> bool {
    |b: BucketItem| b.user_uuid == user_uuid
}

/// A user's bucket rows, in insertion order.
pub open spec fn bucket_of(bucket: Seq<BucketItem>, user_uuid: u128) -> Seq<BucketItem> {
    bucket.filter(user_bucket_pred(user_uuid))
}

/// Lists a user's bucket rows.
pub fn select_bucket_items_by_uuid(store: &Store, uuid: u128) -> (r: Vec<BucketItem>)
    ensures
        r@ == bucket_of(store@.bucket, uuid),
{
    let ghost pred = user_bucket_pred(uuid);
    let mut r: Vec<BucketItem> = Vec::new();
    let n = store.bucket.len();
    let mut i: usize = 0;
    proof {
        assert(store@.bucket.take(0).filter(pred) =~= Seq::<BucketItem>::empty());
    }
    while i < n
        invariant
            n == store@.bucket.len(),
            0 <= i <= n,
            r@ == store@.bucket.take(i as int).filter(pred),
            pred == user_bucket_pred(uuid),
        decreases n - i,
    {
        proof {
            lemma_filter_take_step(store@.bucket, pred, i as int);
        }
        let item = store.bucket[i];
        if item.user_uuid == uuid {
            r.push(item);
        }
        i = i + 1;
    }
    proof {
        lemma_take_all(store@.bucket);
    }
    r
}

/// Appends one bucket row; repeated adds of the same product pile up rows.
pub fn create_bucket_item(store: &mut Store, bucket_item: BucketItem) -> (r: BucketItem)
    ensures
        final(store)@.bucket == old(store)@.bucket.push(bucket_item),
        final(store)@.only_bucket_changed(old(store)@),
        final(store)@.wf() == old(store)@.wf(),
        r == bucket_item,
{
    store.bucket.push(bucket_item);
    bucket_item
}

pub open spec fn keep_unless_pair_pred(us_uuid: u128, prod_uuid: u128) -> spec_fn(BucketItem) -> bool {
    |b: BucketItem| !(b.user_uuid == us_uuid && b.product_uuid == prod_uuid)
}

pub open spec fn other_users_pred(us_uuid: u128) -> spec_fn(BucketItem) -> bool {
    |b: BucketItem| b.user_uuid != us_uuid
}

/// Deletes every bucket row of one `(user, product)` pair; returns how many
/// rows went away.
pub fn delete_item_from_bucket(store: &mut Store, us_uuid: u128, prod_uuid: u128) -> (r: usize)
    ensures
        final(store)@.bucket == old(store)@.bucket.filter(keep_unless_pair_pred(us_uuid, prod_uuid)),
        final(store)@.only_bucket_changed(old(store)@),
        final(store)@.wf() == old(store)@.wf(),
        r == old(store)@.bucket.len() - final(store)@.bucket.len(),
{
    let ghost pred = keep_unless_pair_pred(us_uuid, prod_uuid);
    let ghost orig = store@.bucket;
    let mut kept: Vec<BucketItem> = Vec::new();
    let n = store.bucket.len();
    let mut i: usize = 0;
    proof {
        assert(orig.take(0).filter(pred) =~= Seq::<BucketItem>::empty());
    }
    while i < n
        invariant
            n == store@.bucket.len(),
            store@.bucket == orig,
            0 <= i <= n,
            kept@ == orig.take(i as int).filter(pred),
            pred == keep_unless_pair_pred(us_uuid, prod_uuid),
        decreases n - i,
    {
        proof {
            lemma_filter_take_step(orig, pred, i as int);
        }
        let item = store.bucket[i];
        if !(item.user_uuid == us_uuid && item.product_uuid == prod_uuid) {
            kept.push(item);
        }
        i = i + 1;
    }
    proof {
        lemma_take_all(orig);
        orig.lemma_filter_len(pred);
    }
    let removed = store.bucket.len() - kept.len();
    store.bucket = kept;
    removed
}

/// Empties a user's bucket wholesale; returns how many rows went away.
pub fn delete_items_from_user_bucket(store: &mut Store, us_uuid: u128) -> (r: usize)
    ensures
        final(store)@.bucket == old(store)@.bucket.filter(other_users_pred(us_uuid)),
        final(store)@.only_bucket_changed(old(store)@),
        final(store)@.wf() == old(store)@.wf(),
        r == old(store)@.bucket.len() - final(store)@.bucket.len(),
{
    let ghost pred = other_users_pred(us_uuid);
    let ghost orig = store@.bucket;
    let mut kept: Vec<BucketItem> = Vec::new();
    let n = store.bucket.len();
    let mut i: usize = 0;
    proof {
        assert(orig.take(0).filter(pred) =~= Seq::<BucketItem>::empty());
    }
    while i < n
        invariant
            n == store@.bucket.len(),
            store@.bucket == orig,
            0 <= i <= n,
            kept@ == orig.take(i as int).filter(pred),
            pred == other_users_pred(us_uuid),
        decreases n - i,
    {
        proof {
            lemma_filter_take_step(orig, pred, i as int);
        }
        let item = store.bucket[i];
        if item.user_uuid != us_uuid {
            kept.push(item);
        }
        i = i + 1;
    }
    proof {
        lemma_take_all(orig);
        orig.lemma_filter_len(pred);
    }
    let removed = store.bucket.len() - kept.len();
    store.bucket = kept;
    removed
}

// ---------------------------------------------------------------------------
// Order creation and updates
// ---------------------------------------------------------------------------

/// The row a `CreateOrder` request materialises as: freshly keyed, not yet
/// rated, in progress.
pub open spec fn new_order_info(new_order: CreateOrder, order_uuid: u128, now: i64) -> OrderInfo {
    OrderInfo {
        uuid: order_uuid,
        user_uuid: new_order.user_uuid,
        courier_uuid: new_order.courier_uuid,
        rating: None,
        status: OrderStatus::InProgress,
        updated_at: now,
        address: new_order.address,
    }
}

/// Tests whether an order key is already taken.
pub fn contains_order(store: &Store, order_uuid: u128) -> (r: bool)
    ensures
        r == has_order(store@.orders, order_uuid),
{
    let n = store.orders.len();
    let mut i: usize = 0;
    while i < n
        invariant
            n == store@.orders.len(),
            0 <= i <= n,
            forall|j: int| 0 <= j < i ==> (#[trigger] store@.orders[j]).uuid != order_uuid,
        decreases n - i,
    {
        if store.orders[i].uuid == order_uuid {
            proof {
                assert(store@.orders[i as int].uuid == order_uuid);
            }
            return true;
        }
        i = i + 1;
    }
    false
}

/// Persists a new order row under the given key. The key decides: a taken
/// key is the storage anomaly `UpstreamUnavailable` and nothing changes; a
/// fresh key appends exactly the requested row.
pub fn insert_order(store: &mut Store, new_order: CreateOrder, order_uuid: u128, now: i64) -> (r:
    Result<OrderInfo, OrderError>)
    requires
        old(store)@.wf(),
    ensures
        final(store)@.wf(),
        final(store)@.only_orders_changed(old(store)@),
        match r {
            Ok(o) => {
                &&& !has_order(old(store)@.orders, order_uuid)
                &&& o == new_order_info(new_order, order_uuid, now)
                &&& final(store)@.orders == old(store)@.orders.push(o)
            },
            Err(e) => {
                &&& e == OrderError::UpstreamUnavailable
                &&& has_order(old(store)@.orders, order_uuid)
                &&& final(store)@ == old(store)@
            },
        },
{
    if contains_order(store, order_uuid) {
        return Err(OrderError::UpstreamUnavailable);
    }
    let o = OrderInfo {
        uuid: order_uuid,
        user_uuid: new_order.user_uuid,
        courier_uuid: new_order.courier_uuid,
        rating: None,
        status: OrderStatus::InProgress,
        updated_at: now,
        address: new_order.address,
    };
    let copy = o.clone();
    store.orders.push(o);
    proof {
        let orders = store@.orders;
        assert(unique_order_uuids(orders)) by {
            assert forall|i: int, j: int|
                #![trigger orders[i], orders[j]]
                0 <= i < j < orders.len() implies orders[i].uuid != orders[j].uuid by {
                if j < orders.len() - 1 {
                } else {
                    assert(orders[i] == old(store)@.orders[i]);
                }
            }
        }
        assert(valid_ratings(orders)) by {
            assert forall|i: int| 0 <= i < orders.len() implies valid_rating(
                #[trigger] orders[i].rating,
            ) by {
                if i < orders.len() - 1 {
                    assert(orders[i] == old(store)@.orders[i]);
                }
            }
        }
    }
    Ok(copy)
}

/// Creates an order: the store draws a fresh key for the row. The draw is
/// random, so on the (collision) outcome where the key is taken the call
/// reports the storage anomaly instead of inserting.
pub fn create_order(store: &mut Store, new_order: CreateOrder, now: i64) -> (r: Result<
    OrderInfo,
    OrderError,
>)
    requires
        old(store)@.wf(),
    ensures
        final(store)@.wf(),
        final(store)@.only_orders_changed(old(store)@),
        match r {
            Ok(o) => {
                &&& !has_order(old(store)@.orders, o.uuid)
                &&& o == new_order_info(
                    CreateOrder {
                        user_uuid: new_order.user_uuid,
                        courier_uuid: new_order.courier_uuid,
                        address: new_order.address,
                    },
                    o.uuid,
                    now,
                )
                &&& final(store)@.orders == old(store)@.orders.push(o)
            },
            Err(e) => e == OrderError::UpstreamUnavailable && final(store)@ == old(store)@,
        },
{
    let id = sys::new_uuid();
    insert_order(store, new_order, id, now)
}

/// Appends the order lines snapshotted from a bucket; returns how many.
pub fn move_from_bucket_to_order(store: &mut Store, items: Vec<OrderItem>) -> (r: usize)
    ensures
        final(store)@.order_items == old(store)@.order_items + items@,
        final(store)@.only_order_items_changed(old(store)@),
        final(store)@.wf() == old(store)@.wf(),
        r == items@.len(),
{
    let n = items.len();
    let mut moved = items;
    store.order_items.append(&mut moved);
    n
}

/// Sets the rating of the order under the given key (the storage layer also
/// refreshes the row's timestamp). Returns how many rows changed: one when
/// the key exists, zero otherwise.
pub fn update_order_rating(store: &mut Store, order_uuid: u128, new_rating: i16, now: i64) -> (r:
    usize)
    requires
        old(store)@.wf(),
        1 <= new_rating <= 5,
    ensures
        final(store)@.wf(),
        final(store)@.only_orders_changed(old(store)@),
        has_order(old(store)@.orders, order_uuid) ==> {
            &&& r == 1
            &&& final(store)@.orders == old(store)@.orders.update(
                order_pos(old(store)@.orders, order_uuid),
                (OrderInfo {
                    rating: Some(new_rating),
                    updated_at: now,
                    ..old(store)@.orders[order_pos(old(store)@.orders, order_uuid)]
                }),
            )
        },
        !has_order(old(store)@.orders, order_uuid) ==> r == 0 && final(store)@ == old(store)@,
{
    let ghost orig = store@.orders;
    let n = store.orders.len();
    let mut i: usize = 0;
    while i < n
        invariant
            n == store@.orders.len(),
            store@.orders == orig,
            old(store)@.orders == orig,
            store@.only_orders_changed(old(store)@),
            unique_order_uuids(orig),
            valid_ratings(orig),
            unique_product_uuids(store@.products),
            1 <= new_rating <= 5,
            0 <= i <= n,
            forall|j: int| 0 <= j < i ==> (#[trigger] orig[j]).uuid != order_uuid,
        decreases n - i,
    {
        if store.orders[i].uuid == order_uuid {
            proof {
                assert(has_order(orig, order_uuid)) by {
                    assert(orig[i as int].uuid == order_uuid);
                }
                let k = order_pos(orig, order_uuid);
                assert(0 <= k < orig.len() && orig[k].uuid == order_uuid);
                assert(k == i as int);
            }
            store.orders[i].rating = Some(new_rating);
            store.orders[i].updated_at = now;
            proof {
                let pos = order_pos(orig, order_uuid);
                assert(store@.orders =~= orig.update(
                    pos,
                    (OrderInfo { rating: Some(new_rating), updated_at: now, ..orig[pos] }),
                ));
                assert(unique_order_uuids(store@.orders)) by {
                    assert forall|a: int, b: int|
                        #![trigger store@.orders[a], store@.orders[b]]
                        0 <= a < b < store@.orders.len() implies store@.orders[a].uuid
                        != store@.orders[b].uuid by {
                        assert(store@.orders[a].uuid == orig[a].uuid);
                        assert(store@.orders[b].uuid == orig[b].uuid);
                    }
                }
                assert(valid_ratings(store@.orders)) by {
                    assert forall|a: int| 0 <= a < store@.orders.len() implies valid_rating(
                        #[trigger] store@.orders[a].rating,
                    ) by {
                        if a != pos {
                            assert(store@.orders[a] == orig[a]);
                        } else {
                            assert(store@.orders[a].rating == Some(new_rating));
                        }
                    }
                }
            }
            return 1;
        }
        i = i + 1;
    }
    0
}

/// Moves the order under the given key to a new status (the storage layer
/// also refreshes the row's timestamp). Returns how many rows changed.
pub fn update_order_status(
    store: &mut Store,
    order_uuid: u128,
    new_status: OrderStatus,
    now: i64,
) -> (r: usize)
    requires
        old(store)@.wf(),
    ensures
        final(store)@.wf(),
        final(store)@.only_orders_changed(old(store)@),
        has_order(old(store)@.orders, order_uuid) ==> {
            &&& r == 1
            &&& final(store)@.orders == old(store)@.orders.update(
                order_pos(old(store)@.orders, order_uuid),
                (OrderInfo {
                    status: new_status,
                    updated_at: now,
                    ..old(store)@.orders[order_pos(old(store)@.orders, order_uuid)]
                }),
            )
        },
        !has_order(old(store)@.orders, order_uuid) ==> r == 0 && final(store)@ == old(store)@,
{
    let ghost orig = store@.orders;
    let n = store.orders.len();
    let mut i: usize = 0;
    while i < n
        invariant
            n == store@.orders.len(),
            store@.orders == orig,
            old(store)@.orders == orig,
            store@.only_orders_changed(old(store)@),
            unique_order_uuids(orig),
            valid_ratings(orig),
            unique_product_uuids(store@.products),
            0 <= i <= n,
            forall|j: int| 0 <= j < i ==> (#[trigger] orig[j]).uuid != order_uuid,
        decreases n - i,
    {
        if store.orders[i].uuid == order_uuid {
            proof {
                assert(has_order(orig, order_uuid)) by {
                    assert(orig[i as int].uuid == order_uuid);
                }
                let k = order_pos(orig, order_uuid);
                assert(0 <= k < orig.len() && orig[k].uuid == order_uuid);
                assert(k == i as int);
            }
            store.orders[i].status = new_status;
            store.orders[i].updated_at = now;
            proof {
                let pos = order_pos(orig, order_uuid);
                assert(store@.orders =~= orig.update(
                    pos,
                    (OrderInfo { status: new_status, updated_at: now, ..orig[pos] }),
                ));
                assert(unique_order_uuids(store@.orders)) by {
                    assert forall|a: int, b: int|
                        #![trigger store@.orders[a], store@.orders[b]]
                        0 <= a < b < store@.orders.len() implies store@.orders[a].uuid
                        != store@.orders[b].uuid by {
                        assert(store@.orders[a].uuid == orig[a].uuid);
                        assert(store@.orders[b].uuid == orig[b].uuid);
                    }
                }
                assert(valid_ratings(store@.orders)) by {
                    assert forall|a: int| 0 <= a < store@.orders.len() implies valid_rating(
                        #[trigger] store@.orders[a].rating,
                    ) by {
                        if a != pos {
                            assert(store@.orders[a] == orig[a]);
                        } else {
                            assert(store@.orders[a].rating == orig[a].rating);
                        }
                    }
                }
            }
            return 1;
        }
        i = i + 1;
    }
    0
}

// ---------------------------------------------------------------------------
// Product creation and updates
// ---------------------------------------------------------------------------

/// The row a `CreateProduct` request materialises as.
pub open spec fn new_product_info(new_product: CreateProduct, product_uuid: u128) -> ProductInfo {
    ProductInfo {
        uuid: product_uuid,
        name: new_product.name,
        price: new_product.price,
        product_type: new_product.product_type,
        restaurant: new_product.restaurant,
    }
}

/// Tests whether a product key is already taken.
pub fn contains_product(store: &Store, product_uuid: u128) -> (r: bool)
    ensures
        r == has_product(store@.products, product_uuid),
{
    let n = store.products.len();
    let mut i: usize = 0;
    while i < n
        invariant
            n == store@.products.len(),
            0 <= i <= n,
            forall|j: int| 0 <= j < i ==> (#[trigger] store@.products[j]).uuid != product_uuid,
        decreases n - i,
    {
        if store.products[i].uuid == product_uuid {
            proof {
                assert(store@.products[i as int].uuid == product_uuid);
            }
            return true;
        }
        i = i + 1;
    }
    false
}

/// Persists a new product row under the given key; a taken key is the
/// storage anomaly `UpstreamUnavailable` and nothing changes.
pub fn insert_product(store: &mut Store, new_product: CreateProduct, product_uuid: u128) -> (r:
    Result<usize, OrderError>)
    requires
        old(store)@.wf(),
    ensures
        final(store)@.wf(),
        final(store)@.only_products_changed(old(store)@),
        match r {
            Ok(n) => {
                &&& n == 1
                &&& !has_product(old(store)@.products, product_uuid)
                &&& final(store)@.products == old(store)@.products.push(
                    new_product_info(new_product, product_uuid),
                )
            },
            Err(e) => {
                &&& e == OrderError::UpstreamUnavailable
                &&& has_product(old(store)@.products, product_uuid)
                &&& final(store)@ == old(store)@
            },
        },
{
    if contains_product(store, product_uuid) {
        return Err(OrderError::UpstreamUnavailable);
    }
    let p = ProductInfo {
        uuid: product_uuid,
        name: new_product.name,
        price: new_product.price,
        product_type: new_product.product_type,
        restaurant: new_product.restaurant,
    };
    store.products.push(p);
    proof {
        let products = store@.products;
        assert(unique_product_uuids(products)) by {
            assert forall|i: int, j: int|
                #![trigger products[i], products[j]]
                0 <= i < j < products.len() implies products[i].uuid != products[j].uuid by {
                if j < products.len() - 1 {
                } else {
                    assert(products[i] == old(store)@.products[i]);
                }
            }
        }
    }
    Ok(1)
}

/// Creates a product: the store draws a fresh key for the row; on the
/// random outcome where the drawn key is taken, the call reports the
/// storage anomaly instead of inserting.
pub fn create_product(store: &mut Store, new_product: CreateProduct) -> (r: Result<
    usize,
    OrderError,
>)
    requires
        old(store)@.wf(),
    ensures
        final(store)@.wf(),
        final(store)@.only_products_changed(old(store)@),
        match r {
            Ok(n) => {
                &&& n == 1
                &&& final(store)@.products.len() == old(store)@.products.len() + 1
                &&& final(store)@.products.drop_last() == old(store)@.products
                &&& !has_product(old(store)@.products, final(store)@.products.last().uuid)
                &&& final(store)@.products.last() == new_product_info(
                    CreateProduct {
                        name: new_product.name,
                        price: new_product.price,
                        product_type: new_product.product_type,
                        restaurant: new_product.restaurant,
                    },
                    final(store)@.products.last().uuid,
                )
            },
            Err(e) => e == OrderError::UpstreamUnavailable && final(store)@ == old(store)@,
        },
{
    let id = sys::new_uuid();
    let ghost before = store@.products;
    let r = insert_product(store, new_product, id);
    proof {
        if r is Ok {
            assert(store@.products.drop_last() =~= before);
        }
    }
    r
}

/// Applies a partial update to a product row: only the present fields
/// change, the key never does.
pub open spec fn apply_product_update(p: ProductInfo, u: UpdateProduct) -> ProductInfo {
    ProductInfo {
        uuid: p.uuid,
        name: match u.name {
            Some(n) => n,
            None => p.name,
        },
        price: match u.price {
            Some(x) => x,
            None => p.price,
        },
        product_type: match u.product_type {
            Some(t) => t,
            None => p.product_type,
        },
        restaurant: match u.restaurant {
            Some(rn) => rn,
            None => p.restaurant,
        },
    }
}

/// Updates the product under the given key and returns the row as it now
/// stands, or `NotFound`.
pub fn update_product(store: &mut Store, new_product: UpdateProduct, product_uuid: u128) -> (r:
    Result<ProductInfo, OrderError>)
    requires
        old(store)@.wf(),
    ensures
        final(store)@.wf(),
        final(store)@.only_products_changed(old(store)@),
        match r {
            Ok(p) => {
                &&& has_product(old(store)@.products, product_uuid)
                &&& p == apply_product_update(
                    old(store)@.products[product_pos(old(store)@.products, product_uuid)],
                    new_product,
                )
                &&& final(store)@.products == old(store)@.products.update(
                    product_pos(old(store)@.products, product_uuid),
                    p,
                )
            },
            Err(e) => {
                &&& e == OrderError::NotFound
                &&& !has_product(old(store)@.products, product_uuid)
                &&& final(store)@ == old(store)@
            },
        },
{
    let ghost orig = store@.products;
    let n = store.products.len();
    let mut i: usize = 0;
    while i < n
        invariant
            n == store@.products.len(),
            store@.products == orig,
            old(store)@.products == orig,
            store@.only_products_changed(old(store)@),
            unique_product_uuids(orig),
            unique_order_uuids(store@.orders),
            valid_ratings(store@.orders),
            0 <= i <= n,
            forall|j: int| 0 <= j < i ==> (#[trigger] orig[j]).uuid != product_uuid,
        decreases n - i,
    {
        if store.products[i].uuid == product_uuid {
            proof {
                assert(has_product(orig, product_uuid)) by {
                    assert(orig[i as int].uuid == product_uuid);
                }
                let k = product_pos(orig, product_uuid);
                assert(0 <= k < orig.len() && orig[k].uuid == product_uuid);
                assert(k == i as int);
            }
            let UpdateProduct { name, price, product_type, restaurant } = new_product;
            if let Some(v) = name {
                store.products[i].name = v;
            }
            if let Some(v) = price {
                store.products[i].price = v;
            }
            if let Some(v) = product_type {
                store.products[i].product_type = v;
            }
            if let Some(v) = restaurant {
                store.products[i].restaurant = v;
            }
            proof {
                let pos = product_pos(orig, product_uuid);
                assert(store@.products =~= orig.update(
                    pos,
                    apply_product_update(orig[pos], new_product),
                ));
                assert(unique_product_uuids(store@.products)) by {
                    assert forall|a: int, b: int|
                        #![trigger store@.products[a], store@.products[b]]
                        0 <= a < b < store@.products.len() implies store@.products[a].uuid
                        != store@.products[b].uuid by {
                        assert(store@.products[a].uuid == orig[a].uuid);
                        assert(store@.products[b].uuid == orig[b].uuid);
                    }
                }
            }
            return Ok(store.products[i].clone());
        }
        i = i + 1;
    }
    Err(OrderError::NotFound)
}

// ---------------------------------------------------------------------------
// Order queries
// ---------------------------------------------------------------------------

/// Whether an order passes the optional narrowing filters: every filter that
/// is present must match.
pub open spec fn order_matches_filters(
    o: OrderInfo,
    order_uuid: Option<u128>,
    uuid_courier: Option<u128>,
    uuid_user: Option<u128>,
    order_address: Option<String>,
) -> bool {
    &&& match order_uuid {
        Some(x) => o.uuid == x,
        None => true,
    }
    &&& match uuid_courier {
        Some(x) => o.courier_uuid == x,
        None => true,
    }
    &&& match uuid_user {
        Some(x) => o.user_uuid == x,
        None => true,
    }
    &&& match order_address {
        Some(a) => o.address@ == a@,
        None => true,
    }
}

pub open spec fn order_filters_pred(
    order_uuid: Option<u128>,
    uuid_courier: Option<u128>,
    uuid_user: Option<u128>,
    order_address: Option<String>,
) -> spec_fn(OrderInfo) -> bool {
    |o: OrderInfo| order_matches_filters(o, order_uuid, uuid_courier, uuid_user, order_address)
}

/// Narrows the order table by any subset of the four filters; no filters
/// returns every order, in table order.
pub fn select_orders_by_filters(
    store: &Store,
    order_uuid: Option<u128>,
    uuid_courier: Option<u128>,
    uuid_user: Option<u128>,
    order_address: Option<String>,
) -> (r: Vec<OrderInfo>)
    ensures
        r@ == store@.orders.filter(
            order_filters_pred(order_uuid, uuid_courier, uuid_user, order_address),
        ),
{
    let ghost pred = order_filters_pred(order_uuid, uuid_courier, uuid_user, order_address);
    let mut r: Vec<OrderInfo> = Vec::new();
    let n = store.orders.len();
    let mut i: usize = 0;
    proof {
        assert(store@.orders.take(0).filter(pred) =~= Seq::<OrderInfo>::empty());
    }
    while i < n
        invariant
            n == store@.orders.len(),
            0 <= i <= n,
            r@ == store@.orders.take(i as int).filter(pred),
            pred == order_filters_pred(order_uuid, uuid_courier, uuid_user, order_address),
        decreases n - i,
    {
        proof {
            lemma_filter_take_step(store@.orders, pred, i as int);
        }
        let o = &store.orders[i];
        let mut keep = true;
        if let Some(x) = order_uuid {
            if o.uuid != x {
                keep = false;
            }
        }
        if let Some(x) = uuid_courier {
            if o.courier_uuid != x {
                keep = false;
            }
        }
        if let Some(x) = uuid_user {
            if o.user_uuid != x {
                keep = false;
            }
        }
        if let Some(a) = &order_address {
            if !(&o.address).eq(a) {
                keep = false;
            }
        }
        if keep {
            r.push(store.orders[i].clone());
        }
        i = i + 1;
    }
    proof {
        lemma_take_all(store@.orders);
    }
    r
}

pub open spec fn order_items_pred(order_uuid: u128) -> spec_fn(OrderItem) -> bool {
    |it: OrderItem| it.order_uuid == order_uuid
}

/// The lines of one order, in insertion order.
pub open spec fn items_of_order(items: Seq<OrderItem>, order_uuid: u128) -> Seq<OrderItem> {
    items.filter(order_items_pred(order_uuid))
}

/// Lists the lines of one order.
pub fn select_order_items_by_uuid(store: &Store, uuid: u128) -> (r: Vec<OrderItem>)
    ensures
        r@ == items_of_order(store@.order_items, uuid),
{
    let ghost pred = order_items_pred(uuid);
    let mut r: Vec<OrderItem> = Vec::new();
    let n = store.order_items.len();
    let mut i: usize = 0;
    proof {
        assert(store@.order_items.take(0).filter(pred) =~= Seq::<OrderItem>::empty());
    }
    while i < n
        invariant
            n == store@.order_items.len(),
            0 <= i <= n,
            r@ == store@.order_items.take(i as int).filter(pred),
            pred == order_items_pred(uuid),
        decreases n - i,
    {
        proof {
            lemma_filter_take_step(store@.order_items, pred, i as int);
        }
        let item = store.order_items[i];
        if item.order_uuid == uuid {
            r.push(item);
        }
        i = i + 1;
    }
    proof {
        lemma_take_all(store@.order_items);
    }
    r
}

// ---------------------------------------------------------------------------
// Courier rating history
// ---------------------------------------------------------------------------

/// A row that counts towards a courier's reputation: finished, and carrying
/// a positive rating.
pub open spec fn rated_by_courier_pred(c_uuid: u128) -> spec_fn(OrderInfo) -> bool {
    |o: OrderInfo|
        o.courier_uuid == c_uuid && o.status == OrderStatus::Finished && (match o.rating {
            Some(x) => x > 0,
            None => false,
        })
}

pub open spec fn courier_rated_orders(orders: Seq<OrderInfo>, c_uuid: u128) -> Seq<OrderInfo> {
    orders.filter(rated_by_courier_pred(c_uuid))
}

/// Pairs a rated order with its recency key: a smaller key means a more
/// recent storage write, so sorting ascending by key is newest-first.
pub open spec fn order_rating_pair(o: OrderInfo) -> (u64, i16) {
    (((i64::MAX - o.updated_at) as u64), o.rating.unwrap())
}

pub open spec fn rating_pair_fn() -> spec_fn(OrderInfo) -> (u64, i16) {
    |o: OrderInfo| order_rating_pair(o)
}

pub open spec fn rating_of_pair_fn() -> spec_fn((u64, i16)) -> i16 {
    |p: (u64, i16)| p.1
}

pub open spec fn courier_rating_pairs(orders: Seq<OrderInfo>, c_uuid: u128) -> Seq<(u64, i16)> {
    courier_rated_orders(orders, c_uuid).map_values(rating_pair_fn())
}

/// `ratings` lists the ratings of the courier's most recently written
/// finished rated orders, most recent first, at most 149 of them. Rows whose
/// recency keys tie may come in either order.
pub open spec fn is_recent_rating_history(
    orders: Seq<OrderInfo>,
    c_uuid: u128,
    ratings: Seq<i16>,
) -> bool {
    exists|sorted: Seq<(u64, i16)>|
        {
            &&& #[trigger] sorted.to_multiset() == courier_rating_pairs(
                orders,
                c_uuid,
            ).to_multiset()
            &&& crate::sorting::keys_sorted_asc(sorted)
            &&& ratings == sorted.take(vstd::math::min(149, sorted.len() as int)).map_values(
                rating_of_pair_fn(),
            )
        }
}

/// The ratings of the courier's most recent finished rated orders, newest
/// first, capped at 149.
pub fn get_courier_rating(store: &Store, c_uuid: u128) -> (r: Vec<i16>)
    requires
        store@.wf(),
    ensures
        is_recent_rating_history(store@.orders, c_uuid, r@),
        r@.len() <= 149,
        forall|t: int| 0 <= t < r@.len() ==> 1 <= #[trigger] r@[t] <= 5,
{
    broadcast use vstd::seq_lib::group_to_multiset_ensures;
    broadcast use vstd::seq_lib::group_filter_ensures;

    let ghost pred = rated_by_courier_pred(c_uuid);
    let mut pairs: Vec<(u64, i16)> = Vec::new();
    let n = store.orders.len();
    let mut i: usize = 0;
    proof {
        assert(store@.orders.take(0).filter(pred) =~= Seq::<OrderInfo>::empty());
        assert(pairs@ =~= store@.orders.take(0).filter(pred).map_values(rating_pair_fn()));
    }
    while i < n
        invariant
            n == store@.orders.len(),
            0 <= i <= n,
            pairs@ == store@.orders.take(i as int).filter(pred).map_values(rating_pair_fn()),
            pred == rated_by_courier_pred(c_uuid),
        decreases n - i,
    {
        proof {
            lemma_filter_take_step(store@.orders, pred, i as int);
        }
        let o = &store.orders[i];
        let qualifies = o.courier_uuid == c_uuid && matches!(o.status, OrderStatus::Finished)
            && (match o.rating {
            Some(x) => x > 0,
            None => false,
        });
        if qualifies {
            let key_wide: i128 = (i64::MAX as i128) - (o.updated_at as i128);
            let key: u64 = key_wide as u64;
            let val: i16 = match o.rating {
                Some(x) => x,
                None => 0,
            };
            proof {
                assert(key_wide == i64::MAX - o.updated_at);
                assert(0 <= key_wide <= u64::MAX);
                assert((key, val) == order_rating_pair(store@.orders[i as int]));
                let prefix = store@.orders.take(i as int).filter(pred);
                assert(prefix.push(store@.orders[i as int]).map_values(rating_pair_fn())
                    =~= prefix.map_values(rating_pair_fn()).push((key, val)));
            }
            pairs.push((key, val));
        }
        i = i + 1;
    }
    proof {
        lemma_take_all(store@.orders);
        assert(pairs@ == courier_rating_pairs(store@.orders, c_uuid));
    }
    let ghost all_pairs = pairs@;
    let sorted = crate::sorting::sort_by_key(pairs);
    let limit: usize = if sorted.len() > 149 {
        149
    } else {
        sorted.len()
    };
    let mut out: Vec<i16> = Vec::new();
    let mut k: usize = 0;
    proof {
        assert(out@ =~= sorted@.take(0).map_values(rating_of_pair_fn()));
    }
    while k < limit
        invariant
            limit <= sorted@.len(),
            0 <= k <= limit,
            out@ == sorted@.take(k as int).map_values(rating_of_pair_fn()),
        decreases limit - k,
    {
        let p = sorted[k];
        proof {
            let prefix = sorted@.take(k as int);
            assert(sorted@.take(k as int + 1) =~= prefix.push(sorted@[k as int]));
            assert(prefix.push(sorted@[k as int]).map_values(rating_of_pair_fn())
                =~= prefix.map_values(rating_of_pair_fn()).push(p.1));
        }
        out.push(p.1);
        k = k + 1;
    }
    proof {
        assert(limit as int == vstd::math::min(149, sorted@.len() as int));
        assert(is_recent_rating_history(store@.orders, c_uuid, out@)) by {
            assert(sorted@.to_multiset() == courier_rating_pairs(
                store@.orders,
                c_uuid,
            ).to_multiset());
            assert(out@ == sorted@.take(vstd::math::min(149, sorted@.len() as int)).map_values(
                rating_of_pair_fn(),
            ));
        }
        let filtered = courier_rated_orders(store@.orders, c_uuid);
        assert forall|t: int| 0 <= t < out@.len() implies 1 <= #[trigger] out@[t] <= 5 by {
            let pr = sorted@[t];
            assert(out@[t] == pr.1);
            assert(sorted@.contains(pr)) by {
                assert(sorted@[t] == pr);
            }
            assert(all_pairs.to_multiset().count(pr) > 0);
            assert(all_pairs.contains(pr));
            let j = choose|j: int| 0 <= j < all_pairs.len() && all_pairs[j] == pr;
            assert(all_pairs[j] == order_rating_pair(filtered[j]));
            assert(rated_by_courier_pred(c_uuid)(filtered[j]));
            assert(filtered.contains(filtered[j])) by {
                assert(filtered[j] == filtered[j]);
            }
            store@.orders.lemma_filter_contains_rev(pred, filtered[j]);
            assert(store@.orders.contains(filtered[j]));
            let idx = choose|idx: int|
                0 <= idx < store@.orders.len() && store@.orders[idx] == filtered[j];
            assert(valid_rating(store@.orders[idx].rating));
        }
    }
    out
}

// ---------------------------------------------------------------------------
// Product listing
// ---------------------------------------------------------------------------

/// Which single ordering a product query ends up with: each requested
/// ordering replaces the one before it, so the last one requested wins.
#[derive(Clone, Copy, PartialEq, Eq, Structural, Debug)]
pub enum ProductOrdering {
    Unordered,
    NameMatchLast,
    PriceAsc,
    PriceDesc,
}

pub open spec fn chosen_product_ordering(
    pr_name: Option<String>,
    price_from_cheap: Option<bool>,
    price_from_expensive: Option<bool>,
) -> ProductOrdering {
    if price_from_expensive == Some(true) {
        ProductOrdering::PriceDesc
    } else if price_from_cheap == Some(true) {
        ProductOrdering::PriceAsc
    } else if pr_name is Some {
        ProductOrdering::NameMatchLast
    } else {
        ProductOrdering::Unordered
    }
}

/// The sort key a product row gets under an ordering; rows whose name
/// matches the requested name sort after the rest, mirroring a boolean
/// ascending sort.
pub open spec fn product_sort_key(
    ord: ProductOrdering,
    pr_name: Option<String>,
    p: ProductInfo,
) -> u64 {
    match ord {
        ProductOrdering::Unordered => 0,
        ProductOrdering::NameMatchLast => if pr_name is Some && p.name@ == pr_name.unwrap()@ {
            1
        } else {
            0
        },
        ProductOrdering::PriceAsc => p.price,
        ProductOrdering::PriceDesc => (u64::MAX - p.price) as u64,
    }
}

pub open spec fn keyed_product_fn(ord: ProductOrdering, pr_name: Option<String>) -> spec_fn(
    ProductInfo,
) -> (u64, ProductInfo) {
    |p: ProductInfo| (product_sort_key(ord, pr_name, p), p)
}

pub open spec fn product_of_pair_fn() -> spec_fn((u64, ProductInfo)) -> ProductInfo {
    |p: (u64, ProductInfo)| p.1
}

pub open spec fn product_filters_pred(
    pr_type: Option<String>,
    pr_restaurant: Option<String>,
) -> spec_fn(ProductInfo) -> bool {
    |p: ProductInfo|
        (match pr_type {
            Some(t) => p.product_type@ == t@,
            None => true,
        }) && (match pr_restaurant {
            Some(rn) => p.restaurant@ == rn@,
            None => true,
        })
}

/// What a product query returns: the rows passing the equality filters; in
/// table order when no ordering was requested, else any arrangement of those
/// rows that ascends by the chosen sort key.
pub open spec fn is_product_listing(
    products: Seq<ProductInfo>,
    pr_name: Option<String>,
    price_from_cheap: Option<bool>,
    price_from_expensive: Option<bool>,
    pr_type: Option<String>,
    pr_restaurant: Option<String>,
    result: Seq<ProductInfo>,
) -> bool {
    let filtered = products.filter(product_filters_pred(pr_type, pr_restaurant));
    let ord = chosen_product_ordering(pr_name, price_from_cheap, price_from_expensive);
    if ord == ProductOrdering::Unordered {
        result == filtered
    } else {
        exists|sorted: Seq<(u64, ProductInfo)>|
            {
                &&& #[trigger] sorted.to_multiset() == filtered.map_values(
                    keyed_product_fn(ord, pr_name),
                ).to_multiset()
                &&& crate::sorting::keys_sorted_asc(sorted)
                &&& result == sorted.map_values(product_of_pair_fn())
            }
    }
}

/// Narrows the product table by type and restaurant, then orders the result
/// as the flags ask: by price ascending or descending, or with the rows
/// matching the requested name last; a later ordering request replaces an
/// earlier one.
pub fn select_products_by_filter(
    store: &Store,
    pr_name: Option<String>,
    price_from_cheap: Option<bool>,
    price_from_expensive: Option<bool>,
    pr_type: Option<String>,
    pr_restaurant: Option<String>,
) -> (r: Vec<ProductInfo>)
    ensures
        is_product_listing(
            store@.products,
            pr_name,
            price_from_cheap,
            price_from_expensive,
            pr_type,
            pr_restaurant,
            r@,
        ),
{
    broadcast use vstd::seq_lib::group_to_multiset_ensures;

    let ghost pred = product_filters_pred(pr_type, pr_restaurant);
    let mut filtered: Vec<ProductInfo> = Vec::new();
    let n = store.products.len();
    let mut i: usize = 0;
    proof {
        assert(filtered@ =~= store@.products.take(0).filter(pred));
    }
    while i < n
        invariant
            n == store@.products.len(),
            0 <= i <= n,
            filtered@ == store@.products.take(i as int).filter(pred),
            pred == product_filters_pred(pr_type, pr_restaurant),
        decreases n - i,
    {
        proof {
            lemma_filter_take_step(store@.products, pred, i as int);
        }
        let p = &store.products[i];
        let mut keep = true;
        if let Some(t) = &pr_type {
            if !(&p.product_type).eq(t) {
                keep = false;
            }
        }
        if let Some(rn) = &pr_restaurant {
            if !(&p.restaurant).eq(rn) {
                keep = false;
            }
        }
        if keep {
            filtered.push(store.products[i].clone());
        }
        i = i + 1;
    }
    proof {
        lemma_take_all(store@.products);
    }
    let ghost filtered_seq = filtered@;
    let ghost ord = chosen_product_ordering(pr_name, price_from_cheap, price_from_expensive);

    let ordering_requested = matches!(price_from_expensive, Some(true)) || matches!(
        price_from_cheap,
        Some(true),
    ) || pr_name.is_some();
    if !ordering_requested {
        proof {
            assert(ord == ProductOrdering::Unordered);
        }
        return filtered;
    }

    let mut keyed: Vec<(u64, ProductInfo)> = Vec::new();
    let m = filtered.len();
    let mut j: usize = 0;
    proof {
        assert(keyed@ =~= filtered_seq.take(0).map_values(keyed_product_fn(ord, pr_name)));
    }
    while j < m
        invariant
            m == filtered@.len(),
            filtered@ == filtered_seq,
            0 <= j <= m,
            keyed@ == filtered_seq.take(j as int).map_values(keyed_product_fn(ord, pr_name)),
            ord == chosen_product_ordering(pr_name, price_from_cheap, price_from_expensive),
            ord != ProductOrdering::Unordered,
        decreases m - j,
    {
        let p = filtered[j].clone();
        let key: u64 = if matches!(price_from_expensive, Some(true)) {
            u64::MAX - p.price
        } else if matches!(price_from_cheap, Some(true)) {
            p.price
        } else {
            let mut matched: u64 = 0;
            if let Some(nm) = &pr_name {
                if (&p.name).eq(nm) {
                    matched = 1;
                }
            }
            matched
        };
        proof {
            assert(key == product_sort_key(ord, pr_name, filtered_seq[j as int]));
            assert((key, p) == keyed_product_fn(ord, pr_name)(filtered_seq[j as int]));
            let prefix = filtered_seq.take(j as int);
            assert(filtered_seq.take(j as int + 1) =~= prefix.push(filtered_seq[j as int]));
            assert(prefix.push(filtered_seq[j as int]).map_values(keyed_product_fn(ord, pr_name))
                =~= prefix.map_values(keyed_product_fn(ord, pr_name)).push((key, p)));
        }
        keyed.push((key, p));
        j = j + 1;
    }
    proof {
        lemma_take_all(filtered_seq);
        assert(keyed@ == filtered_seq.map_values(keyed_product_fn(ord, pr_name)));
    }
    let sorted = crate::sorting::sort_by_key(keyed);
    let ghost sorted_seq = sorted@;

    let mut out: Vec<ProductInfo> = Vec::new();
    let s_len = sorted.len();
    let mut k: usize = 0;
    proof {
        assert(out@ =~= sorted_seq.take(0).map_values(product_of_pair_fn()));
    }
    while k < s_len
        invariant
            s_len == sorted@.len(),
            sorted@ == sorted_seq,
            0 <= k <= s_len,
            out@ == sorted_seq.take(k as int).map_values(product_of_pair_fn()),
        decreases s_len - k,
    {
        let item = sorted[k].1.clone();
        proof {
            let prefix = sorted_seq.take(k as int);
            assert(sorted_seq.take(k as int + 1) =~= prefix.push(sorted_seq[k as int]));
            assert(prefix.push(sorted_seq[k as int]).map_values(product_of_pair_fn())
                =~= prefix.map_values(product_of_pair_fn()).push(item));
        }
        out.push(item);
        k = k + 1;
    }
    proof {
        lemma_take_all(sorted_seq);
        assert(out@ == sorted_seq.map_values(product_of_pair_fn()));
        assert(is_product_listing(
            store@.products,
            pr_name,
            price_from_cheap,
            price_from_expensive,
            pr_type,
            pr_restaurant,
            out@,
        )) by {
            assert(sorted_seq.to_multiset() == filtered_seq.map_values(
                keyed_product_fn(ord, pr_name),
            ).to_multiset());
        }
    }
    out
}

} // verus!
