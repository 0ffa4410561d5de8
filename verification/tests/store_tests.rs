use delivery_order::models::{
    BucketItem, CreateOrder, CreateProduct, OrderError, OrderInfo, OrderItem, OrderStatus,
    UpdateProduct,
};
use delivery_order::rating::count_average_rating;
use delivery_order::store::{
    create_bucket_item, create_order, create_product, delete_item_from_bucket,
    delete_items_from_user_bucket, get_courier_rating, select_bucket_items_by_uuid, select_order,
    select_order_items_by_uuid, select_orders_by_filters, select_product,
    select_products_by_filter, update_order_rating, update_order_status, update_product, Store,
};

fn rated_order(uuid: u128, courier: u128, updated_at: i64, rating: i16) -> OrderInfo {
    OrderInfo {
        uuid,
        user_uuid: 1,
        courier_uuid: courier,
        rating: Some(rating),
        status: OrderStatus::Finished,
        updated_at,
        address: "somewhere".to_owned(),
    }
}

#[test]
fn product_roundtrip_and_not_found() {
    let mut store = Store::new();
    let created = create_product(
        &mut store,
        CreateProduct {
            name: "soup".to_owned(),
            price: 450,
            product_type: "starter".to_owned(),
            restaurant: "corner".to_owned(),
        },
    );
    assert_eq!(created, Ok(1));
    let uuid = store.products[0].uuid;
    let found = select_product(&store, uuid).unwrap();
    assert_eq!(found.name, "soup");
    assert_eq!(found.price, 450);
    assert_eq!(select_product(&store, uuid.wrapping_add(1)).unwrap_err(), OrderError::NotFound);
}

#[test]
fn product_update_changes_only_given_fields() {
    let mut store = Store::new();
    create_product(
        &mut store,
        CreateProduct {
            name: "soup".to_owned(),
            price: 450,
            product_type: "starter".to_owned(),
            restaurant: "corner".to_owned(),
        },
    )
    .unwrap();
    let uuid = store.products[0].uuid;
    let updated = update_product(
        &mut store,
        UpdateProduct { name: None, price: Some(500), product_type: None, restaurant: None },
        uuid,
    )
    .unwrap();
    assert_eq!(updated.price, 500);
    assert_eq!(updated.name, "soup");
    assert_eq!(store.products[0].price, 500);
    let missing = update_product(
        &mut store,
        UpdateProduct { name: None, price: None, product_type: None, restaurant: None },
        uuid.wrapping_add(1),
    );
    assert_eq!(missing.unwrap_err(), OrderError::NotFound);
}

#[test]
fn bucket_rows_pile_up_and_delete_by_pair() {
    let mut store = Store::new();
    let row = BucketItem { user_uuid: 1, product_uuid: 7, amount: 2 };
    create_bucket_item(&mut store, row);
    create_bucket_item(&mut store, row);
    create_bucket_item(&mut store, BucketItem { user_uuid: 1, product_uuid: 8, amount: 1 });
    create_bucket_item(&mut store, BucketItem { user_uuid: 2, product_uuid: 7, amount: 5 });
    assert_eq!(select_bucket_items_by_uuid(&store, 1).len(), 3);
    let removed = delete_item_from_bucket(&mut store, 1, 7);
    assert_eq!(removed, 2);
    let left = select_bucket_items_by_uuid(&store, 1);
    assert_eq!(left.len(), 1);
    assert_eq!(left[0].product_uuid, 8);
    let cleared = delete_items_from_user_bucket(&mut store, 1);
    assert_eq!(cleared, 1);
    assert!(select_bucket_items_by_uuid(&store, 1).is_empty());
    assert_eq!(select_bucket_items_by_uuid(&store, 2).len(), 1);
}

#[test]
fn order_creation_and_updates() {
    let mut store = Store::new();
    let order = create_order(
        &mut store,
        CreateOrder { user_uuid: 3, courier_uuid: 4, address: "5 High St".to_owned() },
        1000,
    )
    .unwrap();
    assert_eq!(order.status, OrderStatus::InProgress);
    assert_eq!(order.rating, None);
    assert_eq!(order.updated_at, 1000);
    let fetched = select_order(&store, order.uuid).unwrap();
    assert_eq!(fetched.user_uuid, 3);
    assert_eq!(update_order_status(&mut store, order.uuid, OrderStatus::Finished, 2000), 1);
    assert_eq!(store.orders[0].status, OrderStatus::Finished);
    assert_eq!(store.orders[0].updated_at, 2000);
    assert_eq!(update_order_rating(&mut store, order.uuid, 4, 3000), 1);
    assert_eq!(store.orders[0].rating, Some(4));
    // Updates of a missing key touch nothing.
    assert_eq!(update_order_status(&mut store, order.uuid.wrapping_add(1), OrderStatus::Finished, 1), 0);
    assert_eq!(update_order_rating(&mut store, order.uuid.wrapping_add(1), 5, 1), 0);
    assert_eq!(select_order(&store, order.uuid.wrapping_add(1)).unwrap_err(), OrderError::NotFound);
}

#[test]
fn order_filters_narrow_and_compose() {
    let mut store = Store::new();
    store.orders.push(rated_order(1, 50, 10, 5));
    store.orders.push(OrderInfo {
        uuid: 2,
        user_uuid: 9,
        courier_uuid: 50,
        rating: None,
        status: OrderStatus::InProgress,
        updated_at: 20,
        address: "depot".to_owned(),
    });
    store.orders.push(rated_order(3, 60, 30, 4));
    let all = select_orders_by_filters(&store, None, None, None, None);
    assert_eq!(all.len(), 3);
    let by_courier = select_orders_by_filters(&store, None, Some(50), None, None);
    assert_eq!(by_courier.len(), 2);
    let by_courier_and_user = select_orders_by_filters(&store, None, Some(50), Some(9), None);
    assert_eq!(by_courier_and_user.len(), 1);
    assert_eq!(by_courier_and_user[0].uuid, 2);
    let by_address = select_orders_by_filters(&store, None, None, None, Some("depot".to_owned()));
    assert_eq!(by_address.len(), 1);
    assert_eq!(by_address[0].uuid, 2);
    let by_uuid = select_orders_by_filters(&store, Some(3), None, None, None);
    assert_eq!(by_uuid.len(), 1);
    assert_eq!(by_uuid[0].courier_uuid, 60);
}

#[test]
fn order_items_filter_by_order() {
    let mut store = Store::new();
    store.order_items.push(OrderItem { order_uuid: 1, product_uuid: 10, amount: 2 });
    store.order_items.push(OrderItem { order_uuid: 2, product_uuid: 11, amount: 1 });
    store.order_items.push(OrderItem { order_uuid: 1, product_uuid: 12, amount: 3 });
    let items = select_order_items_by_uuid(&store, 1);
    assert_eq!(items.len(), 2);
    assert_eq!(items[0].product_uuid, 10);
    assert_eq!(items[1].product_uuid, 12);
}

#[test]
fn rating_history_is_newest_first_and_skips_other_rows() {
    let mut store = Store::new();
    store.orders.push(rated_order(1, 50, 10, 1));
    store.orders.push(rated_order(2, 50, 30, 2));
    store.orders.push(rated_order(3, 50, 20, 3));
    // Not finished: never counts.
    store.orders.push(OrderInfo { status: OrderStatus::InProgress, ..rated_order(4, 50, 40, 5) });
    // Not rated: never counts.
    store.orders.push(OrderInfo { rating: None, ..rated_order(5, 50, 50, 5) });
    // Another courier's order: never counts.
    store.orders.push(rated_order(6, 60, 60, 5));
    let history = get_courier_rating(&store, 50);
    assert_eq!(history, vec![2, 3, 1]);
}

#[test]
fn rating_history_with_tied_timestamps_keeps_both() {
    let mut store = Store::new();
    store.orders.push(rated_order(1, 50, 100, 2));
    store.orders.push(rated_order(2, 50, 100, 4));
    store.orders.push(rated_order(3, 50, 200, 5));
    let history = get_courier_rating(&store, 50);
    assert_eq!(history.len(), 3);
    // The strictly newest row comes first; the tied rows both survive, in
    // an order the contract leaves open.
    assert_eq!(history[0], 5);
    assert!(history[1..] == [2, 4] || history[1..] == [4, 2]);
}

#[test]
fn rating_history_caps_at_149_most_recent() {
    let mut store = Store::new();
    let mut uuid: u128 = 1;
    let mut t: i64 = 1;
    while uuid <= 150 {
        // The rating cycles 1..=5; updated_at grows with the uuid.
        let r = ((uuid - 1) % 5 + 1) as i16;
        store.orders.push(rated_order(uuid, 50, t, r));
        uuid += 1;
        t += 1;
    }
    let history = get_courier_rating(&store, 50);
    assert_eq!(history.len(), 149);
    // The newest row (updated_at 150, uuid 150, rating 5) comes first...
    assert_eq!(history[0], 5);
    // ...and the oldest (updated_at 1, rating 1) is the one cut off: the
    // 149th entry is the row with updated_at 2, rating 2.
    assert_eq!(history[148], 2);
    let score = count_average_rating(&store, 50);
    assert!(score.score_den > 0);
}

#[test]
fn product_listing_filters_and_orders() {
    let mut store = Store::new();
    let items = [
        ("pasta", 900u64, "main", "roma"),
        ("tea", 200, "drink", "roma"),
        ("cake", 500, "dessert", "north"),
        ("soup", 400, "main", "roma"),
    ];
    let mut uuid: u128 = 1;
    for (name, price, ptype, rest) in items.iter() {
        store.products.push(delivery_order::models::ProductInfo {
            uuid,
            name: (*name).to_owned(),
            price: *price,
            product_type: (*ptype).to_owned(),
            restaurant: (*rest).to_owned(),
        });
        uuid += 1;
    }
    // Equality filters, no ordering: table order kept.
    let mains = select_products_by_filter(&store, None, None, None, Some("main".to_owned()), None);
    assert_eq!(mains.len(), 2);
    assert_eq!(mains[0].name, "pasta");
    assert_eq!(mains[1].name, "soup");
    let roma = select_products_by_filter(&store, None, None, None, None, Some("roma".to_owned()));
    assert_eq!(roma.len(), 3);
    // Price ascending.
    let cheap_first = select_products_by_filter(&store, None, Some(true), None, None, None);
    let prices: Vec<u64> = cheap_first.iter().map(|p| p.price).collect();
    assert_eq!(prices, vec![200, 400, 500, 900]);
    // Price descending wins over ascending when both are set, mirroring the
    // last ordering request replacing the ones before it.
    let expensive_first =
        select_products_by_filter(&store, None, Some(true), Some(true), None, None);
    let prices: Vec<u64> = expensive_first.iter().map(|p| p.price).collect();
    assert_eq!(prices, vec![900, 500, 400, 200]);
    // Name ordering: rows matching the name sort last.
    let tea_last = select_products_by_filter(&store, Some("tea".to_owned()), None, None, None, None);
    assert_eq!(tea_last.len(), 4);
    assert_eq!(tea_last[3].name, "tea");
}
