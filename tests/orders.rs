use commerce::catalog::{
    describe_items, describe_order, distinct_product_ids, validate_new_product, validate_product_update, ProductError,
    ProductName,
};
use commerce::order::LineItem;
use commerce::pagination::PageRequest;
use commerce::status::OrderStatus;
use commerce::store::{
    Availability, CancelError, CreateError, InventoryError, ListError, NewOrder, OrderStore, UpdateError,
};
use commerce::workflow::{Call, CreateOrderRequest, CreateWorkflow, ItemRequest, Progress, Rejection};

fn s(v: &str) -> String {
    v.to_string()
}

fn line(pid: &str, quantity: i32, unit_price: i64) -> LineItem {
    LineItem { product_id: s(pid), quantity, unit_price }
}

fn new_order(user: &str, items: Vec<LineItem>) -> NewOrder {
    NewOrder { user_id: s(user), items, shipping_address: None }
}

fn request(user: &str, items: Vec<(&str, i32)>, address: &str) -> CreateOrderRequest {
    CreateOrderRequest {
        user_id: s(user),
        items: items.into_iter().map(|(p, q)| ItemRequest { product_id: s(p), quantity: q }).collect(),
        shipping_address: s(address),
    }
}

/// Runs a workflow against the store standing in for both services.
fn run_workflow(
    store: &OrderStore,
    req: CreateOrderRequest,
    user_exists: bool,
    price_of: &dyn Fn(&str) -> Option<i64>,
) -> Result<NewOrder, Rejection> {
    let mut w = CreateWorkflow::start(req)?;
    loop {
        let progress = match w.pending_call() {
            Call::VerifyUser(_) => w.user_checked(user_exists),
            Call::CheckAvailability(p, q) => {
                let a = store.check_availability(&p, q);
                w.availability_checked(a.available)
            }
            Call::FetchPrice(p) => w.price_fetched(price_of(&p)),
        };
        match progress {
            Progress::Continue(next) => w = next,
            Progress::Ready(o) => return Ok(o),
            Progress::Rejected(e) => return Err(e),
        }
    }
}

#[test]
fn create_order_captures_price_and_takes_stock() {
    let mut store = OrderStore::new();
    store.set_stock(s("PEN"), 10);
    let req = request("U", vec![("PEN", 2)], "A");
    let ready = run_workflow(&store, req, true, &|p| if p == "PEN" { Some(999) } else { None }).unwrap();
    let order = store.create_order(s("O1"), ready, 100).unwrap();
    assert_eq!(order.total_amount, 1998);
    assert_eq!(order.status, OrderStatus::Pending);
    assert_eq!(order.shipping_address, Some(s("A")));
    assert_eq!(order.items.len(), 1);
    assert_eq!(order.items[0].unit_price, 999);
    assert_eq!(store.stock_level(&s("PEN")), Some(8));
}

#[test]
fn cancel_of_cancelled_order_is_refused_without_stock_change() {
    let mut store = OrderStore::new();
    store.set_stock(s("PEN"), 10);
    store.create_order(s("O"), new_order("U", vec![line("PEN", 3, 500)]), 1).unwrap();
    assert_eq!(store.stock_level(&s("PEN")), Some(7));
    assert_eq!(store.cancel_order(&s("O"), &s("U"), 2), Ok(()));
    assert_eq!(store.stock_level(&s("PEN")), Some(10));
    assert_eq!(store.cancel_order(&s("O"), &s("U"), 3), Err(CancelError::AlreadyCancelled));
    assert_eq!(store.stock_level(&s("PEN")), Some(10));
    assert_eq!(store.get_order(&s("O")).unwrap().status, OrderStatus::Cancelled);
}

#[test]
fn cancel_restores_each_line_once() {
    let mut store = OrderStore::new();
    store.set_stock(s("A"), 5);
    store.set_stock(s("B"), 7);
    let items = vec![line("A", 2, 100), line("B", 1, 50), line("A", 1, 100)];
    let o = store.create_order(s("O"), new_order("U", items), 1).unwrap();
    assert_eq!(o.total_amount, 350);
    assert_eq!(store.stock_level(&s("A")), Some(2));
    assert_eq!(store.stock_level(&s("B")), Some(6));
    store.cancel_order(&s("O"), &s(""), 2).unwrap();
    assert_eq!(store.stock_level(&s("A")), Some(5));
    assert_eq!(store.stock_level(&s("B")), Some(7));
}

#[test]
fn cancel_of_delivered_order_is_refused() {
    let mut store = OrderStore::new();
    store.set_stock(s("P"), 4);
    store.create_order(s("O"), new_order("U", vec![line("P", 1, 10)]), 1).unwrap();
    store.update_order(&s("O"), OrderStatus::Delivered, &s(""), 2).unwrap();
    assert_eq!(store.cancel_order(&s("O"), &s("U"), 3), Err(CancelError::Delivered));
    assert_eq!(store.stock_level(&s("P")), Some(3));
}

#[test]
fn cancel_errors() {
    let mut store = OrderStore::new();
    store.create_order(s("O"), new_order("U", vec![line("P", 1, 10)]), 1).unwrap();
    assert_eq!(store.cancel_order(&s(""), &s("U"), 2), Err(CancelError::MissingOrderId));
    assert_eq!(store.cancel_order(&s("X"), &s("U"), 2), Err(CancelError::NotFound));
    assert_eq!(store.cancel_order(&s("O"), &s("V"), 2), Err(CancelError::NotOwner));
    assert_eq!(store.get_order(&s("O")).unwrap().status, OrderStatus::Pending);
}

#[test]
fn cancel_refused_when_stock_would_overflow() {
    let mut store = OrderStore::new();
    store.set_stock(s("P"), 5);
    store.create_order(s("O"), new_order("U", vec![line("P", 5, 1)]), 1).unwrap();
    store.set_stock(s("P"), i64::MAX - 1);
    assert_eq!(store.cancel_order(&s("O"), &s("U"), 2), Err(CancelError::StockOverflow));
    assert_eq!(store.stock_level(&s("P")), Some(i64::MAX - 1));
}

#[test]
fn create_errors_change_nothing() {
    let mut store = OrderStore::new();
    store.set_stock(s("P"), i64::MIN + 1);
    assert_eq!(
        store.create_order(s("O"), new_order("U", vec![line("P", 2, 1)]), 1).unwrap_err(),
        CreateError::StockOverflow
    );
    assert_eq!(
        store.create_order(s("O"), new_order("U", vec![line("Q", 2, i64::MAX)]), 1).unwrap_err(),
        CreateError::InvalidTotal
    );
    assert_eq!(
        store.create_order(s("O"), new_order("U", vec![line("Q", 1, 1), line("Q", 0, 1)]), 1).unwrap_err(),
        CreateError::InvalidLine
    );
    assert_eq!(
        store.create_order(s("O"), new_order("U", vec![line("Q", 2, i64::MIN)]), 1).unwrap_err(),
        CreateError::InvalidTotal
    );
    assert_eq!(
        store.create_order(s("O"), new_order("U", vec![line("Q", 1, i64::MAX), line("Q", 1, 1)]), 1).unwrap_err(),
        CreateError::InvalidTotal
    );
    assert!(store.get_order(&s("O")).is_none());
    store.create_order(s("O"), new_order("U", vec![line("Q", 1, 1)]), 1).unwrap();
    assert_eq!(
        store.create_order(s("O"), new_order("U", vec![line("Q", 1, 1)]), 1).unwrap_err(),
        CreateError::DuplicateId
    );
    assert_eq!(store.stock_level(&s("P")), Some(i64::MIN + 1));
}

#[test]
fn total_is_kept_when_catalog_price_changes() {
    let mut store = OrderStore::new();
    store.set_stock(s("P"), 10);
    let first = run_workflow(&store, request("U", vec![("P", 3)], ""), true, &|_| Some(250)).unwrap();
    let o = store.create_order(s("O1"), first, 1).unwrap();
    assert_eq!(o.total_amount, 750);
    let second = run_workflow(&store, request("U", vec![("P", 1)], ""), true, &|_| Some(400)).unwrap();
    store.create_order(s("O2"), second, 2).unwrap();
    let again = store.get_order(&s("O1")).unwrap();
    assert_eq!(again.total_amount, 750);
    assert_eq!(again.items[0].unit_price, 250);
    let updated = store.update_order(&s("O1"), OrderStatus::Shipped, &s("Elm St"), 3).unwrap();
    assert_eq!(updated.total_amount, 750);
    assert_eq!(updated.shipping_address, Some(s("Elm St")));
}

#[test]
fn place_order_uses_random_id() {
    let mut store = OrderStore::new();
    let o = store.place_order(new_order("U", vec![line("P", 1, 5)]), 1).unwrap();
    assert_eq!(o.id.len(), 36);
    assert!(store.get_order(&o.id).is_some());
    let p = store.place_order(new_order("U", vec![line("P", 1, 5)]), 1).unwrap();
    assert_ne!(o.id, p.id);
}

#[test]
fn update_leaves_address_when_empty() {
    let mut store = OrderStore::new();
    let no = NewOrder { user_id: s("U"), items: vec![line("P", 1, 5)], shipping_address: Some(s("Home")) };
    store.create_order(s("O"), no, 1).unwrap();
    let o = store.update_order(&s("O"), OrderStatus::Confirmed, &s(""), 5).unwrap();
    assert_eq!(o.status, OrderStatus::Confirmed);
    assert_eq!(o.shipping_address, Some(s("Home")));
    assert_eq!(o.updated_at, 5);
    // Any status may be set, even out of a terminal one.
    store.update_order(&s("O"), OrderStatus::Cancelled, &s(""), 6).unwrap();
    let back = store.update_order(&s("O"), OrderStatus::Pending, &s(""), 7).unwrap();
    assert_eq!(back.status, OrderStatus::Pending);
    assert_eq!(store.update_order(&s(""), OrderStatus::Pending, &s(""), 7).unwrap_err(), UpdateError::MissingOrderId);
    assert_eq!(store.update_order(&s("X"), OrderStatus::Pending, &s(""), 7).unwrap_err(), UpdateError::NotFound);
}

fn store_with_statuses() -> OrderStore {
    let mut store = OrderStore::new();
    let statuses = [
        OrderStatus::Pending,
        OrderStatus::Confirmed,
        OrderStatus::Processing,
        OrderStatus::Processing,
        OrderStatus::Shipped,
        OrderStatus::Delivered,
    ];
    for (i, st) in statuses.iter().enumerate() {
        let id = format!("O{}", i);
        let user = if i % 2 == 0 { "U" } else { "V" };
        store.create_order(id.clone(), new_order(user, vec![line("P", 1, 10)]), i as i64).unwrap();
        store.update_order(&id, *st, &s(""), 100).unwrap();
    }
    store
}

#[test]
fn list_all_returns_every_status_newest_first() {
    let store = store_with_statuses();
    let page = store.list_orders(0, 1, 10);
    assert_eq!(page.total_count, 6);
    let ids: Vec<&str> = page.orders.iter().map(|o| o.id.as_str()).collect();
    assert_eq!(ids, vec!["O5", "O4", "O3", "O2", "O1", "O0"]);
}

#[test]
fn list_with_status_returns_only_matching() {
    let store = store_with_statuses();
    let page = store.list_orders(OrderStatus::Processing.code(), 1, 10);
    assert_eq!(page.total_count, 2);
    assert!(page.orders.iter().all(|o| o.status == OrderStatus::Processing));
    let small = store.list_orders(OrderStatus::Processing.code(), 2, 1);
    assert_eq!(small.total_count, 2);
    assert_eq!(small.orders.len(), 1);
    assert_eq!(small.orders[0].id, "O2");
    // A number that names no status selects pending orders.
    let odd = store.list_orders(42, 1, 10);
    assert_eq!(odd.total_count, 1);
    assert_eq!(odd.orders[0].id, "O0");
}

#[test]
fn pagination_defaults() {
    let store = store_with_statuses();
    let a = store.list_orders(0, 0, 0);
    let b = store.list_orders(0, 1, 10);
    assert_eq!(a.orders.len(), b.orders.len());
    let c = store.list_orders(0, -3, 101);
    assert_eq!(c.orders.len(), 6);
    let d = store.list_orders(0, 2, 4);
    assert_eq!(d.orders.len(), 2);
    assert_eq!(d.total_count, 6);
    let e = store.list_orders(0, 5, 4);
    assert!(e.orders.is_empty());
    assert_eq!(e.total_count, 6);
}

#[test]
fn orders_by_user() {
    let store = store_with_statuses();
    let page = store.orders_by_user(&s("V"), 1, 10).unwrap();
    assert_eq!(page.total_count, 3);
    let ids: Vec<&str> = page.orders.iter().map(|o| o.id.as_str()).collect();
    assert_eq!(ids, vec!["O5", "O3", "O1"]);
    assert_eq!(store.orders_by_user(&s(""), 1, 10).unwrap_err(), ListError::MissingUserId);
}

#[test]
fn workflow_rejections() {
    let store = {
        let mut st = OrderStore::new();
        st.set_stock(s("P"), 1);
        st.set_stock(s("Q"), 5);
        st
    };
    let price = |p: &str| if p == "Q" { Some(100) } else if p == "P" { None } else { Some(-1) };
    assert!(matches!(run_workflow(&store, request("", vec![("P", 1)], ""), true, &price), Err(Rejection::MissingUserId)));
    assert!(matches!(run_workflow(&store, request("U", vec![], ""), true, &price), Err(Rejection::NoItems)));
    match run_workflow(&store, request("U", vec![("Q", 1), ("P", 0)], ""), true, &price) {
        Err(Rejection::InvalidQuantity(p)) => assert_eq!(p, "P"),
        other => panic!("unexpected {:?}", other),
    }
    assert!(matches!(run_workflow(&store, request("U", vec![("Q", 1)], ""), false, &price), Err(Rejection::UserNotFound)));
    match run_workflow(&store, request("U", vec![("Q", 1), ("P", 2)], ""), true, &price) {
        Err(Rejection::Unavailable(p)) => assert_eq!(p, "P"),
        other => panic!("unexpected {:?}", other),
    }
    match run_workflow(&store, request("U", vec![("P", 1)], ""), true, &price) {
        Err(Rejection::ProductNotFound(p)) => assert_eq!(p, "P"),
        other => panic!("unexpected {:?}", other),
    }
    let mut with_r = OrderStore::new();
    with_r.set_stock(s("R"), 3);
    // A negative catalog price is taken as it comes.
    let ready = run_workflow(&with_r, request("U", vec![("R", 1)], ""), true, &price).unwrap();
    assert_eq!(ready.items[0].unit_price, -1);
}

#[test]
fn workflow_asks_in_order() {
    let w = CreateWorkflow::start(request("U", vec![("A", 2), ("B", 1)], "")).unwrap();
    assert!(matches!(w.pending_call(), Call::VerifyUser(ref u) if u == "U"));
    let w = match w.user_checked(true) {
        Progress::Continue(w) => w,
        _ => panic!(),
    };
    assert!(matches!(w.pending_call(), Call::CheckAvailability(ref p, 2) if p == "A"));
    let w = match w.availability_checked(true) {
        Progress::Continue(w) => w,
        _ => panic!(),
    };
    assert!(matches!(w.pending_call(), Call::FetchPrice(ref p) if p == "A"));
    let w = match w.price_fetched(Some(7)) {
        Progress::Continue(w) => w,
        _ => panic!(),
    };
    assert!(matches!(w.pending_call(), Call::CheckAvailability(ref p, 1) if p == "B"));
    let w = match w.availability_checked(true) {
        Progress::Continue(w) => w,
        _ => panic!(),
    };
    match w.price_fetched(Some(3)) {
        Progress::Ready(o) => {
            assert_eq!(o.items.len(), 2);
            assert_eq!(o.items[0].unit_price, 7);
            assert_eq!(o.items[1].unit_price, 3);
            assert_eq!(o.shipping_address, None);
        }
        _ => panic!(),
    }
}

#[test]
fn availability_and_inventory_changes() {
    let mut store = OrderStore::new();
    store.set_stock(s("P"), 5);
    assert_eq!(store.check_availability(&s("P"), 5), Availability { available: true, current_stock: 5 });
    assert_eq!(store.check_availability(&s("P"), 6), Availability { available: false, current_stock: 5 });
    assert_eq!(store.check_availability(&s("X"), 1), Availability { available: false, current_stock: 0 });
    assert_eq!(store.check_availability(&s(""), 1), Availability { available: false, current_stock: 0 });
    assert_eq!(store.update_inventory(&s("P"), -5), Ok(0));
    assert_eq!(store.update_inventory(&s("P"), -1), Err(InventoryError::Insufficient));
    assert_eq!(store.update_inventory(&s("P"), 3), Ok(3));
    assert_eq!(store.update_inventory(&s(""), 3), Err(InventoryError::MissingProductId));
    assert_eq!(store.update_inventory(&s("X"), 3), Err(InventoryError::NotFound));
    store.set_stock(s("M"), i64::MAX);
    assert_eq!(store.update_inventory(&s("M"), 1), Err(InventoryError::Overflow));
    assert_eq!(store.stock_level(&s("P")), Some(3));
}

#[test]
fn status_codes_and_texts() {
    assert_eq!(OrderStatus::from_code(3), Some(OrderStatus::Shipped));
    assert_eq!(OrderStatus::from_code(6), None);
    assert_eq!(OrderStatus::from_code_or_pending(-1), OrderStatus::Pending);
    assert_eq!(OrderStatus::Cancelled.to_text(), "CANCELLED");
    assert_eq!(OrderStatus::from_text(&s("DELIVERED")), OrderStatus::Delivered);
    assert_eq!(OrderStatus::from_text(&s("weird")), OrderStatus::Pending);
    assert!(OrderStatus::Shipped.is_cancellable());
    assert!(!OrderStatus::Delivered.is_cancellable());
    assert_eq!(commerce::status::status_filter(0), None);
    assert_eq!(commerce::status::status_filter(4), Some(OrderStatus::Delivered));
}

#[test]
fn page_request_normalization() {
    let p = PageRequest::normalize(0, 0);
    assert_eq!((p.page, p.page_size), (1, 10));
    let p = PageRequest::normalize(-7, 101);
    assert_eq!((p.page, p.page_size), (1, 10));
    let p = PageRequest::normalize(3, 100);
    assert_eq!((p.page, p.page_size), (3, 100));
    assert_eq!(p.offset(), 200);
}

#[test]
fn items_described_with_names() {
    let items = vec![line("A", 2, 150), line("B", 1, 20)];
    let names = vec![ProductName { product_id: s("A"), name: s("Apple") }];
    let v = describe_items(&items, &names).unwrap();
    assert_eq!(v[0].product_name, "Apple");
    assert_eq!(v[0].subtotal, 300);
    assert_eq!(v[1].product_name, "");
    assert_eq!(v[1].subtotal, 20);
    assert!(describe_items(&vec![line("A", 2, i64::MAX)], &names).is_none());
}

#[test]
fn distinct_ids_of_a_page() {
    let mut store = OrderStore::new();
    store.create_order(s("O1"), new_order("U", vec![line("A", 1, 1), line("B", 1, 1)]), 1).unwrap();
    store.create_order(s("O2"), new_order("U", vec![line("B", 1, 1), line("C", 1, 1), line("A", 2, 1)]), 2).unwrap();
    let page = store.list_orders(0, 1, 10);
    let mut ids = distinct_product_ids(&page.orders);
    ids.sort();
    assert_eq!(ids, vec![s("A"), s("B"), s("C")]);
}

#[test]
fn order_described_for_caller() {
    let mut store = OrderStore::new();
    store.create_order(s("O"), new_order("U", vec![line("A", 3, 120)]), 9).unwrap();
    store.update_order(&s("O"), OrderStatus::Shipped, &s(""), 10).unwrap();
    let o = store.get_order(&s("O")).unwrap();
    let names = vec![ProductName { product_id: s("A"), name: s("Anvil") }];
    let v = describe_order(&o, &names).unwrap();
    assert_eq!(v.order_id, "O");
    assert_eq!(v.status, 3);
    assert_eq!(v.shipping_address, "");
    assert_eq!(v.total_amount, 360);
    assert_eq!(v.items[0].product_name, "Anvil");
    assert_eq!(v.items[0].subtotal, 360);
    assert_eq!((v.created_at, v.updated_at), (9, 10));
}

#[test]
fn product_fields_checked_in_order() {
    assert_eq!(validate_new_product(&s(""), -1, -1), Err(ProductError::MissingName));
    assert_eq!(validate_new_product(&s("Pen"), -1, -1), Err(ProductError::NegativePrice));
    assert_eq!(validate_new_product(&s("Pen"), 0, -1), Err(ProductError::NegativeStock));
    assert_eq!(validate_new_product(&s("Pen"), 0, 0), Ok(()));
    assert_eq!(validate_product_update(&s(""), 5, 5), Err(ProductError::MissingProductId));
    assert_eq!(validate_product_update(&s("P"), -5, 5), Err(ProductError::NegativePrice));
    assert_eq!(validate_product_update(&s("P"), 5, -5), Err(ProductError::NegativeStock));
    assert_eq!(validate_product_update(&s("P"), 5, 5), Ok(()));
}

#[test]
fn stock_checked_before_commit_can_be_overtaken() {
    let mut store = OrderStore::new();
    store.set_stock(s("LAST"), 1);
    let first = run_workflow(&store, request("U", vec![("LAST", 1)], ""), true, &|_| Some(10)).unwrap();
    let second = run_workflow(&store, request("V", vec![("LAST", 1)], ""), true, &|_| Some(10)).unwrap();
    store.create_order(s("O1"), first, 1).unwrap();
    store.create_order(s("O2"), second, 2).unwrap();
    assert_eq!(store.stock_level(&s("LAST")), Some(-1));
}

#[test]
fn negative_prices_are_stored_as_given() {
    let mut store = OrderStore::new();
    store.set_stock(s("GIFT"), 3);
    let o = store
        .create_order(s("O"), new_order("U", vec![line("GIFT", 2, 400), line("GIFT", 1, -150)]), 1)
        .unwrap();
    assert_eq!(o.total_amount, 650);
    assert_eq!(store.stock_level(&s("GIFT")), Some(0));
    let big = store
        .create_order(s("O2"), new_order("U", vec![line("X", 1, i64::MAX), line("Y", 1, -5)]), 2)
        .unwrap();
    assert_eq!(big.total_amount, i64::MAX - 5);
    let v = describe_order(&big, &vec![]).unwrap();
    assert_eq!(v.items[1].subtotal, -5);
}
