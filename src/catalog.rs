use vstd::prelude::*;
use crate::order::{LineItem, Order, subtotal, subtotals_fit};
use crate::status::status_code;

verus! {

/// A product's display name, as the catalog's batch lookup gives it.
#[derive(Debug)]
pub struct ProductName {
    pub product_id: String,
    pub name: String,
}

/// A line as shown to a caller: with the product's current name, the price
/// captured at creation, and the line's subtotal.
#[derive(Debug)]
pub struct OrderItemView {
    pub product_id: String,
    pub product_name: String,
    pub quantity: i32,
    pub unit_price: i64,
    pub subtotal: i64,
}

/// The name of the first entry for the product, or the empty name where the
/// lookup returned none.
pub open spec fn name_for(names: Seq<ProductName>, product_id: Seq<char>) -> Seq<char>
    decreases names.len(),
{
    if names.len() == 0 {
        Seq::empty()
    } else if names[0].product_id@ == product_id {
        names[0].name@
    } else {
        name_for(names.drop_first(), product_id)
    }
}

/// Some line of some order names the product.
pub open spec fn ordered_in(orders: Seq<Order>, product_id: Seq<char>) -> bool {
    exists|i: int, j: int| 0 <= i < orders.len() && 0 <= j < orders[i].items@.len()
        && (#[trigger] orders[i].items@[j]).product_id@ == product_id
}

/// The ids name no product twice.
pub open spec fn distinct_ids(ids: Seq<String>) -> bool {
    forall|a: int, b: int| 0 <= a < ids.len() && 0 <= b < ids.len() && (#[trigger] ids[a])@ == (#[trigger] ids[b])@ ==> a == b
}

fn lookup_name(names: &Vec<ProductName>, product_id: &String) -> (r: String)
    ensures
        r@ == name_for(names@, product_id@),
{
    let mut i: usize = 0;
    assert(names@.subrange(0, names@.len() as int) =~= names@);
    while i < names.len()
        invariant
            0 <= i <= names@.len(),
            name_for(names@, product_id@) == name_for(names@.subrange(i as int, names@.len() as int), product_id@),
        decreases names@.len() - i,
    {
        let ghost rest = names@.subrange(i as int, names@.len() as int);
        assert(rest[0] == names@[i as int]);
        assert(rest.drop_first() =~= names@.subrange(i + 1, names@.len() as int));
        if names[i].product_id == *product_id {
            return names[i].name.clone();
        }
        i = i + 1;
    }
    String::new()
}

/// The line as shown to a caller, with the name that the lookup gave.
pub open spec fn shows_line(v: OrderItemView, li: LineItem, names: Seq<ProductName>) -> bool {
    &&& v.product_id@ == li.product_id@
    &&& v.product_name@ == name_for(names, li.product_id@)
    &&& v.quantity == li.quantity
    &&& v.unit_price == li.unit_price
    &&& v.subtotal as int == subtotal(li)
}

/// The lines of an order as shown to a caller, with the names that the
/// catalog's batch lookup gave; `None` where some subtotal does not fit in
/// 64 bits, which never happens to a stored order (see
/// `lemma_totals_match_lines`).
pub fn describe_items(items: &Vec<LineItem>, names: &Vec<ProductName>) -> (r: Option<Vec<OrderItemView>>)
    ensures
        r.is_some() == subtotals_fit(items@),
        r matches Some(v) ==> v@.len() == items@.len()
            && forall|j: int| 0 <= j < items@.len() ==> shows_line(#[trigger] v@[j], items@[j], names@),
{
    let mut r: Vec<OrderItemView> = Vec::new();
    let mut i: usize = 0;
    while i < items.len()
        invariant
            0 <= i <= items@.len(),
            r@.len() == i,
            forall|j: int| 0 <= j < i ==> i64::MIN <= #[trigger] subtotal(items@[j]) <= i64::MAX,
            forall|j: int| 0 <= j < i ==> shows_line(#[trigger] r@[j], items@[j], names@),
        decreases items@.len() - i,
    {
        let item = &items[i];
        let sub = match item.checked_subtotal() {
            Some(v) => v,
            None => {
                return None;
            },
        };
        let view = OrderItemView {
            product_id: item.product_id.clone(),
            product_name: lookup_name(names, &item.product_id),
            quantity: item.quantity,
            unit_price: item.unit_price,
            subtotal: sub,
        };
        let ghost before = r@;
        r.push(view);
        proof {
            assert forall|j: int| 0 <= j < i + 1 implies shows_line(#[trigger] r@[j], items@[j], names@) by {
                if j < i {
                    assert(r@[j] == before[j]);
                }
            };
        }
        i = i + 1;
    }
    Some(r)
}

/// An order as shown to a caller: status as its wire number, a missing
/// address as the empty one, and lines with their product names.
#[derive(Debug)]
pub struct OrderView {
    pub order_id: String,
    pub user_id: String,
    pub items: Vec<OrderItemView>,
    pub total_amount: i64,
    pub status: i32,
    pub shipping_address: String,
    pub created_at: i64,
    pub updated_at: i64,
}

/// An order as shown to a caller, with the names that the catalog's batch
/// lookup gave.
pub fn describe_order(order: &Order, names: &Vec<ProductName>) -> (res: Option<OrderView>)
    ensures
        res.is_some() == subtotals_fit(order.items@),
        res matches Some(r) ==> r.order_id@ == order.id@,
        res matches Some(r) ==> {
            &&& r.user_id@ == order.user_id@
            &&& r.total_amount == order.total_amount
            &&& r.status as int == status_code(order.status)
            &&& r.shipping_address@ == (match order.shipping_address {
                Some(a) => a@,
                None => Seq::<char>::empty(),
            })
            &&& r.created_at == order.created_at
            &&& r.updated_at == order.updated_at
            &&& r.items@.len() == order.items@.len()
            &&& forall|j: int| 0 <= j < order.items@.len() ==> shows_line(#[trigger] r.items@[j], order.items@[j], names@)
        },
{
    let shipping_address = match &order.shipping_address {
        Some(a) => a.clone(),
        None => String::new(),
    };
    let items = match describe_items(&order.items, names) {
        Some(v) => v,
        None => {
            return None;
        },
    };
    Some(OrderView {
        order_id: order.id.clone(),
        user_id: order.user_id.clone(),
        items,
        total_amount: order.total_amount,
        status: order.status.code(),
        shipping_address,
        created_at: order.created_at,
        updated_at: order.updated_at,
    })
}

/// Why the fields of a catalog entry were refused.
#[derive(Clone, Copy, Debug, PartialEq, Eq, Structural)]
pub enum ProductError {
    MissingName,
    MissingProductId,
    NegativePrice,
    NegativeStock,
}

/// Checks the fields of a new catalog entry: a name, a price (in cents) and a
/// stock that are not negative, tested in that order.
pub fn validate_new_product(name: &String, price: i64, stock_quantity: i32) -> (r: Result<(), ProductError>)
    ensures
        r == (if name@.len() == 0 {
            Err(ProductError::MissingName)
        } else if price < 0 {
            Err(ProductError::NegativePrice)
        } else if stock_quantity < 0 {
            Err(ProductError::NegativeStock)
        } else {
            Ok(())
        }),
{
    if name.as_str().is_empty() {
        Err(ProductError::MissingName)
    } else if price < 0 {
        Err(ProductError::NegativePrice)
    } else if stock_quantity < 0 {
        Err(ProductError::NegativeStock)
    } else {
        Ok(())
    }
}

/// Checks the fields of a change to a catalog entry: a product id, a price (in
/// cents) and a stock that are not negative, tested in that order.
pub fn validate_product_update(product_id: &String, price: i64, stock_quantity: i32) -> (r: Result<(), ProductError>)
    ensures
        r == (if product_id@.len() == 0 {
            Err(ProductError::MissingProductId)
        } else if price < 0 {
            Err(ProductError::NegativePrice)
        } else if stock_quantity < 0 {
            Err(ProductError::NegativeStock)
        } else {
            Ok(())
        }),
{
    if product_id.as_str().is_empty() {
        Err(ProductError::MissingProductId)
    } else if price < 0 {
        Err(ProductError::NegativePrice)
    } else if stock_quantity < 0 {
        Err(ProductError::NegativeStock)
    } else {
        Ok(())
    }
}

/// Some id of the list names the product.
pub open spec fn lists_id(ids: Seq<String>, p: Seq<char>) -> bool {
    exists|a: int| 0 <= a < ids.len() && (#[trigger] ids[a])@ == p
}

/// Some of the first `n` lines names the product.
pub open spec fn among_lines(items: Seq<LineItem>, n: int, p: Seq<char>) -> bool {
    exists|b: int| 0 <= b < n && (#[trigger] items[b]).product_id@ == p
}

fn holds_id(ids: &Vec<String>, product_id: &String) -> (r: bool)
    ensures
        r == lists_id(ids@, product_id@),
{
    let mut i: usize = 0;
    while i < ids.len()
        invariant
            0 <= i <= ids@.len(),
            forall|a: int| 0 <= a < i ==> (#[trigger] ids@[a])@ != product_id@,
        decreases ids@.len() - i,
    {
        if ids[i] == *product_id {
            return true;
        }
        i = i + 1;
    }
    false
}

proof fn lemma_push_id(before: Seq<String>, id: String, p: Seq<char>)
    ensures
        lists_id(before.push(id), p) == (lists_id(before, p) || id@ == p),
{
    let after = before.push(id);
    if lists_id(before, p) {
        let a = choose|a: int| 0 <= a < before.len() && (#[trigger] before[a])@ == p;
        assert(after[a] == before[a]);
    }
    if id@ == p {
        assert(after[before.len() as int] == id);
    }
    if lists_id(after, p) {
        let a = choose|a: int| 0 <= a < after.len() && (#[trigger] after[a])@ == p;
        if a < before.len() {
            assert(after[a] == before[a]);
        }
    }
}

proof fn lemma_next_order(orders: Seq<Order>, i: int, p: Seq<char>)
    requires
        0 <= i < orders.len(),
    ensures
        ordered_in(orders.take(i + 1), p) == (ordered_in(orders.take(i), p)
            || among_lines(orders[i].items@, orders[i].items@.len() as int, p)),
{
    let next = orders.take(i + 1);
    let prev = orders.take(i);
    if ordered_in(next, p) {
        let (x, y) = choose|x: int, y: int| 0 <= x < next.len() && 0 <= y < next[x].items@.len()
            && (#[trigger] next[x].items@[y]).product_id@ == p;
        if x < i {
            assert(prev[x] == next[x]);
            assert(prev[x].items@[y].product_id@ == p);
        } else {
            assert(next[x] == orders[i]);
            assert(orders[i].items@[y].product_id@ == p);
        }
    }
    if ordered_in(prev, p) {
        let (x, y) = choose|x: int, y: int| 0 <= x < prev.len() && 0 <= y < prev[x].items@.len()
            && (#[trigger] prev[x].items@[y]).product_id@ == p;
        assert(next[x] == prev[x]);
        assert(next[x].items@[y].product_id@ == p);
    }
    if among_lines(orders[i].items@, orders[i].items@.len() as int, p) {
        let b = choose|b: int| 0 <= b < orders[i].items@.len() && (#[trigger] orders[i].items@[b]).product_id@ == p;
        assert(next[i] == orders[i]);
        assert(next[i].items@[b].product_id@ == p);
    }
}

/// The distinct products that the lines of a page of orders name: the keys of
/// the one batch lookup that the page needs.
pub fn distinct_product_ids(orders: &Vec<Order>) -> (r: Vec<String>)
    ensures
        distinct_ids(r@),
        forall|p: Seq<char>| #[trigger] lists_id(r@, p) <==> ordered_in(orders@, p),
{
    let mut ids: Vec<String> = Vec::new();
    let mut i: usize = 0;
    while i < orders.len()
        invariant
            0 <= i <= orders@.len(),
            distinct_ids(ids@),
            forall|p: Seq<char>| #[trigger] lists_id(ids@, p) <==> ordered_in(orders@.take(i as int), p),
        decreases orders@.len() - i,
    {
        let items = &orders[i].items;
        let mut j: usize = 0;
        while j < items.len()
            invariant
                0 <= i < orders@.len(),
                items@ == orders@[i as int].items@,
                0 <= j <= items@.len(),
                distinct_ids(ids@),
                forall|p: Seq<char>| #[trigger] lists_id(ids@, p) <==>
                    (ordered_in(orders@.take(i as int), p) || among_lines(items@, j as int, p)),
            decreases items@.len() - j,
        {
            let pid = &items[j].product_id;
            let ghost before = ids@;
            let ghost q = pid@;
            if !holds_id(&ids, pid) {
                ids.push(pid.clone());
                proof {
                    assert forall|a: int, b: int| 0 <= a < ids@.len() && 0 <= b < ids@.len()
                        && (#[trigger] ids@[a])@ == (#[trigger] ids@[b])@ implies a == b by {
                        if a < before.len() {
                            assert(ids@[a] == before[a]);
                        }
                        if b < before.len() {
                            assert(ids@[b] == before[b]);
                        }
                        if a >= before.len() && b < before.len() {
                            assert(lists_id(before, q));
                        }
                        if b >= before.len() && a < before.len() {
                            assert(lists_id(before, q));
                        }
                    };
                }
            }
            proof {
                assert forall|p: Seq<char>| #[trigger] lists_id(ids@, p) <==>
                    (ordered_in(orders@.take(i as int), p) || among_lines(items@, j + 1, p)) by {
                    if ids@.len() > before.len() {
                        assert(ids@ == before.push(ids@[before.len() as int]));
                        lemma_push_id(before, ids@[before.len() as int], p);
                    }
                    if among_lines(items@, j + 1, p) {
                        let b = choose|b: int| 0 <= b < j + 1 && (#[trigger] items@[b]).product_id@ == p;
                        if b < j {
                            assert(among_lines(items@, j as int, p));
                        }
                    }
                    if among_lines(items@, j as int, p) {
                        let b = choose|b: int| 0 <= b < j && (#[trigger] items@[b]).product_id@ == p;
                        assert(among_lines(items@, j + 1, p));
                    }
                    if q == p {
                        assert(items@[j as int].product_id@ == p);
                        assert(among_lines(items@, j + 1, p));
                    }
                };
            }
            j = j + 1;
        }
        proof {
            assert forall|p: Seq<char>| #[trigger] lists_id(ids@, p) <==> ordered_in(orders@.take(i + 1), p) by {
                lemma_next_order(orders@, i as int, p);
            };
        }
        i = i + 1;
    }
    proof {
        assert(orders@.take(orders@.len() as int) =~= orders@);
    }
    ids
}

} // verus!
