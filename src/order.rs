use vstd::prelude::*;
use crate::status::OrderStatus;

verus! {

/// One line of an order: a product, how many, and the unit price (in cents)
/// captured when the order was placed.
#[derive(Debug)]
pub struct LineItem {
    pub product_id: String,
    pub quantity: i32,
    pub unit_price: i64,
}

/// A placed order. Amounts are in cents.
#[derive(Debug)]
pub struct Order {
    pub id: String,
    pub user_id: String,
    pub status: OrderStatus,
    pub shipping_address: Option<String>,
    pub total_amount: i64,
    pub created_at: i64,
    pub updated_at: i64,
    pub items: Vec<LineItem>,
}

/// Price of one line: unit price times quantity.
pub open spec fn subtotal(li: LineItem) -> int {
    li.unit_price as int * li.quantity as int
}

/// Sum of the subtotals of a sequence of lines.
pub open spec fn items_total(s: Seq<LineItem>) -> int
    decreases s.len(),
{
    if s.len() == 0 {
        0
    } else {
        items_total(s.drop_last()) + subtotal(s.last())
    }
}

/// How many units of one product a sequence of lines holds.
pub open spec fn quantity_of(s: Seq<LineItem>, product_id: Seq<char>) -> int
    decreases s.len(),
{
    if s.len() == 0 {
        0
    } else {
        quantity_of(s.drop_last(), product_id) + (if s.last().product_id@ == product_id {
            s.last().quantity as int
        } else {
            0
        })
    }
}

/// Every line orders a positive quantity.
pub open spec fn lines_valid(s: Seq<LineItem>) -> bool {
    forall|i: int| 0 <= i < s.len() ==> (#[trigger] s[i]).quantity > 0
}

/// Every line's subtotal fits in 64 bits.
pub open spec fn subtotals_fit(items: Seq<LineItem>) -> bool {
    forall|j: int| 0 <= j < items.len() ==> i64::MIN <= #[trigger] subtotal(items[j]) <= i64::MAX
}

/// Every running total, line by line, fits in 64 bits.
pub open spec fn running_totals_fit(items: Seq<LineItem>) -> bool {
    forall|k: int| 0 <= k <= items.len() ==> i64::MIN <= #[trigger] items_total(items.take(k)) <= i64::MAX
}

/// The amounts of an order can be kept in 64-bit cents: each subtotal and each
/// running total fits.
pub open spec fn amounts_fit(items: Seq<LineItem>) -> bool {
    subtotals_fit(items) && running_totals_fit(items)
}

/// Two orders hold the same values.
pub open spec fn same_order(a: Order, b: Order) -> bool {
    &&& a.id@ == b.id@
    &&& a.user_id@ == b.user_id@
    &&& a.status == b.status
    &&& a.shipping_address == b.shipping_address
    &&& a.total_amount == b.total_amount
    &&& a.created_at == b.created_at
    &&& a.updated_at == b.updated_at
    &&& a.items@ == b.items@
}

/// Two sequences of orders hold the same values, position by position.
pub open spec fn same_orders(a: Seq<Order>, b: Seq<Order>) -> bool {
    a.len() == b.len() && forall|i: int| 0 <= i < a.len() ==> same_order(#[trigger] a[i], b[i])
}

/// Whether every line orders a positive quantity.
pub fn all_lines_valid(items: &Vec<LineItem>) -> (r: bool)
    ensures
        r == lines_valid(items@),
{
    let mut i: usize = 0;
    while i < items.len()
        invariant
            0 <= i <= items@.len(),
            forall|j: int| 0 <= j < i ==> (#[trigger] items@[j]).quantity > 0,
        decreases items@.len() - i,
    {
        if items[i].quantity <= 0 {
            return false;
        }
        i = i + 1;
    }
    true
}

/// Sum of the subtotals of the lines, or `None` where some subtotal or some
/// running total does not fit in 64 bits.
pub fn checked_total(items: &Vec<LineItem>) -> (r: Option<i64>)
    ensures
        r.is_some() == amounts_fit(items@),
        r.is_some() ==> r.unwrap() as int == items_total(items@),
{
    let mut total: i64 = 0;
    let mut i: usize = 0;
    proof {
        assert(items@.take(0) =~= Seq::<LineItem>::empty());
    }
    while i < items.len()
        invariant
            0 <= i <= items@.len(),
            total as int == items_total(items@.take(i as int)),
            forall|j: int| 0 <= j < i ==> i64::MIN <= #[trigger] subtotal(items@[j]) <= i64::MAX,
            forall|k: int| 0 <= k <= i ==> i64::MIN <= #[trigger] items_total(items@.take(k)) <= i64::MAX,
        decreases items@.len() - i,
    {
        let ghost next = items@.take(i + 1);
        proof {
            assert(next.drop_last() =~= items@.take(i as int));
            assert(next.last() == items@[i as int]);
        }
        let item = &items[i];
        let sub = match item.checked_subtotal() {
            Some(v) => v,
            None => {
                return None;
            },
        };
        match total.checked_add(sub) {
            Some(t) => {
                total = t;
            },
            None => {
                proof {
                    assert(items_total(next) == items_total(items@.take(i as int)) + subtotal(items@[i as int]));
                    assert(!(i64::MIN <= items_total(items@.take(i + 1)) <= i64::MAX));
                }
                return None;
            },
        }
        i = i + 1;
    }
    proof {
        assert(items@.take(items@.len() as int) =~= items@);
    }
    Some(total)
}

impl LineItem {
    /// A copy of this line.
    pub fn duplicate(&self) -> (r: LineItem)
        ensures
            r == *self,
    {
        LineItem { product_id: self.product_id.clone(), quantity: self.quantity, unit_price: self.unit_price }
    }

    /// Price of this line, or `None` where it does not fit in 64 bits.
    pub fn checked_subtotal(&self) -> (r: Option<i64>)
        ensures
            r.is_some() <==> i64::MIN <= subtotal(*self) <= i64::MAX,
            r.is_some() ==> r.unwrap() as int == subtotal(*self),
    {
        self.unit_price.checked_mul(self.quantity as i64)
    }
}

/// A copy of a sequence of lines.
pub fn duplicate_items(items: &Vec<LineItem>) -> (r: Vec<LineItem>)
    ensures
        r@ == items@,
{
    let mut r: Vec<LineItem> = Vec::new();
    let mut i: usize = 0;
    while i < items.len()
        invariant
            0 <= i <= items@.len(),
            r@ == items@.subrange(0, i as int),
        decreases items@.len() - i,
    {
        r.push(items[i].duplicate());
        assert(r@ =~= items@.subrange(0, i + 1));
        i = i + 1;
    }
    assert(r@ =~= items@);
    r
}

impl Order {
    /// A copy of this order.
    pub fn duplicate(&self) -> (r: Order)
        ensures
            same_order(r, *self),
    {
        let address = match &self.shipping_address {
            Some(a) => Some(a.clone()),
            None => None,
        };
        Order {
            id: self.id.clone(),
            user_id: self.user_id.clone(),
            status: self.status,
            shipping_address: address,
            total_amount: self.total_amount,
            created_at: self.created_at,
            updated_at: self.updated_at,
            items: duplicate_items(&self.items),
        }
    }
}

} // verus!
