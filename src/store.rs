use vstd::prelude::*;
use crate::inventory::{Inventory, moved_levels, move_fits};
use crate::order::{LineItem, Order, items_total, lines_valid, same_order, same_orders, checked_total, duplicate_items, all_lines_valid, amounts_fit, subtotals_fit};
use crate::status::{OrderStatus, cancellable, filter_of_code, status_filter};
use crate::pagination::{PageRequest, effective_page, effective_page_size};
use crate::ids::random_order_id;

verus! {

/// An order that has passed validation and waits to be stored.
#[derive(Debug)]
pub struct NewOrder {
    pub user_id: String,
    pub items: Vec<LineItem>,
    pub shipping_address: Option<String>,
}

/// Why the store refused to create an order.
#[derive(Clone, Copy, Debug, PartialEq, Eq, Structural)]
pub enum CreateError {
    /// An order with the chosen id is already stored.
    DuplicateId,
    /// Some line orders zero units or fewer.
    InvalidLine,
    /// Some subtotal or running total does not fit in 64-bit cents.
    InvalidTotal,
    /// Taking the units off the shelf would overflow a stock level.
    StockOverflow,
}

/// Why a cancellation was refused.
#[derive(Clone, Copy, Debug, PartialEq, Eq, Structural)]
pub enum CancelError {
    MissingOrderId,
    NotFound,
    NotOwner,
    AlreadyCancelled,
    Delivered,
    StockOverflow,
}

/// Why an update was refused.
#[derive(Clone, Copy, Debug, PartialEq, Eq, Structural)]
pub enum UpdateError {
    MissingOrderId,
    NotFound,
}

/// Whether some stored order has the id.
pub open spec fn has_order(s: Seq<Order>, id: Seq<char>) -> bool {
    exists|i: int| 0 <= i < s.len() && (#[trigger] s[i]).id@ == id
}

/// Position of the stored order with the id.
pub open spec fn order_index(s: Seq<Order>, id: Seq<char>) -> int {
    choose|i: int| 0 <= i < s.len() && (#[trigger] s[i]).id@ == id
}

/// No two stored orders share an id.
pub open spec fn unique_ids(s: Seq<Order>) -> bool {
    forall|i: int, j: int| 0 <= i < s.len() && 0 <= j < s.len() && (#[trigger] s[i]).id@ == (#[trigger] s[j]).id@ ==> i == j
}

/// Stored orders come in order of creation time.
pub open spec fn by_creation(s: Seq<Order>) -> bool {
    forall|i: int, j: int| 0 <= i <= j < s.len() ==> (#[trigger] s[i]).created_at <= (#[trigger] s[j]).created_at
}

/// Each stored order is sound on its own: positive quantities, amounts that
/// fit in 64-bit cents, and a total equal to the sum of its lines.
pub open spec fn orders_sound(s: Seq<Order>) -> bool {
    forall|i: int| 0 <= i < s.len() ==> lines_valid((#[trigger] s[i]).items@)
        && amounts_fit(s[i].items@)
        && s[i].total_amount as int == items_total(s[i].items@)
}

/// The same sequence of orders, with the one at `i` replaced by an order that
/// keeps everything but `status`, `shipping_address` and `updated_at`.
pub open spec fn changed_at(before: Seq<Order>, after: Seq<Order>, i: int, status: OrderStatus, address: Option<String>, at: i64) -> bool {
    &&& after.len() == before.len()
    &&& forall|j: int| 0 <= j < before.len() && j != i ==> #[trigger] after[j] == before[j]
    &&& after[i].id@ == before[i].id@
    &&& after[i].user_id@ == before[i].user_id@
    &&& after[i].total_amount == before[i].total_amount
    &&& after[i].created_at == before[i].created_at
    &&& after[i].items@ == before[i].items@
    &&& after[i].status == status
    &&& after[i].shipping_address == address
    &&& after[i].updated_at == at
}

/// The outcome that a cancellation request owes, judged on the store as it was.
pub open spec fn cancel_outcome(orders: Seq<Order>, stock: Map<Seq<char>, int>, id: Seq<char>, user_id: Seq<char>) -> Result<(), CancelError> {
    if id.len() == 0 {
        Err(CancelError::MissingOrderId)
    } else if !has_order(orders, id) {
        Err(CancelError::NotFound)
    } else {
        let o = orders[order_index(orders, id)];
        if user_id.len() != 0 && o.user_id@ != user_id {
            Err(CancelError::NotOwner)
        } else if o.status == OrderStatus::Cancelled {
            Err(CancelError::AlreadyCancelled)
        } else if o.status == OrderStatus::Delivered {
            Err(CancelError::Delivered)
        } else if !move_fits(stock, o.items@, true) {
            Err(CancelError::StockOverflow)
        } else {
            Ok(())
        }
    }
}

/// The outcome that an update request owes, judged on the store as it was.
pub open spec fn update_outcome(orders: Seq<Order>, id: Seq<char>) -> Result<(), UpdateError> {
    if id.len() == 0 {
        Err(UpdateError::MissingOrderId)
    } else if !has_order(orders, id) {
        Err(UpdateError::NotFound)
    } else {
        Ok(())
    }
}

/// The shipping address after an update: an empty one leaves it as it was.
pub open spec fn updated_address(old_address: Option<String>, requested: String) -> Option<String> {
    if requested@.len() == 0 {
        old_address
    } else {
        Some(requested)
    }
}

/// Which orders a listing selects.
#[derive(Debug)]
pub enum OrderFilter {
    All,
    WithStatus(OrderStatus),
    OfUser(String),
}

/// Whether a listing with the filter selects the order.
pub open spec fn selects(f: OrderFilter, o: Order) -> bool {
    match f {
        OrderFilter::All => true,
        OrderFilter::WithStatus(st) => o.status == st,
        OrderFilter::OfUser(u) => o.user_id@ == u@,
    }
}

/// The orders of `s[lo..]` that the filter selects, newest first.
pub open spec fn newest_first(s: Seq<Order>, lo: int, f: OrderFilter) -> Seq<Order>
    decreases s.len() - lo,
{
    if lo < 0 || lo >= s.len() {
        Seq::empty()
    } else if selects(f, s[lo]) {
        newest_first(s, lo + 1, f).push(s[lo])
    } else {
        newest_first(s, lo + 1, f)
    }
}

/// The orders that a listing with the filter selects, newest first.
pub open spec fn selection(s: Seq<Order>, f: OrderFilter) -> Seq<Order> {
    newest_first(s, 0, f)
}

/// The part of a selection that one page shows.
pub open spec fn page_of(sel: Seq<Order>, page: int, page_size: int) -> Seq<Order> {
    let start = (page - 1) * page_size;
    let lo = if start < sel.len() { start } else { sel.len() as int };
    let hi = if start + page_size < sel.len() { start + page_size } else { sel.len() as int };
    sel.subrange(lo, hi)
}

/// One page of a listing, with the number of orders selected over all pages.
#[derive(Debug)]
pub struct OrderPage {
    pub orders: Vec<Order>,
    pub total_count: usize,
}

/// Why a listing of one user's orders was refused.
#[derive(Clone, Copy, Debug, PartialEq, Eq, Structural)]
pub enum ListError {
    MissingUserId,
}

/// The catalog's answer on whether it can supply some units of a product.
#[derive(Clone, Copy, Debug, PartialEq, Eq, Structural)]
pub struct Availability {
    pub available: bool,
    pub current_stock: i64,
}

/// Why a stock change was refused.
#[derive(Clone, Copy, Debug, PartialEq, Eq, Structural)]
pub enum InventoryError {
    MissingProductId,
    NotFound,
    /// The change would leave fewer than zero units.
    Insufficient,
    /// The change would take the level past the 64-bit range.
    Overflow,
}

/// The order records and the stock levels that they draw on, changed only
/// as whole transactions.
///
/// The stock levels are the catalog's own: orders are checked against the
/// catalog's answers, but placing and cancelling change the levels here
/// directly, in the same transaction as the order rows.
#[derive(Debug)]
pub struct OrderStore {
    orders: Vec<Order>,
    stock: Inventory,
    clock: i64,
}

impl OrderStore {
    pub closed spec fn wf(&self) -> bool {
        &&& self.stock.wf()
        &&& unique_ids(self.orders@)
        &&& by_creation(self.orders@)
        &&& orders_sound(self.orders@)
        &&& forall|i: int| 0 <= i < self.orders@.len() ==> (#[trigger] self.orders@[i]).created_at <= self.clock
    }

    /// The stored orders, oldest first.
    pub closed spec fn orders(&self) -> Seq<Order> {
        self.orders@
    }

    /// Stock level of each product on record.
    pub closed spec fn stock(&self) -> Map<Seq<char>, int> {
        self.stock.view()
    }

    /// A store with no orders and no products.
    pub fn new() -> (r: OrderStore)
        ensures
            r.wf(),
            r.orders() == Seq::<Order>::empty(),
            r.stock() == Map::<Seq<char>, int>::empty(),
    {
        OrderStore { orders: Vec::new(), stock: Inventory::new(), clock: i64::MIN }
    }

    /// Records the stock level of a product.
    pub fn set_stock(&mut self, product_id: String, stock: i64)
        requires
            old(self).wf(),
        ensures
            final(self).wf(),
            final(self).orders() == old(self).orders(),
            final(self).stock() == old(self).stock().insert(product_id@, stock as int),
    {
        self.stock.set_level(product_id, stock);
    }

    /// Stock level of a product, or `None` where it is not on record.
    pub fn stock_level(&self, product_id: &String) -> (r: Option<i64>)
        requires
            self.wf(),
        ensures
            r.is_some() == self.stock().contains_key(product_id@),
            r.is_some() ==> r.unwrap() as int == self.stock()[product_id@],
    {
        self.stock.level(product_id)
    }

    /// Whether the requested units of a product are on the shelf, and how many
    /// are. An empty or unknown product id is unavailable with no stock.
    pub fn check_availability(&self, product_id: &String, quantity: i32) -> (r: Availability)
        requires
            self.wf(),
        ensures
            product_id@.len() == 0 || !self.stock().contains_key(product_id@) ==> !r.available && r.current_stock == 0,
            product_id@.len() != 0 && self.stock().contains_key(product_id@) ==> r.current_stock as int
                == self.stock()[product_id@] && r.available == (self.stock()[product_id@] >= quantity as int),
    {
        if product_id.as_str().is_empty() {
            return Availability { available: false, current_stock: 0 };
        }
        match self.stock.level(product_id) {
            Some(level) => Availability { available: level >= quantity as i64, current_stock: level },
            None => Availability { available: false, current_stock: 0 },
        }
    }

    /// Changes the stock of a product by `change` units and returns the new
    /// level; a change that would leave fewer than zero units is refused.
    pub fn update_inventory(&mut self, product_id: &String, change: i32) -> (r: Result<i64, InventoryError>)
        requires
            old(self).wf(),
        ensures
            final(self).wf(),
            final(self).orders() == old(self).orders(),
            r.is_err() ==> final(self).stock() == old(self).stock(),
            r == Err::<i64, InventoryError>(InventoryError::MissingProductId) <==> product_id@.len() == 0,
            r == Err::<i64, InventoryError>(InventoryError::NotFound) <==> product_id@.len() != 0
                && !old(self).stock().contains_key(product_id@),
            r == Err::<i64, InventoryError>(InventoryError::Insufficient) <==> product_id@.len() != 0
                && old(self).stock().contains_key(product_id@) && old(self).stock()[product_id@] + change < 0,
            r == Err::<i64, InventoryError>(InventoryError::Overflow) <==> product_id@.len() != 0
                && old(self).stock().contains_key(product_id@) && old(self).stock()[product_id@] + change > i64::MAX,
            r.is_ok() ==> r.unwrap() as int == old(self).stock()[product_id@] + change
                && final(self).stock() == old(self).stock().insert(product_id@, r.unwrap() as int),
    {
        if product_id.as_str().is_empty() {
            return Err(InventoryError::MissingProductId);
        }
        let level = match self.stock.level(product_id) {
            Some(level) => level,
            None => {
                return Err(InventoryError::NotFound);
            },
        };
        let next = match level.checked_add(change as i64) {
            Some(v) => v,
            None => {
                if change < 0 {
                    return Err(InventoryError::Insufficient);
                }
                return Err(InventoryError::Overflow);
            },
        };
        if next < 0 {
            return Err(InventoryError::Insufficient);
        }
        self.stock.set_level(product_id.clone(), next);
        Ok(next)
    }

    fn position(&self, id: &String) -> (r: Option<usize>)
        requires
            self.wf(),
        ensures
            match r {
                Some(i) => has_order(self.orders@, id@) && i as int == order_index(self.orders@, id@)
                    && i < self.orders@.len(),
                None => !has_order(self.orders@, id@),
            },
    {
        let mut i: usize = 0;
        while i < self.orders.len()
            invariant
                0 <= i <= self.orders@.len(),
                self.wf(),
                forall|j: int| 0 <= j < i ==> (#[trigger] self.orders@[j]).id@ != id@,
            decreases self.orders@.len() - i,
        {
            if self.orders[i].id == *id {
                proof {
                    assert(has_order(self.orders@, id@));
                    let j = order_index(self.orders@, id@);
                    assert(self.orders@[j].id@ == id@);
                    assert(self.orders@[i as int].id@ == id@);
                    assert(unique_ids(self.orders@));
                    assert(i as int == j);
                }
                return Some(i);
            }
            i = i + 1;
        }
        None
    }

    /// The stored order with the id, if any.
    pub fn get_order(&self, id: &String) -> (r: Option<Order>)
        requires
            self.wf(),
        ensures
            r.is_some() == has_order(self.orders(), id@),
            r.is_some() ==> same_order(r.unwrap(), self.orders()[order_index(self.orders(), id@)]),
    {
        match self.position(id) {
            Some(i) => Some(self.orders[i].duplicate()),
            None => None,
        }
    }

    /// Stores a validated order under a fresh id, as one transaction: the order
    /// row with status `Pending` and a total equal to the sum of its lines, and
    /// each line's units taken off the shelf. On a refusal nothing changes.
    ///
    /// Availability is not checked again here: stock taken by another order
    /// since the workflow asked can leave a level below zero.
    pub fn create_order(&mut self, id: String, new_order: NewOrder, now: i64) -> (r: Result<Order, CreateError>)
        requires
            old(self).wf(),
        ensures
            final(self).wf(),
            r.is_err() ==> final(self).orders() == old(self).orders() && final(self).stock() == old(self).stock(),
            r == Err::<Order, CreateError>(CreateError::DuplicateId) <==> has_order(old(self).orders(), id@),
            r == Err::<Order, CreateError>(CreateError::InvalidLine) <==> !has_order(old(self).orders(), id@)
                && !lines_valid(new_order.items@),
            r == Err::<Order, CreateError>(CreateError::InvalidTotal) <==> !has_order(old(self).orders(), id@)
                && lines_valid(new_order.items@) && !amounts_fit(new_order.items@),
            r == Err::<Order, CreateError>(CreateError::StockOverflow) <==> !has_order(old(self).orders(), id@)
                && lines_valid(new_order.items@) && amounts_fit(new_order.items@)
                && !move_fits(old(self).stock(), new_order.items@, false),
            r.is_ok() ==> {
                let o = r.unwrap();
                &&& o.id@ == id@
                &&& o.user_id@ == new_order.user_id@
                &&& o.items@ == new_order.items@
                &&& o.shipping_address == new_order.shipping_address
                &&& o.status == OrderStatus::Pending
                &&& o.total_amount as int == items_total(new_order.items@)
                &&& o.created_at >= now
                &&& o.updated_at == o.created_at
                &&& final(self).orders().len() == old(self).orders().len() + 1
                &&& final(self).orders().drop_last() == old(self).orders()
                &&& same_order(final(self).orders().last(), o)
                &&& final(self).stock() == moved_levels(old(self).stock(), new_order.items@, false)
            },
    {
        if self.position(&id).is_some() {
            return Err(CreateError::DuplicateId);
        }
        if !all_lines_valid(&new_order.items) {
            return Err(CreateError::InvalidLine);
        }
        let total = match checked_total(&new_order.items) {
            Some(t) => t,
            None => {
                return Err(CreateError::InvalidTotal);
            },
        };
        if !self.stock.move_lines(&new_order.items, false) {
            return Err(CreateError::StockOverflow);
        }
        let created: i64 = if now > self.clock { now } else { self.clock };
        let order = Order {
            id,
            user_id: new_order.user_id,
            status: OrderStatus::Pending,
            shipping_address: new_order.shipping_address,
            total_amount: total,
            created_at: created,
            updated_at: created,
            items: new_order.items,
        };
        let result = order.duplicate();
        let ghost before = self.orders@;
        self.orders.push(order);
        self.clock = created;
        proof {
            let after = self.orders@;
            let n = before.len() as int;
            assert(after.drop_last() =~= before);
            assert forall|i: int, j: int| 0 <= i < after.len() && 0 <= j < after.len()
                && (#[trigger] after[i]).id@ == (#[trigger] after[j]).id@ implies i == j by {
                if i < n && j < n {
                    assert(after[i] == before[i] && after[j] == before[j]);
                } else if i < n {
                    assert(after[i] == before[i]);
                    assert(has_order(before, id@));
                } else if j < n {
                    assert(after[j] == before[j]);
                    assert(has_order(before, id@));
                }
            };
            assert forall|i: int, j: int| 0 <= i <= j < after.len() implies
                (#[trigger] after[i]).created_at <= (#[trigger] after[j]).created_at by {
                if j < n {
                    assert(after[i] == before[i] && after[j] == before[j]);
                } else if i < n {
                    assert(after[i] == before[i]);
                }
            };
            assert forall|i: int| 0 <= i < after.len() implies lines_valid((#[trigger] after[i]).items@)
                && after[i].total_amount as int == items_total(after[i].items@) by {
                if i < n {
                    assert(after[i] == before[i]);
                }
            };
            assert forall|i: int| 0 <= i < after.len() implies (#[trigger] after[i]).created_at <= self.clock by {
                if i < n {
                    assert(after[i] == before[i]);
                }
            };
        }
        Ok(result)
    }

    /// Stores a validated order under a new random id, as `create_order` does.
    /// Should the id already be taken, nothing changes and the result says so.
    pub fn place_order(&mut self, new_order: NewOrder, now: i64) -> (r: Result<Order, CreateError>)
        requires
            old(self).wf(),
        ensures
            final(self).wf(),
            r.is_err() ==> final(self).orders() == old(self).orders() && final(self).stock() == old(self).stock(),
            (forall|i: int| 0 <= i < old(self).orders().len() ==> (#[trigger] old(self).orders()[i]).id@.len() != 36)
                ==> r != Err::<Order, CreateError>(CreateError::DuplicateId),
            r == Err::<Order, CreateError>(CreateError::InvalidLine) <==> r.is_err() && r != Err::<Order, CreateError>(CreateError::DuplicateId)
                && !lines_valid(new_order.items@),
            r == Err::<Order, CreateError>(CreateError::InvalidTotal) <==> r.is_err() && r != Err::<Order, CreateError>(CreateError::DuplicateId)
                && lines_valid(new_order.items@) && !amounts_fit(new_order.items@),
            r == Err::<Order, CreateError>(CreateError::StockOverflow) <==> r.is_err() && r != Err::<Order, CreateError>(CreateError::DuplicateId)
                && lines_valid(new_order.items@) && amounts_fit(new_order.items@)
                && !move_fits(old(self).stock(), new_order.items@, false),
            r.is_ok() ==> {
                let o = r.unwrap();
                &&& o.id@.len() == 36
                &&& !has_order(old(self).orders(), o.id@)
                &&& o.user_id@ == new_order.user_id@
                &&& o.items@ == new_order.items@
                &&& o.shipping_address == new_order.shipping_address
                &&& o.status == OrderStatus::Pending
                &&& o.total_amount as int == items_total(new_order.items@)
                &&& o.created_at >= now
                &&& o.updated_at == o.created_at
                &&& final(self).orders().len() == old(self).orders().len() + 1
                &&& final(self).orders().drop_last() == old(self).orders()
                &&& same_order(final(self).orders().last(), o)
                &&& final(self).stock() == moved_levels(old(self).stock(), new_order.items@, false)
            },
    {
        let id = random_order_id();
        proof {
            if has_order(self.orders@, id@) {
                let j = choose|j: int| 0 <= j < self.orders@.len() && (#[trigger] self.orders@[j]).id@ == id@;
                assert(self.orders@[j].id@.len() == 36);
            }
        }
        self.create_order(id, new_order, now)
    }

    proof fn lemma_changed_keeps_wf(&self, before: Seq<Order>, i: int, status: OrderStatus, address: Option<String>, at: i64)
        requires
            unique_ids(before),
            by_creation(before),
            orders_sound(before),
            forall|j: int| 0 <= j < before.len() ==> (#[trigger] before[j]).created_at <= self.clock,
            self.stock.wf(),
            0 <= i < before.len(),
            changed_at(before, self.orders@, i, status, address, at),
        ensures
            self.wf(),
    {
        let after = self.orders@;
        assert forall|a: int, b: int| 0 <= a < after.len() && 0 <= b < after.len()
            && (#[trigger] after[a]).id@ == (#[trigger] after[b]).id@ implies a == b by {
            if a != i {
                assert(after[a] == before[a]);
            }
            if b != i {
                assert(after[b] == before[b]);
            }
        };
        assert forall|a: int, b: int| 0 <= a <= b < after.len() implies
            (#[trigger] after[a]).created_at <= (#[trigger] after[b]).created_at by {
            if a != i {
                assert(after[a] == before[a]);
            }
            if b != i {
                assert(after[b] == before[b]);
            }
        };
        assert forall|a: int| 0 <= a < after.len() implies lines_valid((#[trigger] after[a]).items@)
            && after[a].total_amount as int == items_total(after[a].items@) && after[a].created_at <= self.clock by {
            if a != i {
                assert(after[a] == before[a]);
            }
        };
    }

    /// Replaces the order at `i` with one that has the given status, address and
    /// update time and keeps all the rest.
    fn change_at(&mut self, i: usize, status: OrderStatus, address: Option<String>, at: i64)
        requires
            old(self).wf(),
            i < old(self).orders@.len(),
        ensures
            final(self).wf(),
            final(self).stock == old(self).stock,
            final(self).clock == old(self).clock,
            changed_at(old(self).orders@, final(self).orders@, i as int, status, address, at),
    {
        let ghost before = self.orders@;
        let cur = &self.orders[i];
        let o = Order {
            id: cur.id.clone(),
            user_id: cur.user_id.clone(),
            status,
            shipping_address: address,
            total_amount: cur.total_amount,
            created_at: cur.created_at,
            updated_at: at,
            items: duplicate_items(&cur.items),
        };
        self.orders.set(i, o);
        proof {
            self.lemma_changed_keeps_wf(before, i as int, status, address, at);
        }
    }

    /// Cancels an order as one transaction: when the order exists, belongs to
    /// the given user (an empty user id skips that check), and is neither
    /// cancelled nor delivered, each line's units go back onto the shelf and the
    /// status becomes `Cancelled`. On a refusal nothing changes.
    pub fn cancel_order(&mut self, order_id: &String, user_id: &String, now: i64) -> (r: Result<(), CancelError>)
        requires
            old(self).wf(),
        ensures
            final(self).wf(),
            r == cancel_outcome(old(self).orders(), old(self).stock(), order_id@, user_id@),
            r.is_err() ==> final(self).orders() == old(self).orders() && final(self).stock() == old(self).stock(),
            r.is_ok() ==> {
                let i = order_index(old(self).orders(), order_id@);
                let o = old(self).orders()[i];
                &&& changed_at(old(self).orders(), final(self).orders(), i, OrderStatus::Cancelled, o.shipping_address, now)
                &&& final(self).stock() == moved_levels(old(self).stock(), o.items@, true)
            },
    {
        if order_id.as_str().is_empty() {
            return Err(CancelError::MissingOrderId);
        }
        let i = match self.position(order_id) {
            Some(i) => i,
            None => {
                return Err(CancelError::NotFound);
            },
        };
        if !user_id.as_str().is_empty() && self.orders[i].user_id != *user_id {
            return Err(CancelError::NotOwner);
        }
        if self.orders[i].status == OrderStatus::Cancelled {
            return Err(CancelError::AlreadyCancelled);
        }
        if self.orders[i].status == OrderStatus::Delivered {
            return Err(CancelError::Delivered);
        }
        proof {
            assert(lines_valid(self.orders@[i as int].items@));
        }
        if !self.stock.move_lines(&self.orders[i].items, true) {
            return Err(CancelError::StockOverflow);
        }
        let address = match &self.orders[i].shipping_address {
            Some(a) => Some(a.clone()),
            None => None,
        };
        self.change_at(i, OrderStatus::Cancelled, address, now);
        Ok(())
    }

    /// Overwrites the status of an order, and its shipping address unless the
    /// given one is empty. Any status may be set from any other.
    pub fn update_order(&mut self, order_id: &String, status: OrderStatus, shipping_address: &String, now: i64) -> (r: Result<Order, UpdateError>)
        requires
            old(self).wf(),
        ensures
            final(self).wf(),
            final(self).stock() == old(self).stock(),
            r.is_ok() == (update_outcome(old(self).orders(), order_id@) is Ok),
            r.is_err() ==> r == Err::<Order, UpdateError>(update_outcome(old(self).orders(), order_id@)->Err_0)
                && final(self).orders() == old(self).orders(),
            r.is_ok() ==> {
                let i = order_index(old(self).orders(), order_id@);
                let o = old(self).orders()[i];
                &&& changed_at(old(self).orders(), final(self).orders(), i, status,
                    updated_address(o.shipping_address, *shipping_address), now)
                &&& same_order(r.unwrap(), final(self).orders()[i])
            },
    {
        if order_id.as_str().is_empty() {
            return Err(UpdateError::MissingOrderId);
        }
        let i = match self.position(order_id) {
            Some(i) => i,
            None => {
                return Err(UpdateError::NotFound);
            },
        };
        let address = if shipping_address.as_str().is_empty() {
            match &self.orders[i].shipping_address {
                Some(a) => Some(a.clone()),
                None => None,
            }
        } else {
            Some(shipping_address.clone())
        };
        self.change_at(i, status, address, now);
        Ok(self.orders[i].duplicate())
    }

    /// One page of the orders that the filter selects, newest first, with the
    /// number selected over all pages.
    fn list(&self, filter: &OrderFilter, page: PageRequest) -> (r: OrderPage)
        requires
            self.wf(),
            page.page >= 1,
            page.page_size >= 1,
        ensures
            r.total_count == selection(self.orders(), *filter).len(),
            same_orders(r.orders@, page_of(selection(self.orders(), *filter), page.page as int, page.page_size as int)),
    {
        let n = self.orders.len();
        let mut picked: Vec<Order> = Vec::new();
        let mut k: usize = n;
        while k > 0
            invariant
                0 <= k <= n,
                n == self.orders@.len(),
                same_orders(picked@, newest_first(self.orders@, k as int, *filter)),
            decreases k,
        {
            let o = &self.orders[k - 1];
            let keep = match filter {
                OrderFilter::All => true,
                OrderFilter::WithStatus(st) => o.status == *st,
                OrderFilter::OfUser(u) => o.user_id == *u,
            };
            let ghost before = picked@;
            if keep {
                picked.push(o.duplicate());
                proof {
                    let want = newest_first(self.orders@, k - 1, *filter);
                    assert(want == newest_first(self.orders@, k as int, *filter).push(self.orders@[k - 1]));
                    assert forall|j: int| 0 <= j < picked@.len() implies same_order(#[trigger] picked@[j], want[j]) by {
                        if j < before.len() {
                            assert(picked@[j] == before[j]);
                        }
                    };
                }
            }
            k = k - 1;
        }
        let sel = Ghost(newest_first(self.orders@, 0, *filter));
        let total = picked.len();
        let start: u64 = page.offset();
        let size: u64 = page.page_size as u64;
        assert((page.page as int - 1) * (page.page_size as int) <= 0x7fff_ffff * 0x7fff_ffff) by (nonlinear_arith)
            requires 0 <= page.page as int - 1 < 0x7fff_ffff, 0 < page.page_size as int <= 0x7fff_ffff;
        let lo: usize = if start < total as u64 { start as usize } else { total };
        let hi: usize = if start + size < total as u64 { (start + size) as usize } else { total };
        let mut shown: Vec<Order> = Vec::new();
        let mut j: usize = lo;
        while j < hi
            invariant
                lo <= j <= hi <= total,
                total == picked@.len(),
                same_orders(picked@, sel@),
                same_orders(shown@, sel@.subrange(lo as int, j as int)),
            decreases hi - j,
        {
            let ghost before = shown@;
            shown.push(picked[j].duplicate());
            proof {
                let want = sel@.subrange(lo as int, j + 1);
                assert forall|m: int| 0 <= m < shown@.len() implies same_order(#[trigger] shown@[m], want[m]) by {
                    if m < before.len() {
                        assert(shown@[m] == before[m]);
                    }
                };
            }
            j = j + 1;
        }
        OrderPage { orders: shown, total_count: total }
    }

    /// One page of all orders, or of the orders with one status, newest first.
    /// The status number of `Pending` selects every status; a page of zero or
    /// less is the first; a page size of zero or less, or above the maximum, is
    /// the default.
    pub fn list_orders(&self, status: i32, page: i32, page_size: i32) -> (r: OrderPage)
        requires
            self.wf(),
        ensures
            ({
                let f = match filter_of_code(status as int) {
                    Some(st) => OrderFilter::WithStatus(st),
                    None => OrderFilter::All,
                };
                &&& r.total_count == selection(self.orders(), f).len()
                &&& same_orders(r.orders@, page_of(selection(self.orders(), f), effective_page(page), effective_page_size(page_size)))
            }),
    {
        let filter = match status_filter(status) {
            Some(st) => OrderFilter::WithStatus(st),
            None => OrderFilter::All,
        };
        self.list(&filter, PageRequest::normalize(page, page_size))
    }

    /// One page of a user's orders, newest first; refused for an empty user id.
    pub fn orders_by_user(&self, user_id: &String, page: i32, page_size: i32) -> (r: Result<OrderPage, ListError>)
        requires
            self.wf(),
        ensures
            r.is_err() == (user_id@.len() == 0),
            r.is_ok() ==> {
                let f = OrderFilter::OfUser(*user_id);
                &&& r.unwrap().total_count == selection(self.orders(), f).len()
                &&& same_orders(r.unwrap().orders@, page_of(selection(self.orders(), f), effective_page(page), effective_page_size(page_size)))
            },
    {
        if user_id.as_str().is_empty() {
            return Err(ListError::MissingUserId);
        }
        let filter = OrderFilter::OfUser(user_id.clone());
        Ok(self.list(&filter, PageRequest::normalize(page, page_size)))
    }
}

} // verus!

verus! {

/// Every stored order's total is the sum of its lines at the prices captured
/// when it was placed, and each of its subtotals fits in 64 bits.
pub proof fn lemma_totals_match_lines(store: &OrderStore)
    requires
        store.wf(),
    ensures
        forall|i: int| 0 <= i < store.orders().len() ==> (#[trigger] store.orders()[i]).total_amount as int
            == items_total(store.orders()[i].items@) && lines_valid(store.orders()[i].items@)
            && subtotals_fit(store.orders()[i].items@),
{
}

/// A change of one order's status, address or update time keeps the lines
/// and the total of every order as they were.
pub proof fn lemma_change_keeps_amounts(before: Seq<Order>, after: Seq<Order>, i: int, status: OrderStatus, address: Option<String>, at: i64)
    requires
        0 <= i < before.len(),
        changed_at(before, after, i, status, address, at),
    ensures
        forall|j: int| 0 <= j < before.len() ==> (#[trigger] after[j]).total_amount == before[j].total_amount
            && after[j].items@ == before[j].items@,
{
    assert forall|j: int| 0 <= j < before.len() implies (#[trigger] after[j]).total_amount == before[j].total_amount
        && after[j].items@ == before[j].items@ by {
        if j != i {
            assert(after[j] == before[j]);
        }
    };
}

/// Putting back the units that a set of lines took off the shelf restores
/// every stock level exactly.
pub proof fn lemma_restore_undoes_withdrawal(m: Map<Seq<char>, int>, items: Seq<LineItem>)
    ensures
        moved_levels(moved_levels(m, items, false), items, true) == m,
{
    assert(moved_levels(moved_levels(m, items, false), items, true) =~= m);
}

/// Once an order is cancelled, a second cancellation of it by its owner (or
/// with no user given) is refused as already cancelled, and so changes no stock.
pub proof fn lemma_cancel_once(
    before: Seq<Order>,
    after: Seq<Order>,
    stock: Map<Seq<char>, int>,
    id: Seq<char>,
    user_id: Seq<char>,
    address: Option<String>,
    at: i64,
)
    requires
        unique_ids(before),
        id.len() != 0,
        has_order(before, id),
        changed_at(before, after, order_index(before, id), OrderStatus::Cancelled, address, at),
        user_id.len() == 0 || before[order_index(before, id)].user_id@ == user_id,
    ensures
        cancel_outcome(after, stock, id, user_id) == Err::<(), CancelError>(CancelError::AlreadyCancelled),
{
    let i = order_index(before, id);
    assert(after[i].id@ == id);
    assert(has_order(after, id));
    let k = order_index(after, id);
    if k != i {
        assert(after[k] == before[k]);
        assert(before[k].id@ == id);
        assert(before[i].id@ == id);
    }
}

/// Cancelling a delivered order is always refused, and so changes no stock.
pub proof fn lemma_delivered_stays(orders: Seq<Order>, stock: Map<Seq<char>, int>, id: Seq<char>, user_id: Seq<char>)
    requires
        has_order(orders, id),
        orders[order_index(orders, id)].status == OrderStatus::Delivered,
    ensures
        cancel_outcome(orders, stock, id, user_id) is Err,
        id.len() != 0 && (user_id.len() == 0 || orders[order_index(orders, id)].user_id@ == user_id)
            ==> cancel_outcome(orders, stock, id, user_id) == Err::<(), CancelError>(CancelError::Delivered),
{
}

/// Stored order ids are distinct, and every stock level fits in 64 bits.
pub proof fn lemma_store_facts(store: &OrderStore)
    requires
        store.wf(),
    ensures
        unique_ids(store.orders()),
        forall|k: Seq<char>| #[trigger] store.stock().contains_key(k) ==> i64::MIN <= store.stock()[k] <= i64::MAX,
{
    store.stock.lemma_levels_fit();
}

/// A cancellation by the owner (or with no user given) of a stored order that
/// is neither cancelled nor delivered succeeds whenever the restored levels
/// fit in 64 bits; `cancel_order` then puts each line's units back exactly once.
pub proof fn lemma_cancel_succeeds(store: &OrderStore, id: Seq<char>, user_id: Seq<char>)
    requires
        store.wf(),
        id.len() != 0,
        has_order(store.orders(), id),
        user_id.len() == 0 || store.orders()[order_index(store.orders(), id)].user_id@ == user_id,
        cancellable(store.orders()[order_index(store.orders(), id)].status),
        move_fits(store.stock(), store.orders()[order_index(store.orders(), id)].items@, true),
    ensures
        cancel_outcome(store.orders(), store.stock(), id, user_id) == Ok::<(), CancelError>(()),
{
}

/// Every order that a selection holds is one that its filter selects.
pub proof fn lemma_selection_only_selected(s: Seq<Order>, lo: int, f: OrderFilter)
    requires
        0 <= lo,
    ensures
        forall|k: int| 0 <= k < newest_first(s, lo, f).len() ==> selects(f, #[trigger] newest_first(s, lo, f)[k]),
    decreases s.len() - lo,
{
    if lo < s.len() {
        lemma_selection_only_selected(s, lo + 1, f);
        let rest = newest_first(s, lo + 1, f);
        if selects(f, s[lo]) {
            assert forall|k: int| 0 <= k < newest_first(s, lo, f).len() implies selects(f, #[trigger] newest_first(s, lo, f)[k]) by {
                if k < rest.len() {
                    assert(newest_first(s, lo, f)[k] == rest[k]);
                }
            };
        }
    }
}

/// Every order of `s[lo..]` that the filter selects is in the selection.
pub proof fn lemma_selection_complete(s: Seq<Order>, lo: int, f: OrderFilter)
    requires
        0 <= lo,
    ensures
        forall|j: int| lo <= j < s.len() && selects(f, #[trigger] s[j]) ==>
            exists|k: int| 0 <= k < newest_first(s, lo, f).len() && newest_first(s, lo, f)[k] == s[j],
    decreases s.len() - lo,
{
    if lo < s.len() {
        lemma_selection_complete(s, lo + 1, f);
        let rest = newest_first(s, lo + 1, f);
        let sel = newest_first(s, lo, f);
        assert forall|j: int| lo <= j < s.len() && selects(f, #[trigger] s[j]) implies
            exists|k: int| 0 <= k < sel.len() && sel[k] == s[j] by {
            if j == lo {
                assert(sel[sel.len() - 1] == s[lo]);
            } else {
                let k = choose|k: int| 0 <= k < rest.len() && rest[k] == s[j];
                assert(sel[k] == rest[k]);
            }
        };
    }
}

/// With no filter a selection holds every order, so its count is the number
/// of stored orders.
pub proof fn lemma_selection_all(s: Seq<Order>, lo: int)
    requires
        0 <= lo <= s.len(),
    ensures
        newest_first(s, lo, OrderFilter::All).len() == s.len() - lo,
    decreases s.len() - lo,
{
    if lo < s.len() {
        lemma_selection_all(s, lo + 1);
    }
}

/// A selection counts exactly the orders that its filter selects.
pub proof fn lemma_selection_count(s: Seq<Order>, lo: int, f: OrderFilter)
    requires
        0 <= lo <= s.len(),
    ensures
        newest_first(s, lo, f).len() == s.subrange(lo, s.len() as int).filter(|o: Order| selects(f, o)).len(),
    decreases s.len() - lo,
{
    let pred = |o: Order| selects(f, o);
    let sub = s.subrange(lo, s.len() as int);
    if lo < s.len() {
        lemma_selection_count(s, lo + 1, f);
        let rest = s.subrange(lo + 1, s.len() as int);
        assert(sub =~= seq![s[lo]] + rest);
        rest.lemma_filter_prepend(s[lo], pred);
    } else {
        assert(sub =~= Seq::<Order>::empty());
        reveal_with_fuel(Seq::filter, 1);
    }
}

} // verus!

verus! {

/// Every order in a selection comes from `s[lo..]`.
pub proof fn lemma_selection_from(s: Seq<Order>, lo: int, f: OrderFilter)
    requires
        0 <= lo,
    ensures
        forall|k: int| 0 <= k < newest_first(s, lo, f).len() ==>
            exists|j: int| lo <= j < s.len() && #[trigger] newest_first(s, lo, f)[k] == s[j],
    decreases s.len() - lo,
{
    if lo < s.len() {
        lemma_selection_from(s, lo + 1, f);
        let rest = newest_first(s, lo + 1, f);
        let sel = newest_first(s, lo, f);
        assert forall|k: int| 0 <= k < sel.len() implies exists|j: int| lo <= j < s.len() && #[trigger] sel[k] == s[j] by {
            if k < rest.len() {
                assert(sel[k] == rest[k]);
                let j = choose|j: int| lo + 1 <= j < s.len() && #[trigger] rest[k] == s[j];
                assert(sel[k] == s[j]);
            } else {
                assert(sel[k] == s[lo]);
            }
        };
    }
}

/// Over orders kept in order of creation, a selection runs newest first.
pub proof fn lemma_selection_sorted(s: Seq<Order>, lo: int, f: OrderFilter)
    requires
        0 <= lo,
        by_creation(s),
    ensures
        forall|a: int, b: int| 0 <= a < b < newest_first(s, lo, f).len() ==>
            (#[trigger] newest_first(s, lo, f)[a]).created_at >= (#[trigger] newest_first(s, lo, f)[b]).created_at,
    decreases s.len() - lo,
{
    if lo < s.len() {
        lemma_selection_sorted(s, lo + 1, f);
        lemma_selection_from(s, lo + 1, f);
        let rest = newest_first(s, lo + 1, f);
        let sel = newest_first(s, lo, f);
        if selects(f, s[lo]) {
            assert forall|a: int, b: int| 0 <= a < b < sel.len() implies
                (#[trigger] sel[a]).created_at >= (#[trigger] sel[b]).created_at by {
                assert(sel[a] == rest[a]);
                if b < rest.len() {
                    assert(sel[b] == rest[b]);
                } else {
                    assert(sel[b] == s[lo]);
                    let j = choose|j: int| lo + 1 <= j < s.len() && #[trigger] rest[a] == s[j];
                    assert(s[lo].created_at <= s[j].created_at);
                }
            };
        }
    }
}

/// Every listing of a store runs newest first.
pub proof fn lemma_listing_newest_first(store: &OrderStore, f: OrderFilter)
    requires
        store.wf(),
    ensures
        forall|a: int, b: int| 0 <= a < b < selection(store.orders(), f).len() ==>
            (#[trigger] selection(store.orders(), f)[a]).created_at >= (#[trigger] selection(store.orders(), f)[b]).created_at,
{
    lemma_selection_sorted(store.orders(), 0, f);
}

} // verus!
