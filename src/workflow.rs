use vstd::prelude::*;
use crate::order::{LineItem, lines_valid};
use crate::store::NewOrder;

verus! {

/// One requested line: a product and how many units of it.
#[derive(Debug)]
pub struct ItemRequest {
    pub product_id: String,
    pub quantity: i32,
}

/// A request to place an order.
#[derive(Debug)]
pub struct CreateOrderRequest {
    pub user_id: String,
    pub items: Vec<ItemRequest>,
    pub shipping_address: String,
}

/// Why a request to place an order was turned down. Each is a business
/// outcome, reported to the caller as such.
#[derive(Debug)]
pub enum Rejection {
    MissingUserId,
    NoItems,
    /// The line for this product asks for zero units or fewer.
    InvalidQuantity(String),
    UserNotFound,
    /// The catalog cannot supply the requested units of this product.
    Unavailable(String),
    /// The catalog has no price for this product.
    ProductNotFound(String),
}

/// The call that a workflow waits on.
#[derive(Debug)]
pub enum Call {
    /// Ask the identity service whether the user exists.
    VerifyUser(String),
    /// Ask the catalog whether it can supply the units of a product.
    CheckAvailability(String, i32),
    /// Ask the catalog for the current price of a product, in cents.
    FetchPrice(String),
}

/// Where a workflow stands.
#[derive(Clone, Copy, Debug, PartialEq, Eq, Structural)]
pub enum Stage {
    AwaitUser,
    AwaitAvailability(usize),
    AwaitPrice(usize),
}

/// The validation of an order request against the identity service and the
/// catalog, one answer at a time. Nothing is stored until every line has
/// passed; the first line that fails ends the workflow.
#[derive(Debug)]
pub struct CreateWorkflow {
    request: CreateOrderRequest,
    stage: Stage,
    lines: Vec<LineItem>,
}

/// What a workflow does after an answer.
#[derive(Debug)]
pub enum Progress {
    /// More answers are needed.
    Continue(CreateWorkflow),
    /// Every line passed: this order is ready to be stored.
    Ready(NewOrder),
    /// The request is turned down; nothing is to be stored.
    Rejected(Rejection),
}

/// Every requested line asks for at least one unit.
pub open spec fn quantities_positive(items: Seq<ItemRequest>) -> bool {
    forall|i: int| 0 <= i < items.len() ==> (#[trigger] items[i]).quantity > 0
}

/// The request passes the checks made before any call.
pub open spec fn well_formed(r: CreateOrderRequest) -> bool {
    r.user_id@.len() > 0 && r.items@.len() > 0 && quantities_positive(r.items@)
}

/// The line stored for a requested line at the price the catalog gave.
pub open spec fn priced(req: ItemRequest, price: i64, li: LineItem) -> bool {
    li.product_id@ == req.product_id@ && li.quantity == req.quantity && li.unit_price == price
}

/// The empty address means that the order has none.
pub open spec fn address_of(a: String) -> Option<String> {
    if a@.len() == 0 { None } else { Some(a) }
}

fn address_from(a: &String) -> (r: Option<String>)
    ensures
        r == address_of(*a),
{
    if a.as_str().is_empty() { None } else { Some(a.clone()) }
}

impl CreateWorkflow {
    /// The request being validated.
    pub closed spec fn request(&self) -> CreateOrderRequest {
        self.request
    }

    /// Where the workflow stands.
    pub closed spec fn stage(&self) -> Stage {
        self.stage
    }

    /// The lines that have passed so far, at the prices the catalog gave.
    pub closed spec fn lines(&self) -> Seq<LineItem> {
        self.lines@
    }

    pub closed spec fn wf(&self) -> bool {
        let n = self.request.items@.len();
        &&& n > 0
        &&& self.request.user_id@.len() > 0
        &&& quantities_positive(self.request.items@)
        &&& lines_valid(self.lines@)
        &&& match self.stage {
            Stage::AwaitUser => self.lines@.len() == 0,
            Stage::AwaitAvailability(i) => i < n && self.lines@.len() == i,
            Stage::AwaitPrice(i) => i < n && self.lines@.len() == i,
        }
        &&& forall|j: int| 0 <= j < self.lines@.len() ==> priced(
            self.request.items@[j],
            (#[trigger] self.lines@[j]).unit_price,
            self.lines@[j],
        )
    }

    /// Starts validating a request. A request with no user id, with no lines, or
    /// with a line that asks for zero units or fewer is turned down at once.
    pub fn start(request: CreateOrderRequest) -> (r: Result<CreateWorkflow, Rejection>)
        ensures
            match r {
                Ok(w) => well_formed(request) && w.wf() && w.request() == request
                    && w.stage() == Stage::AwaitUser && w.lines().len() == 0,
                Err(e) => if request.user_id@.len() == 0 {
                    e is MissingUserId
                } else if request.items@.len() == 0 {
                    e is NoItems
                } else {
                    exists|i: int| 0 <= i < request.items@.len()
                        && (#[trigger] request.items@[i]).quantity <= 0
                        && e == Rejection::InvalidQuantity(request.items@[i].product_id)
                        && forall|j: int| 0 <= j < i ==> (#[trigger] request.items@[j]).quantity > 0
                },
            },
    {
        if request.user_id.as_str().is_empty() {
            return Err(Rejection::MissingUserId);
        }
        if request.items.len() == 0 {
            return Err(Rejection::NoItems);
        }
        let mut i: usize = 0;
        while i < request.items.len()
            invariant
                0 <= i <= request.items@.len(),
                request.user_id@.len() > 0,
                request.items@.len() > 0,
                forall|j: int| 0 <= j < i ==> (#[trigger] request.items@[j]).quantity > 0,
            decreases request.items@.len() - i,
        {
            if request.items[i].quantity <= 0 {
                let e = Rejection::InvalidQuantity(request.items[i].product_id.clone());
                proof {
                    let k = i as int;
                    assert(0 <= k < request.items@.len() && request.items@[k].quantity <= 0
                        && e == Rejection::InvalidQuantity(request.items@[k].product_id)
                        && forall|j: int| 0 <= j < k ==> (#[trigger] request.items@[j]).quantity > 0);
                }
                return Err(e);
            }
            i = i + 1;
        }
        Ok(CreateWorkflow { request, stage: Stage::AwaitUser, lines: Vec::new() })
    }

    /// The call whose answer the workflow waits on.
    pub fn pending_call(&self) -> (r: Call)
        requires
            self.wf(),
        ensures
            match self.stage() {
                Stage::AwaitUser => r == Call::VerifyUser(self.request().user_id),
                Stage::AwaitAvailability(i) => r == Call::CheckAvailability(
                    self.request().items@[i as int].product_id,
                    self.request().items@[i as int].quantity,
                ),
                Stage::AwaitPrice(i) => r == Call::FetchPrice(self.request().items@[i as int].product_id),
            },
    {
        match self.stage {
            Stage::AwaitUser => Call::VerifyUser(self.request.user_id.clone()),
            Stage::AwaitAvailability(i) => Call::CheckAvailability(
                self.request.items[i].product_id.clone(),
                self.request.items[i].quantity,
            ),
            Stage::AwaitPrice(i) => Call::FetchPrice(self.request.items[i].product_id.clone()),
        }
    }

    /// Takes the identity service's answer: an unknown user ends the workflow.
    pub fn user_checked(self, exists: bool) -> (r: Progress)
        requires
            self.wf(),
            self.stage() == Stage::AwaitUser,
        ensures
            match r {
                Progress::Continue(w) => exists && w.wf() && w.request() == self.request()
                    && w.stage() == Stage::AwaitAvailability(0) && w.lines() == self.lines(),
                Progress::Rejected(e) => !exists && e is UserNotFound,
                Progress::Ready(_) => false,
            },
    {
        if !exists {
            return Progress::Rejected(Rejection::UserNotFound);
        }
        Progress::Continue(CreateWorkflow { request: self.request, stage: Stage::AwaitAvailability(0), lines: self.lines })
    }

    /// Takes the catalog's answer on the availability of the current line: a
    /// line that cannot be supplied ends the workflow.
    pub fn availability_checked(self, available: bool) -> (r: Progress)
        requires
            self.wf(),
            self.stage() is AwaitAvailability,
        ensures
            match r {
                Progress::Continue(w) => available && w.wf() && w.request() == self.request()
                    && w.stage() == Stage::AwaitPrice(self.stage()->AwaitAvailability_0)
                    && w.lines() == self.lines(),
                Progress::Rejected(e) => !available && e == Rejection::Unavailable(
                    self.request().items@[self.stage()->AwaitAvailability_0 as int].product_id,
                ),
                Progress::Ready(_) => false,
            },
    {
        let i = match self.stage {
            Stage::AwaitAvailability(i) => i,
            _ => 0,
        };
        if !available {
            return Progress::Rejected(Rejection::Unavailable(self.request.items[i].product_id.clone()));
        }
        Progress::Continue(CreateWorkflow { request: self.request, stage: Stage::AwaitPrice(i), lines: self.lines })
    }

    /// Takes the catalog's price (in cents) for the current line. The price is
    /// captured in the line; the last line makes the order ready to be stored.
    pub fn price_fetched(self, price: Option<i64>) -> (r: Progress)
        requires
            self.wf(),
            self.stage() is AwaitPrice,
        ensures
            ({
                let i = self.stage()->AwaitPrice_0 as int;
                let req = self.request();
                let pid = req.items@[i].product_id;
                match r {
                    Progress::Continue(w) => price is Some && i + 1 < req.items@.len()
                        && w.wf() && w.request() == req && w.stage() == Stage::AwaitAvailability((i + 1) as usize)
                        && w.lines().len() == i + 1 && w.lines().drop_last() == self.lines()
                        && priced(req.items@[i], price.unwrap(), w.lines().last()),
                    Progress::Ready(o) => price is Some && i + 1 == req.items@.len()
                        && o.user_id == req.user_id && o.shipping_address == address_of(req.shipping_address)
                        && lines_valid(o.items@)
                        && o.items@.len() == i + 1 && o.items@.drop_last() == self.lines()
                        && priced(req.items@[i], price.unwrap(), o.items@.last()),
                    Progress::Rejected(e) => price is None && e == Rejection::ProductNotFound(pid),
                }
            }),
    {
        let i = match self.stage {
            Stage::AwaitPrice(i) => i,
            _ => 0,
        };
        assert(i < self.request.items@.len());
        let p = match price {
            Some(p) => p,
            None => {
                return Progress::Rejected(Rejection::ProductNotFound(self.request.items[i].product_id.clone()));
            },
        };
        let line = LineItem {
            product_id: self.request.items[i].product_id.clone(),
            quantity: self.request.items[i].quantity,
            unit_price: p,
        };
        let mut lines = self.lines;
        let ghost before = lines@;
        lines.push(line);
        proof {
            assert(lines@.drop_last() =~= before);
            assert forall|j: int| 0 <= j < lines@.len() implies (#[trigger] lines@[j]).quantity > 0 by {
                if j < before.len() {
                    assert(lines@[j] == before[j]);
                }
            };
            assert forall|j: int| 0 <= j < lines@.len() implies priced(
                self.request.items@[j], (#[trigger] lines@[j]).unit_price, lines@[j]) by {
                if j < before.len() {
                    assert(lines@[j] == before[j]);
                }
            };
        }
        if i < self.request.items.len() - 1 {
            Progress::Continue(CreateWorkflow { request: self.request, stage: Stage::AwaitAvailability(i + 1), lines })
        } else {
            let shipping_address = address_from(&self.request.shipping_address);
            Progress::Ready(NewOrder { user_id: self.request.user_id, items: lines, shipping_address })
        }
    }
}

} // verus!
