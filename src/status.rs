use vstd::prelude::*;

verus! {

/// Where an order stands in its life cycle.
///
/// Status moves one way; `Delivered` and `Cancelled` are terminal.
#[derive(Clone, Copy, Debug, PartialEq, Eq, Structural)]
pub enum OrderStatus {
    Pending,
    Confirmed,
    Processing,
    Shipped,
    Delivered,
    Cancelled,
}

/// Wire number of each status.
pub open spec fn status_code(s: OrderStatus) -> int {
    match s {
        OrderStatus::Pending => 0,
        OrderStatus::Confirmed => 1,
        OrderStatus::Processing => 2,
        OrderStatus::Shipped => 3,
        OrderStatus::Delivered => 4,
        OrderStatus::Cancelled => 5,
    }
}

/// The status a wire number decodes to, if any.
pub open spec fn status_of_code(code: int) -> Option<OrderStatus> {
    if code == 0 {
        Some(OrderStatus::Pending)
    } else if code == 1 {
        Some(OrderStatus::Confirmed)
    } else if code == 2 {
        Some(OrderStatus::Processing)
    } else if code == 3 {
        Some(OrderStatus::Shipped)
    } else if code == 4 {
        Some(OrderStatus::Delivered)
    } else if code == 5 {
        Some(OrderStatus::Cancelled)
    } else {
        None
    }
}

/// Stored text of each status.
pub open spec fn status_text(s: OrderStatus) -> Seq<char> {
    match s {
        OrderStatus::Pending => seq!['P', 'E', 'N', 'D', 'I', 'N', 'G'],
        OrderStatus::Confirmed => seq!['C', 'O', 'N', 'F', 'I', 'R', 'M', 'E', 'D'],
        OrderStatus::Processing => seq!['P', 'R', 'O', 'C', 'E', 'S', 'S', 'I', 'N', 'G'],
        OrderStatus::Shipped => seq!['S', 'H', 'I', 'P', 'P', 'E', 'D'],
        OrderStatus::Delivered => seq!['D', 'E', 'L', 'I', 'V', 'E', 'R', 'E', 'D'],
        OrderStatus::Cancelled => seq!['C', 'A', 'N', 'C', 'E', 'L', 'L', 'E', 'D'],
    }
}

/// The status that a stored text reads as; unknown text reads as `Pending`.
pub open spec fn status_of_text(t: Seq<char>) -> OrderStatus {
    if t == status_text(OrderStatus::Confirmed) {
        OrderStatus::Confirmed
    } else if t == status_text(OrderStatus::Processing) {
        OrderStatus::Processing
    } else if t == status_text(OrderStatus::Shipped) {
        OrderStatus::Shipped
    } else if t == status_text(OrderStatus::Delivered) {
        OrderStatus::Delivered
    } else if t == status_text(OrderStatus::Cancelled) {
        OrderStatus::Cancelled
    } else {
        OrderStatus::Pending
    }
}

/// Cancellation is legal from every status but the two terminal ones.
pub open spec fn cancellable(s: OrderStatus) -> bool {
    s != OrderStatus::Cancelled && s != OrderStatus::Delivered
}

impl OrderStatus {
    /// Wire number of this status.
    pub fn code(self) -> (r: i32)
        ensures
            r as int == status_code(self),
            status_of_code(r as int) == Some(self),
    {
        match self {
            OrderStatus::Pending => 0,
            OrderStatus::Confirmed => 1,
            OrderStatus::Processing => 2,
            OrderStatus::Shipped => 3,
            OrderStatus::Delivered => 4,
            OrderStatus::Cancelled => 5,
        }
    }

    /// Decodes a wire number; `None` for a number that names no status.
    pub fn from_code(code: i32) -> (r: Option<OrderStatus>)
        ensures
            r == status_of_code(code as int),
    {
        if code == 0 {
            Some(OrderStatus::Pending)
        } else if code == 1 {
            Some(OrderStatus::Confirmed)
        } else if code == 2 {
            Some(OrderStatus::Processing)
        } else if code == 3 {
            Some(OrderStatus::Shipped)
        } else if code == 4 {
            Some(OrderStatus::Delivered)
        } else if code == 5 {
            Some(OrderStatus::Cancelled)
        } else {
            None
        }
    }

    /// Decodes a wire number, reading a number that names no status as `Pending`.
    pub fn from_code_or_pending(code: i32) -> (r: OrderStatus)
        ensures
            r == (match status_of_code(code as int) {
                Some(s) => s,
                None => OrderStatus::Pending,
            }),
    {
        match OrderStatus::from_code(code) {
            Some(s) => s,
            None => OrderStatus::Pending,
        }
    }

    /// Stored text of this status.
    pub fn to_text(self) -> (r: String)
        ensures
            r@ == status_text(self),
    {
        let r: &str = match self {
            OrderStatus::Pending => {
                proof { reveal_strlit("PENDING"); }
                "PENDING"
            },
            OrderStatus::Confirmed => {
                proof { reveal_strlit("CONFIRMED"); }
                "CONFIRMED"
            },
            OrderStatus::Processing => {
                proof { reveal_strlit("PROCESSING"); }
                "PROCESSING"
            },
            OrderStatus::Shipped => {
                proof { reveal_strlit("SHIPPED"); }
                "SHIPPED"
            },
            OrderStatus::Delivered => {
                proof { reveal_strlit("DELIVERED"); }
                "DELIVERED"
            },
            OrderStatus::Cancelled => {
                proof { reveal_strlit("CANCELLED"); }
                "CANCELLED"
            },
        };
        assert(r@ =~= status_text(self));
        r.to_owned()
    }

    /// Reads a stored text; text that names no status reads as `Pending`.
    pub fn from_text(t: &String) -> (r: OrderStatus)
        ensures
            r == status_of_text(t@),
    {
        let statuses: [OrderStatus; 5] = [
            OrderStatus::Confirmed,
            OrderStatus::Processing,
            OrderStatus::Shipped,
            OrderStatus::Delivered,
            OrderStatus::Cancelled,
        ];
        let mut i: usize = 0;
        while i < 5
            invariant
                0 <= i <= 5,
                statuses@ == seq![
                    OrderStatus::Confirmed,
                    OrderStatus::Processing,
                    OrderStatus::Shipped,
                    OrderStatus::Delivered,
                    OrderStatus::Cancelled,
                ],
                forall|j: int| 0 <= j < i ==> t@ != status_text(#[trigger] statuses@[j]),
            decreases 5 - i,
        {
            let s = statuses[i];
            let text = s.to_text();
            if text == *t {
                return s;
            }
            i = i + 1;
        }
        assert(t@ != status_text(statuses@[0]));
        assert(t@ != status_text(statuses@[1]));
        assert(t@ != status_text(statuses@[2]));
        assert(t@ != status_text(statuses@[3]));
        assert(t@ != status_text(statuses@[4]));
        OrderStatus::Pending
    }

    /// Whether an order in this status may still be cancelled.
    pub fn is_cancellable(self) -> (r: bool)
        ensures
            r == cancellable(self),
    {
        !matches!(self, OrderStatus::Cancelled | OrderStatus::Delivered)
    }
}

/// Which orders a listing selects: every status, or one.
///
/// On the wire the number of `Pending` doubles as "no filter", so a listing cannot
/// select pending orders alone; a number that names no status selects `Pending`.
pub open spec fn filter_of_code(code: int) -> Option<OrderStatus> {
    if code == 0 {
        None
    } else {
        match status_of_code(code) {
            Some(s) => Some(s),
            None => Some(OrderStatus::Pending),
        }
    }
}

/// Decodes the status filter of a listing request: `None` selects every status.
pub fn status_filter(code: i32) -> (r: Option<OrderStatus>)
    ensures
        r == filter_of_code(code as int),
{
    if code == 0 {
        None
    } else {
        Some(OrderStatus::from_code_or_pending(code))
    }
}

} // verus!
