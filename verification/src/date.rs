//! A point in time: when a note was last modified.
use vstd::prelude::*;

verus! {

/// The result of comparing two values.
#[derive(Debug, Clone, Copy, PartialEq, Eq)]
pub enum Order {
    Less,
    Equal,
    Greater,
}

/// The reverse of an order.
pub open spec fn reversed(order: Order) -> Order {
    match order {
        Order::Less => Order::Greater,
        Order::Equal => Order::Equal,
        Order::Greater => Order::Less,
    }
}

/// A point in time: whole seconds since the Unix epoch and the
/// nanoseconds past that second.
#[derive(Debug, Clone, Copy, PartialEq, Eq)]
pub struct Date {
    pub seconds: i64,
    pub nanoseconds: u32,
}

/// How `a` compares with `b`: earlier is less, by seconds, then
/// nanoseconds.
pub open spec fn date_order(a: Date, b: Date) -> Order {
    if a.seconds < b.seconds {
        Order::Less
    } else if a.seconds > b.seconds {
        Order::Greater
    } else if a.nanoseconds < b.nanoseconds {
        Order::Less
    } else if a.nanoseconds > b.nanoseconds {
        Order::Greater
    } else {
        Order::Equal
    }
}

impl Default for Date {
    /// The Unix epoch.
    fn default() -> (date: Date)
        ensures
            date == (Date { seconds: 0, nanoseconds: 0 }),
    {
        Date { seconds: 0, nanoseconds: 0 }
    }
}

impl Date {
    /// How `self` compares with `other` in time.
    pub fn compare(&self, other: &Date) -> (order: Order)
        ensures
            order == date_order(*self, *other),
    {
        if self.seconds < other.seconds {
            Order::Less
        } else if self.seconds > other.seconds {
            Order::Greater
        } else if self.nanoseconds < other.nanoseconds {
            Order::Less
        } else if self.nanoseconds > other.nanoseconds {
            Order::Greater
        } else {
            Order::Equal
        }
    }
}

} // verus!
