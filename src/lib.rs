//! Order fulfilment for a small commerce platform, with its per-client
//! admission control and call logging.
//!
//! - [`workflow`] checks an order request against the identity service and the
//!   catalog, one answer at a time, and stores nothing until every line passes.
//! - [`store`] keeps orders and the stock levels they draw on, and changes them
//!   only as whole transactions: placing takes stock, cancelling gives it back.
//! - [`ratelimit`] lets each client through a fixed number of times per window.
//! - [`logging`] records each call without touching its outcome.
//! - [`identity`] prepares accounts and checks passwords against their hashes.

pub mod pagination;
pub mod status;
pub mod order;
pub mod inventory;
pub mod store;
pub mod workflow;
pub mod catalog;
mod ids;
pub mod ratelimit;
pub mod logging;
pub mod identity;
