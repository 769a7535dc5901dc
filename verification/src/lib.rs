//! Pricing for a small coffee counter: a catalog of drinks, money amounts,
//! validated order lines and the order that sums and prints them.
//!
//! Every executable function carries a contract over the mathematical model of
//! its arguments: amounts are natural numbers, texts are sequences of
//! characters, an order is the sequence of its lines.

pub mod coffee;
pub mod decimal;
pub mod order;
pub mod price;
pub mod receipt;
