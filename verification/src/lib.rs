//! A confidential limit-order matching engine.
//!
//! The core is a fixed-capacity order book made of two binary heaps (bids and
//! asks) and a bounded matching pass that crosses the best bid with the best
//! ask under strict price-time priority.  Every executable function carries a
//! contract that is proved against a mathematical model of the book.

pub mod book;
pub mod errors;
pub mod heap;
pub mod instructions;
pub mod matching;
pub mod order;
pub mod states;
