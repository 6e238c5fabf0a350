//! Order-book data collection: exchange asset naming, decoding of exchange
//! feeds into normalised deltas, limit-order-book state, and the tick store's
//! line protocol with the persistence worker's decisions.

pub mod bitmex;
pub mod book;
pub mod clock;
pub mod delta;
pub mod exchange;
pub mod gdax;
pub mod persist;
pub mod tectonic;
pub mod text;
