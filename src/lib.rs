//! A two-tier card resolution cache: a canonical table of unique card records,
//! a staleness-bounded index from free-text search terms to those records, and
//! the decisions that route a request between them and a remote lookup service.

mod clock;

pub mod card;
pub mod local;
pub mod lookup;
pub mod store;
pub mod weather;
pub mod containers;
