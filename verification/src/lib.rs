//! A request router for pooled data access.
//!
//! Callers wrap each CRUD request in a command envelope that carries a
//! single-use reply slot. A dispatcher takes envelopes one at a time, checks
//! a connection out of a pool, runs the matching operation of a mapper and
//! resolves the reply slot exactly once.
//!
//! Beside the router stand a few small, self-contained helpers: integer and
//! string basics, decimal numerals, the texts of three function attributes
//! and the hints of a guessing game.

pub mod error;
pub mod mapper;
pub mod memory;
pub mod envelope;
pub mod pool;
pub mod dispatcher;
pub mod laws;
pub mod basics;
pub mod numeral;
pub mod attribute;
pub mod guessing;
