//! A verified core for a cryptocurrency price aggregator.
//!
//! The crate models the caching, symbol-resolution and price-ranking logic of
//! a market-data client. Network transport, JSON decoding of floating-point
//! fields and terminal colouring live outside the library; the library works
//! on plain values and states exactly what each step computes.

pub mod cache;
pub mod display;
pub mod errors;
pub mod jsonval;
pub mod orchestrator;
pub mod pipeline;
pub mod resolve;
pub mod text;
