//! Verified core of the `#[instrument]` and `#[instrument_metrics]` attribute
//! macros: parsing of the attribute's label syntax, derivation of metric
//! names, and the plan of the instrumented function body.
//!
//! The token-level entry points (which receive and return token streams)
//! live in the companion crate under `app/`; they hand this library token
//! trees and render the plan it returns.

pub mod tokens;
pub mod syntax;
pub mod model;
pub mod plan;
pub mod instrument;
pub mod instrument_metrics;
pub mod laws;
