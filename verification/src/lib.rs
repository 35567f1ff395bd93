//! Core of a currency conversion service: an immutable table of exchange
//! rates relative to a base currency, the conversion arithmetic routed
//! through that base, and the refresh logic that swaps in freshly fetched
//! snapshots.
//!
//! Amounts and rates are IEEE-754 double-precision values carried as their
//! 64-bit patterns, so that the decision logic (which currencies exist,
//! which formula applies, which error is reported) is fully specified while
//! the floating-point evaluation itself stays at the edge of the program.

pub mod config;
pub mod conversion_rates;
pub mod refresher;
