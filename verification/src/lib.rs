//! A payments engine: per-client ledgers driven by a stream of transaction
//! records.
//!
//! Money is counted in whole ten-thousandths of a currency unit, so every
//! balance is an exact integer and nothing is ever rounded.

pub mod account;
pub mod calculator;
pub mod csvparser;
pub mod decimal;
pub mod field;
pub mod record;
pub mod theorems;
