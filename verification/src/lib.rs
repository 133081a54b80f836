//! In-memory store management: a product catalog with purchase and sale
//! ledgers kept mutually consistent under sequential mutation, plus a small
//! credential table for the login prompt.
//!
//! Money is held in whole currency units: prices fit `u32`, per-record
//! totals are exact `u64` products, per-record profit is a signed `i64`, and
//! the ledger aggregates are wide enough (`u128`/`i128`) that recomputing
//! them can never overflow.  Every operation validates its inputs fully
//! before touching any state, so a failed call returns a typed error and
//! mutates nothing.

pub mod auth;
pub mod inventory;
pub mod purchases;
pub mod reporting;
pub mod sales;
pub mod tui;
