//! A time-locked disbursement engine.
//!
//! The crate holds a single account: an owner who alone may deposit, a
//! fixed schedule of unlock times, and a fixed set of recipients. Once an
//! unlock time has passed, the next disbursement call pays every recipient
//! a flat share of the cumulative deposit and settles that tranche exactly
//! once; further calls emit nothing for it. The engine itself moves no
//! funds: it emits transfer instructions for a host to execute.

pub mod engine;
pub mod laws;
pub mod model;
pub mod state;
