//! Keeps a merchant's list prices on a marketplace at chosen net targets.
//!
//! The crate holds the pricing calculator, the marketplace request and
//! response rules, the registry of follow-up tasks, the reconciliation
//! decisions and the sweeper's schedule. Everything here is pure: callers
//! perform the network and storage work and hand the outcomes back.

pub mod calc;
pub mod decimal;
pub mod error;
pub mod goods;
pub mod json;
pub mod ping;
pub mod product;
pub mod reconcile;
pub mod router;
pub mod supplier;
pub mod tasks;
pub mod text;
pub mod update;
pub mod utils;
pub mod wb;
