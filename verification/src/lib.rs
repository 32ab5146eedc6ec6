//! Minting rules of the ECITY token: a vesting schedule of yearly amounts,
//! released once per two-week episode after a one-time premint, and sent to
//! a router address that the owner may lock for good.

pub mod error;
pub mod laws;
pub mod minter;
pub mod model;
pub mod schedule;

pub use minter::{EcityTest, Minter};
