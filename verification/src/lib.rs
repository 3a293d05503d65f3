//! Verified core of the DCP provider desktop agent: the parsing, selection,
//! health-assessment, daemon-lifecycle and update-verification logic that the
//! desktop shell drives.

pub mod agent;
pub mod checks;
pub mod daemon;
pub mod hardware;
pub mod health;
pub mod install;
pub mod json;
pub mod network;
pub mod platform;
pub mod provider;
pub mod text;
pub mod types;
pub mod update;

use vstd::prelude::*;

verus! {

} // verus!
