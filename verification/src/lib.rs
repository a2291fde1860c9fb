//! Verified core of a live judging engine for expo-style events.
//!
//! Judges walk the floor and repeatedly compare the two projects they saw
//! most recently; a pairwise-comparison ranking model turns those votes into
//! a global ranking.  This crate verifies the decision logic of that flow:
//! the next-project selection cascade, the per-judge vote state machine, the
//! table-location registry, the shared event clock, and the debounced
//! fan-out of change notifications.  Storage I/O, the HTTP surface, and the
//! floating-point posterior updates live outside the verified core; they
//! exchange plain values with it.

use vstd::prelude::*;

pub mod auth;
pub mod clock;
pub mod hub;
pub mod ingest;
pub mod models;
pub mod requests;
pub mod selector;
pub mod store;
pub mod text;
pub mod vote;
pub mod web;

verus! {

/// A project must be seen at least this many times before the selector
/// stops favouring under-seen projects.
pub const MIN_VIEWS: u64 = 3;

} // verus!
