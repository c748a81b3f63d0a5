//! Library behind a terminal dashboard for a remote cluster.
//!
//! The library holds everything the dashboard decides or computes: the data
//! model of a cluster snapshot, the health classification of its pods, the
//! namespace-scoped view projections (endpoints, deployments, pods), the
//! command-line argument rules, and the session state machine that drives
//! connecting, reconnecting and streaming.  All I/O — the HTTP metadata
//! fetch, the websocket feed, the interactive prompts and the terminal
//! output — lives outside, in a thin binary that calls into this crate.

pub mod args;
pub mod health;
pub mod models;
pub mod select;
pub mod session;
pub mod sort;
pub mod text;
pub mod views;
