//! Lifecycle tooling for a blockchain full node used in development and
//! upgrade-rehearsal environments: a supervisor state machine that reacts to
//! markers in the node's log stream, a snapshot acquisition pipeline, and a
//! directory state manager for backup and restore, all specified over
//! mathematical models of the data they touch.

pub mod args;
pub mod error;
pub mod fsmodel;
pub mod modes;
pub mod snapshot;
pub mod supervisor;
pub mod text;
