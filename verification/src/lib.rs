//! A verified core for a rollup sequencer.
//!
//! The library holds the four tightly coupled pieces of the sequencing
//! pipeline, each with a machine-checked contract:
//!
//! - [`mempool`]: admission, replacement and fee-ordered batch selection of
//!   pending transactions, fed by the [`state_accessor`] read path;
//! - [`block_producer`]: the append-only block log and the production step
//!   that turns a batch into the next soft confirmation;
//! - [`commitment_controller`]: the cursor-driven controller that decides
//!   when a height range is published to the data-availability layer, and
//!   the invariant that committed ranges partition the committed prefix;
//! - [`registry`]: the on-chain sequencer registry state machine, with the
//!   bond ledger it moves funds through ([`bank`]).
//!
//! [`config`] gathers the node's tunables, and [`kvlist`] is the small
//! verified key/value store the stateful modules build on.
//!
//! External collaborators — the state-transition function, the
//! data-availability wire client, persistence and transport — stay outside:
//! the library takes their results as plain values and states what it
//! decides for every such value.

pub mod kvlist;
pub mod bank;
pub mod registry;
pub mod commitment_controller;
pub mod state_accessor;
pub mod mempool;
pub mod config;
pub mod block_producer;
