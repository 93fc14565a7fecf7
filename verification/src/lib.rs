//! A fleet-monitoring agent, as far as it is a matter of rules.
//!
//! Each agent serves the metrics of its own host and polls a set of peers to
//! build a view of the whole fleet. The heart of this crate is that polling:
//!
//! - [`registry`] holds the peers named by configuration and the peers
//!   learned from other peers, and yields the set to poll in each cycle;
//! - [`discovery`] reads the peers that a peer reports in its answer;
//! - [`remote`] turns the outcome of a poll into a health record and keeps
//!   the records;
//! - [`scheduler`] is the polling task as a state machine, from cycle to
//!   cycle and up to shutdown;
//! - [`endpoint`] says where a peer is polled.
//!
//! Around it stand the agent's settings ([`config_manager`]), what it reads
//! of its own host ([`system_info`]) and how it updates itself
//! ([`updater`]). [`json`] and [`text`] hold what is taken on trust from
//! `serde_json` and from `std`.
//!
//! The network, the timer, the clock, the file system and the locks live
//! with the caller.

pub mod config_manager;
pub mod discovery;
pub mod endpoint;
pub mod json;
pub mod registry;
pub mod remote;
pub mod scheduler;
pub mod system_info;
pub mod text;
pub mod updater;
