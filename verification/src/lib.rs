//! Fieldnotes: the decision logic of a peer-to-peer scenario-testing app.
//!
//! The crate holds the rules that decide what the app accepts, stores and
//! shows: the administrator gate of the integrity zome, the coordinator's
//! selection rules, agent-key parsing, the attachment cohort and its bulk
//! cipher, the migration bookkeeping and the conductor's configuration and
//! recovery decisions. Everything that talks to a process, a socket, a file
//! or the Holochain host is left to the caller, which hands the results in as
//! plain values.

pub mod text;

pub mod codec;

pub mod agent_key;

pub mod integrity;

pub mod bulk_crypto;

pub mod dna;

pub mod migration;

pub mod conductor;

pub mod lair;

pub mod process_ext;

pub mod commands;

pub mod attachment;

pub mod polls;

pub mod coordinator;














