//! NetSentinel: a passive network monitoring library.
//!
//! The crate covers the data plane of a two-stage monitoring pipeline:
//! a decoder from raw Ethernet frames to structured records, the capture
//! engine's bookkeeping, a binary record codec for the broker transport,
//! the in-memory aggregation tables, and the persistence merge semantics.

pub mod agg_config;
pub mod capture;
pub mod capture_config;
pub mod clock;
pub mod codec;
pub mod consumer;
pub mod counters;
pub mod device;
pub mod ethernet;
pub mod flow;
pub mod frame;
pub mod ids;
pub mod ipv4;
pub mod output;
pub mod persist;
pub mod protocol;
pub mod state;
pub mod text;
pub mod transport;
pub mod vlan;
pub mod wire;

pub use frame::MacAddr;
