//! Peer scoring for a gossip-based publish/subscribe overlay.
//!
//! Every real quantity (counters, weights, caps, thresholds, scores) is a fixed-point
//! number: an integer count of millionths, with saturating arithmetic. Times are
//! milliseconds on a clock that the caller supplies.
//!
//! - `fixed`: the arithmetic.
//! - `ident`: peers, topics, addresses, and lookup in lists of them.
//! - `params`: the parameters and their validation.
//! - `stats`: the counters of one peer on one topic, and the score of a topic.
//! - `peer`: the stats of one peer.
//! - `table`: the table of peers, its events, and the score of a peer.
//! - `message`: messages and their fingerprint.
//! - `delivery`: delivery records, and what reports of a message do to the table.
//! - `engine`: the table together with the time cache of delivery records.
//! - `laws`: what holds of the engine whatever the sequence of events.

pub mod fixed;
pub mod ident;
pub mod params;
pub mod stats;
pub mod peer;
pub mod table;
pub mod message;
pub mod delivery;
pub mod engine;
pub mod laws;
