//! Block-notification metrics: decoding of block notifications into block events, the
//! sliding-window aggregator that turns block events into metric updates, and the decisions
//! of the reconnecting subscription client.

pub mod aggregator;
pub mod client;
pub mod decode;
pub mod event;
pub mod laws;
pub mod logger;
pub mod topic;
