//! Sensor-to-action ingestion bridge.
//!
//! Accepts streaming pressure-sensor telemetry from remote controllers,
//! converts each raw reading into discrete, rate-limited game commands, and
//! exposes two bounded output queues to a consumer polling at a fixed tick.

pub mod actions;
pub mod decode;
pub mod netpick;
pub mod npcs;
pub mod queue;
pub mod server;
pub mod store;
pub mod text;
