//! A resource-monitoring daemon's core: change-gated polling of host
//! resources, a snapshot of their last known values, the wire envelope that
//! carries each update, and the fan-out of updates to connected subscribers;
//! with the parsing and classification that the resource readers rely on.

pub mod resource;
pub mod envelope;
pub mod snapshot;
pub mod poller;
pub mod registry;

pub mod text;
pub mod number;
pub mod tool_output;
pub mod readers;
pub mod upower;
pub mod clock;
