//! A synthetic telemetry feed: the records it produces, their text on the
//! wire, and the decisions of the listener and of each session that streams
//! them. The library performs no input or output; a driver feeds it events and
//! carries out the actions it answers with.

pub mod decimal;
mod entropy;
pub mod fixed;
pub mod listener;
pub mod record;
pub mod session;
pub mod wire;
