//! Core lap-timing subsystem of a distributed vehicle-detection timer.
//!
//! Networked sensor nodes watch a vehicle pass a series of gates; an
//! aggregator collects their detections and derives per-sector and
//! total lap timings.  This crate holds the verified core: the trigger
//! detection logic, the wire codec for the pub/sub messages, the lap
//! state machine with its timing views, and the aggregator's update
//! rules.  I/O (serial ports, the broker link, the UI) lives outside.

pub mod app;
pub mod cli;
pub mod error;
pub mod frame;
pub mod messages;
pub mod mqttsub;
pub mod node;
pub mod sensor;
pub mod splits;
pub mod timing;
pub mod trigger;
