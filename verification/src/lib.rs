//! Sensor, display and control logic for a small smart-home sensor node.
//!
//! The I2C, PIO, Wi-Fi and TCP plumbing lives in the firmware around this
//! crate; everything here is plain computation over bytes and small state
//! machines, each with its contract proved by Verus.

pub mod config;
pub mod network;
pub mod sensors;
pub mod command;
