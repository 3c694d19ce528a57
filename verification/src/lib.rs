//! Status-indicator core for a wireless-link LED.
//!
//! A single LED reports the current connection state of a wireless link by
//! blinking one of several patterns. Producers publish the latest state into a
//! single-slot channel (latest value wins); the indicator controller consumes
//! it and emits a sequence of timed LED levels. Everything here is pure logic:
//! the surrounding runtime performs the actual pin writes and delays.

pub mod channel;
pub mod controller;
pub mod events;
pub mod maintenance;
pub mod pattern;
pub mod simulator;
pub mod state;
