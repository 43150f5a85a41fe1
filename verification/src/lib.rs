//! Fan discovery and control library.
//!
//! The library models cooling fans and their temperature-to-speed curves,
//! validates user-supplied curves against a safety policy, converts between
//! PWM duty cycles and RPM ranges, parses the Lenovo embedded-controller
//! table dump protocol, and drives the state machine of the concurrent
//! polling/control loop. All hardware and OS access lives outside the
//! library; every function here is pure computation over plain values.

pub mod cli;
pub mod controller;
pub mod curve;
pub mod errors;
pub mod fan;
pub mod interp;
pub mod lenovo;
pub mod linux;
pub mod report;
pub mod tables;
pub mod text;
pub mod ui;
pub mod windows;
pub mod worker;
