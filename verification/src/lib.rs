//! Client side of the FanBoy fan controller's serial protocol.
//!
//! The controller answers one two-byte status query with one fixed-layout
//! frame of eighteen bytes that carries, for each of four fans, the duty and
//! the tachometer reading, and the raw value of two temperature sensors.
//!
//! * [`frame`] builds the query and decodes the answer.
//! * [`reading`] holds the decoded values.
//! * [`state`] keeps the last good reading.
//! * [`transport`] sends and collects bytes over a serial link.
//! * [`poller`] runs one query/answer exchange.

pub mod frame;
pub mod poller;
pub mod reading;
pub mod state;
pub mod transport;
