//! Verified core of a driver for the elevator hardware (or its simulator).
//!
//! The library holds the wire protocol spoken with the elevator server, the
//! textual rendering of events, and the bookkeeping that turns polled
//! hardware readings into change events.
pub mod elevio;
pub mod control;
