//! A proxy that shows and captures the packets of connections.
//!
//! `proxy` says what is done with packets and `connection_capture` how they are
//! captured; `laws`, `names` and `results` state what holds of that.

pub mod connection;
pub mod connection_capture;
pub mod laws;
pub mod names;
pub mod proxy;
pub mod results;
