//! Ports, port identifiers and the decision logic of a ZeroMQ-based
//! message transport for flow-based programs.

pub mod decimal;
pub mod port;
pub mod event;
pub mod wire;
pub mod transport;
pub mod worker;
pub mod output_port;
pub mod blocks;
pub mod laws;
