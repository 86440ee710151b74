//! Session bridge for a brokerage client: marshaling of wire values
//! (timestamps, fixed-point decimals, enumerated trading parameters),
//! request/response correlation over one duplex connection, and ordered
//! delivery of push events to registered callbacks.

pub mod errors;
pub mod timestamp;
pub mod trade;
pub mod correlator;
pub mod bridge;
pub mod decimal;
pub mod order;
pub mod session;
