//! The BNO085 sensor hub: SHTP framing, report layouts and the driver state.

pub mod bno085;
pub mod interface;
pub mod responses;
