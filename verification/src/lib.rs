//! Driver logic for the BNO085 inertial measurement unit, which talks the
//! SHTP (sensor hub transport protocol) over SPI.
//!
//! The library holds what the driver decides: how SHTP headers, feature
//! requests and sensor reports are laid out in bytes, and how the driver's
//! state (sequence numbers, cargo buffer, latest rotation vector) moves from
//! one transfer to the next. The transfers themselves are left to the caller.

pub mod clock;
pub mod codec;
pub mod imu;
