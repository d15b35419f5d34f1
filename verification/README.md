# awaitbalance

Firmware logic for a BNO085 inertial measurement unit on an STM32F207ZG,
talking the SHTP protocol over SPI.

- `src/` is the library, verified with Verus:
  - `clock.rs`: the clock tree and the SPI link, with the frequencies they
    give;
  - `codec.rs`: little- and big-endian numbers in bytes;
  - `imu/interface.rs`: the SHTP header, channels, report identifiers, the
    set-feature command and the rotation quaternion, with their byte layouts;
  - `imu/responses.rs`: what the hub sends back (advertisements, error lists,
    control and input reports), and spec functions that say which value a
    cargo buffer holds and when it can be read at all;
  - `imu/bno085.rs`: the driver state (sequence numbers, cargo buffer, latest
    rotation vector) and what each received cargo and each feature request
    does to it.
- `app/` is the firmware around it: the embassy executor and tasks, the SPI
  transfers, the conversion of the clock and SPI plans to the HAL's settings, logging, and the floating-point conversion of
  quaternions to Euler angles.
- `tests/` runs the library on concrete cargo.
