# vex_override

Verified logic of a VEX robot and its RP2350 coprocessor.

- `src/` is the library, proved with Verus:
  - `protocol/`: the RPLIDAR serial protocol (requests, response
    descriptors, health, device information, sample rate, scan
    measurements) over a little-endian bit cursor backed by `bitter`;
  - `lidar.rs`: finding response descriptors in the byte stream, and the
    session that resets the LIDAR, checks its health and streams a scan;
  - `cobs_frame.rs`, `brain_link.rs`, `copro.rs`: the zero-delimited COBS
    frames between brain and coprocessor, and what each side does with them;
  - `otos.rs`: the OTOS odometry sensor's registers and its driver;
  - `pneumatics.rs`, `license_plate.rs`, `adi.rs`, `leds.rs`, `pio.rs`,
    `display.rs`, `touch.rs`: pistons, the alliance plate, LEDs, PIO clock
    dividers and the touchscreen UI model.
- `tests/` runs the library on concrete values.
- `app/` holds what talks to hardware or computes in floating point: serial
  and I2C loops that drive the library's state machines, and unit
  conversions.
