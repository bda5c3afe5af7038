//! Verified logic of a VEX robot and its RP2350 coprocessor: the RPLIDAR
//! serial protocol, the brain/coprocessor link, OTOS odometry commands,
//! pneumatics, license plates, LEDs and the touchscreen UI model.
pub mod adi;
pub mod brain_link;
pub mod cobs_frame;
pub mod copro;
pub mod display;
pub mod leds;
pub mod license_plate;
pub mod lidar;
pub mod otos;
pub mod pio;
pub mod pneumatics;
pub mod protocol;
pub mod touch;
