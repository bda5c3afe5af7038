//! Setting the speed of the RPLIDAR motor.
use vstd::prelude::*;
use crate::protocol::Request;

verus! {

/// Sets the motor speed of the RPLIDAR.
pub struct MotorSpeedCtrlRequest {
    /// The angular speed of the motor in RPM to use for the LIDAR
    ///
    /// A value of zero will put the LIDAR into idle mode.
    pub rpm: u16,
}

impl Request for MotorSpeedCtrlRequest {
    open spec fn spec_tag() -> u8 {
        0x02
    }

    open spec fn spec_max_payload_length() -> u8 {
        2
    }

    /// The speed as a little-endian `u16`.
    open spec fn spec_payload(&self) -> Seq<u8> {
        seq![(self.rpm % 256) as u8, (self.rpm / 256) as u8]
    }

    fn tag() -> (t: u8) {
        0x02
    }

    fn max_payload_length() -> (n: u8) {
        2
    }

    fn serialize_payload(&self, buf: &mut [u8]) -> (n: usize) {
        let ghost old_buf = buf@;
        buf[0] = (self.rpm % 256) as u8;
        buf[1] = (self.rpm / 256) as u8;
        proof {
            assert(buf@.take(2) =~= self.spec_payload());
            assert(buf@.skip(2) =~= old_buf.skip(2));
        }
        2
    }
}

/// The payload is the speed in little-endian order: its low byte plus 256
/// times its high byte give back the speed.
pub proof fn lemma_motor_speed_payload(request: MotorSpeedCtrlRequest)
    ensures
        request.spec_payload().len() == 2,
        request.spec_payload()[0] + 256 * request.spec_payload()[1] == request.rpm,
{
}

} // verus!
