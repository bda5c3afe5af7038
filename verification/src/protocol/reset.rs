//! Rebooting the RPLIDAR.
use vstd::prelude::*;
use crate::protocol::Request;

verus! {

/// Asks the RPLIDAR to reboot.
pub struct ResetRequest;

impl Request for ResetRequest {
    open spec fn spec_tag() -> u8 {
        0x40
    }

    open spec fn spec_max_payload_length() -> u8 {
        0
    }

    open spec fn spec_payload(&self) -> Seq<u8> {
        Seq::empty()
    }

    fn tag() -> (t: u8) {
        0x40
    }

    fn max_payload_length() -> (n: u8) {
        0
    }

    fn serialize_payload(&self, buf: &mut [u8]) -> (n: usize) {
        proof {
            assert(buf@.take(0) =~= Seq::<u8>::empty());
            assert(buf@.skip(0) =~= buf@);
        }
        0
    }
}

} // verus!
