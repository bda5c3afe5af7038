//! Starting a scan and reading its measurements.
use vstd::prelude::*;
use crate::protocol::{ParsingState, Request, Response, lemma_le_bits_prefix};
use crate::protocol::bits::{BitCursor, bits_available, le_bit, le_bits, lemma_le_bits_bound};

verus! {

/// Asks the RPLIDAR to start scanning.
pub struct ScanRequest;

impl Request for ScanRequest {
    open spec fn spec_tag() -> u8 {
        0x20
    }

    open spec fn spec_max_payload_length() -> u8 {
        0
    }

    open spec fn spec_payload(&self) -> Seq<u8> {
        Seq::empty()
    }

    fn tag() -> (t: u8) {
        0x20
    }

    fn max_payload_length() -> (n: u8) {
        0
    }

    fn serialize_payload(&self, buf: &mut [u8]) -> (n: usize) {
        proof {
            assert(buf@.take(0) =~= Seq::<u8>::empty());
            assert(buf@.skip(0) =~= buf@);
        }
        0
    }
}

/// One measurement of a scan, with its angle and distance as the raw
/// fixed-point numbers that the RPLIDAR sends.
#[derive(Debug, Clone, Copy, PartialEq, Eq, Default, Structural)]
pub struct ScanResponse {
    /// Whether this measurement is the start of a new scan
    pub start: bool,
    /// The quality of this measurement as determined by the reflected pulse strength
    pub quality: u8,
    /// The angle this measurement was taken at, in 1/64 degrees
    pub angle_q6: u16,
    /// The distance this measurement determined in 1/4 mm, or 0 if it failed
    pub distance_q2: u16,
}

/// The size of a scan measurement in bytes.
pub const SCAN_RESPONSE_SIZE: usize = 5;

/// A scan measurement read from bit `pos` of `data`: two start flags that
/// must differ (the start flag, then its inverse), six bits of quality, a
/// check bit that must be set, a 15-bit angle and a 16-bit distance. The
/// first flag bit is reported as `start`.
pub open spec fn scan_response_from(data: Seq<u8>, pos: nat) -> ParsingState<ScanResponse> {
    let avail = bits_available(data, pos);
    let unfinished = ParsingState::<ScanResponse>::Unfinished((5 - avail / 8) as usize);
    let flags = le_bits(data, pos, 2);
    if avail < 2 {
        unfinished
    } else if flags == 0 || flags == 3 {
        ParsingState::Invalid
    } else if avail < 9 {
        unfinished
    } else if le_bit(data, pos + 8) == 0 {
        ParsingState::Invalid
    } else if avail < 40 {
        unfinished
    } else {
        ParsingState::Done(ScanResponse {
            start: le_bit(data, pos) == 1,
            quality: le_bits(data, pos + 2, 6) as u8,
            angle_q6: le_bits(data, pos + 9, 15) as u16,
            distance_q2: le_bits(data, pos + 24, 16) as u16,
        })
    }
}

impl ScanResponse {

    /// Whether the RPLIDAR measured a distance (a distance of 0 marks a
    /// failed measurement).
    pub fn has_distance(&self) -> (r: bool)
        ensures
            r == (self.distance_q2 != 0),
    {
        self.distance_q2 != 0
    }
}

impl Response for ScanResponse {
    /// Parses a scan measurement from the reader.
    fn parse(reader: &mut BitCursor) -> (r: ParsingState<ScanResponse>)
        ensures
            r == scan_response_from(old(reader).data(), old(reader).pos()),
            final(reader).data() == old(reader).data(),
            final(reader).wf(),
    {
        let ghost data = reader.data();
        let ghost pos = reader.pos();
        proof {
            lemma_le_bits_bound(data, pos, 2);
            lemma_le_bits_bound(data, pos + 2, 6);
            lemma_le_bits_bound(data, pos + 9, 15);
            lemma_le_bits_bound(data, pos + 24, 16);
            lemma_le_bits_bound(data, pos + 8, 1);
            assert(le_bits(data, pos + 8, 1) == le_bit(data, pos + 8) + 2 * le_bits(data, pos + 9, 0));
            vstd::arithmetic::power2::lemma2_to64();
        }
        let available = reader.bytes_remaining();
        // Check start flag and inverse start flag
        let start = match reader.read_bits(2) {
            Some(v) => {
                if v == 0b11 || v == 0b00 {
                    return ParsingState::Invalid;
                }
                v & 0b1 == 0b1
            },
            None => return ParsingState::Unfinished(SCAN_RESPONSE_SIZE - available),
        };
        proof {
            let v = le_bits(data, pos, 2) as u64;
            assert(v == 1 || v == 2 ==> ((v & 1u64 == 1u64) <==> v == 1)) by (bit_vector);
            lemma_le_bits_bound(data, pos + 1, 1);
            assert(le_bits(data, pos + 1, 1) == le_bit(data, pos + 1) + 2 * le_bits(data, pos + 2, 0));
            assert(le_bits(data, pos, 2) == le_bit(data, pos) + 2 * le_bits(data, pos + 1, 1));
        }
        // Next 6 bits are quality, undetermined what they actually mean
        let quality = match reader.read_bits(6) {
            Some(v) => v as u8,
            None => return ParsingState::Unfinished(SCAN_RESPONSE_SIZE - available),
        };
        // Next bit is a check bit, should always be 1
        match reader.read_bit() {
            Some(true) => (),
            Some(false) => return ParsingState::Invalid,
            None => return ParsingState::Unfinished(SCAN_RESPONSE_SIZE - available),
        };
        // Next 15 bits are the angle in 1/64 degrees
        let angle_q6 = match reader.read_bits(15) {
            Some(v) => v as u16,
            None => return ParsingState::Unfinished(SCAN_RESPONSE_SIZE - available),
        };
        // Last 16 bits are the distance in 1/4 mm, or 0 for a failed measurement
        let distance_q2 = match reader.read_u16() {
            Some(v) => v,
            None => return ParsingState::Unfinished(SCAN_RESPONSE_SIZE - available),
        };
        ParsingState::Done(ScanResponse { start, quality, angle_q6, distance_q2 })
    }
}

/// A scan measurement parses from its own five bytes, whatever follows;
/// from the start of a buffer, an unfinished one asks for exactly the bytes
/// that complete its five, and five bytes or more are never unfinished.
pub proof fn lemma_scan_response_fixed_length(data: Seq<u8>)
    ensures
        data.len() >= 5 ==> scan_response_from(data, 0) == scan_response_from(data.take(5), 0),
        scan_response_from(data, 0) matches ParsingState::Unfinished(n) ==> data.len() + n == 5,
        data.len() >= 5 ==> !(scan_response_from(data, 0) is Unfinished),
{
    if data.len() >= 5 {
        let t = data.take(5);
        assert(t.take(5) =~= data.take(5));
        lemma_le_bits_prefix(data, t, 5, 0, 2);
        lemma_le_bits_prefix(data, t, 5, 2, 6);
        lemma_le_bits_prefix(data, t, 5, 8, 1);
        lemma_le_bits_prefix(data, t, 5, 9, 15);
        lemma_le_bits_prefix(data, t, 5, 24, 16);
        assert(le_bits(data, 8, 1) == le_bit(data, 8) + 2 * le_bits(data, 9, 0));
        assert(le_bits(t, 8, 1) == le_bit(t, 8) + 2 * le_bits(t, 9, 0));
    }
}

} // verus!
