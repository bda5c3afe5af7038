//! Asking the RPLIDAR for its sample durations.
use vstd::prelude::*;
use crate::protocol::{ParsingState, Request, Response, lemma_le_bits_prefix};
use crate::protocol::bits::{BitCursor, bits_available, le_bits, lemma_le_bits_bound};

verus! {

/// Asks for the time the RPLIDAR takes per sample.
pub struct GetSampleRateRequest;

impl Request for GetSampleRateRequest {
    open spec fn spec_tag() -> u8 {
        0x59
    }

    open spec fn spec_max_payload_length() -> u8 {
        0
    }

    open spec fn spec_payload(&self) -> Seq<u8> {
        Seq::empty()
    }

    fn tag() -> (t: u8) {
        0x59
    }

    fn max_payload_length() -> (n: u8) {
        0
    }

    fn serialize_payload(&self, buf: &mut [u8]) -> (n: usize) {
        proof {
            assert(buf@.take(0) =~= Seq::<u8>::empty());
            assert(buf@.skip(0) =~= buf@);
        }
        0
    }
}

/// The answer to [GetSampleRateRequest].
#[derive(Debug, Clone, Copy, PartialEq, Eq, Structural)]
pub struct GetSampleRateResponse {
    /// The sample rate of standard mode in microseconds
    pub standard: u16,
    /// The sample rate of express mode in microseconds
    pub express: u16,
}

/// A sample rate response read from bit `pos` of `data`: two 16-bit
/// little-endian durations, standard then express.
pub open spec fn sample_rate_response_from(data: Seq<u8>, pos: nat) -> ParsingState<GetSampleRateResponse> {
    let avail = bits_available(data, pos);
    if avail < 16 {
        ParsingState::Unfinished((4 - avail / 8) as usize)
    } else if avail < 32 {
        ParsingState::Unfinished((2 - (avail - 16) / 8) as usize)
    } else {
        ParsingState::Done(GetSampleRateResponse {
            standard: le_bits(data, pos, 16) as u16,
            express: le_bits(data, pos + 16, 16) as u16,
        })
    }
}

impl Response for GetSampleRateResponse {
    /// Parses a sample rate response from the reader.
    fn parse(reader: &mut BitCursor) -> (r: ParsingState<GetSampleRateResponse>)
        ensures
            r == sample_rate_response_from(old(reader).data(), old(reader).pos()),
            final(reader).data() == old(reader).data(),
            final(reader).wf(),
    {
        let standard = match reader.read_u16() {
            Some(s) => s,
            None => return ParsingState::Unfinished(4 - reader.bytes_remaining()),
        };
        let express = match reader.read_u16() {
            Some(e) => e,
            None => return ParsingState::Unfinished(2 - reader.bytes_remaining()),
        };
        ParsingState::Done(GetSampleRateResponse { standard, express })
    }
}

/// A sample rate response parses from its own four bytes, whatever follows;
/// from the start of a buffer, an unfinished one asks for exactly the bytes
/// that complete its four, and four bytes or more are never unfinished.
pub proof fn lemma_sample_rate_response_fixed_length(data: Seq<u8>)
    ensures
        data.len() >= 4 ==> sample_rate_response_from(data, 0) == sample_rate_response_from(data.take(4), 0),
        sample_rate_response_from(data, 0) matches ParsingState::Unfinished(n) ==> data.len() + n == 4,
        data.len() >= 4 ==> !(sample_rate_response_from(data, 0) is Unfinished),
{
    if data.len() >= 4 {
        let t = data.take(4);
        assert(t.take(4) =~= data.take(4));
        lemma_le_bits_prefix(data, t, 4, 0, 16);
        lemma_le_bits_prefix(data, t, 4, 16, 16);
    }
}

} // verus!
