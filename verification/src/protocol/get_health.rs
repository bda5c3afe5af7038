//! Asking the RPLIDAR for its health status.
use vstd::prelude::*;
use crate::protocol::{ParsingState, Request, Response, lemma_le_bits_prefix};
use crate::protocol::bits::{BitCursor, bits_available, le_bits, lemma_le_bits_bound};

verus! {

/// Asks for the health of the RPLIDAR.
pub struct GetHealthRequest;

impl Request for GetHealthRequest {
    open spec fn spec_tag() -> u8 {
        0x52
    }

    open spec fn spec_max_payload_length() -> u8 {
        0
    }

    open spec fn spec_payload(&self) -> Seq<u8> {
        Seq::empty()
    }

    fn tag() -> (t: u8) {
        0x52
    }

    fn max_payload_length() -> (n: u8) {
        0
    }

    fn serialize_payload(&self, buf: &mut [u8]) -> (n: usize) {
        proof {
            assert(buf@.take(0) =~= Seq::<u8>::empty());
            assert(buf@.skip(0) =~= buf@);
        }
        0
    }
}

/// The health the RPLIDAR reports of itself.
#[derive(Debug, Clone, Copy, PartialEq, Eq, Structural)]
pub enum HealthStatus {
    Good,
    Warning,
    Error,
}

/// The health status with the given code, if any.
pub open spec fn health_status_of(code: nat) -> Option<HealthStatus> {
    if code == 0 {
        Some(HealthStatus::Good)
    } else if code == 1 {
        Some(HealthStatus::Warning)
    } else if code == 2 {
        Some(HealthStatus::Error)
    } else {
        None
    }
}

impl HealthStatus {
    /// The status with the given code (`0x00` good, `0x01` warning, `0x02` error).
    pub fn from_integer(code: u8) -> (r: Option<HealthStatus>)
        ensures
            r == health_status_of(code as nat),
    {
        match code {
            0x00 => Some(HealthStatus::Good),
            0x01 => Some(HealthStatus::Warning),
            0x02 => Some(HealthStatus::Error),
            _ => None,
        }
    }

    /// The code of this status.
    pub fn into_integer(self) -> (code: u8)
        ensures
            health_status_of(code as nat) == Some(self),
    {
        match self {
            HealthStatus::Good => 0x00,
            HealthStatus::Warning => 0x01,
            HealthStatus::Error => 0x02,
        }
    }
}

/// The answer to [GetHealthRequest].
#[derive(Debug, Clone, Copy, PartialEq, Eq, Structural)]
pub struct GetHealthResponse {
    pub status: HealthStatus,
    pub error_code: u16,
}

/// A health response read from bit `pos` of `data`: a status byte and a
/// 16-bit little-endian error code.
pub open spec fn health_response_from(data: Seq<u8>, pos: nat) -> ParsingState<GetHealthResponse> {
    let avail = bits_available(data, pos);
    if avail < 8 {
        ParsingState::Unfinished(3)
    } else if health_status_of(le_bits(data, pos, 8)) is None {
        ParsingState::Invalid
    } else if avail < 24 {
        ParsingState::Unfinished((2 - (avail - 8) / 8) as usize)
    } else {
        ParsingState::Done(GetHealthResponse {
            status: health_status_of(le_bits(data, pos, 8))->0,
            error_code: le_bits(data, pos + 8, 16) as u16,
        })
    }
}

impl Response for GetHealthResponse {
    /// Parses a health response from the reader.
    fn parse(reader: &mut BitCursor) -> (r: ParsingState<GetHealthResponse>)
        ensures
            r == health_response_from(old(reader).data(), old(reader).pos()),
            final(reader).data() == old(reader).data(),
            final(reader).wf(),
    {
        let ghost data = reader.data();
        let ghost pos = reader.pos();
        proof {
            lemma_le_bits_bound(data, pos, 8);
            lemma_le_bits_bound(data, pos + 8, 16);
            vstd::arithmetic::power2::lemma2_to64();
        }
        let status = match reader.read_u8() {
            Some(s) => s,
            None => return ParsingState::Unfinished(3),
        };
        let status = match HealthStatus::from_integer(status) {
            Some(s) => s,
            None => return ParsingState::Invalid,
        };
        let error_code = match reader.read_u16() {
            Some(e) => e,
            None => return ParsingState::Unfinished(2 - reader.bytes_remaining()),
        };
        ParsingState::Done(GetHealthResponse { status, error_code })
    }
}

/// A health response parses from its own three bytes, whatever follows;
/// from the start of a buffer, an unfinished one asks for exactly the bytes
/// that complete its three, and three bytes or more are never unfinished.
pub proof fn lemma_health_response_fixed_length(data: Seq<u8>)
    ensures
        data.len() >= 3 ==> health_response_from(data, 0) == health_response_from(data.take(3), 0),
        health_response_from(data, 0) matches ParsingState::Unfinished(n) ==> data.len() + n == 3,
        data.len() >= 3 ==> !(health_response_from(data, 0) is Unfinished),
{
    if data.len() >= 3 {
        let t = data.take(3);
        assert(t.take(3) =~= data.take(3));
        lemma_le_bits_prefix(data, t, 3, 0, 8);
        lemma_le_bits_prefix(data, t, 3, 8, 16);
    }
}

} // verus!
