//! The RPLIDAR S & C series serial protocol (SLAMTEC protocol v2.8).
//!
//! Requests are `[0xA5, command]`, or `[0xA5, command, length, payload..,
//! checksum]` for commands that carry a payload. Answers start with a
//! seven-byte response descriptor followed by the response data.
use vstd::prelude::*;
use crate::protocol::bits::{BitCursor, bits_available, le_bit, le_bits, lemma_le_bits_bound, lemma_le_bits_u16};

pub mod bits;
pub mod get_health;
pub mod get_info;
pub mod get_sample_rate;
pub mod motor_speed_ctrl;
pub mod reset;
pub mod scan;
pub mod stop;

verus! {

/// The first byte of every request.
pub const REQUEST_TAG: u8 = 0xA5;
/// The two bytes that open a response descriptor, read as a little-endian `u16`.
pub const RESPONSE_DESCRIPTOR_TAG: u16 = 0x5AA5;

/// The recommended buffer size for doing I/O with the LIDAR. This is the
/// maximum of the non-variable request and response sizes.
pub const BUFFER_SIZE: usize = 20;
/// Known request sizes are completely bounded, with a max of 5 for express scan.
pub const MAX_REQUEST_SIZE: usize = 5;
/// The largest bounded response (including descriptor) is the device info with 20 bytes.
pub const MAX_RESPONSE_SIZE: usize = 20;

/// The outcome of parsing a response from the bytes received so far.
#[derive(Debug, Clone, Copy, PartialEq, Eq)]
pub enum ParsingState<T> {
    /// A complete response.
    Done(T),
    /// The bytes so far are consistent with a response, which needs this
    /// many more bytes.
    Unfinished(usize),
    /// The bytes cannot start a response of this kind.
    Invalid,
}

/// A response of the RPLIDAR, parsed from the bytes that follow its
/// descriptor.
pub trait Response: Sized {
    /// Parses a response from the reader, reading no byte of the buffer
    /// that it does not hold.
    fn parse(reader: &mut BitCursor) -> (r: ParsingState<Self>)
        requires
            old(reader).wf(),
        ensures
            final(reader).data() == old(reader).data(),
            final(reader).wf(),
    ;
}

/// XOR of all bytes of `s`.
pub open spec fn xor_all(s: Seq<u8>) -> u8
    decreases s.len(),
{
    if s.len() == 0 {
        0
    } else {
        xor_all(s.drop_last()) ^ s.last()
    }
}

/// The serialized length of a request whose payload holds at most `max_payload` bytes.
pub open spec fn request_max_len(max_payload: u8) -> nat {
    if max_payload != 0 {
        (3 + max_payload + 1) as nat
    } else {
        2
    }
}

/// The bytes of a request: the request tag and the command, then, for a
/// command that may carry a payload, its length, the payload and a checksum
/// that is the XOR of every byte before it.
pub open spec fn request_frame(tag: u8, max_payload: u8, payload: Seq<u8>) -> Seq<u8> {
    if max_payload != 0 {
        let head = seq![REQUEST_TAG, tag, payload.len() as u8] + payload;
        head.push(xor_all(head))
    } else {
        seq![REQUEST_TAG, tag]
    }
}

pub proof fn lemma_xor_all_push(s: Seq<u8>, b: u8)
    ensures
        xor_all(s.push(b)) == xor_all(s) ^ b,
{
    assert(s.push(b).drop_last() =~= s);
}

/// A request to the RPLIDAR.
pub trait Request {
    /// The command byte of this request.
    spec fn spec_tag() -> u8;

    /// The maximum length the payload can be for this request.
    spec fn spec_max_payload_length() -> u8;

    /// The payload bytes of this request.
    spec fn spec_payload(&self) -> Seq<u8>;

    /// The command byte of this request.
    fn tag() -> (t: u8)
        ensures
            t == Self::spec_tag(),
    ;

    /// The maximum length the payload can be for this request.
    fn max_payload_length() -> (n: u8)
        ensures
            n == Self::spec_max_payload_length(),
    ;

    /// The maximum length of the serialized request.
    fn max_length() -> (n: usize)
        ensures
            n == request_max_len(Self::spec_max_payload_length()),
    {
        let m = Self::max_payload_length();
        if m != 0 {
            3 + m as usize + 1
        } else {
            2
        }
    }

    /// Serializes the payload for a request at the start of `buf`, which
    /// holds at least the maximum payload length.
    ///
    /// Returns the amount of written bytes.
    fn serialize_payload(&self, buf: &mut [u8]) -> (n: usize)
        requires
            old(buf)@.len() >= Self::spec_max_payload_length(),
        ensures
            n == self.spec_payload().len(),
            n <= Self::spec_max_payload_length(),
            final(buf)@.len() == old(buf)@.len(),
            final(buf)@.take(n as int) == self.spec_payload(),
            final(buf)@.skip(n as int) == old(buf)@.skip(n as int),
    ;

    /// Serializes the request into a given buffer, which must hold at least
    /// [Self::max_length] bytes.
    ///
    /// Returns the amount of written bytes; the rest of the buffer is untouched.
    fn serialize(&self, buf: &mut [u8]) -> (n: usize)
        requires
            old(buf)@.len() >= request_max_len(Self::spec_max_payload_length()),
        ensures
            n == request_frame(Self::spec_tag(), Self::spec_max_payload_length(), self.spec_payload()).len(),
            n <= request_max_len(Self::spec_max_payload_length()),
            final(buf)@.len() == old(buf)@.len(),
            final(buf)@.take(n as int) == request_frame(
                Self::spec_tag(),
                Self::spec_max_payload_length(),
                self.spec_payload(),
            ),
            final(buf)@.skip(n as int) == old(buf)@.skip(n as int),
    {
        let tag = Self::tag();
        let max_payload = Self::max_payload_length();
        // Add tags to the request, this is the bare minimum for a request
        buf[0] = REQUEST_TAG;
        buf[1] = tag;
        if max_payload != 0 {
            // Serialize the payload aside, then copy it behind its length byte
            let mut payload = vec![0u8; max_payload as usize];
            let payload_len = self.serialize_payload(payload.as_mut_slice());
            buf[2] = payload_len as u8;
            let ghost pl = self.spec_payload();
            let ghost head0 = seq![REQUEST_TAG, tag, payload_len as u8];
            let mut checksum: u8 = REQUEST_TAG ^ tag ^ (payload_len as u8);
            proof {
                lemma_xor_all_push(seq![REQUEST_TAG], tag);
                lemma_xor_all_push(seq![REQUEST_TAG, tag], payload_len as u8);
                assert(seq![REQUEST_TAG].drop_last() =~= Seq::<u8>::empty());
                assert(seq![REQUEST_TAG].push(tag) =~= seq![REQUEST_TAG, tag]);
                assert(seq![REQUEST_TAG, tag].push(payload_len as u8) =~= head0);
                assert(xor_all(seq![REQUEST_TAG]) == 0u8 ^ REQUEST_TAG) by {
                    assert(seq![REQUEST_TAG].drop_last() =~= Seq::<u8>::empty());
                    assert(xor_all(Seq::<u8>::empty()) == 0u8);
                }
                assert(0u8 ^ REQUEST_TAG == REQUEST_TAG) by (bit_vector);
                assert(head0 + pl.take(0) =~= head0);
            }
            let ghost old_buf = buf@;
            let mut i: usize = 0;
            while i < payload_len
                invariant
                    i <= payload_len,
                    payload_len == pl.len(),
                    payload_len <= max_payload,
                    payload@.len() == max_payload as int,
                    payload@.take(payload_len as int) == pl,
                    buf@.len() == old_buf.len(),
                    buf@.len() >= 3 + max_payload + 1,
                    buf@.take(3) == head0,
                    forall|j: int| 0 <= j < i ==> buf@[3 + j] == pl[j],
                    forall|j: int| 3 + i <= j < buf@.len() ==> buf@[j] == old_buf[j],
                    checksum == xor_all(head0 + pl.take(i as int)),
                decreases payload_len - i,
            {
                let b = payload[i];
                proof {
                    assert(payload@.take(payload_len as int)[i as int] == b);
                    lemma_xor_all_push(head0 + pl.take(i as int), b);
                    assert((head0 + pl.take(i as int)).push(b) =~= head0 + pl.take(i + 1));
                }
                buf[3 + i] = b;
                checksum = checksum ^ b;
                i = i + 1;
            }
            buf[3 + payload_len] = checksum;
            proof {
                assert(pl.take(payload_len as int) =~= pl);
                let frame = request_frame(tag, max_payload, pl);
                assert(frame =~= (head0 + pl).push(checksum));
                assert(buf@.take(4 + payload_len) =~= frame);
                assert(buf@.skip(4 + payload_len) =~= old_buf.skip(4 + payload_len));
            }
            4 + payload_len
        } else {
            proof {
                assert(buf@.take(2) =~= seq![REQUEST_TAG, tag]);
            }
            2
        }
    }
}

/// Whether the RPLIDAR answers a request once or keeps answering.
#[derive(Debug, PartialEq, Eq, Clone, Copy, Structural)]
pub enum ResponseMode {
    SingleResponse,
    MultipleResponse,
}

/// The kind of data that follows a response descriptor.
#[derive(Debug, PartialEq, Eq, Clone, Copy, Structural)]
pub enum ResponseType {
    Scan,
    GetInfo,
    GetHealth,
    GetSampleRate,
    GetLidarConf,
}

/// The header that announces the data of a response.
#[derive(Debug, PartialEq, Eq, Clone, Copy, Structural)]
pub struct ResponseDescriptor {
    /// The length of each response that follows.
    pub length: usize,
    pub mode: ResponseMode,
    pub response_type: ResponseType,
}

/// The response mode with the given 2-bit code, if any.
pub open spec fn response_mode_of(code: nat) -> Option<ResponseMode> {
    if code == 0 {
        Some(ResponseMode::SingleResponse)
    } else if code == 1 {
        Some(ResponseMode::MultipleResponse)
    } else {
        None
    }
}

/// The response type with the given data type byte, if any.
pub open spec fn response_type_of(code: nat) -> Option<ResponseType> {
    if code == 0x81 {
        Some(ResponseType::Scan)
    } else if code == 0x04 {
        Some(ResponseType::GetInfo)
    } else if code == 0x06 {
        Some(ResponseType::GetHealth)
    } else if code == 0x15 {
        Some(ResponseType::GetSampleRate)
    } else if code == 0x20 {
        Some(ResponseType::GetLidarConf)
    } else {
        None
    }
}

/// A response descriptor read from bit `pos` of `data`: the tag `A5 5A`,
/// a 30-bit length, a 2-bit mode and a data type byte.
pub open spec fn response_descriptor_from(data: Seq<u8>, pos: nat) -> ParsingState<ResponseDescriptor> {
    let avail = bits_available(data, pos);
    if avail < 16 {
        ParsingState::Unfinished((7 - avail / 8) as usize)
    } else if le_bits(data, pos, 16) != RESPONSE_DESCRIPTOR_TAG {
        ParsingState::Invalid
    } else if avail < 56 {
        ParsingState::Unfinished((5 - (avail - 16) / 8) as usize)
    } else {
        match (response_mode_of(le_bits(data, pos + 46, 2)), response_type_of(le_bits(data, pos + 48, 8))) {
            (Some(mode), Some(response_type)) => ParsingState::Done(ResponseDescriptor {
                length: le_bits(data, pos + 16, 30) as usize,
                mode,
                response_type,
            }),
            _ => ParsingState::Invalid,
        }
    }
}

impl ResponseDescriptor {
    /// The size of a response descriptor in bytes.
    pub const SIZE: usize = 7;
}

impl Response for ResponseDescriptor {
    /// Parses a response descriptor from the reader.
    fn parse(reader: &mut BitCursor) -> (r: ParsingState<ResponseDescriptor>)
        ensures
            r == response_descriptor_from(old(reader).data(), old(reader).pos()),
            final(reader).data() == old(reader).data(),
            final(reader).wf(),
    {
        let ghost data = reader.data();
        let ghost pos = reader.pos();
        let tag = match reader.read_u16() {
            Some(t) => t,
            None => return ParsingState::Unfinished(Self::SIZE - reader.bytes_remaining()),
        };
        proof {
            lemma_le_bits_bound(data, pos, 16);
            vstd::arithmetic::power2::lemma2_to64();
        }
        if tag != RESPONSE_DESCRIPTOR_TAG {
            return ParsingState::Invalid;
        }
        let rest = reader.bytes_remaining();
        if rest < 5 {
            return ParsingState::Unfinished(5 - rest);
        }
        proof {
            lemma_le_bits_bound(data, pos + 16, 30);
            lemma_le_bits_bound(data, pos + 46, 2);
            lemma_le_bits_bound(data, pos + 48, 8);
        }
        let length = match reader.read_bits(30) {
            Some(l) => l as usize,
            None => return ParsingState::Invalid,
        };
        let mode = match reader.read_bits(2) {
            Some(0) => ResponseMode::SingleResponse,
            Some(1) => ResponseMode::MultipleResponse,
            _ => return ParsingState::Invalid,
        };
        let response_type = match reader.read_u8() {
            Some(0x81) => ResponseType::Scan,
            Some(0x04) => ResponseType::GetInfo,
            Some(0x06) => ResponseType::GetHealth,
            Some(0x15) => ResponseType::GetSampleRate,
            Some(0x20) => ResponseType::GetLidarConf,
            _ => return ParsingState::Invalid,
        };
        ParsingState::Done(ResponseDescriptor { length, mode, response_type })
    }
}

/// The checksum of a request makes the XOR of all its bytes zero.
pub proof fn lemma_request_checksum(tag: u8, max_payload: u8, payload: Seq<u8>)
    requires
        max_payload != 0,
    ensures
        xor_all(request_frame(tag, max_payload, payload)) == 0u8,
{
    let head = seq![REQUEST_TAG, tag, payload.len() as u8] + payload;
    lemma_xor_all_push(head, xor_all(head));
    let x = xor_all(head);
    assert(x ^ x == 0u8) by (bit_vector);
}

/// A request is as long as its maximum when its payload is, and never longer.
pub proof fn lemma_request_frame_len(tag: u8, max_payload: u8, payload: Seq<u8>)
    requires
        payload.len() <= max_payload,
    ensures
        request_frame(tag, max_payload, payload).len() <= request_max_len(max_payload),
        payload.len() == max_payload ==> request_frame(tag, max_payload, payload).len() == request_max_len(
            max_payload,
        ),
{
}

/// Bits `pos .. pos + n` of two buffers that agree on their first `k` bytes,
/// with `pos + n <= 8 * k`, give the same field.
pub proof fn lemma_le_bits_prefix(d1: Seq<u8>, d2: Seq<u8>, k: nat, pos: nat, n: nat)
    requires
        k <= d1.len(),
        k <= d2.len(),
        d1.take(k as int) == d2.take(k as int),
        pos + n <= 8 * k,
    ensures
        le_bits(d1, pos, n) == le_bits(d2, pos, n),
    decreases n,
{
    if n > 0 {
        let i = (pos / 8) as int;
        assert(i < k);
        assert(d1.take(k as int)[i] == d1[i]);
        assert(d2.take(k as int)[i] == d2[i]);
        assert(d1[i] == d2[i]);
        assert(le_bit(d1, pos) == le_bit(d2, pos));
        lemma_le_bits_prefix(d1, d2, k, pos + 1, (n - 1) as nat);
    }
}

/// A descriptor parses from its own seven bytes, whatever follows them.
pub proof fn lemma_response_descriptor_no_lookahead(data: Seq<u8>)
    requires
        data.len() >= ResponseDescriptor::SIZE,
    ensures
        response_descriptor_from(data, 0) == response_descriptor_from(data.take(7), 0),
{
    let t = data.take(7);
    assert(t.take(7) =~= data.take(7));
    lemma_le_bits_prefix(data, t, 7, 0, 16);
    lemma_le_bits_prefix(data, t, 7, 16, 30);
    lemma_le_bits_prefix(data, t, 7, 46, 2);
    lemma_le_bits_prefix(data, t, 7, 48, 8);
}

/// A descriptor read from the start of a buffer that is still unfinished
/// asks for exactly the bytes that complete its seven; seven bytes or more
/// are never unfinished.
pub proof fn lemma_response_descriptor_unfinished(data: Seq<u8>)
    ensures
        response_descriptor_from(data, 0) matches ParsingState::Unfinished(n) ==> data.len() + n
            == ResponseDescriptor::SIZE,
        data.len() >= ResponseDescriptor::SIZE ==> !(response_descriptor_from(data, 0) is Unfinished),
{
}

/// Every request fits the recommended I/O buffer, every request without a
/// payload fits [MAX_REQUEST_SIZE], and every fixed-length response fits
/// [MAX_RESPONSE_SIZE] and the buffer.
pub proof fn lemma_fixed_sizes_fit_buffer()
    ensures
        request_max_len(<get_health::GetHealthRequest as Request>::spec_max_payload_length()) <= MAX_REQUEST_SIZE,
        request_max_len(<get_info::GetInfoRequest as Request>::spec_max_payload_length()) <= MAX_REQUEST_SIZE,
        request_max_len(<get_sample_rate::GetSampleRateRequest as Request>::spec_max_payload_length())
            <= MAX_REQUEST_SIZE,
        request_max_len(<reset::ResetRequest as Request>::spec_max_payload_length()) <= MAX_REQUEST_SIZE,
        request_max_len(<scan::ScanRequest as Request>::spec_max_payload_length()) <= MAX_REQUEST_SIZE,
        request_max_len(<stop::StopRequest as Request>::spec_max_payload_length()) <= MAX_REQUEST_SIZE,
        request_max_len(<motor_speed_ctrl::MotorSpeedCtrlRequest as Request>::spec_max_payload_length())
            <= BUFFER_SIZE,
        ResponseDescriptor::SIZE <= BUFFER_SIZE,
        get_info::GET_INFO_RESPONSE_SIZE <= MAX_RESPONSE_SIZE,
        scan::SCAN_RESPONSE_SIZE <= MAX_RESPONSE_SIZE,
        MAX_RESPONSE_SIZE <= BUFFER_SIZE,
{
}

/// Bytes that cannot start a descriptor cannot start one whatever follows
/// them.
pub proof fn lemma_invalid_descriptor_stays_invalid(candidate: Seq<u8>, more: Seq<u8>)
    requires
        response_descriptor_from(candidate, 0) is Invalid,
    ensures
        response_descriptor_from(candidate + more, 0) is Invalid,
{
    let full = candidate + more;
    let k = candidate.len();
    assert(full.take(k as int) =~= candidate.take(k as int));
    lemma_le_bits_prefix(candidate, full, k, 0, 16);
    if le_bits(candidate, 0, 16) == RESPONSE_DESCRIPTOR_TAG {
        lemma_le_bits_prefix(candidate, full, k, 16, 30);
        lemma_le_bits_prefix(candidate, full, k, 46, 2);
        lemma_le_bits_prefix(candidate, full, k, 48, 8);
    }
}

/// No first bytes of a descriptor are ever refused.
pub proof fn lemma_descriptor_prefix_not_invalid(d: Seq<u8>, k: int)
    requires
        response_descriptor_from(d, 0) is Done,
        0 <= k <= d.len(),
    ensures
        !(response_descriptor_from(d.take(k), 0) is Invalid),
{
    if response_descriptor_from(d.take(k), 0) is Invalid {
        lemma_invalid_descriptor_stays_invalid(d.take(k), d.skip(k));
        assert(d.take(k) + d.skip(k) =~= d);
    }
}

/// A descriptor starts with the bytes `A5 5A`.
pub proof fn lemma_descriptor_tag_bytes(d: Seq<u8>)
    requires
        d.len() >= 2,
    ensures
        le_bits(d, 0, 16) == d[0] + 256 * d[1],
        le_bits(d, 0, 16) == RESPONSE_DESCRIPTOR_TAG <==> d[0] == 0xA5 && d[1] == 0x5A,
{
    lemma_le_bits_u16(d, 0);
}

} // verus!
