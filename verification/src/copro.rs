//! The brain's side of its serial link to the coprocessor: the coprocessor
//! sends lidar measurements (`l`), OTOS register dumps (`o`) and requests
//! for pending commands (`r`), each in a zero-delimited COBS frame; the brain
//! answers a request with the commands queued since the last one.
use vstd::prelude::*;
use crate::otos::{OtosPose, OtosScalars, i16_le_bytes, pose_bytes, i8_byte};
use crate::cobs_frame::{cobs_decoding, encode_frame, frame_of};

verus! {

/// The largest frame the brain collects from the coprocessor.
pub const COPRO_MTU: usize = 1024;

/// A command for the coprocessor's OTOS, in register units.
#[derive(Clone, Copy, Debug, PartialEq, Eq, Structural)]
pub enum CoproRequest {
    CalibrateOTOS,
    SetOTOSPosition(OtosPose),
    ConfigureOTOS { offset: OtosPose, scalars: OtosScalars },
}

/// The bytes of a command: `c`; `p` and the pose; `s`, the offset pose and
/// the linear and angular scalars.
pub open spec fn request_bytes(r: CoproRequest) -> Seq<u8> {
    match r {
        CoproRequest::CalibrateOTOS => seq![0x63u8],
        CoproRequest::SetOTOSPosition(p) => seq![0x70u8] + pose_bytes(p),
        CoproRequest::ConfigureOTOS { offset, scalars } => seq![0x73u8] + pose_bytes(offset) + seq![
            i8_byte(scalars.linear),
            i8_byte(scalars.angular),
        ],
    }
}

/// The bytes of a sequence of commands, one after the other.
pub open spec fn requests_bytes(rs: Seq<CoproRequest>) -> Seq<u8>
    decreases rs.len(),
{
    if rs.len() == 0 {
        Seq::empty()
    } else {
        requests_bytes(rs.drop_last()) + request_bytes(rs.last())
    }
}

fn push_all(out: &mut Vec<u8>, bytes: &[u8])
    ensures
        final(out)@ == old(out)@ + bytes@,
{
    let ghost start = out@;
    let mut i: usize = 0;
    while i < bytes.len()
        invariant
            i <= bytes.len(),
            out@ == start + bytes@.take(i as int),
        decreases bytes.len() - i,
    {
        out.push(bytes[i]);
        assert(bytes@.take(i + 1) =~= bytes@.take(i as int).push(bytes@[i as int]));
        i = i + 1;
    }
    assert(bytes@.take(bytes@.len() as int) =~= bytes@);
}

impl CoproRequest {
    /// Appends the bytes of this command to `out`.
    pub fn encode(&self, out: &mut Vec<u8>)
        ensures
            final(out)@ == old(out)@ + request_bytes(*self),
    {
        match self {
            CoproRequest::CalibrateOTOS => {
                out.push(0x63);
                assert(request_bytes(*self) =~= seq![0x63u8]);
            },
            CoproRequest::SetOTOSPosition(p) => {
                out.push(0x70);
                let b = p.to_bytes();
                push_all(out, &b);
                assert(old(out)@.push(0x70u8) + b@ =~= old(out)@ + request_bytes(*self));
            },
            CoproRequest::ConfigureOTOS { offset, scalars } => {
                out.push(0x73);
                let b = offset.to_bytes();
                push_all(out, &b);
                let s = scalars.to_bytes();
                push_all(out, &s);
                assert(old(out)@.push(0x73u8) + b@ + s@ =~= old(out)@ + request_bytes(*self));
            },
        }
    }
}

/// A lidar measurement as the coprocessor sends it: the bits of the `f32`
/// angle in degrees and of the `f32` distance in millimetres, and the quality.
#[derive(Clone, Copy, Debug, PartialEq, Eq, Structural)]
pub struct LidarReport {
    pub angle_bits: u32,
    pub distance_bits: u32,
    pub quality: u8,
}

/// What to do with a frame received from the coprocessor.
#[derive(Clone, Debug, PartialEq, Eq)]
pub enum CoproAction {
    /// Record these lidar measurements, in order.
    Lidar(Vec<LidarReport>),
    /// Nothing to do (OTOS registers, which the brain does not use).
    Ignore,
    /// Send this frame back.
    Reply(Vec<u8>),
    /// A frame of an unknown kind, with its kind byte.
    Unknown(u8),
}

/// The little-endian `u32` in `s[at..at + 4]`.
pub open spec fn le_u32_at(s: Seq<u8>, at: int) -> int {
    s[at] + 256 * s[at + 1] + 65536 * s[at + 2] + 16777216 * s[at + 3]
}

/// The measurement in the nine bytes from `s[at]` on: angle bits, distance
/// bits (both little-endian), quality.
pub open spec fn lidar_record_at(s: Seq<u8>, at: int) -> LidarReport {
    LidarReport {
        angle_bits: le_u32_at(s, at) as u32,
        distance_bits: le_u32_at(s, at + 4) as u32,
        quality: s[at + 8],
    }
}

/// The measurements of a lidar frame: every whole nine-byte record after
/// the kind byte, in order.
pub open spec fn lidar_records(d: Seq<u8>) -> Seq<LidarReport> {
    Seq::new(((d.len() - 1) / 9) as nat, |i: int| lidar_record_at(d, 1 + 9 * i))
}

/// Whether a decoded frame holds its kind byte.
pub open spec fn copro_frame_complete(d: Seq<u8>) -> bool {
    d.len() >= 1
}

/// Whether `decoded` holds its kind byte.
pub fn is_complete_copro_frame(decoded: &[u8]) -> (r: bool)
    ensures
        r == copro_frame_complete(decoded@),
{
    decoded.len() >= 1
}

fn le_u32(b0: u8, b1: u8, b2: u8, b3: u8) -> (v: u32)
    ensures
        v as int == b0 + 256 * b1 + 65536 * b2 + 16777216 * b3,
{
    b0 as u32 + 256 * (b1 as u32) + 65536 * (b2 as u32) + 16777216 * (b3 as u32)
}

/// The brain's end of the coprocessor link: the commands waiting for the
/// coprocessor's next request, oldest first.
pub struct CoprocessorLink {
    requests: Vec<CoproRequest>,
}

impl CoprocessorLink {
    /// The commands waiting to be sent, oldest first.
    pub closed spec fn pending(&self) -> Seq<CoproRequest> {
        self.requests@
    }

    /// A link with no command waiting.
    pub fn new() -> (r: Self)
        ensures
            r.pending() == Seq::<CoproRequest>::empty(),
    {
        CoprocessorLink { requests: Vec::new() }
    }

    /// Queues a calibration of the OTOS.
    pub fn calibrate_otos(&mut self)
        ensures
            final(self).pending() == old(self).pending().push(CoproRequest::CalibrateOTOS),
    {
        self.requests.push(CoproRequest::CalibrateOTOS);
    }

    /// Queues new OTOS mounting offsets and scalars.
    pub fn set_otos_config(&mut self, offset: OtosPose, scalars: OtosScalars)
        ensures
            final(self).pending() == old(self).pending().push(
                CoproRequest::ConfigureOTOS { offset, scalars },
            ),
    {
        self.requests.push(CoproRequest::ConfigureOTOS { offset, scalars });
    }

    /// Queues a new OTOS position.
    pub fn set_otos_position(&mut self, position: OtosPose)
        ensures
            final(self).pending() == old(self).pending().push(CoproRequest::SetOTOSPosition(position)),
    {
        self.requests.push(CoproRequest::SetOTOSPosition(position));
    }

    /// Decides what to do with a decoded frame from the coprocessor: record
    /// every whole lidar measurement it holds, in order (`l`), ignore OTOS
    /// registers (`o`), or answer a
    /// request (`r`) with a frame of every waiting command, oldest first,
    /// which empties the queue.
    pub fn handle_frame(&mut self, decoded: &[u8]) -> (r: CoproAction)
        requires
            copro_frame_complete(decoded@),
        ensures
            decoded@[0] == 0x6C ==> {
                &&& r matches CoproAction::Lidar(ms) && ms@ == lidar_records(decoded@)
                &&& final(self).pending() == old(self).pending()
            },
            decoded@[0] == 0x6F ==> r == CoproAction::Ignore && final(self).pending() == old(self).pending(),
            decoded@[0] == 0x72 ==> {
                &&& r matches CoproAction::Reply(f) && f@ == frame_of(requests_bytes(old(self).pending()))
                    && cobs_decoding(f@) == Some(requests_bytes(old(self).pending()))
                &&& final(self).pending() == Seq::<CoproRequest>::empty()
            },
            decoded@[0] != 0x6C && decoded@[0] != 0x6F && decoded@[0] != 0x72 ==> {
                &&& r == CoproAction::Unknown(decoded@[0])
                &&& final(self).pending() == old(self).pending()
            },
    {
        let kind = decoded[0];
        if kind == 0x6C {
            let len = decoded.len();
            let count = (len - 1) / 9;
            let mut ms: Vec<LidarReport> = Vec::new();
            let mut i: usize = 0;
            while i < count
                invariant
                    i <= count,
                    count == (decoded@.len() - 1) / 9,
                    decoded@.len() >= 1,
                    len == decoded@.len(),
                    ms@ == lidar_records(decoded@).take(i as int),
                decreases count - i,
            {
                assert(9 * i + 10 <= decoded@.len()) by (nonlinear_arith)
                    requires
                        i < count,
                        count == (decoded@.len() - 1) / 9,
                        decoded@.len() >= 1,
                ;
                let at = 1 + 9 * i;
                ms.push(LidarReport {
                    angle_bits: le_u32(decoded[at], decoded[at + 1], decoded[at + 2], decoded[at + 3]),
                    distance_bits: le_u32(decoded[at + 4], decoded[at + 5], decoded[at + 6], decoded[at + 7]),
                    quality: decoded[at + 8],
                });
                assert(ms@ =~= lidar_records(decoded@).take(i + 1));
                i = i + 1;
            }
            assert(lidar_records(decoded@).take(count as int) =~= lidar_records(decoded@));
            CoproAction::Lidar(ms)
        } else if kind == 0x6F {
            CoproAction::Ignore
        } else if kind == 0x72 {
            let mut payload: Vec<u8> = Vec::new();
            let mut i: usize = 0;
            while i < self.requests.len()
                invariant
                    i <= self.requests@.len(),
                    self.requests@ == old(self).requests@,
                    payload@ == requests_bytes(self.requests@.take(i as int)),
                decreases self.requests@.len() - i,
            {
                let req = self.requests[i];
                req.encode(&mut payload);
                assert(self.requests@.take(i + 1).drop_last() =~= self.requests@.take(i as int));
                i = i + 1;
            }
            assert(self.requests@.take(self.requests@.len() as int) =~= self.requests@);
            self.requests = Vec::new();
            CoproAction::Reply(encode_frame(payload.as_slice()))
        } else {
            CoproAction::Unknown(kind)
        }
    }
}

/// Answering a request sends every queued command once, in the order they
/// were queued, and leaves nothing queued: two answers in a row carry the
/// commands queued before the first, then none.
pub proof fn lemma_requests_bytes_append(a: Seq<CoproRequest>, r: CoproRequest)
    ensures
        requests_bytes(a.push(r)) == requests_bytes(a) + request_bytes(r),
{
    assert(a.push(r).drop_last() =~= a);
}

} // verus!
