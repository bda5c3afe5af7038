//! Zero-delimited frames on a serial line: each frame is COBS-encoded (by
//! the `cobs` crate), so that it holds no zero byte, and ends with a zero.
use vstd::prelude::*;

verus! {

#[verifier::external_type_specification]
#[verifier::external_body]
pub struct ExDecodeError(cobs::DecodeError);

/// What `cobs::encode_vec` makes of `data`.
pub uninterp spec fn cobs_encoding(data: Seq<u8>) -> Seq<u8>;

/// What `cobs::decode_in_place` makes of a buffer: the decoded bytes of the
/// encoded message that the buffer holds up to its first zero, or `None`
/// when that is no valid encoding.
pub uninterp spec fn cobs_decoding(buf: Seq<u8>) -> Option<Seq<u8>>;

/// COBS-encodes `data` (`cobs::encode_vec`). The encoding holds no zero
/// byte, which the crate documents as the point of the encoding, and,
/// terminated by a zero, decodes to `data` again, which the crate's own
/// round-trip tests check.
#[verifier::external_body]
fn cobs_encode(data: &[u8]) -> (r: Vec<u8>)
    ensures
        r@ == cobs_encoding(data@),
        forall|i: int| 0 <= i < r@.len() ==> r@[i] != 0u8,
        cobs_decoding(r@.push(0u8)) == Some(data@),
{
    cobs::encode_vec(data)
}

/// Decodes the COBS message that `buf` holds up to its first zero, writing
/// the decoded bytes over the start of `buf` (`cobs::decode_in_place`).
/// Returns the decoded length, which never exceeds the buffer's; what the
/// buffer holds behind the decoded bytes is not stated.
#[verifier::external_body]
fn cobs_decode_in_place(buf: &mut [u8]) -> (r: Result<usize, cobs::DecodeError>)
    ensures
        final(buf)@.len() == old(buf)@.len(),
        r is Ok <==> cobs_decoding(old(buf)@) is Some,
        r matches Ok(n) ==> {
            &&& n <= old(buf)@.len()
            &&& final(buf)@.take(n as int) == cobs_decoding(old(buf)@)->0
        },
{
    cobs::decode_in_place(buf)
}

/// Why a received frame could not be used.
#[derive(Debug, Clone, Copy, PartialEq, Eq, Structural)]
pub enum FrameError {
    /// The frame is not a valid COBS encoding.
    Decode,
}

/// The frame that carries `payload`: its COBS encoding, then a zero.
pub open spec fn frame_of(payload: Seq<u8>) -> Seq<u8> {
    cobs_encoding(payload).push(0u8)
}

/// Encodes `payload` into the frame that carries it, which decodes to the
/// payload again.
pub fn encode_frame(payload: &[u8]) -> (r: Vec<u8>)
    ensures
        r@ == frame_of(payload@),
        forall|i: int| 0 <= i < r@.len() - 1 ==> r@[i] != 0u8,
        cobs_decoding(r@) == Some(payload@),
{
    let mut r = cobs_encode(payload);
    r.push(0);
    r
}

/// Every frame ends with its only zero byte, so frames can be told apart on
/// the line.
pub proof fn lemma_frame_single_terminator(payload: Seq<u8>, r: Seq<u8>)
    requires
        r == frame_of(payload),
        forall|i: int| 0 <= i < r.len() - 1 ==> r[i] != 0u8,
    ensures
        r.len() >= 1,
        r.last() == 0u8,
        forall|i: int| 0 <= i < r.len() && r[i] == 0u8 ==> i == r.len() - 1,
{
}

/// A frame cut at its terminating zero, with the zero put back, is the
/// frame again: what [decode_frame] is given of a frame that [encode_frame]
/// made decodes to the payload.
pub proof fn lemma_frame_cut(payload: Seq<u8>)
    ensures
        frame_of(payload).drop_last().push(0u8) == frame_of(payload),
{
    assert(frame_of(payload).drop_last().push(0u8) =~= frame_of(payload));
}

/// Decodes the payload of a received frame, given the bytes before its
/// terminating zero.
pub fn decode_frame(frame: &[u8]) -> (r: Result<Vec<u8>, FrameError>)
    ensures
        r is Ok <==> cobs_decoding(frame@.push(0u8)) is Some,
        r matches Ok(p) ==> Some(p@) == cobs_decoding(frame@.push(0u8)),
{
    let mut buf: Vec<u8> = Vec::new();
    let mut i: usize = 0;
    while i < frame.len()
        invariant
            i <= frame.len(),
            buf@ == frame@.take(i as int),
        decreases frame.len() - i,
    {
        buf.push(frame[i]);
        assert(frame@.take(i + 1) =~= frame@.take(i as int).push(frame@[i as int]));
        i = i + 1;
    }
    buf.push(0);
    assert(frame@.take(frame@.len() as int) =~= frame@);
    match cobs_decode_in_place(buf.as_mut_slice()) {
        Ok(n) => {
            buf.truncate(n);
            Ok(buf)
        },
        Err(_) => Err(FrameError::Decode),
    }
}

/// Collects the bytes of one frame from a serial line, holding at most
/// `capacity` bytes: when a byte arrives with the collection full, what was
/// collected is dropped and collecting starts over.
pub struct FrameCollector {
    bytes: Vec<u8>,
    capacity: usize,
}

impl FrameCollector {
    /// The bytes collected of the current frame.
    pub closed spec fn spec_bytes(&self) -> Seq<u8> {
        self.bytes@
    }

    /// How many bytes a frame may hold.
    pub closed spec fn spec_capacity(&self) -> nat {
        self.capacity as nat
    }

    /// A collector holds no more than its capacity.
    pub open spec fn wf(&self) -> bool {
        &&& self.spec_capacity() > 0
        &&& self.spec_bytes().len() <= self.spec_capacity()
    }

    /// A collector with nothing collected yet.
    pub fn new(capacity: usize) -> (r: Self)
        requires
            capacity > 0,
        ensures
            r.spec_bytes() == Seq::<u8>::empty(),
            r.spec_capacity() == capacity,
            r.wf(),
    {
        FrameCollector { bytes: Vec::new(), capacity }
    }

    /// The bytes collected of the current frame.
    pub fn bytes(&self) -> (r: &[u8])
        ensures
            r@ == self.spec_bytes(),
    {
        self.bytes.as_slice()
    }

    /// Takes in one byte from the line: a zero ends the frame, which is
    /// returned (the bytes before the zero); any other byte is collected.
    /// A full collection is dropped first.
    pub fn push(&mut self, byte: u8) -> (r: Option<Vec<u8>>)
        requires
            old(self).wf(),
        ensures
            final(self).wf(),
            final(self).spec_capacity() == old(self).spec_capacity(),
            ({
                let kept = if old(self).spec_bytes().len() >= old(self).spec_capacity() {
                    Seq::<u8>::empty()
                } else {
                    old(self).spec_bytes()
                };
                if byte == 0 {
                    &&& r matches Some(f) && f@ == kept
                    &&& final(self).spec_bytes() == Seq::<u8>::empty()
                } else {
                    &&& r is None
                    &&& final(self).spec_bytes() == kept.push(byte)
                }
            }),
    {
        if self.bytes.len() >= self.capacity {
            self.bytes = Vec::new();
        }
        if byte == 0 {
            let mut frame: Vec<u8> = Vec::new();
            core::mem::swap(&mut frame, &mut self.bytes);
            Some(frame)
        } else {
            self.bytes.push(byte);
            None
        }
    }
}

} // verus!
