//! A little-endian bit cursor over a byte buffer, backed by `bitter`.
//!
//! Bits are numbered from the least significant bit of the first byte: bit
//! `k` of a buffer is bit `k % 8` of byte `k / 8`, and a read of `n` bits
//! yields those bits with the first one read as the least significant.
use vstd::prelude::*;
use vstd::arithmetic::power2::{pow2, lemma_pow2_unfold, lemma_pow2_pos};
use bitter::BitReader;

verus! {

/// Bit `k` of `data`, counted from the least significant bit of the first byte.
pub open spec fn le_bit(data: Seq<u8>, k: nat) -> nat {
    ((data[(k / 8) as int] >> ((k % 8) as u8)) & 1u8) as nat
}

/// The `n`-bit little-endian number whose lowest bit is bit `pos` of `data`.
pub open spec fn le_bits(data: Seq<u8>, pos: nat, n: nat) -> nat
    decreases n,
{
    if n == 0 {
        0
    } else {
        le_bit(data, pos) + 2 * le_bits(data, pos + 1, (n - 1) as nat)
    }
}

/// How many bits of `data` lie at or after bit `pos`.
pub open spec fn bits_available(data: Seq<u8>, pos: nat) -> int {
    8 * data.len() - pos
}

/// How many whole bytes of `data` lie at or after bit `pos`.
pub open spec fn bytes_available(data: Seq<u8>, pos: nat) -> int {
    bits_available(data, pos) / 8
}

/// An `n`-bit field is smaller than `2^n`.
pub proof fn lemma_le_bits_bound(data: Seq<u8>, pos: nat, n: nat)
    ensures
        le_bits(data, pos, n) < pow2(n),
    decreases n,
{
    if n == 0 {
        assert(pow2(0) == 1) by { vstd::arithmetic::power2::lemma2_to64(); }
    } else {
        lemma_le_bits_bound(data, pos + 1, (n - 1) as nat);
        lemma_pow2_unfold(n);
        let b = data[(pos / 8) as int];
        let s = (pos % 8) as u8;
        assert((b >> s) & 1u8 <= 1u8) by (bit_vector);
    }
}

/// A field of `n + m` bits is its first `n` bits plus `2^n` times the
/// `m` bits that follow.
pub proof fn lemma_le_bits_split(data: Seq<u8>, pos: nat, n: nat, m: nat)
    ensures
        le_bits(data, pos, n + m) == le_bits(data, pos, n) + pow2(n) * le_bits(data, pos + n, m),
    decreases n,
{
    if n == 0 {
        vstd::arithmetic::power2::lemma2_to64();
    } else {
        lemma_le_bits_split(data, pos + 1, (n - 1) as nat, m);
        lemma_pow2_unfold(n);
        assert((n + m - 1) as nat == ((n - 1) as nat + m) as nat);
        let a = le_bits(data, pos + 1, (n - 1) as nat);
        let c = le_bits(data, pos + n, m);
        let p = pow2((n - 1) as nat);
        assert(2 * (a + p * c) == 2 * a + (2 * p) * c) by (nonlinear_arith);
    }
}

/// The eight bits of a byte give the byte back.
pub proof fn lemma_le_bits_byte(data: Seq<u8>, i: int)
    requires
        0 <= i < data.len(),
    ensures
        le_bits(data, (8 * i) as nat, 8) == data[i],
{
    let b = data[i];
    let k = (8 * i) as nat;
    reveal_with_fuel(le_bits, 9);
    assert forall|j: nat| j < 8 implies #[trigger] le_bit(data, k + j) == ((b >> (j as u8)) & 1u8) as nat by {
        assert((k + j) / 8 == i);
        assert((k + j) % 8 == j);
    }
    assert(le_bit(data, k) == ((b >> 0u8) & 1u8) as nat);
    assert(le_bit(data, k + 1) == ((b >> 1u8) & 1u8) as nat);
    assert(le_bit(data, k + 2) == ((b >> 2u8) & 1u8) as nat);
    assert(le_bit(data, k + 3) == ((b >> 3u8) & 1u8) as nat);
    assert(le_bit(data, k + 4) == ((b >> 4u8) & 1u8) as nat);
    assert(le_bit(data, k + 5) == ((b >> 5u8) & 1u8) as nat);
    assert(le_bit(data, k + 6) == ((b >> 6u8) & 1u8) as nat);
    assert(le_bit(data, k + 7) == ((b >> 7u8) & 1u8) as nat);
    assert(b == ((b >> 0u8) & 1u8) + 2 * (((b >> 1u8) & 1u8) + 2 * (((b >> 2u8) & 1u8) + 2 * (((b >> 3u8) & 1u8)
        + 2 * (((b >> 4u8) & 1u8) + 2 * (((b >> 5u8) & 1u8) + 2 * (((b >> 6u8) & 1u8) + 2 * ((b >> 7u8)
        & 1u8)))))))) by (bit_vector);
}

/// Sixteen bits from the start of byte `i` are that byte plus 256 times the next.
pub proof fn lemma_le_bits_u16(data: Seq<u8>, i: int)
    requires
        0 <= i,
        i + 1 < data.len(),
    ensures
        le_bits(data, (8 * i) as nat, 16) == data[i] + 256 * data[i + 1],
{
    lemma_le_bits_split(data, (8 * i) as nat, 8, 8);
    lemma_le_bits_byte(data, i);
    lemma_le_bits_byte(data, i + 1);
    assert((8 * i) as nat + 8 == (8 * (i + 1)) as nat);
    vstd::arithmetic::power2::lemma2_to64();
}

/// A reader of little-endian bit fields, starting at the first bit of a
/// buffer and moving forward as fields are read.
pub struct BitCursor<'a> {
    reader: bitter::LittleEndianReader<'a>,
    data: Ghost<Seq<u8>>,
    pos: Ghost<nat>,
}

#[verifier::external_type_specification]
#[verifier::external_body]
pub struct ExLittleEndianReader<'a>(bitter::LittleEndianReader<'a>);

impl<'a> BitCursor<'a> {
    /// The bytes being read.
    pub closed spec fn data(&self) -> Seq<u8> {
        self.data@
    }

    /// How many bits have been read so far.
    pub closed spec fn pos(&self) -> nat {
        self.pos@
    }

    /// The cursor never moves past the end of its buffer.
    pub open spec fn wf(&self) -> bool {
        self.pos() <= 8 * self.data().len()
    }

    /// Starts reading at the first bit of `data`
    /// (`bitter::LittleEndianReader::new`).
    #[verifier::external_body]
    pub fn new(data: &'a [u8]) -> (r: Self)
        ensures
            r.data() == data@,
            r.pos() == 0,
    {
        BitCursor { reader: bitter::LittleEndianReader::new(data), data: Ghost(data@), pos: Ghost(0) }
    }

    /// Reads an `n`-bit field (`BitReader::read_bits`): `None`, with nothing
    /// consumed, when fewer than `n` bits are left; otherwise the field, and
    /// the cursor moves past it.
    #[verifier::external_body]
    pub fn read_bits(&mut self, n: u32) -> (r: Option<u64>)
        requires
            n <= 56,
        ensures
            final(self).data() == old(self).data(),
            old(self).pos() + n <= 8 * old(self).data().len() ==> {
                &&& r == Some(le_bits(old(self).data(), old(self).pos(), n as nat) as u64)
                &&& final(self).pos() == old(self).pos() + n
            },
            old(self).pos() + n > 8 * old(self).data().len() ==> {
                &&& r is None
                &&& final(self).pos() == old(self).pos()
            },
    {
        self.reader.read_bits(n)
    }

    /// Reads one bit (`BitReader::read_bit`): `Some(true)` when it is set.
    #[verifier::external_body]
    pub fn read_bit(&mut self) -> (r: Option<bool>)
        ensures
            final(self).data() == old(self).data(),
            old(self).pos() + 1 <= 8 * old(self).data().len() ==> {
                &&& r == Some(le_bit(old(self).data(), old(self).pos()) == 1)
                &&& final(self).pos() == old(self).pos() + 1
            },
            old(self).pos() + 1 > 8 * old(self).data().len() ==> {
                &&& r is None
                &&& final(self).pos() == old(self).pos()
            },
    {
        self.reader.read_bit()
    }

    /// Reads an 8-bit field (`BitReader::read_u8`).
    #[verifier::external_body]
    pub fn read_u8(&mut self) -> (r: Option<u8>)
        ensures
            final(self).data() == old(self).data(),
            old(self).pos() + 8 <= 8 * old(self).data().len() ==> {
                &&& r == Some(le_bits(old(self).data(), old(self).pos(), 8) as u8)
                &&& final(self).pos() == old(self).pos() + 8
            },
            old(self).pos() + 8 > 8 * old(self).data().len() ==> {
                &&& r is None
                &&& final(self).pos() == old(self).pos()
            },
    {
        self.reader.read_u8()
    }

    /// Reads a 16-bit little-endian field (`BitReader::read_u16`).
    #[verifier::external_body]
    pub fn read_u16(&mut self) -> (r: Option<u16>)
        ensures
            final(self).data() == old(self).data(),
            old(self).pos() + 16 <= 8 * old(self).data().len() ==> {
                &&& r == Some(le_bits(old(self).data(), old(self).pos(), 16) as u16)
                &&& final(self).pos() == old(self).pos() + 16
            },
            old(self).pos() + 16 > 8 * old(self).data().len() ==> {
                &&& r is None
                &&& final(self).pos() == old(self).pos()
            },
    {
        self.reader.read_u16()
    }

    /// How many whole bytes are left (`BitReader::bytes_remaining`).
    #[verifier::external_body]
    pub fn bytes_remaining(&self) -> (r: usize)
        requires
            self.wf(),
        ensures
            r == bytes_available(self.data(), self.pos()),
    {
        self.reader.bytes_remaining()
    }

    /// Fills `buf` with the next `buf.len()` 8-bit fields
    /// (`BitReader::read_bytes`): `false`, with nothing consumed and `buf`
    /// untouched, when too few bits are left.
    #[verifier::external_body]
    pub fn read_bytes(&mut self, buf: &mut [u8]) -> (r: bool)
        ensures
            final(self).data() == old(self).data(),
            r == (old(self).pos() + 8 * old(buf)@.len() <= 8 * old(self).data().len()),
            r ==> {
                &&& final(buf)@ == Seq::new(
                    old(buf)@.len(),
                    |i: int| le_bits(old(self).data(), (old(self).pos() + 8 * i) as nat, 8) as u8,
                )
                &&& final(self).pos() == old(self).pos() + 8 * old(buf)@.len()
            },
            !r ==> {
                &&& final(buf)@ == old(buf)@
                &&& final(self).pos() == old(self).pos()
            },
    {
        self.reader.read_bytes(buf)
    }
}

} // verus!
