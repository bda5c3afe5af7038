//! Asking the RPLIDAR for its model, firmware and serial number.
use vstd::prelude::*;
use crate::protocol::{ParsingState, Request, Response};
use crate::protocol::bits::{BitCursor, bits_available, le_bits, lemma_le_bits_bound};

verus! {

/// Asks for the device information of the RPLIDAR.
#[derive(Debug)]
pub struct GetInfoRequest;

impl Request for GetInfoRequest {
    open spec fn spec_tag() -> u8 {
        0x50
    }

    open spec fn spec_max_payload_length() -> u8 {
        0
    }

    open spec fn spec_payload(&self) -> Seq<u8> {
        Seq::empty()
    }

    fn tag() -> (t: u8) {
        0x50
    }

    fn max_payload_length() -> (n: u8) {
        0
    }

    fn serialize_payload(&self, buf: &mut [u8]) -> (n: usize) {
        proof {
            assert(buf@.take(0) =~= Seq::<u8>::empty());
            assert(buf@.skip(0) =~= buf@);
        }
        0
    }
}

/// The answer to [GetInfoRequest].
#[derive(Debug, Clone, Copy, PartialEq, Eq)]
pub struct GetInfoResponse {
    /// The sub-model of the RPLIDAR
    ///
    /// Example: RPLIDAR S2M1: 1
    pub sub_model: u8,
    /// The major model of the RPLIDAR
    ///
    /// S-series should be subtracted by 5
    ///
    /// Examples:
    /// - RPLIDAR S2M1: 7
    /// - RPLIDAR C1: 1
    pub major_model: u8,
    /// The decimal part of the firmware version number
    pub firmware_minor: u8,
    /// The integer part of the firmware version number
    pub firmware_major: u8,
    /// Undocumented
    pub hardware: u8,
    /// The serial number of this RPLIDAR
    ///
    /// When converting to text in hex, the LSB prints first
    pub serial_number: [u8; 16],
}

/// The size of a device information response in bytes.
pub const GET_INFO_RESPONSE_SIZE: usize = 20;

/// The fields of a device information response read from bit `pos` of
/// `data`: the sub-model and the major model as the low and high nibble of
/// the first byte, then the firmware minor and major versions, the hardware
/// version and sixteen serial number bytes.
pub open spec fn info_fields_match(r: GetInfoResponse, data: Seq<u8>, pos: nat) -> bool {
    &&& r.sub_model == le_bits(data, pos, 4)
    &&& r.major_model == le_bits(data, pos + 4, 4)
    &&& r.firmware_minor == le_bits(data, pos + 8, 8)
    &&& r.firmware_major == le_bits(data, pos + 16, 8)
    &&& r.hardware == le_bits(data, pos + 24, 8)
    &&& r.serial_number@ == Seq::new(16, |i: int| le_bits(data, (pos + 32 + 8 * i) as nat, 8) as u8)
}

/// Whether `r` is what parsing a device information response from bit
/// `pos` of `data` yields.
pub open spec fn info_response_from(data: Seq<u8>, pos: nat, r: ParsingState<GetInfoResponse>) -> bool {
    let avail = bits_available(data, pos);
    if avail < 160 {
        r == ParsingState::<GetInfoResponse>::Unfinished((20 - avail / 8) as usize)
    } else {
        r matches ParsingState::Done(info) && info_fields_match(info, data, pos)
    }
}

/// The lowest major model of each series.
pub const C_MINIMUM_MAJOR_ID: u8 = 4;
pub const S_MINIMUM_MAJOR_ID: u8 = 6;
pub const T_MINIMUM_MAJOR_ID: u8 = 9;
pub const M_MINIMUM_MAJOR_ID: u8 = 12;

/// The major model an RPLIDAR C1 reports.
pub const C1_MAJOR_ID: u8 = 1;

/// The series letter of a major model: `C` for the C1's major model; else
/// `A` below the C series, then `C`, `S`, `T` and `M` from the lowest major
/// model of each series on.
pub open spec fn model_category(major: u8) -> char {
    if major == C1_MAJOR_ID {
        'C'
    } else if major < C_MINIMUM_MAJOR_ID {
        'A'
    } else if major < S_MINIMUM_MAJOR_ID {
        'C'
    } else if major < T_MINIMUM_MAJOR_ID {
        'S'
    } else if major < M_MINIMUM_MAJOR_ID {
        'T'
    } else {
        'M'
    }
}

/// The version within its series of a major model: the major model itself
/// below the C series (1 for the C1), else its distance from the series'
/// lowest major model plus one.
pub open spec fn model_version(major: u8) -> int {
    if major < C_MINIMUM_MAJOR_ID {
        major as int
    } else if major < S_MINIMUM_MAJOR_ID {
        major - C_MINIMUM_MAJOR_ID + 1
    } else if major < T_MINIMUM_MAJOR_ID {
        major - S_MINIMUM_MAJOR_ID + 1
    } else if major < M_MINIMUM_MAJOR_ID {
        major - T_MINIMUM_MAJOR_ID + 1
    } else {
        major - M_MINIMUM_MAJOR_ID + 1
    }
}

/// The upper-case hexadecimal digit of `d`.
pub open spec fn hex_digit(d: u8) -> char {
    if d < 10 {
        ((d + 48) as u8) as char
    } else {
        ((d + 55) as u8) as char
    }
}

/// A byte in upper-case hexadecimal, with no leading zero.
pub open spec fn hex_byte(b: u8) -> Seq<char> {
    if b < 16 {
        seq![hex_digit(b)]
    } else {
        seq![hex_digit(b / 16), hex_digit(b % 16)]
    }
}

/// The bytes of `s` in upper-case hexadecimal, each with no leading zero,
/// one after the other.
pub open spec fn hex_bytes(s: Seq<u8>) -> Seq<char>
    decreases s.len(),
{
    if s.len() == 0 {
        Seq::empty()
    } else {
        hex_bytes(s.drop_last()) + hex_byte(s.last())
    }
}

/// A byte in decimal, with no leading zero.
pub open spec fn dec_byte(n: u8) -> Seq<char> {
    if n < 10 {
        seq![hex_digit(n)]
    } else if n < 100 {
        seq![hex_digit(n / 10), hex_digit(n % 10)]
    } else {
        seq![hex_digit(n / 100), hex_digit((n / 10) % 10), hex_digit(n % 10)]
    }
}

/// How a device information response is printed: the model, the firmware
/// and hardware versions, and the serial number.
pub open spec fn info_text(r: GetInfoResponse) -> Seq<char> {
    "RPLIDAR "@ + seq![model_category(r.major_model)] + dec_byte(model_version(r.major_model) as u8) + "M"@
        + dec_byte(r.sub_model) + ", firmware v"@ + dec_byte(r.firmware_major) + "."@ + dec_byte(
        r.firmware_minor,
    ) + ", hardware v"@ + dec_byte(r.hardware) + ", serial "@ + hex_bytes(r.serial_number@)
}

/// Appends the hexadecimal digit `d`.
fn push_digit(out: &mut String, d: u8)
    requires
        d < 16,
    ensures
        final(out)@ == old(out)@.push(hex_digit(d)),
{
    proof {
        reveal_strlit("0");
        reveal_strlit("1");
        reveal_strlit("2");
        reveal_strlit("3");
        reveal_strlit("4");
        reveal_strlit("5");
        reveal_strlit("6");
        reveal_strlit("7");
        reveal_strlit("8");
        reveal_strlit("9");
        reveal_strlit("A");
        reveal_strlit("B");
        reveal_strlit("C");
        reveal_strlit("D");
        reveal_strlit("E");
        reveal_strlit("F");
    }
    let digit = match d {
        0 => "0",
        1 => "1",
        2 => "2",
        3 => "3",
        4 => "4",
        5 => "5",
        6 => "6",
        7 => "7",
        8 => "8",
        9 => "9",
        10 => "A",
        11 => "B",
        12 => "C",
        13 => "D",
        14 => "E",
        _ => "F",
    };
    out.append(digit);
}

/// Appends a byte in decimal.
fn push_decimal(out: &mut String, n: u8)
    ensures
        final(out)@ == old(out)@ + dec_byte(n),
{
    if n >= 100 {
        push_digit(out, n / 100);
    }
    if n >= 10 {
        push_digit(out, (n / 10) % 10);
    }
    push_digit(out, n % 10);
    assert(final(out)@ =~= old(out)@ + dec_byte(n));
}

/// Appends the bytes of `bytes` in hexadecimal, each with no leading zero.
fn push_hex_bytes(out: &mut String, bytes: &[u8])
    ensures
        final(out)@ == old(out)@ + hex_bytes(bytes@),
{
    let ghost start = out@;
    let mut i: usize = 0;
    while i < bytes.len()
        invariant
            i <= bytes@.len(),
            out@ == start + hex_bytes(bytes@.take(i as int)),
        decreases bytes@.len() - i,
    {
        let b = bytes[i];
        proof {
            assert(bytes@.take(i + 1).drop_last() =~= bytes@.take(i as int));
        }
        if b >= 16 {
            push_digit(out, b / 16);
        }
        push_digit(out, b % 16);
        proof {
            if b < 16 {
                assert(b % 16 == b);
            }
            assert(out@ =~= start + hex_bytes(bytes@.take(i as int)) + hex_byte(b));
        }
        i = i + 1;
    }
    proof {
        assert(bytes@.take(bytes@.len() as int) =~= bytes@);
    }
}

impl GetInfoResponse {
    /// The series letter of the model (`RPLIDAR {letter}{version}M{sub_model}`).
    pub fn major_model_category(&self) -> (c: char)
        ensures
            c == model_category(self.major_model),
            6 <= self.major_model < 9 ==> c == 'S',
            9 <= self.major_model < 12 ==> c == 'T',
            4 <= self.major_model < 6 || self.major_model == 1 ==> c == 'C',
            12 <= self.major_model ==> c == 'M',
    {
        if self.major_model == C1_MAJOR_ID {
            'C'
        } else if self.major_model < C_MINIMUM_MAJOR_ID {
            'A'
        } else if self.major_model < S_MINIMUM_MAJOR_ID {
            'C'
        } else if self.major_model < T_MINIMUM_MAJOR_ID {
            'S'
        } else if self.major_model < M_MINIMUM_MAJOR_ID {
            'T'
        } else {
            'M'
        }
    }

    /// The version of the model within its series.
    pub fn major_model_version(&self) -> (v: u8)
        ensures
            v == model_version(self.major_model),
            6 <= self.major_model < 9 ==> v == self.major_model - 5,
            9 <= self.major_model < 12 ==> v == self.major_model - 8,
            4 <= self.major_model < 6 ==> v == self.major_model - 3,
            12 <= self.major_model ==> v == self.major_model - 11,
    {
        if self.major_model < C_MINIMUM_MAJOR_ID {
            self.major_model
        } else if self.major_model < S_MINIMUM_MAJOR_ID {
            self.major_model - C_MINIMUM_MAJOR_ID + 1
        } else if self.major_model < T_MINIMUM_MAJOR_ID {
            self.major_model - S_MINIMUM_MAJOR_ID + 1
        } else if self.major_model < M_MINIMUM_MAJOR_ID {
            self.major_model - T_MINIMUM_MAJOR_ID + 1
        } else {
            self.major_model - M_MINIMUM_MAJOR_ID + 1
        }
    }

    /// The response as printed, for example
    /// `RPLIDAR S2M1, firmware v1.24, hardware v18, serial 0112..`: the
    /// model, the firmware and hardware versions, and the serial number with
    /// each byte in upper-case hexadecimal, with no leading zero.
    pub fn to_string(&self) -> (s: String)
        ensures
            s@ == info_text(*self),
    {
        proof {
            reveal_strlit("A");
            reveal_strlit("C");
            reveal_strlit("S");
            reveal_strlit("T");
            reveal_strlit("M");
        }
        let mut out = String::new();
        out.append("RPLIDAR ");
        let category = if self.major_model == C1_MAJOR_ID {
            "C"
        } else if self.major_model < C_MINIMUM_MAJOR_ID {
            "A"
        } else if self.major_model < S_MINIMUM_MAJOR_ID {
            "C"
        } else if self.major_model < T_MINIMUM_MAJOR_ID {
            "S"
        } else if self.major_model < M_MINIMUM_MAJOR_ID {
            "T"
        } else {
            "M"
        };
        out.append(category);
        push_decimal(&mut out, self.major_model_version());
        out.append("M");
        push_decimal(&mut out, self.sub_model);
        out.append(", firmware v");
        push_decimal(&mut out, self.firmware_major);
        out.append(".");
        push_decimal(&mut out, self.firmware_minor);
        out.append(", hardware v");
        push_decimal(&mut out, self.hardware);
        out.append(", serial ");
        push_hex_bytes(&mut out, &self.serial_number);
        assert(out@ =~= info_text(*self));
        out
    }
}

impl Response for GetInfoResponse {
    /// Parses a device information response from the reader.
    fn parse(reader: &mut BitCursor) -> (r: ParsingState<GetInfoResponse>)
        ensures
            info_response_from(old(reader).data(), old(reader).pos(), r),
            final(reader).data() == old(reader).data(),
            final(reader).wf(),
    {
        let ghost data = reader.data();
        let ghost pos = reader.pos();
        let available = reader.bytes_remaining();
        if available < GET_INFO_RESPONSE_SIZE {
            return ParsingState::Unfinished(GET_INFO_RESPONSE_SIZE - available);
        }
        proof {
            lemma_le_bits_bound(data, pos, 4);
            lemma_le_bits_bound(data, pos + 4, 4);
            lemma_le_bits_bound(data, pos + 8, 8);
            lemma_le_bits_bound(data, pos + 16, 8);
            lemma_le_bits_bound(data, pos + 24, 8);
            vstd::arithmetic::power2::lemma2_to64();
        }
        let sub_model = match reader.read_bits(4) {
            Some(v) => v as u8,
            None => return ParsingState::Invalid,
        };
        let major_model = match reader.read_bits(4) {
            Some(v) => v as u8,
            None => return ParsingState::Invalid,
        };
        let firmware_minor = match reader.read_u8() {
            Some(v) => v,
            None => return ParsingState::Invalid,
        };
        let firmware_major = match reader.read_u8() {
            Some(v) => v,
            None => return ParsingState::Invalid,
        };
        let hardware = match reader.read_u8() {
            Some(v) => v,
            None => return ParsingState::Invalid,
        };
        let mut serial_number = [0u8; 16];
        
        if !reader.read_bytes(&mut serial_number) {
            return ParsingState::Invalid;
        }
        assert(serial_number@ =~= Seq::new(16, |i: int| le_bits(data, (pos + 32 + 8 * i) as nat, 8) as u8));
        ParsingState::Done(GetInfoResponse {
            sub_model,
            major_model,
            firmware_minor,
            firmware_major,
            hardware,
            serial_number,
        })
    }
}

/// From the start of a buffer, an unfinished device information response
/// asks for exactly the bytes that complete its twenty, and twenty bytes or
/// more always parse.
pub proof fn lemma_info_response_fixed_length(data: Seq<u8>, r: ParsingState<GetInfoResponse>)
    requires
        info_response_from(data, 0, r),
    ensures
        r matches ParsingState::Unfinished(n) ==> data.len() + n == GET_INFO_RESPONSE_SIZE,
        data.len() >= GET_INFO_RESPONSE_SIZE ==> r is Done,
{
}

/// The value of a digit character: `0`-`9`, then `A`-`F` for ten to fifteen;
/// -1 for any other character.
pub open spec fn digit_value(c: char) -> int {
    if 48 <= (c as int) <= 57 {
        (c as int) - 48
    } else if 65 <= (c as int) <= 70 {
        (c as int) - 55
    } else {
        -1
    }
}

/// The number that the digits `s` write in base `base`, most significant first.
pub open spec fn read_number(s: Seq<char>, base: int) -> int
    decreases s.len(),
{
    if s.len() == 0 {
        0
    } else {
        read_number(s.drop_last(), base) * base + digit_value(s.last())
    }
}

proof fn lemma_hex_digit_value(d: u8)
    requires
        d < 16,
    ensures
        digit_value(hex_digit(d)) == d,
        d < 10 ==> 48 <= (hex_digit(d) as int) <= 57,
{
    if d < 10 {
        assert((((d + 48) as u8) as char) as int == d + 48);
    } else {
        assert((((d + 55) as u8) as char) as int == d + 55);
    }
}

/// A byte printed in decimal reads back as the byte: its characters are
/// decimal digits, they write the byte in base ten, and the first is not
/// a zero unless the byte is.
pub proof fn lemma_dec_byte_reads_back(n: u8)
    ensures
        forall|i: int| 0 <= i < dec_byte(n).len() ==> 0 <= #[trigger] digit_value(dec_byte(n)[i]) < 10,
        read_number(dec_byte(n), 10) == n,
        1 <= dec_byte(n).len() <= 3,
        n != 0 ==> digit_value(dec_byte(n)[0]) != 0,
{
    let s = dec_byte(n);
    lemma_hex_digit_value(n % 10);
    if n < 10 {
        let s0 = s.drop_last();
        assert(s0 =~= Seq::<char>::empty());
        assert(read_number(s0, 10) == 0);
        assert(read_number(s, 10) == read_number(s0, 10) * 10 + digit_value(s.last()));
    } else if n < 100 {
        lemma_hex_digit_value(n / 10);
        let s1 = s.drop_last();
        let s0 = s1.drop_last();
        assert(s1 =~= seq![hex_digit(n / 10)]);
        assert(s0 =~= Seq::<char>::empty());
        assert(read_number(s0, 10) == 0);
        assert(read_number(s1, 10) == read_number(s0, 10) * 10 + digit_value(s1.last()));
        assert(read_number(s, 10) == read_number(s1, 10) * 10 + digit_value(s.last()));
        assert(n == (n / 10) * 10 + n % 10);
    } else {
        lemma_hex_digit_value(n / 100);
        lemma_hex_digit_value((n / 10) % 10);
        let s2 = s.drop_last();
        let s1 = s2.drop_last();
        let s0 = s1.drop_last();
        assert(s2 =~= seq![hex_digit(n / 100), hex_digit((n / 10) % 10)]);
        assert(s1 =~= seq![hex_digit(n / 100)]);
        assert(s0 =~= Seq::<char>::empty());
        assert(read_number(s0, 10) == 0);
        assert(read_number(s1, 10) == read_number(s0, 10) * 10 + digit_value(s1.last()));
        assert(read_number(s2, 10) == read_number(s1, 10) * 10 + digit_value(s2.last()));
        assert(read_number(s, 10) == read_number(s2, 10) * 10 + digit_value(s.last()));
        assert(n == ((n / 100) * 10 + (n / 10) % 10) * 10 + n % 10);
    }
}

/// A byte printed in hexadecimal reads back as the byte: its characters are
/// hexadecimal digits, they write the byte in base sixteen, and the first
/// is not a zero unless the byte is.
pub proof fn lemma_hex_byte_reads_back(b: u8)
    ensures
        forall|i: int| 0 <= i < hex_byte(b).len() ==> 0 <= #[trigger] digit_value(hex_byte(b)[i]) < 16,
        read_number(hex_byte(b), 16) == b,
        1 <= hex_byte(b).len() <= 2,
        b != 0 ==> digit_value(hex_byte(b)[0]) != 0,
{
    let s = hex_byte(b);
    lemma_hex_digit_value(b % 16);
    if b < 16 {
        let s0 = s.drop_last();
        assert(s0 =~= Seq::<char>::empty());
        assert(read_number(s0, 16) == 0);
        assert(read_number(s, 16) == read_number(s0, 16) * 16 + digit_value(s.last()));
    } else {
        lemma_hex_digit_value(b / 16);
        let s1 = s.drop_last();
        let s0 = s1.drop_last();
        assert(s1 =~= seq![hex_digit(b / 16)]);
        assert(s0 =~= Seq::<char>::empty());
        assert(read_number(s0, 16) == 0);
        assert(read_number(s1, 16) == read_number(s0, 16) * 16 + digit_value(s1.last()));
        assert(read_number(s, 16) == read_number(s1, 16) * 16 + digit_value(s.last()));
        assert(b == (b / 16) * 16 + b % 16);
    }
}

/// Each series covers exactly its range of major models, and versions
/// within a series count up from 1: major models 4 and 5 are the C1 and
/// C2, 6 to 8 the S1 to S3, 9 to 11 the T1 to T3, and 12 on the M series;
/// major model 1 is the C1, and 0, 2 and 3 are the A0, A2 and A3.
pub proof fn lemma_model_series(m: u8)
    ensures
        m == 1 ==> model_category(m) == 'C' && model_version(m) == 1,
        (m == 0 || m == 2 || m == 3) ==> model_category(m) == 'A' && model_version(m) == m,
        4 <= m < 6 ==> model_category(m) == 'C' && model_version(m) == m - 3,
        6 <= m < 9 ==> model_category(m) == 'S' && model_version(m) == m - 5,
        9 <= m < 12 ==> model_category(m) == 'T' && model_version(m) == m - 8,
        12 <= m ==> model_category(m) == 'M' && model_version(m) == m - 11,
        model_version(m) >= 1 || m == 0 || m == 2 || m == 3,
{
}

} // verus!
