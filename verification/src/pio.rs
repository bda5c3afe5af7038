//! Clock settings of the coprocessor's PIO state machines, computed in the
//! `fixed` crate's unsigned 24.8 fixed-point numbers (`U24F8`), handled
//! here by their raw bits: a `U24F8` with bits `b` stands for `b / 256`.
use vstd::prelude::*;
use fixed::types::U24F8;

verus! {

/// The `U24F8` of a whole number (`U24F8::from_num`): its bits are the
/// number times 256. The number must fit in 24 bits.
#[verifier::external_body]
fn u24f8_from_num(x: u32) -> (bits: u32)
    requires
        x < 0x100_0000,
    ensures
        bits == x * 256,
{
    U24F8::from_num(x).to_bits()
}

/// A `U24F8` times a whole number (`Mul<u32> for U24F8`): the bits times
/// the number, which must fit in 32 bits.
#[verifier::external_body]
fn u24f8_mul_int(bits: u32, k: u32) -> (r: u32)
    requires
        bits * k <= u32::MAX,
    ensures
        r == bits * k,
{
    (U24F8::from_bits(bits) * k).to_bits()
}

/// The quotient of two `U24F8` (`Div for U24F8`): the dividend's bits
/// times 256 divided by the divisor's, rounded down; the divisor must not be
/// zero and the quotient must fit in 32 bits.
#[verifier::external_body]
fn u24f8_div(a: u32, b: u32) -> (r: u32)
    requires
        b != 0,
        (a * 256) / (b as int) <= u32::MAX,
    ensures
        r == (a * 256) / (b as int),
{
    (U24F8::from_bits(a) / U24F8::from_bits(b)).to_bits()
}

/// The clock divider of the WS2812B state machine, as `U24F8` bits: the
/// system clock in kHz over the bit clock in kHz (the data rate in kHz
/// times the cycles the program spends per bit).
pub open spec fn ws2812b_divider(sys_clk_hz: u32, data_rate_hz: u32, cycles_per_bit: u32) -> int {
    let clock = (sys_clk_hz / 1000) * 256;
    let bit = (data_rate_hz / 1000) * 256 * cycles_per_bit;
    (clock * 256) / bit
}

/// Whether the divider of [ws2812b_clock_divider] can be computed in
/// `U24F8`: the bit clock is not zero and every step fits.
pub open spec fn ws2812b_divider_fits(sys_clk_hz: u32, data_rate_hz: u32, cycles_per_bit: u32) -> bool {
    let bit = (data_rate_hz / 1000) * 256 * cycles_per_bit;
    &&& bit != 0
    &&& bit <= u32::MAX
    &&& ws2812b_divider(sys_clk_hz, data_rate_hz, cycles_per_bit) <= u32::MAX
}

/// The clock divider of the WS2812B state machine for a system clock and a
/// data rate in Hz, and the clock cycles the program spends per bit.
pub fn ws2812b_clock_divider(sys_clk_hz: u32, data_rate_hz: u32, cycles_per_bit: u32) -> (bits: u32)
    requires
        ws2812b_divider_fits(sys_clk_hz, data_rate_hz, cycles_per_bit),
    ensures
        bits == ws2812b_divider(sys_clk_hz, data_rate_hz, cycles_per_bit),
{
    assert(sys_clk_hz / 1000 < 0x100_0000);
    let clock_freq = u24f8_from_num(sys_clk_hz / 1000);
    let ws2812_freq = u24f8_from_num(data_rate_hz / 1000);
    let bit_freq = u24f8_mul_int(ws2812_freq, cycles_per_bit);
    u24f8_div(clock_freq, bit_freq)
}

} // verus!
