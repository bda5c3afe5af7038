//! WS2812B RGB LEDs driven by the coprocessor.
use vstd::prelude::*;

verus! {

/// The number of LEDs on the strip.
pub const LED_COUNT: usize = 9;

/// One LED's color, laid out as the 32-bit word the LED driver shifts out:
/// padding, blue, red, green, from the lowest byte up.
#[derive(Clone, Copy, Debug)]
pub struct LedPixel {
    padding: u8,
    blue: u8,
    red: u8,
    green: u8,
}

impl LedPixel {
    /// The padding byte is always zero.
    #[verifier::type_invariant]
    closed spec fn padding_is_zero(self) -> bool {
        self.padding == 0
    }

    pub closed spec fn spec_red(&self) -> u8 {
        self.red
    }

    pub closed spec fn spec_green(&self) -> u8 {
        self.green
    }

    pub closed spec fn spec_blue(&self) -> u8 {
        self.blue
    }

    /// The color with the given red, green and blue levels.
    pub fn new(red: u8, green: u8, blue: u8) -> (r: Self)
        ensures
            r.spec_red() == red,
            r.spec_green() == green,
            r.spec_blue() == blue,
    {
        Self { padding: 0, red, green, blue }
    }

    /// The word the LED driver shifts out, green in the highest byte, then
    /// red, then blue, and a zero lowest byte.
    pub fn to_word(&self) -> (w: u32)
        ensures
            w as int == 16777216 * self.spec_green() + 65536 * self.spec_red() + 256 * self.spec_blue(),
    {
        proof {
            use_type_invariant(self);
        }
        16777216 * (self.green as u32) + 65536 * (self.red as u32) + 256 * (self.blue as u32)
            + self.padding as u32
    }
}

/// The pixel of a `0xRRGGBB` color.
pub open spec fn pixel_of(value: u32) -> (u8, u8, u8) {
    (((value / 65536) % 256) as u8, ((value / 256) % 256) as u8, (value % 256) as u8)
}

impl From<u32> for LedPixel {
    /// The color `0xRRGGBB`; the highest byte is ignored.
    fn from(value: u32) -> (r: Self) {
        Self {
            padding: 0,
            red: ((value / 65536) % 256) as u8,
            green: ((value / 256) % 256) as u8,
            blue: (value % 256) as u8,
        }
    }
}

impl vstd::std_specs::convert::FromSpecImpl<u32> for LedPixel {
    open spec fn obeys_from_spec() -> bool {
        true
    }

    closed spec fn from_spec(value: u32) -> Self {
        LedPixel {
            padding: 0,
            red: ((value / 65536) % 256) as u8,
            green: ((value / 256) % 256) as u8,
            blue: (value % 256) as u8,
        }
    }
}

/// Converting a `0xRRGGBB` color gives its red, green and blue bytes.
pub proof fn lemma_pixel_from_u32(value: u32)
    ensures
        ({
            let p = <LedPixel as vstd::std_specs::convert::FromSpec<u32>>::from_spec(value);
            (p.spec_red(), p.spec_green(), p.spec_blue()) == pixel_of(value)
        }),
{
}

/// The words the LED driver shifts out for a strip, first LED first.
pub fn led_words(leds: &[LedPixel]) -> (w: Vec<u32>)
    ensures
        w@.len() == leds@.len(),
        forall|i: int|
            0 <= i < leds@.len() ==> w@[i] as int == 16777216 * leds@[i].spec_green() + 65536
                * leds@[i].spec_red() + 256 * leds@[i].spec_blue(),
{
    let mut w: Vec<u32> = Vec::new();
    let mut i: usize = 0;
    while i < leds.len()
        invariant
            i <= leds@.len(),
            w@.len() == i,
            forall|j: int|
                0 <= j < i ==> w@[j] as int == 16777216 * leds@[j].spec_green() + 65536
                    * leds@[j].spec_red() + 256 * leds@[j].spec_blue(),
        decreases leds@.len() - i,
    {
        w.push(leds[i].to_word());
        i = i + 1;
    }
    w
}

} // verus!
