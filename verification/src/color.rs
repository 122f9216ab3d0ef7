//! Colour model: an 8-bit-per-channel triple and its packed 16-bit form.

use vstd::prelude::*;

verus! {

/// The packed 5-6-5 value of a colour: the five high bits of red, the six
/// high bits of green and the five high bits of blue, red uppermost.
pub open spec fn to_serial(r: u8, g: u8, b: u8) -> u16 {
    (((r as u16) & 0xF8) << 8) | (((g as u16) & 0xFC) << 3) | ((b as u16) >> 3)
}

/// An RGB colour with eight bits per channel.
#[derive(Debug, Clone, Copy)]
pub struct Color(u8, u8, u8);

impl View for Color {
    type V = (u8, u8, u8);

    closed spec fn view(&self) -> (u8, u8, u8) {
        (self.0, self.1, self.2)
    }
}

impl Color {
    /// The packed 16-bit value that the peripheral is sent for this colour.
    pub open spec fn serial(self) -> u16 {
        to_serial(self@.0, self@.1, self@.2)
    }

    pub fn new(r: u8, g: u8, b: u8) -> (color: Self)
        ensures
            color@ == (r, g, b),
    {
        Self(r, g, b)
    }

    pub fn as_serial(&self) -> (serial: u16)
        ensures
            serial == self.serial(),
    {
        let r: u16 = self.0 as u16;
        let g: u16 = self.1 as u16;
        let b: u16 = self.2 as u16;
        ((r & 0xF8) << 8) | ((g & 0xFC) << 3) | (b >> 3)
    }
}

/// The packed value keeps exactly the high bits of each channel: red in bits
/// 11 to 15, green in bits 5 to 10, blue in bits 0 to 4.
pub proof fn lemma_serial_fields(r: u8, g: u8, b: u8)
    ensures
        to_serial(r, g, b) >> 11 == (r >> 3) as u16,
        (to_serial(r, g, b) >> 5) & 0x3F == (g >> 2) as u16,
        to_serial(r, g, b) & 0x1F == (b >> 3) as u16,
{
    assert(to_serial(r, g, b) >> 11 == (r >> 3) as u16 && (to_serial(r, g, b) >> 5) & 0x3F == (g
        >> 2) as u16 && to_serial(r, g, b) & 0x1F == (b >> 3) as u16) by (bit_vector);
}

/// The packing is lossy: it depends only on the high bits of each channel, so
/// a colour and its 5-6-5 approximation pack to the same value.
pub proof fn lemma_serial_ignores_low_bits(r: u8, g: u8, b: u8)
    ensures
        to_serial(r & 0xF8, g & 0xFC, b & 0xF8) == to_serial(r, g, b),
{
    assert(to_serial(r & 0xF8, g & 0xFC, b & 0xF8) == to_serial(r, g, b)) by (bit_vector);
}

/// Equal colours pack to equal values, bit for bit.
pub proof fn lemma_serial_deterministic(a: Color, b: Color)
    requires
        a@ == b@,
    ensures
        a.serial() == b.serial(),
{
}

} // verus!
