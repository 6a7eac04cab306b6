//! RGB565 colours and their packed 16-bit form.

use vstd::prelude::*;

verus! {

/// A colour with five bits of red, six of green and five of blue.
#[derive(Clone, Copy, Debug, PartialEq, Eq, Structural)]
pub struct Rgb565 {
    pub r: u8,
    pub g: u8,
    pub b: u8,
}

impl Rgb565 {
    /// Every channel lies within its bit width.
    pub open spec fn in_range(self) -> bool {
        self.r <= 31 && self.g <= 63 && self.b <= 31
    }

    /// The packed form: red in bits 15..11, green in bits 10..5, blue in
    /// bits 4..0. Channels wider than their field keep their low bits only.
    pub open spec fn packed(self) -> u16 {
        ((self.r % 32) * 2048 + (self.g % 64) * 32 + (self.b % 32)) as u16
    }

    /// The colour whose packed form is `value`.
    pub open spec fn spec_unpack(value: u16) -> Rgb565 {
        Rgb565 { r: (value / 2048) as u8, g: ((value / 32) % 64) as u8, b: (value % 32) as u8 }
    }

    /// Builds a colour, keeping the low 5, 6 and 5 bits of the channels.
    pub fn new(r: u8, g: u8, b: u8) -> (c: Rgb565)
        ensures
            c.r == r % 32,
            c.g == g % 64,
            c.b == b % 32,
            c.in_range(),
    {
        assert(r & 0x1F == r % 32) by (bit_vector);
        assert(g & 0x3F == g % 64) by (bit_vector);
        assert(b & 0x1F == b % 32) by (bit_vector);
        Rgb565 { r: r & 0x1F, g: g & 0x3F, b: b & 0x1F }
    }

    /// Packs the colour into the 16-bit value the panel expects.
    pub fn pack(&self) -> (value: u16)
        ensures
            value == self.packed(),
            self.in_range() ==> value == self.r * 2048 + self.g * 32 + self.b,
    {
        let r: u16 = self.r as u16;
        let g: u16 = self.g as u16;
        let b: u16 = self.b as u16;
        assert((b & 0x1F) | ((g & 0x3F) << 5) | ((r & 0x1F) << 11) == (r % 32) * 2048 + (g % 64)
            * 32 + (b % 32)) by (bit_vector)
            requires
                r < 256,
                g < 256,
                b < 256,
        ;
        (b & 0x1F) | ((g & 0x3F) << 5) | ((r & 0x1F) << 11)
    }

    /// Splits a packed value into its channels.
    pub fn unpack(value: u16) -> (c: Rgb565)
        ensures
            c == Rgb565::spec_unpack(value),
            c.in_range(),
            c.packed() == value,
    {
        assert((value >> 11) & 0x1F == value / 2048) by (bit_vector);
        assert((value >> 5) & 0x3F == (value / 32) % 64) by (bit_vector);
        assert(value & 0x1F == value % 32) by (bit_vector);
        let c = Rgb565 {
            r: ((value >> 11) & 0x1F) as u8,
            g: ((value >> 5) & 0x3F) as u8,
            b: (value & 0x1F) as u8,
        };
        c
    }
}

/// Packing loses nothing: a colour whose channels lie within their bit
/// widths is recovered by unpacking its packed form.
pub proof fn lemma_pack_unpack_roundtrip(c: Rgb565)
    requires
        c.in_range(),
    ensures
        Rgb565::spec_unpack(c.packed()) == c,
{
}

/// Unpacking loses nothing either: every 16-bit value is the packed form of
/// the colour that it unpacks to.
pub proof fn lemma_unpack_pack_roundtrip(value: u16)
    ensures
        Rgb565::spec_unpack(value).in_range(),
        Rgb565::spec_unpack(value).packed() == value,
{
}

} // verus!
