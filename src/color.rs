use vstd::prelude::*;

verus! {

/// Fixed-point denominator of every fraction in the engine: brightness, fade
/// and speed are counted in thousandths.
pub const UNIT: u32 = 1000;

/// A single RGB color with 8-bit channels.
#[derive(Clone, Copy, Debug, PartialEq, Eq, Structural)]
pub struct Color {
    pub r: u8,
    pub g: u8,
    pub b: u8,
}

/// One channel scaled by `s` thousandths, truncated toward zero.
pub open spec fn scale_channel(c: u8, s: int) -> int {
    (c as int * s) / (UNIT as int)
}

/// Brightness hook of a channel; it is currently the identity.
pub open spec fn log_scale_spec(c: u8) -> u8 {
    c
}

impl Color {
    /// The color with every channel scaled by `s` thousandths.
    pub open spec fn scaled_spec(self, s: int) -> Color {
        Color {
            r: scale_channel(self.r, s) as u8,
            g: scale_channel(self.g, s) as u8,
            b: scale_channel(self.b, s) as u8,
        }
    }

    /// The color written by a 24-bit hex code `0xRRGGBB`.
    pub open spec fn from_hex_spec(hex_code: i32) -> Color {
        Color {
            r: log_scale_spec((hex_code >> 16i32) as u8),
            g: log_scale_spec((hex_code >> 8i32) as u8),
            b: log_scale_spec(hex_code as u8),
        }
    }

    /// Builds a color from a 24-bit RGB hex code: red in bits 16..24, green in
    /// bits 8..16, blue in bits 0..8; higher bits are ignored.
    pub fn new(hex_code: i32) -> (c: Color)
        ensures
            c == Color::from_hex_spec(hex_code),
            0 <= hex_code < 0x1000000 ==> c.r == hex_code / 0x10000 && c.g == (hex_code / 0x100)
                % 0x100 && c.b == hex_code % 0x100,
    {
        let r = (hex_code >> 16i32) as u8;
        let g = (hex_code >> 8i32) as u8;
        let b = hex_code as u8;
        proof {
            if 0 <= hex_code < 0x1000000 {
                assert((0 <= hex_code < 0x1000000) ==> ((hex_code >> 16i32) as u8) == hex_code / 0x10000)
                    by (bit_vector);
                assert((0 <= hex_code < 0x1000000) ==> ((hex_code >> 8i32) as u8) == (hex_code / 0x100) % 0x100)
                    by (bit_vector);
                assert((0 <= hex_code < 0x1000000) ==> (hex_code as u8) == hex_code % 0x100)
                    by (bit_vector);
            }
        }
        Color { r: log_scale(r), g: log_scale(g), b: log_scale(b) }
    }

    /// The color with every channel multiplied by `s` thousandths, truncated.
    pub fn scaled(self, s: u32) -> (c: Color)
        requires
            s <= UNIT,
        ensures
            c == self.scaled_spec(s as int),
            c.r <= self.r && c.g <= self.g && c.b <= self.b,
    {
        Color { r: scale_u8(self.r, s), g: scale_u8(self.g, s), b: scale_u8(self.b, s) }
    }

    /// Multiplies every channel by `s` thousandths in place.
    pub fn scale_in_place(&mut self, s: u32)
        requires
            s <= UNIT,
        ensures
            *final(self) == old(self).scaled_spec(s as int),
    {
        *self = self.scaled(s);
    }
}

fn scale_u8(c: u8, s: u32) -> (r: u8)
    requires
        s <= UNIT,
    ensures
        r as int == scale_channel(c, s as int),
        r <= c,
{
    proof {
        assert(c as int * s as int <= c as int * 1000) by (nonlinear_arith)
            requires s <= 1000;
        assert((c as int * s as int) / 1000 <= c as int) by (nonlinear_arith)
            requires c as int * s as int <= c as int * 1000, c >= 0;
    }
    let p: u32 = c as u32 * s;
    (p / UNIT) as u8
}

/// Brightness-correction hook applied to the channels of a hex code; it is
/// deliberately the identity.
pub fn log_scale(lin_scale: u8) -> (r: u8)
    ensures
        r == log_scale_spec(lin_scale),
{
    lin_scale
}

} // verus!
