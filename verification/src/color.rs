//! Color types: an 8-bit-per-channel byte color for encoded output, and the
//! linear fixed-point color the renderer accumulates in.

use vstd::prelude::*;
use crate::scalar::{
    q_ok, q_add_spec, q_mul_spec, q_add, q_mul, q_sat, q_div, q_div_spec, ONE,
};

verus! {

/// An 8-bit-per-channel RGB color.
#[derive(Clone, Copy, Debug, PartialEq, Eq, Structural)]
pub struct Col3u8 {
    pub r: u8,
    pub g: u8,
    pub b: u8,
}

impl Col3u8 {
    pub fn new(r: u8, g: u8, b: u8) -> (c: Self)
        ensures
            c.r == r,
            c.g == g,
            c.b == b,
    {
        Self { r, g, b }
    }

    pub fn white() -> (c: Self)
        ensures
            c == (Col3u8 { r: 255u8, g: 255u8, b: 255u8 }),
    {
        Self::new(255, 255, 255)
    }

    pub fn black() -> (c: Self)
        ensures
            c == (Col3u8 { r: 0u8, g: 0u8, b: 0u8 }),
    {
        Self::new(0, 0, 0)
    }

    pub fn red() -> (c: Self)
        ensures
            c == (Col3u8 { r: 255u8, g: 0u8, b: 0u8 }),
    {
        Self::new(255, 0, 0)
    }

    pub fn green() -> (c: Self)
        ensures
            c == (Col3u8 { r: 0u8, g: 255u8, b: 0u8 }),
    {
        Self::new(0, 255, 0)
    }

    pub fn blue() -> (c: Self)
        ensures
            c == (Col3u8 { r: 0u8, g: 0u8, b: 255u8 }),
    {
        Self::new(0, 0, 255)
    }

    /// Channelwise sum.  Each channel sum must fit in a byte.
    pub fn add(&self, rhs: Col3u8) -> (c: Self)
        requires
            self.r + rhs.r <= 255,
            self.g + rhs.g <= 255,
            self.b + rhs.b <= 255,
        ensures
            c.r == self.r + rhs.r,
            c.g == self.g + rhs.g,
            c.b == self.b + rhs.b,
    {
        Self { r: self.r + rhs.r, g: self.g + rhs.g, b: self.b + rhs.b }
    }

    /// A linear-space byte channel, scaled into a fixed-point channel in
    /// `[0, 1]`.
    pub open spec fn q_of_byte(v: u8) -> int {
        q_div_spec((v as int) * (ONE as int), 255 * (ONE as int))
    }

    /// The fixed-point color of a byte color, each channel scaled by 1/255.
    pub fn to_col3q(&self) -> (c: Col3q)
        ensures
            c.r as int == Self::q_of_byte(self.r),
            c.g as int == Self::q_of_byte(self.g),
            c.b as int == Self::q_of_byte(self.b),
    {
        Col3q {
            r: q_div((self.r as i64) * ONE, 255 * ONE),
            g: q_div((self.g as i64) * ONE, 255 * ONE),
            b: q_div((self.b as i64) * ONE, 255 * ONE),
        }
    }
}

/// A byte channel for a fixed-point channel: the unit-range value scaled by
/// 255.999 and truncated, clamped into the byte range.
pub open spec fn byte_of_q(c: int) -> int {
    if c < 0 {
        0
    } else if (c * 255999) / 65536000 > 255 {
        255
    } else {
        (c * 255999) / 65536000
    }
}

/// A linear (or gamma-encoded) RGB color with fixed-point channels.
#[derive(Clone, Copy, Debug, PartialEq, Eq, Structural)]
pub struct Col3q {
    pub r: i64,
    pub g: i64,
    pub b: i64,
}

impl Col3q {
    /// All channels lie in the scalar range.
    pub open spec fn wf(self) -> bool {
        q_ok(self.r as int) && q_ok(self.g as int) && q_ok(self.b as int)
    }

    /// All channels lie in `[0, 1]`.
    pub open spec fn in_unit(self) -> bool {
        0 <= self.r <= ONE && 0 <= self.g <= ONE && 0 <= self.b <= ONE
    }

    pub open spec fn add_spec(self, o: Col3q) -> Col3q {
        Col3q {
            r: q_add_spec(self.r as int, o.r as int) as i64,
            g: q_add_spec(self.g as int, o.g as int) as i64,
            b: q_add_spec(self.b as int, o.b as int) as i64,
        }
    }

    pub open spec fn scaled_spec(self, s: int) -> Col3q {
        Col3q {
            r: q_mul_spec(self.r as int, s) as i64,
            g: q_mul_spec(self.g as int, s) as i64,
            b: q_mul_spec(self.b as int, s) as i64,
        }
    }

    /// Channelwise product: this color filtered by an attenuation color.
    pub open spec fn attenuated_spec(self, o: Col3q) -> Col3q {
        Col3q {
            r: q_mul_spec(self.r as int, o.r as int) as i64,
            g: q_mul_spec(self.g as int, o.g as int) as i64,
            b: q_mul_spec(self.b as int, o.b as int) as i64,
        }
    }

    pub fn new(r: i64, g: i64, b: i64) -> (c: Self)
        ensures
            c.r as int == crate::scalar::sat_spec(r as int),
            c.g as int == crate::scalar::sat_spec(g as int),
            c.b as int == crate::scalar::sat_spec(b as int),
            c.wf(),
    {
        Self { r: q_sat(r as i128), g: q_sat(g as i128), b: q_sat(b as i128) }
    }

    pub fn white() -> (c: Self)
        ensures
            c == (Col3q { r: ONE, g: ONE, b: ONE }),
    {
        Self { r: ONE, g: ONE, b: ONE }
    }

    pub fn black() -> (c: Self)
        ensures
            c == (Col3q { r: 0i64, g: 0i64, b: 0i64 }),
    {
        Self { r: 0, g: 0, b: 0 }
    }

    pub fn red() -> (c: Self)
        ensures
            c == (Col3q { r: ONE, g: 0i64, b: 0i64 }),
    {
        Self { r: ONE, g: 0, b: 0 }
    }

    pub fn green() -> (c: Self)
        ensures
            c == (Col3q { r: 0i64, g: ONE, b: 0i64 }),
    {
        Self { r: 0, g: ONE, b: 0 }
    }

    pub fn blue() -> (c: Self)
        ensures
            c == (Col3q { r: 0i64, g: 0i64, b: ONE }),
    {
        Self { r: 0, g: 0, b: ONE }
    }

    pub fn magenta() -> (c: Self)
        ensures
            c == (Col3q { r: ONE, g: 0i64, b: ONE }),
    {
        Self { r: ONE, g: 0, b: ONE }
    }

    pub fn yellow() -> (c: Self)
        ensures
            c == (Col3q { r: ONE, g: ONE, b: 0i64 }),
    {
        Self { r: ONE, g: ONE, b: 0 }
    }

    pub fn cyan() -> (c: Self)
        ensures
            c == (Col3q { r: 0i64, g: ONE, b: ONE }),
    {
        Self { r: 0, g: ONE, b: ONE }
    }

    /// Channelwise saturating sum.
    pub fn add(&self, rhs: Col3q) -> (c: Self)
        ensures
            c == self.add_spec(rhs),
            c.wf(),
    {
        Self { r: q_add(self.r, rhs.r), g: q_add(self.g, rhs.g), b: q_add(self.b, rhs.b) }
    }

    /// Each channel scaled by a fixed-point factor.
    pub fn scaled(&self, s: i64) -> (c: Self)
        ensures
            c == self.scaled_spec(s as int),
            c.wf(),
    {
        Self { r: q_mul(self.r, s), g: q_mul(self.g, s), b: q_mul(self.b, s) }
    }

    /// This color filtered channelwise by an attenuation color.
    pub fn attenuated(&self, o: Col3q) -> (c: Self)
        ensures
            c == self.attenuated_spec(o),
            c.wf(),
    {
        Self { r: q_mul(self.r, o.r), g: q_mul(self.g, o.g), b: q_mul(self.b, o.b) }
    }

    /// The byte color of a fixed-point color: each channel scaled by
    /// 255.999 and truncated, clamped into the byte range.
    pub fn to_col3u8(&self) -> (c: Col3u8)
        ensures
            c.r as int == byte_of_q(self.r as int),
            c.g as int == byte_of_q(self.g as int),
            c.b as int == byte_of_q(self.b as int),
    {
        Col3u8 {
            r: byte_channel(self.r),
            g: byte_channel(self.g),
            b: byte_channel(self.b),
        }
    }
}

/// One channel of the byte encoding.
fn byte_channel(c: i64) -> (r: u8)
    ensures
        r as int == byte_of_q(c as int),
{
    if c < 0 {
        0
    } else {
        let w: u128 = ((c as u128) * 255999u128) / 65536000u128;
        if w > 255 {
            255
        } else {
            w as u8
        }
    }
}

} // verus!
