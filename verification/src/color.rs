//! The logical colour exchanged with callers of the pixel operations.

use vstd::prelude::*;

verus! {

/// A colour with four 8-bit channels: red, green, blue and alpha.
///
/// This is the format-independent value that pixel reads produce and pixel
/// writes consume. It is never stored as such: every texture format keeps
/// only the channels it has room for.
#[derive(Clone, Copy, Debug, PartialEq, Eq, Structural)]
pub struct Color {
    pub r: u8,
    pub g: u8,
    pub b: u8,
    pub a: u8,
}

/// One channel scaled by an alpha value: `channel * alpha / 255`, rounded
/// towards zero.
pub open spec fn scale_channel(channel: u8, alpha: u8) -> u8 {
    ((channel as int * alpha as int) / 255) as u8
}

/// Scaling by an alpha value never leaves the 8-bit range, and scaling by
/// full opacity changes nothing.
pub proof fn lemma_scale_channel(channel: u8, alpha: u8)
    ensures
        0 <= (channel as int * alpha as int) / 255 <= 255,
        scale_channel(channel, alpha) as int == (channel as int * alpha as int) / 255,
        scale_channel(channel, alpha) <= channel,
        scale_channel(channel, 255) == channel,
        scale_channel(channel, 0) == 0,
{
    let c = channel as int;
    let a = alpha as int;
    assert(0 <= c * a <= c * 255) by (nonlinear_arith)
        requires
            0 <= c <= 255,
            0 <= a <= 255,
    ;
}

impl Color {
    /// The colour with the given channels.
    pub fn rgba8(r: u8, g: u8, b: u8, a: u8) -> (c: Color)
        ensures
            c == (Color { r, g, b, a }),
    {
        Color { r, g, b, a }
    }

    /// This colour with red, green and blue scaled by alpha.
    pub open spec fn premultiplied(self) -> Color {
        Color {
            r: scale_channel(self.r, self.a),
            g: scale_channel(self.g, self.a),
            b: scale_channel(self.b, self.a),
            a: self.a,
        }
    }

    /// Scales red, green and blue by alpha and keeps alpha.
    pub fn to_premultiplied(self) -> (c: Color)
        ensures
            c == self.premultiplied(),
    {
        Color {
            r: scale(self.r, self.a),
            g: scale(self.g, self.a),
            b: scale(self.b, self.a),
            a: self.a,
        }
    }

    /// The four channels in the order red, green, blue, alpha.
    pub open spec fn channels(self) -> Seq<u8> {
        seq![self.r, self.g, self.b, self.a]
    }

    /// The four channels in the order red, green, blue, alpha.
    pub fn to_array(self) -> (bytes: [u8; 4])
        ensures
            bytes@ == self.channels(),
    {
        let bytes: [u8; 4] = [self.r, self.g, self.b, self.a];
        assert(bytes@ =~= self.channels());
        bytes
    }
}

/// The sum of two channels, held at 255 where it would go beyond.
pub open spec fn add_channel(a: u8, b: u8) -> u8 {
    if a + b > 255 {
        255u8
    } else {
        (a + b) as u8
    }
}

impl core::ops::Add for Color {
    type Output = Color;

    /// Adds channel by channel; a channel that would pass 255 stays at 255.
    fn add(self, rhs: Color) -> (sum: Color) {
        Color {
            r: self.r.saturating_add(rhs.r),
            g: self.g.saturating_add(rhs.g),
            b: self.b.saturating_add(rhs.b),
            a: self.a.saturating_add(rhs.a),
        }
    }
}

impl vstd::std_specs::ops::AddSpecImpl for Color {
    open spec fn obeys_add_spec() -> bool {
        true
    }

    open spec fn add_req(self, rhs: Color) -> bool {
        true
    }

    open spec fn add_spec(self, rhs: Color) -> Color {
        Color {
            r: add_channel(self.r, rhs.r),
            g: add_channel(self.g, rhs.g),
            b: add_channel(self.b, rhs.b),
            a: add_channel(self.a, rhs.a),
        }
    }
}

fn scale(channel: u8, alpha: u8) -> (scaled: u8)
    ensures
        scaled == scale_channel(channel, alpha),
{
    proof {
        lemma_scale_channel(channel, alpha);
    }
    let product: u16 = channel as u16 * alpha as u16;
    (product / 255) as u8
}

} // verus!
