//! The pixel formats and how each maps raw bytes to a logical colour.

use vstd::prelude::*;
use crate::color::Color;

verus! {

/// The in-memory layout of one pixel.
#[derive(Clone, Copy, Debug, PartialEq, Eq, Structural)]
pub enum TextureFormat {
    /// Red, green, blue and alpha, one byte each.
    Rgba8,
    /// Red only, one byte.
    R8,
    /// Red and green, one byte each.
    Rg8,
    /// Red, green, blue and alpha as 16-bit floats. The format has a stride,
    /// but its pixels cannot be read or written as colours.
    Rgba16F,
}

impl TextureFormat {
    /// Bytes per pixel.
    pub open spec fn spec_stride(self) -> usize {
        match self {
            TextureFormat::Rgba8 => 4,
            TextureFormat::R8 => 1,
            TextureFormat::Rg8 => 2,
            TextureFormat::Rgba16F => 8,
        }
    }

    /// Bytes per pixel.
    #[verifier::when_used_as_spec(spec_stride)]
    pub fn stride(self) -> (s: usize)
        ensures
            s == self.spec_stride(),
            1 <= s <= 8,
    {
        match self {
            TextureFormat::Rgba8 => 4,
            TextureFormat::R8 => 1,
            TextureFormat::Rg8 => 2,
            TextureFormat::Rgba16F => 8,
        }
    }

    /// Whether pixels of this format can be read and written as colours.
    pub open spec fn has_colors(self) -> bool {
        self != TextureFormat::Rgba16F
    }

    /// The colour that the pixel starting at `offset` stands for. A colour
    /// channel that the format lacks is 0, a lacking alpha channel is 255.
    /// Nothing is said of a format without colours.
    pub open spec fn decoded(self, bytes: Seq<u8>, offset: int) -> Color {
        match self {
            TextureFormat::Rgba8 => Color {
                r: bytes[offset],
                g: bytes[offset + 1],
                b: bytes[offset + 2],
                a: bytes[offset + 3],
            },
            TextureFormat::R8 => Color { r: bytes[offset], g: 0, b: 0, a: 255 },
            TextureFormat::Rg8 => Color { r: bytes[offset], g: bytes[offset + 1], b: 0, a: 255 },
            TextureFormat::Rgba16F => arbitrary(),
        }
    }

    /// `bytes` with the pixel starting at `offset` overwritten by `color`:
    /// the pixel's bytes take the leading channels of the colour, every other
    /// byte stays. Channels that the format lacks are dropped.
    /// Nothing is said of a format without colours.
    pub open spec fn encoded(self, bytes: Seq<u8>, offset: int, color: Color) -> Seq<u8> {
        if self.has_colors() {
            Seq::new(
                bytes.len(),
                |k: int|
                    if offset <= k < offset + self.spec_stride() {
                        color.channels()[k - offset]
                    } else {
                        bytes[k]
                    },
            )
        } else {
            arbitrary()
        }
    }

    /// What is left of `color` after a pixel of this format has stored it:
    /// the channels the format has, and the defaults for the others.
    pub open spec fn normalized(self, color: Color) -> Color {
        match self {
            TextureFormat::Rgba8 => color,
            TextureFormat::R8 => Color { r: color.r, g: 0, b: 0, a: 255 },
            TextureFormat::Rg8 => Color { r: color.r, g: color.g, b: 0, a: 255 },
            TextureFormat::Rgba16F => arbitrary(),
        }
    }

    /// Reads the pixel that starts at `offset`.
    pub fn decode(self, bytes: &[u8], offset: usize) -> (color: Color)
        requires
            self.has_colors(),
            offset + self.spec_stride() <= bytes@.len(),
        ensures
            color == self.decoded(bytes@, offset as int),
            self == TextureFormat::R8 ==> color.g == 0 && color.b == 0 && color.a == 255,
            self == TextureFormat::Rg8 ==> color.b == 0 && color.a == 255,
    {
        match self {
            TextureFormat::Rgba8 => Color::rgba8(
                bytes[offset],
                bytes[offset + 1],
                bytes[offset + 2],
                bytes[offset + 3],
            ),
            TextureFormat::R8 => Color::rgba8(bytes[offset], 0, 0, 255),
            TextureFormat::Rg8 => Color::rgba8(bytes[offset], bytes[offset + 1], 0, 255),
            TextureFormat::Rgba16F => vstd::pervasive::unreached(),
        }
    }

    /// Writes `color` to the pixel that starts at `offset`, storing only the
    /// channels that the format has.
    pub fn encode(self, bytes: &mut Vec<u8>, offset: usize, color: Color)
        requires
            self.has_colors(),
            offset + self.spec_stride() <= old(bytes)@.len(),
        ensures
            final(bytes)@ == self.encoded(old(bytes)@, offset as int, color),
            final(bytes)@.len() == old(bytes)@.len(),
    {
        assert(offset + self.spec_stride() <= bytes.len() <= usize::MAX);
        match self {
            TextureFormat::Rgba8 => {
                bytes.set(offset, color.r);
                bytes.set(offset + 1, color.g);
                bytes.set(offset + 2, color.b);
                bytes.set(offset + 3, color.a);
            },
            TextureFormat::R8 => {
                bytes.set(offset, color.r);
            },
            TextureFormat::Rg8 => {
                bytes.set(offset, color.r);
                bytes.set(offset + 1, color.g);
            },
            TextureFormat::Rgba16F => vstd::pervasive::unreached(),
        }
        assert(bytes@ =~= self.encoded(old(bytes)@, offset as int, color));
    }
}

/// Reading a pixel back after writing a colour to it gives the colour as the
/// format keeps it, and writing never changes the number of bytes.
pub proof fn lemma_decode_encoded(format: TextureFormat, bytes: Seq<u8>, offset: int, color: Color)
    requires
        format.has_colors(),
        0 <= offset,
        offset + format.spec_stride() <= bytes.len(),
    ensures
        format.encoded(bytes, offset, color).len() == bytes.len(),
        format.decoded(format.encoded(bytes, offset, color), offset) == format.normalized(color),
{
}

/// A pixel is untouched by a write to a pixel that does not overlap it.
pub proof fn lemma_decode_encoded_elsewhere(
    format: TextureFormat,
    bytes: Seq<u8>,
    offset: int,
    color: Color,
    other: int,
)
    requires
        format.has_colors(),
        0 <= offset,
        offset + format.spec_stride() <= bytes.len(),
        0 <= other,
        other + format.spec_stride() <= bytes.len(),
        other + format.spec_stride() <= offset || offset + format.spec_stride() <= other,
    ensures
        format.decoded(format.encoded(bytes, offset, color), other) == format.decoded(
            bytes,
            other,
        ),
{
}

/// A colour read from a format without green, blue or alpha has the default
/// there, whatever the bytes are.
pub proof fn lemma_missing_channels(format: TextureFormat, bytes: Seq<u8>, offset: int)
    ensures
        format == TextureFormat::R8 ==> {
            &&& format.decoded(bytes, offset).g == 0
            &&& format.decoded(bytes, offset).b == 0
            &&& format.decoded(bytes, offset).a == 255
        },
        format == TextureFormat::Rg8 ==> {
            &&& format.decoded(bytes, offset).b == 0
            &&& format.decoded(bytes, offset).a == 255
        },
{
}

} // verus!
