//! The mathematical model of an image: its dimensions, its format and its
//! bytes, and what each operation computes on them.

use vstd::prelude::*;
use crate::color::Color;
use crate::format::TextureFormat;
use crate::geometry::{Rectangle, Vec2};

verus! {

/// An image as contracts see it. Pixels are laid out row by row without
/// padding.
pub struct ImageModel {
    pub width: nat,
    pub height: nat,
    pub format: TextureFormat,
    pub bytes: Seq<u8>,
}

impl ImageModel {
    /// The number of pixels.
    pub open spec fn pixel_count(self) -> nat {
        self.width * self.height
    }

    /// The bytes are exactly those of `width * height` pixels, and both
    /// dimensions can be reported as an `i32`.
    pub open spec fn wf(self) -> bool {
        &&& self.bytes.len() == self.width * self.height * self.format.spec_stride()
        &&& self.width <= i32::MAX
        &&& self.height <= i32::MAX
    }

    /// Where the pixel at `(x, y)` starts among the bytes.
    pub open spec fn offset(self, x: int, y: int) -> int {
        (x + y * self.width) * self.format.spec_stride()
    }

    /// Whether the pixel at `(x, y)` lies within the bytes.
    pub open spec fn has_pixel(self, x: int, y: int) -> bool {
        &&& 0 <= x
        &&& 0 <= y
        &&& self.offset(x, y) + self.format.spec_stride() <= self.bytes.len()
    }

    /// The colour of the pixel at `(x, y)`.
    pub open spec fn pixel(self, x: int, y: int) -> Color {
        self.format.decoded(self.bytes, self.offset(x, y))
    }

    /// This image with the pixel at `(x, y)` set to `color`.
    pub open spec fn with_pixel(self, x: int, y: int, color: Color) -> ImageModel {
        ImageModel { bytes: self.format.encoded(self.bytes, self.offset(x, y), color), ..self }
    }

    /// Whether `rect` lies within the image.
    pub open spec fn contains(self, rect: Rectangle<i32>) -> bool {
        &&& 0 <= rect.x
        &&& 0 <= rect.y
        &&& 0 <= rect.width
        &&& 0 <= rect.height
        &&& rect.x + rect.width <= self.width
        &&& rect.y + rect.height <= self.height
    }

    /// Where, among the bytes of this image, byte `k` of the region `rect`
    /// comes from: byte `k` lies in row `k / (rect.width * stride)` of the
    /// region, and rows of the region are runs of rows of the image.
    pub open spec fn region_source(self, rect: Rectangle<i32>, k: int) -> int {
        let row_len = rect.width * self.format.spec_stride();
        let row = k / row_len;
        (rect.x + (rect.y + row) * self.width) * self.format.spec_stride() + k % row_len
    }

    /// The part of this image that `rect` covers, as an image of its own.
    pub open spec fn region(self, rect: Rectangle<i32>) -> ImageModel {
        ImageModel {
            width: rect.width as nat,
            height: rect.height as nat,
            format: self.format,
            bytes: Seq::new(
                (rect.width * rect.height * self.format.spec_stride()) as nat,
                |k: int| self.bytes[self.region_source(rect, k)],
            ),
        }
    }

    /// The position of the `i`-th pixel in row-major order.
    pub open spec fn position(self, i: int) -> Vec2<i32> {
        Vec2 { x: (i % self.width as int) as i32, y: (i / self.width as int) as i32 }
    }

    /// The colour of the `i`-th pixel in row-major order.
    pub open spec fn color_at(self, i: int) -> Color {
        self.format.decoded(self.bytes, i * self.format.spec_stride())
    }

    /// This image with the `i`-th pixel set to `colors[i]`, for every pixel.
    pub open spec fn repainted(self, colors: Seq<Color>) -> ImageModel {
        ImageModel {
            bytes: Seq::new(
                self.bytes.len(),
                |k: int|
                    colors[k / self.format.spec_stride() as int].channels()[k
                        % self.format.spec_stride() as int],
            ),
            ..self
        }
    }

    /// The colours that `f` gives for each pixel, in row-major order.
    pub open spec fn colors_under(self, f: spec_fn(Vec2<i32>, Color) -> Color) -> Seq<Color> {
        Seq::new(self.pixel_count(), |i: int| f(self.position(i), self.color_at(i)))
    }

    /// This image with every pixel replaced by what `f` gives for its
    /// position and colour.
    pub open spec fn mapped(self, f: spec_fn(Vec2<i32>, Color) -> Color) -> ImageModel {
        self.repainted(self.colors_under(f))
    }

    /// This image with red, green and blue of every pixel scaled by the
    /// pixel's alpha.
    pub open spec fn premultiplied(self) -> ImageModel {
        self.mapped(|at: Vec2<i32>, color: Color| color.premultiplied())
    }

    /// This image after the first `n` pixels, in row-major order, were each
    /// read, handed to `f` and written back, one after the other.
    pub open spec fn pixelwise(self, f: spec_fn(Vec2<i32>, Color) -> Color, n: nat) -> ImageModel
        decreases n,
    {
        if n == 0 {
            self
        } else {
            let before = self.pixelwise(f, (n - 1) as nat);
            let at = self.position(n - 1);
            before.with_pixel(
                at.x as int,
                at.y as int,
                f(at, before.pixel(at.x as int, at.y as int)),
            )
        }
    }
}

} // verus!
