//! Raw image data: a flat buffer of pixels in one of several formats.

use vstd::prelude::*;
use crate::arith::{
    lemma_byte_of_pixel, lemma_offset_bounds, lemma_pixel_index, lemma_product_bounds,
    lemma_region_row, lemma_region_size,
};
use crate::color::Color;
use crate::error::ImageDataError;
use crate::format::TextureFormat;
use crate::geometry::{Rectangle, Vec2};
use crate::laws::lemma_premultiply_without_alpha;
use crate::model::ImageModel;

verus! {

/// Raw image data.
///
/// The data is `width * height` pixels in row-major order without padding,
/// each pixel `format.stride()` bytes long.
#[derive(Debug)]
pub struct ImageData {
    data: Vec<u8>,
    width: usize,
    height: usize,
    format: TextureFormat,
}

impl View for ImageData {
    type V = ImageModel;

    closed spec fn view(&self) -> ImageModel {
        ImageModel {
            width: self.width as nat,
            height: self.height as nat,
            format: self.format,
            bytes: self.data@,
        }
    }
}

impl Clone for ImageData {
    /// An independent copy of the image.
    fn clone(&self) -> (copy: ImageData)
        ensures
            copy@ == self@,
    {
        ImageData {
            data: self.data.clone(),
            width: self.width,
            height: self.height,
            format: self.format,
        }
    }
}

impl ImageData {
    /// The number of bytes that an image of the given dimensions and format
    /// occupies.
    pub open spec fn expected_len(width: int, height: int, format: TextureFormat) -> int {
        width * height * format.spec_stride()
    }

    /// Creates image data from raw pixel data.
    ///
    /// Too little data for the dimensions is an error; data beyond what the
    /// dimensions need is cut off.
    pub fn from_data(width: i32, height: i32, format: TextureFormat, data: Vec<u8>) -> (result:
        Result<ImageData, ImageDataError>)
        requires
            0 <= width,
            0 <= height,
            Self::expected_len(width as int, height as int, format) <= usize::MAX,
        ensures
            match result {
                Ok(image) => {
                    &&& Self::expected_len(width as int, height as int, format) <= data@.len()
                    &&& image@.wf()
                    &&& image@ == (ImageModel {
                        width: width as nat,
                        height: height as nat,
                        format,
                        bytes: data@.take(Self::expected_len(width as int, height as int, format)),
                    })
                },
                Err(error) => {
                    &&& data@.len() < Self::expected_len(width as int, height as int, format)
                    &&& error == (ImageDataError::NotEnoughData {
                        expected: Self::expected_len(width as int, height as int, format) as usize,
                        actual: data@.len() as usize,
                    })
                },
            },
    {
        let mut data = data;
        let width = width as usize;
        let height = height as usize;
        let stride = format.stride();
        proof {
            lemma_product_bounds(width as int, height as int, stride as int);
        }
        let expected = width * height * stride;
        let actual = data.len();

        if actual < expected {
            return Err(ImageDataError::NotEnoughData { expected, actual });
        }

        data.truncate(expected);

        Ok(ImageData { data, width, height, format })
    }

    /// The width of the image.
    pub fn width(&self) -> (w: i32)
        requires
            self@.wf(),
        ensures
            w == self@.width,
    {
        self.width as i32
    }

    /// The height of the image.
    pub fn height(&self) -> (h: i32)
        requires
            self@.wf(),
        ensures
            h == self@.height,
    {
        self.height as i32
    }

    /// The width and the height of the image.
    pub fn size(&self) -> (s: (i32, i32))
        requires
            self@.wf(),
        ensures
            s.0 == self@.width,
            s.1 == self@.height,
    {
        (self.width as i32, self.height as i32)
    }

    /// The format of the pixels.
    pub fn format(&self) -> (f: TextureFormat)
        ensures
            f == self@.format,
    {
        self.format
    }

    /// The image's data, as a slice of raw bytes.
    pub fn as_bytes(&self) -> (bytes: &[u8])
        ensures
            bytes@ == self@.bytes,
    {
        self.data.as_slice()
    }

    /// The image's data, as a mutable slice of raw bytes.
    ///
    /// What is written through the slice is written to the image. The
    /// dimensions and the format stay as they are, and a slice cannot change
    /// its length.
    pub fn as_mut_bytes(&mut self) -> (bytes: &mut [u8])
        ensures
            bytes@ == old(self)@.bytes,
            final(self)@ == (ImageModel { bytes: final(bytes)@, ..old(self)@ }),
    {
        self.data.as_mut_slice()
    }

    /// The image's underlying buffer.
    pub fn into_bytes(self) -> (bytes: Vec<u8>)
        ensures
            bytes@ == self@.bytes,
    {
        self.data
    }

    /// Creates new image data from a region of this image.
    ///
    /// The region's rows are copied into a buffer of their own, so the
    /// result shares nothing with this image.
    pub fn region(&self, region: Rectangle<i32>) -> (image: ImageData)
        requires
            self@.wf(),
            self@.contains(region),
        ensures
            image@ == self@.region(region),
            image@.wf(),
    {
        let stride = self.format.stride();
        let region_x = region.x as usize;
        let region_y = region.y as usize;
        let region_width = region.width as usize;
        let region_height = region.height as usize;
        let total = self.data.len();
        proof {
            assert(total == self.width * self.height * stride);
            lemma_region_size(
                region_width as int,
                region_height as int,
                self.width as int,
                self.height as int,
                stride as int,
            );
        }
        let ghost row_len = region_width * stride;
        let buffer_size = region_width * region_height * stride;

        let mut buffer: Vec<u8> = Vec::with_capacity(buffer_size);

        let mut row: usize = 0;
        while row < region_height
            invariant
                self@.wf(),
                self@.contains(region),
                stride == self.format.spec_stride(),
                region_x == region.x,
                region_y == region.y,
                region_width == region.width,
                region_height == region.height,
                row_len == region_width * stride,
                row <= region_height,
                total == self.data@.len(),
                total == self.width * self.height * stride,
                buffer@.len() == row * row_len,
                forall|k: int|
                    0 <= k < buffer@.len() ==> buffer@[k] == self.data@[self@.region_source(
                        region,
                        k,
                    )],
            decreases region_height - row,
        {
            proof {
                lemma_region_row(
                    region_x as int,
                    region_y as int,
                    region_width as int,
                    region_height as int,
                    self.width as int,
                    self.height as int,
                    stride as int,
                    row as int,
                );
            }
            let scan_y = region_y + row;
            let x_start = (region_x + scan_y * self.width) * stride;
            let x_end = x_start + region_width * stride;
            let ghost before = buffer@;

            buffer.extend_from_slice(&self.data[x_start..x_end]);

            assert forall|k: int| 0 <= k < buffer@.len() implies buffer@[k] == self.data@[self@.region_source(
                region,
                k,
            )] by {
                if k >= before.len() {
                    let within = k - before.len();
                    assert(k == row * row_len + within);
                    vstd::arithmetic::div_mod::lemma_fundamental_div_mod_converse(
                        k,
                        row_len,
                        row as int,
                        within,
                    );
                    assert(self@.region_source(region, k) == x_start + within);
                }
            }
            assert(buffer@.len() == (row + 1) * row_len) by (nonlinear_arith)
                requires
                    buffer@.len() == row * row_len + row_len,
            ;
            row = row + 1;
        }

        proof {
            assert(row * row_len == region_width * region_height * stride) by (nonlinear_arith)
                requires
                    row == region_height,
                    row_len == region_width * stride,
            ;
            assert(buffer@ =~= self@.region(region).bytes);
        }

        ImageData { data: buffer, width: region_width, height: region_height, format: self.format }
    }

    /// Gets the color of the pixel at the specified location.
    ///
    /// A colour channel that the format lacks is read as 0, a lacking alpha
    /// channel as 255.
    pub fn get_pixel_color(&self, position: Vec2<i32>) -> (color: Color)
        requires
            self@.wf(),
            self@.format.has_colors(),
            self@.has_pixel(position.x as int, position.y as int),
        ensures
            color == self@.pixel(position.x as int, position.y as int),
            self@.format == TextureFormat::R8 ==> color.g == 0 && color.b == 0 && color.a == 255,
            self@.format == TextureFormat::Rg8 ==> color.b == 0 && color.a == 255,
    {
        let idx = self.pixel_offset(position);
        self.format.decode(self.data.as_slice(), idx)
    }

    /// Sets the color of the pixel at the specified location.
    ///
    /// Channels of the colour that the format lacks are dropped. No other
    /// pixel changes, and neither do the dimensions or the format.
    pub fn set_pixel_color(&mut self, position: Vec2<i32>, color: Color)
        requires
            old(self)@.wf(),
            old(self)@.format.has_colors(),
            old(self)@.has_pixel(position.x as int, position.y as int),
        ensures
            final(self)@ == old(self)@.with_pixel(position.x as int, position.y as int, color),
            final(self)@.wf(),
    {
        let idx = self.pixel_offset(position);
        self.format.encode(&mut self.data, idx, color);
    }

    /// Whether `after` is `before` with each pixel replaced by a colour that
    /// `func` may return for that pixel's position and colour; `colors` lists
    /// the colours that were returned, in row-major order.
    pub open spec fn is_transformed<F>(
        before: ImageModel,
        after: ImageModel,
        func: F,
        colors: Seq<Color>,
    ) -> bool where F: FnMut(Vec2<i32>, Color) -> Color {
        &&& colors.len() == before.pixel_count()
        &&& forall|i: int|
            0 <= i < colors.len() ==> call_ensures(
                func,
                (before.position(i), before.color_at(i)),
                #[trigger] colors[i],
            )
        &&& after == before.repainted(colors)
    }

    /// Transforms the image data by applying a function to each pixel.
    ///
    /// The function is called once per pixel, in row-major order, with the
    /// pixel's position and colour, and what it returns is written back to
    /// that pixel. Channels that the format lacks are read as their defaults
    /// and dropped when written.
    pub fn transform<F>(&mut self, mut func: F) where F: FnMut(Vec2<i32>, Color) -> Color
        requires
            old(self)@.wf(),
            old(self)@.format.has_colors(),
            forall|i: int|
                0 <= i < old(self)@.pixel_count() ==> call_requires(
                    func,
                    (#[trigger] old(self)@.position(i), old(self)@.color_at(i)),
                ),
        ensures
            final(self)@.wf(),
            exists|colors: Seq<Color>| Self::is_transformed(old(self)@, final(self)@, func, colors),
    {
        broadcast use vstd::function::group_function_axioms;

        let stride = self.format.stride();
        let total = self.data.len();
        proof {
            lemma_product_bounds(self.width as int, self.height as int, stride as int);
            assert(total == self.width * self.height * stride);
        }
        let count = self.width * self.height;
        let ghost before = self@;
        let ghost initial = func;
        let ghost mut colors: Seq<Color> = Seq::empty();

        let mut i: usize = 0;
        while i < count
            invariant
                before == old(self)@,
                before.wf(),
                before.format.has_colors(),
                func == initial,
                self.width == before.width,
                self.height == before.height,
                self.format == before.format,
                stride == before.format.spec_stride(),
                count == self.width * self.height,
                total == count * stride,
                self.data@.len() == total,
                i <= count,
                colors.len() == i,
                forall|k: int|
                    0 <= k < before.pixel_count() ==> call_requires(
                        func,
                        (#[trigger] before.position(k), before.color_at(k)),
                    ),
                forall|k: int|
                    0 <= k < i ==> call_ensures(
                        initial,
                        (before.position(k), before.color_at(k)),
                        #[trigger] colors[k],
                    ),
                forall|b: int|
                    0 <= b < total ==> #[trigger] self.data@[b] == if b < i * stride {
                        colors[b / stride as int].channels()[b % stride as int]
                    } else {
                        before.bytes[b]
                    },
            decreases count - i,
        {
            proof {
                lemma_pixel_index(i as int, self.width as int, self.height as int, stride as int);
            }
            let x = i % self.width;
            let y = i / self.width;
            let idx = i * stride;

            let color = self.format.decode(self.data.as_slice(), idx);
            assert(color == before.color_at(i as int));
            let position = Vec2::new(x as i32, y as i32);
            assert(position == before.position(i as int));

            let output = func(position, color);

            self.format.encode(&mut self.data, idx, output);

            proof {
                colors = colors.push(output);
                assert forall|b: int| 0 <= b < total implies #[trigger] self.data@[b] == if b < (i
                    + 1) * stride {
                    colors[b / stride as int].channels()[b % stride as int]
                } else {
                    before.bytes[b]
                } by {
                    lemma_byte_of_pixel(b, stride as int, i as int);
                }
            }
            i = i + 1;
        }

        proof {
            assert(self.data@ =~= before.repainted(colors).bytes);
            assert(Self::is_transformed(before, self@, func, colors));
        }
    }

    /// Multiplies the RGB components of each pixel by the alpha component.
    ///
    /// Each of red, green and blue becomes `channel * alpha / 255`, rounded
    /// towards zero. A format without an alpha channel reads alpha as 255,
    /// so its bytes do not change.
    pub fn premultiply(&mut self)
        requires
            old(self)@.wf(),
            old(self)@.format.has_colors(),
        ensures
            final(self)@.wf(),
            final(self)@ == old(self)@.premultiplied(),
            old(self)@.format != TextureFormat::Rgba8 ==> final(self)@ == old(self)@,
    {
        let scale = |at: Vec2<i32>, color: Color| -> (out: Color)
            ensures
                out == color.premultiplied(),
            { color.to_premultiplied() };
        self.transform(scale);
        proof {
            Self::lemma_transform_pure(
                old(self)@,
                self@,
                scale,
                |at: Vec2<i32>, color: Color| color.premultiplied(),
            );
            if self.format != TextureFormat::Rgba8 {
                lemma_premultiply_without_alpha(old(self)@);
            }
        }
    }

    /// A transform by a function that returns `f(position, color)` and
    /// nothing else gives the image mapped by `f`.
    pub proof fn lemma_transform_pure<F>(
        before: ImageModel,
        after: ImageModel,
        func: F,
        f: spec_fn(Vec2<i32>, Color) -> Color,
    ) where F: FnMut(Vec2<i32>, Color) -> Color
        requires
            exists|colors: Seq<Color>| Self::is_transformed(before, after, func, colors),
            forall|at: Vec2<i32>, color: Color, out: Color|
                call_ensures(func, (at, color), out) ==> out == f(at, color),
        ensures
            after == before.mapped(f),
    {
        let colors = choose|colors: Seq<Color>| Self::is_transformed(before, after, func, colors);
        assert(colors =~= before.colors_under(f)) by {
            assert forall|i: int| 0 <= i < colors.len() implies colors[i] == before.colors_under(
                f,
            )[i] by {
                assert(call_ensures(func, (before.position(i), before.color_at(i)), colors[i]));
            }
        }
    }

    /// Where the pixel at `position` starts among the bytes.
    fn pixel_offset(&self, position: Vec2<i32>) -> (idx: usize)
        requires
            self@.has_pixel(position.x as int, position.y as int),
        ensures
            idx == self@.offset(position.x as int, position.y as int),
            idx + self@.format.spec_stride() <= self@.bytes.len(),
    {
        let stride = self.format.stride();
        let x = position.x as usize;
        let y = position.y as usize;
        proof {
            assert(self.data@.len() == self.data.len() <= usize::MAX);
            lemma_offset_bounds(x as int, y as int, self.width as int, stride as int);
        }
        let pixel_idx = x + y * self.width;
        pixel_idx * stride
    }
}

} // verus!
