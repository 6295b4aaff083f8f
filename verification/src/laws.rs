//! What holds of the operations on an image, whatever the image.

use vstd::prelude::*;
use crate::arith::{lemma_byte_of_pixel, lemma_pixel_index};
use crate::color::{lemma_scale_channel, Color};
use crate::format::TextureFormat;
use crate::geometry::{Rectangle, Vec2};
use crate::image_data::ImageData;
use crate::model::ImageModel;

verus! {

/// Setting a pixel keeps the dimensions, the format and the number of
/// bytes, so the image stays well-formed.
pub proof fn lemma_set_pixel_keeps_layout(image: ImageModel, x: int, y: int, color: Color)
    requires
        image.wf(),
        image.format.has_colors(),
        image.has_pixel(x, y),
    ensures
        image.with_pixel(x, y, color).wf(),
        image.with_pixel(x, y, color).width == image.width,
        image.with_pixel(x, y, color).height == image.height,
        image.with_pixel(x, y, color).format == image.format,
{
}

/// Reading a pixel after setting it gives the colour that was set, with the
/// channels that the format lacks replaced by their defaults: 0 for a
/// colour channel, 255 for alpha.
pub proof fn lemma_get_after_set(image: ImageModel, x: int, y: int, color: Color)
    requires
        image.wf(),
        image.format.has_colors(),
        image.has_pixel(x, y),
    ensures
        image.with_pixel(x, y, color).pixel(x, y) == image.format.normalized(color),
        image.format == TextureFormat::Rgba8 ==> image.with_pixel(x, y, color).pixel(x, y)
            == color,
        image.format == TextureFormat::R8 ==> image.with_pixel(x, y, color).pixel(x, y) == (Color {
            r: color.r,
            g: 0,
            b: 0,
            a: 255,
        }),
        image.format == TextureFormat::Rg8 ==> image.with_pixel(x, y, color).pixel(x, y) == (Color {
            r: color.r,
            g: color.g,
            b: 0,
            a: 255,
        }),
{
    assert(0 <= image.offset(x, y)) by (nonlinear_arith)
        requires
            0 <= x,
            0 <= y,
            image.offset(x, y) == (x + y * image.width) * image.format.spec_stride(),
    ;
}

/// Applying `f` to every pixel at once gives, byte for byte, what reading
/// each pixel, handing it to `f` and writing the result back gives when done
/// for every position in row-major order.
pub proof fn lemma_mapped_is_pixelwise(image: ImageModel, f: spec_fn(Vec2<i32>, Color) -> Color)
    requires
        image.wf(),
        image.format.has_colors(),
    ensures
        image.mapped(f) == image.pixelwise(f, image.pixel_count()),
{
    lemma_pixelwise_prefix(image, f, image.pixel_count());
    let stride = image.format.spec_stride() as int;
    let done = image.pixelwise(f, image.pixel_count());
    assert(done.bytes =~= image.mapped(f).bytes) by {
        assert forall|b: int| 0 <= b < image.bytes.len() implies done.bytes[b] == image.mapped(
            f,
        ).bytes[b] by {
            lemma_byte_of_pixel(b, stride, 0);
        }
    }
}

/// A transform by a function that returns `f(position, color)` and nothing
/// else leaves the image as reading each pixel, handing it to `f` and writing
/// the result back leaves it when done for every position in row-major
/// order.
pub proof fn lemma_transform_is_pixelwise<F>(
    before: ImageModel,
    after: ImageModel,
    func: F,
    f: spec_fn(Vec2<i32>, Color) -> Color,
) where F: FnMut(Vec2<i32>, Color) -> Color
    requires
        before.wf(),
        before.format.has_colors(),
        exists|colors: Seq<Color>| ImageData::is_transformed(before, after, func, colors),
        forall|at: Vec2<i32>, color: Color, out: Color|
            call_ensures(func, (at, color), out) ==> out == f(at, color),
    ensures
        after == before.pixelwise(f, before.pixel_count()),
{
    ImageData::lemma_transform_pure(before, after, func, f);
    lemma_mapped_is_pixelwise(before, f);
}

/// After the first `n` pixels were handled one after the other, the bytes
/// of those pixels are what `f` gave for them, and the rest is untouched.
proof fn lemma_pixelwise_prefix(image: ImageModel, f: spec_fn(Vec2<i32>, Color) -> Color, n: nat)
    requires
        image.wf(),
        image.format.has_colors(),
        n <= image.pixel_count(),
    ensures
        image.pixelwise(f, n).width == image.width,
        image.pixelwise(f, n).height == image.height,
        image.pixelwise(f, n).format == image.format,
        image.pixelwise(f, n).bytes.len() == image.bytes.len(),
        forall|b: int|
            0 <= b < image.bytes.len() ==> #[trigger] image.pixelwise(f, n).bytes[b] == if b < n
                * image.format.spec_stride() {
                image.colors_under(f)[b / image.format.spec_stride() as int].channels()[b
                    % image.format.spec_stride() as int]
            } else {
                image.bytes[b]
            },
    decreases n,
{
    if n > 0 {
        let i = (n - 1) as nat;
        let stride = image.format.spec_stride() as int;
        lemma_pixelwise_prefix(image, f, i);
        lemma_pixel_index(i as int, image.width as int, image.height as int, stride);
        let before = image.pixelwise(f, i);
        let at = image.position(i as int);
        assert(before.offset(at.x as int, at.y as int) == i * stride);
        assert(before.pixel(at.x as int, at.y as int) == image.color_at(i as int));
        let after = image.pixelwise(f, n);
        assert(after.bytes == image.format.encoded(
            before.bytes,
            i * stride,
            image.colors_under(f)[i as int],
        ));
        assert forall|b: int| 0 <= b < image.bytes.len() implies #[trigger] after.bytes[b] == if b
            < n * stride {
            image.colors_under(f)[b / stride].channels()[b % stride]
        } else {
            image.bytes[b]
        } by {
            lemma_byte_of_pixel(b, stride, i as int);
        }
    }
}

/// Scaling by alpha changes no byte of an image whose format has no alpha
/// channel: alpha is read as 255 there, and scaling by 255 is the identity.
pub proof fn lemma_premultiply_without_alpha(image: ImageModel)
    requires
        image.wf(),
        image.format == TextureFormat::R8 || image.format == TextureFormat::Rg8,
    ensures
        image.premultiplied() == image,
{
    let f = |at: Vec2<i32>, color: Color| color.premultiplied();
    let stride = image.format.spec_stride() as int;
    assert(image.mapped(f).bytes =~= image.bytes) by {
        assert forall|b: int| 0 <= b < image.bytes.len() implies image.mapped(f).bytes[b]
            == image.bytes[b] by {
            lemma_byte_of_pixel(b, stride, 0);
            let i = b / stride;
            assert(i < image.pixel_count()) by {
                lemma_byte_of_pixel(b, stride, image.pixel_count() as int);
            }
            let color = image.color_at(i);
            lemma_scale_channel(color.r, 255);
            lemma_scale_channel(color.g, 255);
            assert(image.colors_under(f)[i] == color.premultiplied());
        }
    }
}

/// The pixel at `(x, y)` of a region is the pixel at `(rect.x + x,
/// rect.y + y)` of the image it was taken from.
pub proof fn lemma_region_pixel(image: ImageModel, rect: Rectangle<i32>, x: int, y: int)
    requires
        image.wf(),
        image.format.has_colors(),
        image.contains(rect),
        0 <= x < rect.width,
        0 <= y < rect.height,
    ensures
        image.region(rect).has_pixel(x, y),
        image.has_pixel(rect.x + x, rect.y + y),
        image.region(rect).pixel(x, y) == image.pixel(rect.x + x, rect.y + y),
{
    let stride = image.format.spec_stride() as int;
    lemma_region_byte(image, rect, x, y, 0);
    if stride >= 2 {
        lemma_region_byte(image, rect, x, y, 1);
    }
    if stride >= 4 {
        lemma_region_byte(image, rect, x, y, 2);
        lemma_region_byte(image, rect, x, y, 3);
    }
}

/// Byte `c` of the pixel at `(x, y)` of a region is byte `c` of the pixel at
/// `(rect.x + x, rect.y + y)` of the image it was taken from, and both
/// pixels lie within their images.
proof fn lemma_region_byte(image: ImageModel, rect: Rectangle<i32>, x: int, y: int, c: int)
    requires
        image.wf(),
        image.contains(rect),
        0 <= x < rect.width,
        0 <= y < rect.height,
        0 <= c < image.format.spec_stride(),
    ensures
        image.region(rect).has_pixel(x, y),
        image.has_pixel(rect.x + x, rect.y + y),
        0 <= image.region(rect).offset(x, y),
        0 <= image.offset(rect.x + x, rect.y + y),
        image.region(rect).bytes[image.region(rect).offset(x, y) + c] == image.bytes[image.offset(
            rect.x + x,
            rect.y + y,
        ) + c],
{
    let stride = image.format.spec_stride() as int;
    let region = image.region(rect);
    let row_len = rect.width * stride;
    let start = region.offset(x, y);
    let source = image.offset(rect.x + x, rect.y + y);
    assert(start == y * row_len + x * stride) by (nonlinear_arith)
        requires
            start == (x + y * rect.width) * stride,
            row_len == rect.width * stride,
    ;
    assert(0 <= x * stride && x * stride + stride <= row_len) by (nonlinear_arith)
        requires
            0 <= x,
            x + 1 <= rect.width,
            1 <= stride,
            row_len == rect.width * stride,
    ;
    assert(0 <= y * row_len && y * row_len + row_len <= rect.height * row_len) by (nonlinear_arith)
        requires
            0 <= y,
            y + 1 <= rect.height,
            0 <= row_len,
    ;
    assert(rect.height * row_len == rect.width * rect.height * stride) by (nonlinear_arith)
        requires
            row_len == rect.width * stride,
    ;
    assert(source == (rect.x + (rect.y + y) * image.width) * stride + x * stride)
        by (nonlinear_arith)
        requires
            source == ((rect.x + x) + (rect.y + y) * image.width) * stride,
    ;
    let px = rect.x + x;
    let py = rect.y + y;
    assert(0 <= source && source + stride <= image.width * image.height * stride)
        by (nonlinear_arith)
        requires
            source == (px + py * image.width) * stride,
            0 <= px,
            px + 1 <= image.width,
            0 <= py,
            py + 1 <= image.height,
            1 <= stride,
    ;
    vstd::arithmetic::div_mod::lemma_fundamental_div_mod_converse(
        start + c,
        row_len,
        y,
        x * stride + c,
    );
}

} // verus!
