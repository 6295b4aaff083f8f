//! Arithmetic of pixel indices, byte offsets and buffer sizes.

use vstd::prelude::*;

verus! {

/// A region that lies within an image takes no more bytes than the image.
pub(crate) proof fn lemma_region_size(
    region_width: int,
    region_height: int,
    width: int,
    height: int,
    stride: int,
)
    requires
        0 <= region_width <= width,
        0 <= region_height <= height,
        1 <= stride,
    ensures
        0 <= region_width * region_height <= region_width * region_height * stride <= width
            * height * stride,
{
    assert(0 <= region_width * region_height <= width * height) by (nonlinear_arith)
        requires
            0 <= region_width <= width,
            0 <= region_height <= height,
    ;
    let a = region_width * region_height;
    let b = width * height;
    assert(a <= a * stride <= b * stride) by (nonlinear_arith)
        requires
            0 <= a <= b,
            1 <= stride,
    ;
}

/// Row `row` of a region that lies within an image of `width * height`
/// pixels starts and ends within the image's bytes.
pub(crate) proof fn lemma_region_row(
    x: int,
    y: int,
    region_width: int,
    region_height: int,
    width: int,
    height: int,
    stride: int,
    row: int,
)
    requires
        0 <= x,
        0 <= y,
        0 <= region_width,
        x + region_width <= width,
        y + region_height <= height,
        1 <= stride,
        0 <= row < region_height,
    ensures
        0 <= region_width * stride,
        0 <= (y + row) * width <= x + (y + row) * width,
        x + (y + row) * width <= (x + (y + row) * width) * stride,
        (x + (y + row) * width) * stride + region_width * stride <= width * height * stride,
{
    let r = y + row;
    assert(0 <= region_width * stride) by (nonlinear_arith)
        requires
            0 <= region_width,
            1 <= stride,
    ;
    assert(0 <= r * width && r * width + width <= height * width) by (nonlinear_arith)
        requires
            0 <= r,
            r + 1 <= height,
            0 <= width,
    ;
    let p = x + r * width;
    assert(p <= p * stride) by (nonlinear_arith)
        requires
            0 <= p,
            1 <= stride,
    ;
    assert(p * stride + region_width * stride <= (width * height) * stride) by (nonlinear_arith)
        requires
            0 <= p,
            p + region_width <= height * width,
            1 <= stride,
    ;
}

/// The `i`-th of `width * height` pixels lies in column `i % width` of row
/// `i / width`, both within the image, and its bytes lie among the image's.
pub(crate) proof fn lemma_pixel_index(i: int, width: int, height: int, stride: int)
    requires
        0 <= i < width * height,
        0 <= width,
        0 <= height,
        1 <= stride,
    ensures
        0 < width,
        0 <= i % width < width,
        0 <= i / width < height,
        i == i % width + (i / width) * width,
        0 <= i * stride,
        i * stride + stride <= width * height * stride,
        (i + 1) * stride == i * stride + stride,
{
    assert(0 < width) by (nonlinear_arith)
        requires
            0 <= i < width * height,
            0 <= width,
    ;
    vstd::arithmetic::div_mod::lemma_fundamental_div_mod(i, width);
    let q = i / width;
    let r = i % width;
    assert(width * q == q * width) by (nonlinear_arith);
    assert(0 <= q < height) by (nonlinear_arith)
        requires
            0 <= r < width,
            0 <= q * width + r < width * height,
            0 <= height,
    ;
    let n = width * height;
    assert(0 <= i * stride && (i + 1) * stride <= n * stride && (i + 1) * stride == i * stride
        + stride) by (nonlinear_arith)
        requires
            0 <= i,
            i + 1 <= n,
            1 <= stride,
    ;
}

/// Byte `b` belongs to pixel `b / stride` and is that pixel's channel
/// `b % stride`; it comes before pixel `i + 1` exactly when its pixel is at
/// most `i`.
pub(crate) proof fn lemma_byte_of_pixel(b: int, stride: int, i: int)
    requires
        0 <= b,
        1 <= stride,
        0 <= i,
    ensures
        0 <= b % stride < stride,
        0 <= b / stride,
        b < i * stride <==> b / stride < i,
        b < (i + 1) * stride <==> b / stride <= i,
        i * stride <= b < i * stride + stride ==> b / stride == i && b % stride == b - i * stride,
        (i + 1) * stride == i * stride + stride,
{
    vstd::arithmetic::div_mod::lemma_fundamental_div_mod(b, stride);
    let q = b / stride;
    let r = b % stride;
    assert(stride * q == q * stride) by (nonlinear_arith);
    assert(0 <= q) by (nonlinear_arith)
        requires
            0 <= q * stride + r,
            0 <= r < stride,
    ;
    assert((i + 1) * stride == i * stride + stride) by (nonlinear_arith);
    assert(q < i ==> q * stride + r < i * stride) by (nonlinear_arith)
        requires
            0 <= r < stride,
    ;
    assert(q >= i ==> q * stride + r >= i * stride) by (nonlinear_arith)
        requires
            0 <= r < stride,
    ;
    assert(q <= i ==> q * stride + r < i * stride + stride) by (nonlinear_arith)
        requires
            0 <= r < stride,
    ;
    assert(q > i ==> q * stride + r >= i * stride + stride) by (nonlinear_arith)
        requires
            0 <= r < stride,
    ;
    if i * stride <= b < i * stride + stride {
        assert(q * stride == i * stride);
    }
}

/// The parts of a pixel's offset are no larger than the offset itself.
pub(crate) proof fn lemma_offset_bounds(x: int, y: int, width: int, stride: int)
    requires
        0 <= x,
        0 <= y,
        0 <= width,
        1 <= stride,
    ensures
        0 <= y * width <= x + y * width <= (x + y * width) * stride,
{
    assert(0 <= y * width) by (nonlinear_arith)
        requires
            0 <= y,
            0 <= width,
    ;
    let p = x + y * width;
    assert(p <= p * stride) by (nonlinear_arith)
        requires
            0 <= p,
            1 <= stride,
    ;
}

/// A product of three factors is at least the product of the first two when
/// the third is positive, so where the whole fits a machine word the parts do.
pub(crate) proof fn lemma_product_bounds(a: int, b: int, c: int)
    requires
        0 <= a,
        0 <= b,
        1 <= c,
    ensures
        0 <= a * b <= a * b * c,
{
    assert(0 <= a * b) by (nonlinear_arith)
        requires
            0 <= a,
            0 <= b,
    ;
    assert(a * b <= a * b * c) by (nonlinear_arith)
        requires
            0 <= a * b,
            1 <= c,
    ;
}

} // verus!
