use vstd::prelude::*;
use vstd::arithmetic::div_mod::lemma_fundamental_div_mod;

verus! {

/// A position in screen coordinates.
#[derive(Clone, Copy, Debug, PartialEq, Eq, Structural)]
pub struct Point {
    pub x: i32,
    pub y: i32,
}

/// A color as red, green and blue channels.
pub type RGB = (u8, u8, u8);

/// The value a pixel read reports for a coordinate with no readable pixel.
pub const CLR_INVALID: u32 = 0xFFFF_FFFF;

/// The channels of a packed `0x00BBGGRR` color value.
pub open spec fn colorref_channels(pixel: u32) -> RGB {
    ((pixel % 256) as u8, ((pixel / 256) % 256) as u8, ((pixel / 65536) % 256) as u8)
}

/// The color that a raw pixel read stands for, or `None` for the invalid marker.
pub open spec fn color_of_pixel(pixel: u32) -> Option<RGB> {
    if pixel == CLR_INVALID {
        None
    } else {
        Some(colorref_channels(pixel))
    }
}

/// Decodes the packed value that a single-pixel read of the screen returned.
pub fn color_from_pixel(pixel: u32) -> (r: Option<RGB>)
    ensures
        r == color_of_pixel(pixel),
{
    if pixel == CLR_INVALID {
        return None;
    }
    let r = (pixel & 0xff) as u8;
    let g = ((pixel >> 8u32) & 0xff) as u8;
    let b = ((pixel >> 16u32) & 0xff) as u8;
    proof {
        assert(pixel & 0xff == pixel % 256) by (bit_vector);
        assert((pixel >> 8u32) & 0xff == (pixel / 256) % 256) by (bit_vector);
        assert((pixel >> 16u32) & 0xff == (pixel / 65536) % 256) by (bit_vector);
    }
    Some((r, g, b))
}

/// An axis-aligned rectangle of screen pixels: its top-left corner and its size.
#[derive(Clone, Copy, Debug, PartialEq, Eq, Structural)]
pub struct Region {
    pub left: i32,
    pub top: i32,
    pub width: u64,
    pub height: u64,
}

pub open spec fn min_i32(a: i32, b: i32) -> i32 {
    if a <= b { a } else { b }
}

pub open spec fn max_i32(a: i32, b: i32) -> i32 {
    if a >= b { a } else { b }
}

/// The rectangle spanned by two corners, given in either order, both included.
pub open spec fn region_of(p1: Point, p2: Point) -> Region {
    Region {
        left: min_i32(p1.x, p2.x),
        top: min_i32(p1.y, p2.y),
        width: (max_i32(p1.x, p2.x) - min_i32(p1.x, p2.x) + 1) as u64,
        height: (max_i32(p1.y, p2.y) - min_i32(p1.y, p2.y) + 1) as u64,
    }
}

/// Normalizes two corners into the rectangle they span.
pub fn region_bounds(start: Point, end: Point) -> (r: Region)
    ensures
        r == region_of(start, end),
        r.width >= 1,
        r.height >= 1,
        r.width <= 0x1_0000_0000,
        r.height <= 0x1_0000_0000,
{
    let x1 = if start.x <= end.x { start.x } else { end.x };
    let y1 = if start.y <= end.y { start.y } else { end.y };
    let x2 = if start.x >= end.x { start.x } else { end.x };
    let y2 = if start.y >= end.y { start.y } else { end.y };
    let width = ((x2 as i64) - (x1 as i64) + 1) as u64;
    let height = ((y2 as i64) - (y1 as i64) + 1) as u64;
    Region { left: x1, top: y1, width, height }
}

/// Bytes in one row of a 24-bit bitmap of the given width, rows padded to four bytes.
pub open spec fn stride_of(width: int) -> int {
    ((24 * width + 31) / 32) * 4
}

/// Computes the row stride of a 24-bit bitmap.
pub fn row_stride(width: u64) -> (r: u64)
    requires
        width <= 0x1_0000_0000,
    ensures
        r == stride_of(width as int),
        r >= 3 * width,
{
    let q = (24 * width + 31) / 32;
    proof {
        lemma_fundamental_div_mod(24 * width + 31, 32);
    }
    q * 4
}

/// The color at column `x` of row `y` of a bitmap whose rows hold blue, green and red
/// bytes for each pixel, `stride` bytes apart.
pub open spec fn bitmap_rgb(buf: Seq<u8>, stride: int, x: int, y: int) -> RGB {
    let off = y * stride + 3 * x;
    (buf[off + 2], buf[off + 1], buf[off])
}

/// The pixels of a `width` by `height` bitmap, row-major from the top-left corner.
pub open spec fn bitmap_pixels(buf: Seq<u8>, width: int, height: int, stride: int) -> Seq<RGB> {
    Seq::new((width * height) as nat, |i: int| bitmap_rgb(buf, stride, i % width, i / width))
}

/// Decodes the rows of a captured 24-bit bitmap into colors, top to bottom and left to right.
pub fn decode_rows(buf: &Vec<u8>, width: usize, height: usize, stride: usize) -> (r: Vec<RGB>)
    requires
        3 * width <= stride,
        stride * height <= buf@.len(),
    ensures
        r@ == bitmap_pixels(buf@, width as int, height as int, stride as int),
        r@.len() == width * height,
{
    let len = buf.len();
    let mut result: Vec<RGB> = Vec::new();
    if width == 0 || height == 0 {
        proof {
            assert(width * height == 0) by (nonlinear_arith)
                requires width == 0 || height == 0;
        }
        assert(result@ =~= bitmap_pixels(buf@, width as int, height as int, stride as int));
        return result;
    }
    proof {
        assert(width * height <= stride * height) by (nonlinear_arith)
            requires 3 * width <= stride, height > 0;
    }
    let total: usize = width * height;
    let mut i: usize = 0;
    while i < total
        invariant
            0 < width,
            0 < height,
            total == width * height,
            3 * width <= stride,
            stride * height <= buf@.len(),
            len == buf@.len(),
            i <= total,
            result@ =~= Seq::new(i as nat, |j: int| bitmap_rgb(buf@, stride as int, j % (width as int), j / (width as int))),
        decreases total - i,
    {
        let x = i % width;
        let y = i / width;
        proof {
            lemma_fundamental_div_mod(i as int, width as int);
            assert(y < height) by (nonlinear_arith)
                requires i == width * y + x, x >= 0, i < width * height, width > 0;
            assert(y * stride + 3 * x + 2 < stride * height) by (nonlinear_arith)
                requires y < height, x < width, 3 * width <= stride;
            assert(y * stride <= stride * height) by (nonlinear_arith)
                requires y < height;
        }
        let off = y * stride + 3 * x;
        let b = buf[off];
        let g = buf[off + 1];
        let r = buf[off + 2];
        result.push((r, g, b));
        i = i + 1;
    }
    result
}

/// A region as `region_bounds` produces it: at least one pixel and at most 2^32 on a side.
pub open spec fn region_valid(region: Region) -> bool {
    1 <= region.width <= 0x1_0000_0000 && 1 <= region.height <= 0x1_0000_0000
}

/// Decodes the bitmap captured from `region`, or gives `None` when the buffer is too
/// short to hold all of its padded rows.
pub fn colors_from_bitmap(region: Region, buf: &Vec<u8>) -> (r: Option<Vec<RGB>>)
    requires
        region_valid(region),
    ensures
        r is Some <==> stride_of(region.width as int) * region.height <= buf@.len(),
        r is Some ==> r->0@ == bitmap_pixels(
            buf@,
            region.width as int,
            region.height as int,
            stride_of(region.width as int),
        ),
        r is Some ==> r->0@.len() == region.width * region.height,
{
    let stride = row_stride(region.width);
    let len = buf.len();
    let needed = match stride.checked_mul(region.height) {
        Some(n) => n,
        None => {
            assert(stride * region.height > len) by (nonlinear_arith)
                requires stride * region.height > u64::MAX, len <= usize::MAX, usize::MAX <= u64::MAX;
            return None;
        },
    };
    if needed > len as u64 {
        return None;
    }
    proof {
        assert(region.width <= stride * region.height) by (nonlinear_arith)
            requires 3 * region.width <= stride, region.height >= 1;
        assert(region.height <= stride * region.height) by (nonlinear_arith)
            requires 3 * region.width <= stride, region.width >= 1, region.height >= 1;
        assert(stride <= stride * region.height) by (nonlinear_arith)
            requires region.height >= 1;
    }
    let colors = decode_rows(buf, region.width as usize, region.height as usize, stride as usize);
    Some(colors)
}

/// Swapping the two corners of a region gives the same rectangle.
pub proof fn lemma_region_corners_commute(p1: Point, p2: Point)
    ensures
        region_of(p1, p2) == region_of(p2, p1),
{
}

/// A one-pixel region read as a bitmap agrees with a single-pixel read of the same
/// point, when both saw the same pixel: the packed value of the pixel read holds the
/// red, green and blue bytes that the bitmap stores in reverse order.
pub proof fn lemma_single_pixel_agrees(p: Point, pixel: u32, buf: Seq<u8>)
    requires
        buf.len() >= 4,
        pixel == buf[2] + 256 * buf[1] + 65536 * buf[0],
    ensures
        region_of(p, p).width == 1,
        region_of(p, p).height == 1,
        stride_of(1) * 1 <= buf.len(),
        bitmap_pixels(buf, 1, 1, stride_of(1)).len() == 1,
        color_of_pixel(pixel) == Some(bitmap_pixels(buf, 1, 1, stride_of(1))[0]),
{
    let (r, g, b) = (buf[2] as int, buf[1] as int, buf[0] as int);
    assert(stride_of(1) == 4);
    assert(pixel % 256 == r && (pixel / 256) % 256 == g && (pixel / 65536) % 256 == b)
        by (nonlinear_arith)
        requires
            pixel == r + 256 * g + 65536 * b,
            0 <= r < 256, 0 <= g < 256, 0 <= b < 256;
    assert(pixel != CLR_INVALID);
    assert(bitmap_pixels(buf, 1, 1, 4)[0] == bitmap_rgb(buf, 4, 0, 0));
}

} // verus!
