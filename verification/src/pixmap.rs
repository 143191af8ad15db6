//! The pixel buffer of tiny-skia, as far as this library reads and writes it.
//!
//! But for [`is_packed_pixmap`] nothing in this file is proved: every other
//! contract here is taken from the source of tiny-skia and believed by the
//! verifier.

use resvg::tiny_skia::{BlendMode, IntRect, Paint, Pixmap, Transform};
use vstd::prelude::*;

use crate::pixel::Rgba;

verus! {

#[verifier::external_type_specification]
#[verifier::external_body]
pub struct ExPixmap(Pixmap);

/// The number of pixel columns of a pixmap.
pub uninterp spec fn pixmap_width(p: Pixmap) -> nat;

/// The number of pixel rows of a pixmap.
pub uninterp spec fn pixmap_height(p: Pixmap) -> nat;

/// The pixels of a pixmap, row by row from the top, each row from the left:
/// the first width times height groups of four bytes of its buffer, each as
/// red, green, blue and alpha. What a buffer holds behind them is no pixel.
pub uninterp spec fn pixmap_pixels(p: Pixmap) -> Seq<Rgba>;

/// The number of bytes of the buffer of a pixmap.
pub uninterp spec fn pixmap_data_len(p: Pixmap) -> nat;

/// Whether the buffer of a pixmap holds its pixels and nothing else: four
/// bytes for each. tiny-skia reads and fills a buffer as whole pixels, and
/// panics on one that is no whole number of them.
pub open spec fn is_packed(p: Pixmap) -> bool {
    pixmap_data_len(p) == 4 * pixmap_width(p) * pixmap_height(p)
}

/// What `fill_rect` leaves in a pixmap that is wider or taller than
/// [`DIRECT_FILL_MAX`], where tiny-skia fills through its tiled path
/// rasteriser.
pub uninterp spec fn tiled_fill(
    pixels: Seq<Rgba>,
    width: nat,
    height: nat,
    x: nat,
    y: nat,
    w: nat,
    h: nat,
    color: Rgba,
) -> Seq<Rgba>;

/// The widest pixmap that tiny-skia allocates: a row must fit in 31 bits.
pub const MAX_WIDTH: u32 = 0x1FFF_FFFF;

/// The largest width and height at which tiny-skia fills a rectangle by
/// writing its pixels directly.
pub const DIRECT_FILL_MAX: u32 = 8191;

/// The index of pixel (`x`, `y`) in a row-major buffer `width` pixels wide.
pub open spec fn pixel_index(width: nat, x: nat, y: nat) -> int {
    (y * width + x) as int
}

/// What a lookup of pixel (`x`, `y`) answers.
pub open spec fn pixel_lookup(pixels: Seq<Rgba>, width: nat, x: nat, y: nat) -> Option<Rgba> {
    let index = pixel_index(width, x, y);
    if index <= u32::MAX && index < pixels.len() {
        Some(pixels[index])
    } else {
        None
    }
}

/// `pixels` with the rectangle at (`x`, `y`) of size `w` by `h` set to `color`.
pub open spec fn rect_filled(
    pixels: Seq<Rgba>,
    width: nat,
    x: nat,
    y: nat,
    w: nat,
    h: nat,
    color: Rgba,
) -> Seq<Rgba> {
    Seq::new(
        pixels.len(),
        |i: int|
            if width > 0 && x <= i % (width as int) < x + w && y <= i / (width as int) < y + h {
                color
            } else {
                pixels[i]
            },
    )
}

/// Whether tiny-skia fills rectangles of a pixmap of this size directly.
pub open spec fn fills_directly(width: nat, height: nat) -> bool {
    width <= DIRECT_FILL_MAX && height <= DIRECT_FILL_MAX
}

/// What `fill` leaves in a buffer of the given size.
pub open spec fn fill_result(
    pixels: Seq<Rgba>,
    width: nat,
    height: nat,
    x: nat,
    y: nat,
    w: nat,
    h: nat,
    color: Rgba,
) -> Seq<Rgba> {
    if fills_directly(width, height) {
        rect_filled(pixels, width, x, y, w, h, color)
    } else {
        tiled_fill(pixels, width, height, x, y, w, h, color)
    }
}

/// `Pixmap::width`. A pixmap is never empty and never wider than
/// [`MAX_WIDTH`].
pub assume_specification[ Pixmap::width ](p: &Pixmap) -> (w: u32)
    ensures
        w == pixmap_width(*p),
        1 <= w <= MAX_WIDTH,
;

/// `Pixmap::height`. The buffer holds exactly width times height pixels.
pub assume_specification[ Pixmap::height ](p: &Pixmap) -> (h: u32)
    ensures
        h == pixmap_height(*p),
        1 <= h,
        pixmap_pixels(*p).len() == pixmap_width(*p) * h,
;

/// `Pixmap::data`: the buffer of the pixmap.
pub assume_specification[ Pixmap::data ](p: &Pixmap) -> (data: &[u8])
    ensures
        data@.len() == pixmap_data_len(*p),
;

/// `Pixmap::new`: a zeroed buffer of the size asked for, or `None` where a
/// dimension is zero or a row of `width` pixels does not fit in 31 bits.
/// Buffers of more than `isize::MAX` bytes are left out, since allocating
/// one panics.
pub assume_specification[ Pixmap::new ](width: u32, height: u32) -> (r: Option<Pixmap>)
    requires
        4 * width * height <= isize::MAX,
    ensures
        r.is_some() <==> (1 <= width <= MAX_WIDTH && 1 <= height),
        r matches Some(p) ==> {
            &&& pixmap_width(p) == width
            &&& pixmap_height(p) == height
            &&& pixmap_data_len(p) == 4 * width * height
            &&& pixmap_pixels(p) == Seq::new((width * height) as nat, |i: int| Rgba::clear_spec())
        },
;

/// `Pixmap::pixel`: the pixel at column `x` of row `y`, asked for inside a
/// packed pixmap only. tiny-skia looks up index `width * y + x` of the
/// buffer and answers `None` where that index overflows `u32` or lies
/// behind the last pixel.
#[verifier::external_body]
pub(crate) fn pixel_at(p: &Pixmap, x: u32, y: u32) -> (r: Option<Rgba>)
    requires
        is_packed(*p),
        x < pixmap_width(*p),
        y < pixmap_height(*p),
    ensures
        r == pixel_lookup(pixmap_pixels(*p), pixmap_width(*p), x as nat, y as nat),
{
    p.pixel(x, y).map(|c| Rgba { r: c.red(), g: c.green(), b: c.blue(), a: c.alpha() })
}

/// `Pixmap::fill_rect` with a solid colour, no anti-aliasing, the `Source`
/// blend mode, the identity transform and no mask, on a rectangle inside a
/// packed pixmap. The buffer keeps its length. The colour is fully opaque or fully clear, with every channel 0 or
/// 255, so that it is stored as it is given. Up to [`DIRECT_FILL_MAX`] pixels
/// in each direction tiny-skia overwrites exactly the pixels of the
/// rectangle; on larger pixmaps the result is only named.
#[verifier::external_body]
pub(crate) fn fill(p: &mut Pixmap, x: u32, y: u32, w: u32, h: u32, color: Rgba)
    requires
        is_packed(*old(p)),
        1 <= w,
        1 <= h,
        x + w <= pixmap_width(*old(p)),
        y + h <= pixmap_height(*old(p)),
        color == Rgba::clear_spec() || (color.a == 255 && (color.r == 0 || color.r == 255) && (
        color.g == 0 || color.g == 255) && (color.b == 0 || color.b == 255)),
    ensures
        pixmap_width(*final(p)) == pixmap_width(*old(p)),
        pixmap_height(*final(p)) == pixmap_height(*old(p)),
        pixmap_data_len(*final(p)) == pixmap_data_len(*old(p)),
        fills_directly(pixmap_width(*old(p)), pixmap_height(*old(p))) ==> pixmap_pixels(*final(p))
            == rect_filled(
            pixmap_pixels(*old(p)),
            pixmap_width(*old(p)),
            x as nat,
            y as nat,
            w as nat,
            h as nat,
            color,
        ),
        !fills_directly(pixmap_width(*old(p)), pixmap_height(*old(p))) ==> pixmap_pixels(*final(p))
            == tiled_fill(
            pixmap_pixels(*old(p)),
            pixmap_width(*old(p)),
            pixmap_height(*old(p)),
            x as nat,
            y as nat,
            w as nat,
            h as nat,
            color,
        ),
{
    let mut paint = Paint::default();
    paint.anti_alias = false;
    paint.blend_mode = BlendMode::Source;
    paint.set_color_rgba8(color.r, color.g, color.b, color.a);
    if let Some(rect) = IntRect::from_xywh(x as i32, y as i32, w, h) {
        p.fill_rect(rect.to_rect(), &paint, Transform::identity(), None);
    }
}

/// Whether the buffer of `p` holds its pixels and nothing else. Every
/// function of this library that reads or draws on a pixmap asks for this.
pub fn is_packed_pixmap(p: &Pixmap) -> (packed: bool)
    ensures
        packed == is_packed(*p),
{
    let width = p.width() as u128;
    let height = p.height() as u128;
    assert(4 * width * height <= 4 * 0x1FFF_FFFF * 0xffff_ffff) by (nonlinear_arith)
        requires
            0 <= width <= 0x1FFF_FFFF,
            0 <= height <= 0xffff_ffff,
    ;
    p.data().len() as u128 == 4 * width * height
}

} // verus!
