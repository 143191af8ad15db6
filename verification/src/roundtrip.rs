//! What reading and drawing a border have to do with each other: detection
//! looks at the edge strips only, drawing changes exactly the pixels of the
//! marker runs, and bounds drawn onto an image are the bounds read back from
//! it.
//!
//! What is said of drawing holds of images up to [`DIRECT_FILL_MAX`] pixels
//! wide and high, for which a filled rectangle is known pixel by pixel.
//!
//! [`DIRECT_FILL_MAX`]: crate::pixmap::DIRECT_FILL_MAX

use vstd::prelude::*;

use crate::bounds::{
    class_at, detect_spec, edge_strip, edge_widths, erased, marker_run, Bounds, Edge,
};
use crate::edge::lemma_marker_run_scans;
use crate::pixel::{Marker, PixelClass, Rgba};
use crate::pixmap::{fill_result, fills_directly, pixel_index, pixel_lookup, rect_filled};

verus! {

/// Whether `pixels` is an image of `width` by `height` pixels that is small
/// enough to be filled directly.
pub open spec fn is_direct_image(pixels: Seq<Rgba>, width: nat, height: nat) -> bool {
    &&& 1 <= width
    &&& 1 <= height
    &&& fills_directly(width, height)
    &&& pixels.len() == width * height
}

/// Whether (`x`, `y`) lies on one of the four edge strips of an image.
pub open spec fn on_edge(width: nat, height: nat, x: int, y: int) -> bool {
    x == 0 || y == 0 || x == width - 1 || y == height - 1
}

/// Whether (`x`, `y`) lies on one of the four marker runs of `bounds`.
pub open spec fn on_marker_run(bounds: Bounds, width: nat, height: nat, x: int, y: int) -> bool {
    ||| y == 0 && x < marker_run(bounds.l, width)
    ||| x == 0 && y < marker_run(bounds.t, height)
    ||| y == height - 1 && x >= width - marker_run(bounds.r, width)
    ||| x == width - 1 && y >= height - marker_run(bounds.b, height)
}

/// The index of a pixel inside an image lies inside its buffer, and column
/// and row are read back from it by remainder and quotient.
pub proof fn lemma_pixel_index(width: nat, height: nat, x: int, y: int)
    requires
        0 <= x < width,
        0 <= y < height,
    ensures
        0 <= pixel_index(width, x as nat, y as nat) < width * height,
        pixel_index(width, x as nat, y as nat) % (width as int) == x,
        pixel_index(width, x as nat, y as nat) / (width as int) == y,
{
    let w = width as int;
    let i = y * w + x;
    assert(0 <= i < w * height) by (nonlinear_arith)
        requires
            i == y * w + x,
            0 <= x < w,
            0 <= y < height,
    ;
    assert(i % w == x && i / w == y) by (nonlinear_arith)
        requires
            i == y * w + x,
            0 <= x < w,
            0 <= y,
    ;
}

/// The pixels of a directly filled rectangle hold the colour, and every
/// other pixel what it held.
pub proof fn lemma_fill_at(
    pixels: Seq<Rgba>,
    width: nat,
    height: nat,
    x: nat,
    y: nat,
    w: nat,
    h: nat,
    color: Rgba,
    px: int,
    py: int,
)
    requires
        is_direct_image(pixels, width, height),
        0 <= px < width,
        0 <= py < height,
    ensures
        is_direct_image(fill_result(pixels, width, height, x, y, w, h, color), width, height),
        fill_result(pixels, width, height, x, y, w, h, color)[pixel_index(
            width,
            px as nat,
            py as nat,
        )] == if x <= px < x + w && y <= py < y + h {
            color
        } else {
            pixels[pixel_index(width, px as nat, py as nat)]
        },
{
    lemma_pixel_index(width, height, px, py);
    assert(fill_result(pixels, width, height, x, y, w, h, color) == rect_filled(
        pixels,
        width,
        x,
        y,
        w,
        h,
        color,
    ));
}

/// Erasing clears exactly the pixels of the four edge strips.
pub proof fn lemma_erased_at(pixels: Seq<Rgba>, width: nat, height: nat, px: int, py: int)
    requires
        is_direct_image(pixels, width, height),
        0 <= px < width,
        0 <= py < height,
    ensures
        is_direct_image(erased(pixels, width, height), width, height),
        erased(pixels, width, height)[pixel_index(width, px as nat, py as nat)] == if on_edge(
            width,
            height,
            px,
            py,
        ) {
            Rgba::clear_spec()
        } else {
            pixels[pixel_index(width, px as nat, py as nat)]
        },
{
    let clear = Rgba::clear_spec();
    let top = fill_result(pixels, width, height, 0, 0, width, 1, clear);
    let left = fill_result(top, width, height, 0, 0, 1, height, clear);
    let bottom = fill_result(left, width, height, 0, (height - 1) as nat, width, 1, clear);
    lemma_fill_at(pixels, width, height, 0, 0, width, 1, clear, px, py);
    lemma_fill_at(top, width, height, 0, 0, 1, height, clear, px, py);
    lemma_fill_at(left, width, height, 0, (height - 1) as nat, width, 1, clear, px, py);
    lemma_fill_at(bottom, width, height, (width - 1) as nat, 0, 1, height, clear, px, py);
}

/// Painting sets exactly the pixels of the four marker runs to the marker's
/// colour; empty bounds set none.
pub proof fn lemma_painted_at(
    bounds: Bounds,
    pixels: Seq<Rgba>,
    width: nat,
    height: nat,
    marker: Marker,
    px: int,
    py: int,
)
    requires
        is_direct_image(pixels, width, height),
        0 <= px < width,
        0 <= py < height,
    ensures
        is_direct_image(bounds.painted(pixels, width, height, marker), width, height),
        bounds.painted(pixels, width, height, marker)[pixel_index(width, px as nat, py as nat)]
            == if !bounds.is_empty_spec() && on_marker_run(bounds, width, height, px, py) {
            marker.rgba_spec()
        } else {
            pixels[pixel_index(width, px as nat, py as nat)]
        },
{
    if !bounds.is_empty_spec() {
        let color = marker.rgba_spec();
        let l = marker_run(bounds.l, width);
        let t = marker_run(bounds.t, height);
        let r = marker_run(bounds.r, width);
        let b = marker_run(bounds.b, height);
        let top = fill_result(pixels, width, height, 0, 0, l, 1, color);
        let left = fill_result(top, width, height, 0, 0, 1, t, color);
        let bottom = fill_result(
            left,
            width,
            height,
            (width - r) as nat,
            (height - 1) as nat,
            r,
            1,
            color,
        );
        lemma_fill_at(pixels, width, height, 0, 0, l, 1, color, px, py);
        lemma_fill_at(top, width, height, 0, 0, 1, t, color, px, py);
        lemma_fill_at(left, width, height, (width - r) as nat, (height - 1) as nat, r, 1, color, px, py);
        lemma_fill_at(bottom, width, height, (width - 1) as nat, (height - b) as nat, 1, b, color, px, py);
    }
}

/// Detection looks at the four edge strips only: two images of one size
/// that agree on every pixel of their edges encode the same bounds.
pub proof fn lemma_detection_ignores_the_inside(
    one: Seq<Rgba>,
    other: Seq<Rgba>,
    width: u32,
    height: u32,
)
    requires
        one.len() == width * height,
        other.len() == width * height,
        forall|x: int, y: int|
            0 <= x < width && 0 <= y < height && on_edge(width as nat, height as nat, x, y)
                ==> one[#[trigger] pixel_index(width as nat, x as nat, y as nat)] == other[pixel_index(
                width as nat,
                x as nat,
                y as nat,
            )],
    ensures
        detect_spec(one, width, height) == detect_spec(other, width, height),
{
    if width > 0 && height > 0 {
        lemma_same_edge(one, other, width, height, Edge::Left);
        lemma_same_edge(one, other, width, height, Edge::Top);
        lemma_same_edge(one, other, width, height, Edge::Right);
        lemma_same_edge(one, other, width, height, Edge::Bottom);
    }
}

/// Two images that agree on every pixel of their edges have the same strip
/// along each edge.
proof fn lemma_same_edge(one: Seq<Rgba>, other: Seq<Rgba>, width: u32, height: u32, edge: Edge)
    requires
        width > 0,
        height > 0,
        one.len() == width * height,
        other.len() == width * height,
        forall|x: int, y: int|
            0 <= x < width && 0 <= y < height && on_edge(width as nat, height as nat, x, y)
                ==> one[#[trigger] pixel_index(width as nat, x as nat, y as nat)] == other[pixel_index(
                width as nat,
                x as nat,
                y as nat,
            )],
    ensures
        edge_strip(one, width, height, edge) == edge_strip(other, width, height, edge),
{
    let a = edge_strip(one, width, height, edge);
    let b = edge_strip(other, width, height, edge);
    assert forall|i: int| 0 <= i < a.len() implies a[i] == b[i] by {
        let x = edge.position(width, height, i).0;
        let y = edge.position(width, height, i).1;
        lemma_pixel_index(width as nat, height as nat, x, y);
        assert(on_edge(width as nat, height as nat, x, y));
        assert(one[pixel_index(width as nat, x as nat, y as nat)] == other[pixel_index(
            width as nat,
            x as nat,
            y as nat,
        )]);
    }
    assert(a =~= b);
}

/// The width that `bounds` hold for the side that `edge` is read for.
pub open spec fn width_along(bounds: Bounds, edge: Edge) -> u32 {
    match edge {
        Edge::Left => bounds.l,
        Edge::Top => bounds.t,
        Edge::Right => bounds.r,
        Edge::Bottom => bounds.b,
    }
}

/// Whether an image has room for `bounds`: it is at least three pixels wide
/// and high, and each width leaves the far end of its edge free.
pub open spec fn has_room_for(bounds: Bounds, width: nat, height: nat) -> bool {
    &&& 3 <= width
    &&& 3 <= height
    &&& bounds.l <= width - 2
    &&& bounds.r <= width - 2
    &&& bounds.t <= height - 2
    &&& bounds.b <= height - 2
}

/// The image with its edge strips cleared and `bounds` drawn in the colour
/// of `marker`.
pub open spec fn redrawn_in(
    bounds: Bounds,
    pixels: Seq<Rgba>,
    width: nat,
    height: nat,
    marker: Marker,
) -> Seq<Rgba> {
    bounds.painted(erased(pixels, width, height), width, height, marker)
}

/// Along each edge of a redrawn image stands the marker run of the width for
/// that side, and behind it only transparent pixels.
pub proof fn lemma_redrawn_edge(
    bounds: Bounds,
    pixels: Seq<Rgba>,
    width: u32,
    height: u32,
    marker: Marker,
    edge: Edge,
)
    requires
        is_direct_image(pixels, width as nat, height as nat),
        has_room_for(bounds, width as nat, height as nat),
        !bounds.is_empty_spec(),
    ensures
        marker == Marker::Yellow ==> edge_widths(
            redrawn_in(bounds, pixels, width as nat, height as nat, marker),
            width,
            height,
            edge,
        ) == Some((width_along(bounds, edge) as nat, 0nat)),
        marker == Marker::Pink ==> edge_widths(
            redrawn_in(bounds, pixels, width as nat, height as nat, marker),
            width,
            height,
            edge,
        ) == Some((0nat, width_along(bounds, edge) as nat)),
{
    let w = width as nat;
    let h = height as nat;
    let cleared = erased(pixels, w, h);
    let image = redrawn_in(bounds, pixels, w, h, marker);
    let strip = edge_strip(image, width, height, edge);
    let run = width_along(bounds, edge) + 1;
    assert(w * h <= 8191 * 8191) by (nonlinear_arith)
        requires
            0 <= w <= 8191,
            0 <= h <= 8191,
    ;
    assert forall|i: int| 0 <= i < strip.len() implies strip[i] == (if i < run {
        marker.class()
    } else {
        PixelClass::Transparent
    }) by {
        let x = edge.position(width, height, i).0;
        let y = edge.position(width, height, i).1;
        lemma_pixel_index(w, h, x, y);
        lemma_erased_at(pixels, w, h, x, y);
        lemma_painted_at(bounds, cleared, w, h, marker, x, y);
        assert(strip[i] == class_at(image, width, x, y));
        assert(pixel_lookup(image, w, x as nat, y as nat) == Some(
            image[pixel_index(w, x as nat, y as nat)],
        ));
    }
    lemma_marker_run_scans(strip, marker.class(), run);
}

/// Bounds drawn onto an image are the bounds read back from it.
///
/// Where the edge strips of an image are cleared and bounds that are not
/// empty, and for which the image has room, are drawn in one marker colour,
/// detection gives exactly these bounds for that colour and empty bounds for
/// the other.
pub proof fn lemma_drawn_bounds_are_detected(
    bounds: Bounds,
    pixels: Seq<Rgba>,
    width: u32,
    height: u32,
    marker: Marker,
)
    requires
        is_direct_image(pixels, width as nat, height as nat),
        has_room_for(bounds, width as nat, height as nat),
        !bounds.is_empty_spec(),
    ensures
        marker == Marker::Yellow ==> detect_spec(
            redrawn_in(bounds, pixels, width as nat, height as nat, marker),
            width,
            height,
        ) == Some((bounds, Bounds { l: 0, r: 0, t: 0, b: 0 })),
        marker == Marker::Pink ==> detect_spec(
            redrawn_in(bounds, pixels, width as nat, height as nat, marker),
            width,
            height,
        ) == Some((Bounds { l: 0, r: 0, t: 0, b: 0 }, bounds)),
{
    lemma_redrawn_edge(bounds, pixels, width, height, marker, Edge::Left);
    lemma_redrawn_edge(bounds, pixels, width, height, marker, Edge::Top);
    lemma_redrawn_edge(bounds, pixels, width, height, marker, Edge::Right);
    lemma_redrawn_edge(bounds, pixels, width, height, marker, Edge::Bottom);
}

} // verus!
