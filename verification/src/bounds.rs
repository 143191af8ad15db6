//! The widths of a border on the four sides of an image: reading them off
//! the edges of a pixmap, and drawing them back onto one.

use resvg::tiny_skia::Pixmap;
use vstd::prelude::*;

use crate::edge::{scan_edge, scan_edge_spec};
use crate::pixel::{Marker, PixelClass, Rgba};
use crate::scale::{lemma_times_ceil_monotone, Scale};
use crate::pixmap::{
    fill, fill_result, is_packed, pixel_at, pixel_lookup, pixmap_height, pixmap_pixels,
    pixmap_width,
};

verus! {

/// The widths of one marker's border on each side, in pixels. Each is one
/// less than the number of marker pixels drawn along that edge.
#[derive(Clone, Copy, Debug, PartialEq, Eq, Structural)]
pub struct Bounds {
    pub l: u32,
    pub r: u32,
    pub t: u32,
    pub b: u32,
}

/// The four strips of pixels that a border is read from, each named after
/// the field of [`Bounds`] that it yields.
#[derive(Clone, Copy, Debug, PartialEq, Eq, Structural)]
pub enum Edge {
    /// The top row, from left to right.
    Left,
    /// The left column, from top to bottom.
    Top,
    /// The bottom row, from right to left.
    Right,
    /// The right column, from bottom to top.
    Bottom,
}

impl Edge {
    /// The number of pixels of this edge in an image of the given size.
    pub open spec fn length(self, width: u32, height: u32) -> nat {
        match self {
            Edge::Left | Edge::Right => width as nat,
            Edge::Top | Edge::Bottom => height as nat,
        }
    }

    /// The column and row of the `i`-th pixel of this edge.
    pub open spec fn position(self, width: u32, height: u32, i: int) -> (int, int) {
        match self {
            Edge::Left => (i, 0),
            Edge::Top => (0, i),
            Edge::Right => (width - 1 - i, height - 1),
            Edge::Bottom => (width - 1, height - 1 - i),
        }
    }
}

/// The class of the pixel at column `x` of row `y`. A pixel that the buffer
/// cannot hand out counts as `Other`.
pub open spec fn class_at(pixels: Seq<Rgba>, width: u32, x: int, y: int) -> PixelClass {
    match pixel_lookup(pixels, width as nat, x as nat, y as nat) {
        Some(pixel) => pixel.class(),
        None => PixelClass::Other,
    }
}

/// The classes of the pixels of one edge, outermost pixel first.
pub open spec fn edge_strip(pixels: Seq<Rgba>, width: u32, height: u32, edge: Edge) -> Seq<
    PixelClass,
> {
    Seq::new(
        edge.length(width, height),
        |i: int|
            class_at(
                pixels,
                width,
                edge.position(width, height, i).0,
                edge.position(width, height, i).1,
            ),
    )
}

/// The widths (yellow, pink) that one edge of an image encodes.
pub open spec fn edge_widths(pixels: Seq<Rgba>, width: u32, height: u32, edge: Edge) -> Option<
    (nat, nat),
> {
    scan_edge_spec(edge_strip(pixels, width, height, edge))
}

/// The bounds (yellow, pink) that an image encodes along its four edges, or
/// `None` where the image is empty or any one edge carries no border.
pub open spec fn detect_spec(pixels: Seq<Rgba>, width: u32, height: u32) -> Option<
    (Bounds, Bounds),
> {
    if width == 0 || height == 0 {
        None
    } else {
        match (
            edge_widths(pixels, width, height, Edge::Left),
            edge_widths(pixels, width, height, Edge::Top),
            edge_widths(pixels, width, height, Edge::Right),
            edge_widths(pixels, width, height, Edge::Bottom),
        ) {
            (Some(left), Some(top), Some(right), Some(bottom)) => Some(
                (
                    Bounds {
                        l: left.0 as u32,
                        r: right.0 as u32,
                        t: top.0 as u32,
                        b: bottom.0 as u32,
                    },
                    Bounds {
                        l: left.1 as u32,
                        r: right.1 as u32,
                        t: top.1 as u32,
                        b: bottom.1 as u32,
                    },
                ),
            ),
            _ => None,
        }
    }
}

/// One width under a scale factor: zero stays zero, and any other width
/// becomes the exact product rounded up, at least 1 and at most `u32::MAX`.
/// Under a factor that is not positive every width but zero becomes 1.
pub open spec fn scaled_width(value: u32, amount: Scale) -> u32 {
    if value == 0 {
        0
    } else if !amount.is_positive() || amount.times_ceil_spec(value as int) < 1 {
        1
    } else if amount.times_ceil_spec(value as int) > u32::MAX {
        u32::MAX
    } else {
        amount.times_ceil_spec(value as int) as u32
    }
}

/// A width never grows narrower under a greater factor.
pub proof fn lemma_scaled_width_monotone(value: u32, smaller: Scale, greater: Scale)
    requires
        smaller.is_positive(),
        smaller.lt(greater),
        greater.denom > 0,
    ensures
        scaled_width(value, smaller) <= scaled_width(value, greater),
{
    assert(greater.numer > 0) by (nonlinear_arith)
        requires
            smaller.numer > 0,
            smaller.denom > 0,
            greater.denom > 0,
            smaller.numer * greater.denom < greater.numer * smaller.denom,
    ;
    lemma_times_ceil_monotone(smaller, greater, value as int);
}

/// A scaled width is zero exactly where the width itself is.
pub proof fn lemma_scaled_width_zero(value: u32, amount: Scale)
    ensures
        scaled_width(value, amount) == 0 <==> value == 0,
{
}

/// The number of marker pixels that encode a width of `value` along a side
/// of `side` pixels: one more than the width, as far as the side has room.
pub open spec fn marker_run(value: u32, side: nat) -> nat {
    if value + 1 <= side {
        (value + 1) as nat
    } else {
        side
    }
}

/// An image with its four one-pixel edge strips cleared.
pub open spec fn erased(pixels: Seq<Rgba>, width: nat, height: nat) -> Seq<Rgba> {
    let clear = Rgba::clear_spec();
    let top = fill_result(pixels, width, height, 0, 0, width, 1, clear);
    let left = fill_result(top, width, height, 0, 0, 1, height, clear);
    let bottom = fill_result(left, width, height, 0, (height - 1) as nat, width, 1, clear);
    fill_result(bottom, width, height, (width - 1) as nat, 0, 1, height, clear)
}

impl Bounds {
    /// An image with these bounds drawn along its edges in the colour of
    /// `marker`: a run from the left along the top row, from the top along
    /// the left column, from the right along the bottom row and from the
    /// bottom along the right column. Empty bounds draw nothing.
    pub open spec fn painted(&self, pixels: Seq<Rgba>, width: nat, height: nat, marker: Marker) -> Seq<
        Rgba,
    > {
        if self.is_empty_spec() {
            pixels
        } else {
            let color = marker.rgba_spec();
            let l = marker_run(self.l, width);
            let t = marker_run(self.t, height);
            let r = marker_run(self.r, width);
            let b = marker_run(self.b, height);
            let top = fill_result(pixels, width, height, 0, 0, l, 1, color);
            let left = fill_result(top, width, height, 0, 0, 1, t, color);
            let bottom = fill_result(
                left,
                width,
                height,
                (width - r) as nat,
                (height - 1) as nat,
                r,
                1,
                color,
            );
            fill_result(
                bottom,
                width,
                height,
                (width - 1) as nat,
                (height - b) as nat,
                1,
                b,
                color,
            )
        }
    }

    /// Draws these bounds onto the edges of `pixmap` in the colour of
    /// `marker`, each side as a one-pixel line one pixel longer than its
    /// width. Empty bounds leave the pixmap as it is.
    pub fn paint(&self, pixmap: &mut Pixmap, marker: Marker)
        requires
            is_packed(*old(pixmap)),
        ensures
            is_packed(*final(pixmap)),
            pixmap_width(*final(pixmap)) == pixmap_width(*old(pixmap)),
            pixmap_height(*final(pixmap)) == pixmap_height(*old(pixmap)),
            pixmap_pixels(*final(pixmap)) == self.painted(
                pixmap_pixels(*old(pixmap)),
                pixmap_width(*old(pixmap)),
                pixmap_height(*old(pixmap)),
                marker,
            ),
    {
        if self.is_empty() {
            return ;
        }
        let width = pixmap.width();
        let height = pixmap.height();
        let color = marker.rgba();
        let l = run_length(self.l, width);
        let t = run_length(self.t, height);
        let r = run_length(self.r, width);
        let b = run_length(self.b, height);
        fill(pixmap, 0, 0, l, 1, color);
        fill(pixmap, 0, 0, 1, t, color);
        fill(pixmap, width - r, height - 1, r, 1, color);
        fill(pixmap, width - 1, height - b, 1, b, color);
    }

    /// These bounds with every width scaled by `amount`.
    pub open spec fn scaled(&self, amount: Scale) -> Bounds {
        Bounds {
            l: scaled_width(self.l, amount),
            r: scaled_width(self.r, amount),
            t: scaled_width(self.t, amount),
            b: scaled_width(self.b, amount),
        }
    }

    /// Scales one width, rounding up so that a border never comes out too
    /// narrow and never vanishes.
    pub fn scale_value(value: u32, amount: Scale) -> (scaled: u32)
        ensures
            scaled == scaled_width(value, amount),
            scaled == 0 <==> value == 0,
    {
        if value == 0 {
            return 0;
        }
        if !amount.positive() {
            return 1;
        }
        let product = amount.times_ceil(value);
        if product < 1 {
            1
        } else if product > u32::MAX as u128 {
            u32::MAX
        } else {
            product as u32
        }
    }

    /// Scales the four widths by `amount`.
    pub fn scale(&self, amount: Scale) -> (scaled: Bounds)
        ensures
            scaled == self.scaled(amount),
            scaled.l == 0 <==> self.l == 0,
            scaled.r == 0 <==> self.r == 0,
            scaled.t == 0 <==> self.t == 0,
            scaled.b == 0 <==> self.b == 0,
    {
        Bounds {
            l: Self::scale_value(self.l, amount),
            r: Self::scale_value(self.r, amount),
            t: Self::scale_value(self.t, amount),
            b: Self::scale_value(self.b, amount),
        }
    }

    /// Whether all four widths are zero.
    pub open spec fn is_empty_spec(&self) -> bool {
        self.l == 0 && self.r == 0 && self.t == 0 && self.b == 0
    }

    /// Whether there is no border on any side.
    #[verifier::when_used_as_spec(is_empty_spec)]
    pub fn is_empty(&self) -> (empty: bool)
        ensures
            empty == self.is_empty_spec(),
    {
        self.l == 0 && self.r == 0 && self.t == 0 && self.b == 0
    }
}

impl Default for Bounds {
    fn default() -> (bounds: Self)
        ensures
            bounds == (Bounds { l: 0, r: 0, t: 0, b: 0 }),
    {
        Bounds { l: 0, r: 0, t: 0, b: 0 }
    }
}

/// The number of marker pixels to draw for a width of `value` along a side
/// of `side` pixels.
fn run_length(value: u32, side: u32) -> (run: u32)
    requires
        1 <= side,
    ensures
        run == marker_run(value, side as nat),
        1 <= run <= side,
{
    if value < side {
        value + 1
    } else {
        side
    }
}

/// Clears the four one-pixel edge strips of `pixmap`, whatever they hold.
pub fn erase_bounds(pixmap: &mut Pixmap)
    requires
        is_packed(*old(pixmap)),
    ensures
        is_packed(*final(pixmap)),
        pixmap_width(*final(pixmap)) == pixmap_width(*old(pixmap)),
        pixmap_height(*final(pixmap)) == pixmap_height(*old(pixmap)),
        pixmap_pixels(*final(pixmap)) == erased(
            pixmap_pixels(*old(pixmap)),
            pixmap_width(*old(pixmap)),
            pixmap_height(*old(pixmap)),
        ),
{
    let width = pixmap.width();
    let height = pixmap.height();
    let clear = Rgba::clear();
    fill(pixmap, 0, 0, width, 1, clear);
    fill(pixmap, 0, 0, 1, height, clear);
    fill(pixmap, 0, height - 1, width, 1, clear);
    fill(pixmap, width - 1, 0, 1, height, clear);
}

/// An image without pixels has no bounds.
pub proof fn lemma_empty_image_has_no_bounds(pixels: Seq<Rgba>, width: u32, height: u32)
    requires
        width == 0 || height == 0,
    ensures
        detect_spec(pixels, width, height) is None,
{
}

/// Reads one edge of an image and gives the widths (yellow, pink) that it
/// encodes, or `None` where it carries no border.
pub fn parse_bound_side(img: &Pixmap, edge: Edge) -> (widths: Option<(u32, u32)>)
    requires
        is_packed(*img),
    ensures
        widths matches Some((yellow, pink)) ==> edge_widths(
            pixmap_pixels(*img),
            pixmap_width(*img) as u32,
            pixmap_height(*img) as u32,
            edge,
        ) == Some((yellow as nat, pink as nat)),
        widths is None ==> edge_widths(
            pixmap_pixels(*img),
            pixmap_width(*img) as u32,
            pixmap_height(*img) as u32,
            edge,
        ) is None,
{
    let width = img.width();
    let height = img.height();
    let length = match edge {
        Edge::Left | Edge::Right => width,
        Edge::Top | Edge::Bottom => height,
    };
    let ghost strip_spec = edge_strip(pixmap_pixels(*img), width, height, edge);
    let mut strip: Vec<PixelClass> = Vec::new();
    let mut i: u32 = 0;
    while i < length
        invariant
            is_packed(*img),
            width == pixmap_width(*img),
            height == pixmap_height(*img),
            1 <= width,
            1 <= height,
            length == edge.length(width, height),
            strip_spec == edge_strip(pixmap_pixels(*img), width, height, edge),
            i <= length,
            strip@.len() == i,
            forall|j: int| 0 <= j < i ==> strip@[j] == strip_spec[j],
        decreases length - i,
    {
        let (x, y) = match edge {
            Edge::Left => (i, 0),
            Edge::Top => (0, i),
            Edge::Right => (width - 1 - i, height - 1),
            Edge::Bottom => (width - 1, height - 1 - i),
        };
        let class = match pixel_at(img, x, y) {
            Some(pixel) => pixel.classify(),
            None => PixelClass::Other,
        };
        strip.push(class);
        i += 1;
    }
    assert(strip@ =~= strip_spec);
    scan_edge(strip.as_slice())
}

/// Detects the borders of an image: the bounds drawn in yellow and those
/// drawn in pink, read off its four edges.
///
/// An image without pixels has no bounds, and neither has one of which any
/// edge carries no border.
pub fn detect_reaper_bounds(img: &Pixmap) -> (found: Option<(Bounds, Bounds)>)
    requires
        is_packed(*img),
    ensures
        found == detect_spec(
            pixmap_pixels(*img),
            pixmap_width(*img) as u32,
            pixmap_height(*img) as u32,
        ),
        pixmap_width(*img) == 0 || pixmap_height(*img) == 0 ==> found is None,
{
    if img.width() == 0 || img.height() == 0 {
        return None;
    }
    let left = match parse_bound_side(img, Edge::Left) {
        Some(widths) => widths,
        None => { return None; },
    };
    let top = match parse_bound_side(img, Edge::Top) {
        Some(widths) => widths,
        None => { return None; },
    };
    let right = match parse_bound_side(img, Edge::Right) {
        Some(widths) => widths,
        None => { return None; },
    };
    let bottom = match parse_bound_side(img, Edge::Bottom) {
        Some(widths) => widths,
        None => { return None; },
    };
    let yellow_bounds = Bounds { t: top.0, l: left.0, b: bottom.0, r: right.0 };
    let pink_bounds = Bounds { t: top.1, l: left.1, b: bottom.1, r: right.1 };
    Some((yellow_bounds, pink_bounds))
}

} // verus!
