//! Upscaling an image so that every tile of it comes out a whole number of
//! pixels wide and high, with its border redrawn at the new scale.
//!
//! Rasterising the vector source is not done here: [`render`] and
//! [`render_upscaled`] hand the target pixmap to a function of the caller,
//! together with the plan that says how the source maps onto it.

use resvg::tiny_skia::Pixmap;
use vstd::prelude::*;

use crate::bounds::{erase_bounds, erased, Bounds};
use crate::pixel::{Marker, Rgba};
use crate::pixmap::{
    is_packed, is_packed_pixmap, pixmap_height, pixmap_pixels, pixmap_width, MAX_WIDTH,
};
use crate::scale::{lemma_ceil_div_reaches, lemma_times_ceil_sign, Scale};

verus! {

/// How an image divides into tiles that must each scale to whole pixels.
#[derive(Clone, Copy, Debug, PartialEq, Eq, Structural)]
pub enum UpscaleMode {
    /// The image is one tile.
    Normal,
    /// Tiles stacked vertically.
    VerticalTiles(u32),
    /// Tiles side by side.
    HorizontalTiles(u32),
    /// A grid of `x` columns and `y` rows.
    Grid { x: u32, y: u32 },
}

impl UpscaleMode {
    /// The number of tile columns and tile rows.
    pub open spec fn tiles(self) -> (u32, u32) {
        match self {
            UpscaleMode::Normal => (1, 1),
            UpscaleMode::VerticalTiles(y) => (1, y),
            UpscaleMode::HorizontalTiles(x) => (x, 1),
            UpscaleMode::Grid { x, y } => (x, y),
        }
    }

    /// Whether there is at least one tile in each direction.
    pub open spec fn well_formed(self) -> bool {
        self.tiles().0 > 0 && self.tiles().1 > 0
    }

    /// A button of three segments stacked vertically.
    pub fn vertical_button() -> (mode: UpscaleMode)
        ensures
            mode == UpscaleMode::VerticalTiles(3),
    {
        UpscaleMode::VerticalTiles(3)
    }

    /// A button of three segments side by side.
    pub fn horizontal_button() -> (mode: UpscaleMode)
        ensures
            mode == UpscaleMode::HorizontalTiles(3),
    {
        UpscaleMode::HorizontalTiles(3)
    }

    /// The number of tile columns and tile rows.
    pub fn tile_counts(&self) -> (counts: (u32, u32))
        ensures
            counts == self.tiles(),
    {
        match self {
            UpscaleMode::Normal => (1, 1),
            UpscaleMode::VerticalTiles(y) => (1, *y),
            UpscaleMode::HorizontalTiles(x) => (*x, 1),
            UpscaleMode::Grid { x, y } => (*x, *y),
        }
    }
}

/// Divides `a` by `b`, and gives the quotient only where nothing remains.
pub fn divide_no_remainder(a: u32, b: u32) -> (quotient: Option<u32>)
    requires
        b > 0,
    ensures
        quotient is Some <==> a % b == 0,
        quotient matches Some(q) ==> q * b == a && q == a / b,
{
    let remainder = a % b;
    if remainder != 0 {
        return None;
    }
    assert(a == b * (a / b) + a % b) by (nonlinear_arith)
        requires
            b > 0,
    ;
    assert((a / b) * b == b * (a / b)) by (nonlinear_arith);
    Some(a / b)
}

/// Why an image cannot be upscaled as asked.
#[derive(Clone, Copy, Debug, PartialEq, Eq, Structural)]
pub enum UpscaleError {
    /// The source is not a whole number of pixels wide and high.
    FractionalInputResolution,
    /// The scale factor is not a number greater than zero.
    InvalidScale(Scale),
    /// The inner image of `w` by `h` pixels does not divide into `tx` by
    /// `ty` equal tiles.
    NotDivisibleIntoTiles { w: u32, h: u32, tx: u32, ty: u32 },
    /// No pixmap of this size can be made. A dimension beyond `u32::MAX` is
    /// given as `u32::MAX`.
    InvalidOutputResolution(u32, u32),
}

/// The size that the vector source declares for itself.
#[derive(Clone, Copy, Debug, PartialEq, Eq, Structural)]
pub enum SourceSize {
    /// A whole number of pixels in each direction.
    Whole { width: u32, height: u32 },
    /// A width or a height that is no whole number of pixels.
    Fractional,
}

/// How a source image maps onto its upscaled target.
#[derive(Clone, Copy, Debug, PartialEq, Eq, Structural)]
pub struct UpscalePlan {
    /// Whether the image has a one-pixel marker frame, which keeps its
    /// thickness and is redrawn after scaling.
    pub border_aware: bool,
    /// The size of the source inside its frame.
    pub inner_width: u32,
    pub inner_height: u32,
    /// The size of the target inside its frame.
    pub final_inner_width: u32,
    pub final_inner_height: u32,
    /// The size of the target.
    pub final_outer_width: u32,
    pub final_outer_height: u32,
}

/// Whether bounds call for border-aware scaling: both are given and at least
/// one of them is not empty.
pub open spec fn border_aware_spec(pink: Option<Bounds>, yellow: Option<Bounds>) -> bool {
    match (pink, yellow) {
        (Some(p), Some(y)) => !p.is_empty_spec() || !y.is_empty_spec(),
        _ => false,
    }
}

/// The thickness that the frame adds to each dimension.
pub open spec fn frame_of(border_aware: bool) -> int {
    if border_aware {
        2
    } else {
        0
    }
}

/// Whether a pixmap of this size can be made: neither dimension is zero, a
/// row fits in 31 bits, and the whole buffer in `isize::MAX` bytes.
pub open spec fn allocatable(width: int, height: int) -> bool {
    &&& 1 <= width <= MAX_WIDTH
    &&& 1 <= height <= u32::MAX
    &&& 4 * width * height <= isize::MAX
}

/// A dimension as an error reports it.
pub open spec fn reported(dimension: int) -> u32 {
    if dimension > u32::MAX {
        u32::MAX
    } else {
        dimension as u32
    }
}

/// The length of `tiles` tiles, each `inner / tiles` long before scaling and
/// its exact product with the scale, rounded up to whole pixels, after it.
pub open spec fn scaled_length(inner: u32, tiles: u32, scale: Scale) -> int {
    scale.times_ceil_spec((inner / tiles) as int) * tiles
}

/// Whether the plan can be worked out: where it comes to the tiles, which
/// it does for a positive scale and a whole size, there is at least one tile
/// in each direction, and a border-aware source is at least as large as its
/// frame. Nothing is asked of a request that is refused before that.
pub open spec fn plannable(
    size: SourceSize,
    scale: Scale,
    mode: UpscaleMode,
    border_aware: bool,
) -> bool {
    match size {
        SourceSize::Whole { width, height } => scale.is_positive() ==> mode.well_formed()
            && width >= frame_of(border_aware) && height >= frame_of(border_aware),
        SourceSize::Fractional => true,
    }
}

/// The plan for upscaling a source of `size` by `scale`, or the first reason
/// why there is none: the scale is checked first, then the source size, then
/// the division into tiles, then the size of the target.
pub open spec fn plan_spec(
    size: SourceSize,
    scale: Scale,
    mode: UpscaleMode,
    border_aware: bool,
) -> Result<UpscalePlan, UpscaleError> {
    if !scale.is_positive() {
        Err(UpscaleError::InvalidScale(scale))
    } else {
        match size {
            SourceSize::Fractional => Err(UpscaleError::FractionalInputResolution),
            SourceSize::Whole { width, height } => {
                let frame = frame_of(border_aware);
                let inner_width = (width - frame) as u32;
                let inner_height = (height - frame) as u32;
                let (tiles_x, tiles_y) = mode.tiles();
                if inner_width % tiles_x != 0 || inner_height % tiles_y != 0 {
                    Err(
                        UpscaleError::NotDivisibleIntoTiles {
                            w: inner_width,
                            h: inner_height,
                            tx: tiles_x,
                            ty: tiles_y,
                        },
                    )
                } else {
                    let final_inner_width = scaled_length(inner_width, tiles_x, scale);
                    let final_inner_height = scaled_length(inner_height, tiles_y, scale);
                    if !allocatable(final_inner_width + frame, final_inner_height + frame) {
                        Err(
                            UpscaleError::InvalidOutputResolution(
                                reported(final_inner_width + frame),
                                reported(final_inner_height + frame),
                            ),
                        )
                    } else {
                        Ok(
                            UpscalePlan {
                                border_aware,
                                inner_width,
                                inner_height,
                                final_inner_width: final_inner_width as u32,
                                final_inner_height: final_inner_height as u32,
                                final_outer_width: (final_inner_width + frame) as u32,
                                final_outer_height: (final_inner_height + frame) as u32,
                            },
                        )
                    }
                }
            },
        }
    }
}

/// At a scale of exactly one the target has the size of the source, whatever
/// the tiles are, wherever there is a plan at all.
pub proof fn lemma_unit_scale_keeps_size(
    size: SourceSize,
    scale: Scale,
    mode: UpscaleMode,
    border_aware: bool,
)
    requires
        plannable(size, scale, mode, border_aware),
        scale.is_one(),
        plan_spec(size, scale, mode, border_aware) is Ok,
    ensures
        size matches SourceSize::Whole { width, height } && plan_spec(
            size,
            scale,
            mode,
            border_aware,
        ) matches Ok(plan) && plan.final_outer_width == width && plan.final_outer_height == height
            && plan.final_inner_width == plan.inner_width && plan.final_inner_height
            == plan.inner_height,
{
    let plan = plan_spec(size, scale, mode, border_aware)->Ok_0;
    let (tiles_x, tiles_y) = mode.tiles();
    lemma_unit_scale_keeps_length(plan.inner_width, tiles_x, scale);
    lemma_unit_scale_keeps_length(plan.inner_height, tiles_y, scale);
}

/// At a scale of exactly one a length that divides into its tiles stays as
/// it is.
pub proof fn lemma_unit_scale_keeps_length(inner: u32, tiles: u32, scale: Scale)
    requires
        tiles > 0,
        inner % tiles == 0,
        scale.is_one(),
    ensures
        scaled_length(inner, tiles, scale) == inner,
{
    let tile = (inner / tiles) as int;
    let d = scale.denom as int;
    assert((tile * d + d - 1) / d == tile) by (nonlinear_arith)
        requires
            d > 0,
    ;
    assert(inner == tiles * (inner / tiles) + inner % tiles) by (nonlinear_arith)
        requires
            tiles > 0,
    ;
    assert(tile * tiles == tiles * tile) by (nonlinear_arith);
}

/// The inner target divides into the tiles of the plan without remainder,
/// and each tile is the source tile times the scale, rounded up.
pub proof fn lemma_tiles_are_whole(
    size: SourceSize,
    scale: Scale,
    mode: UpscaleMode,
    border_aware: bool,
)
    requires
        plannable(size, scale, mode, border_aware),
        plan_spec(size, scale, mode, border_aware) is Ok,
    ensures
        plan_spec(size, scale, mode, border_aware) matches Ok(plan) && {
            &&& scale.is_positive()
            &&& plan.inner_width % mode.tiles().0 == 0
            &&& plan.inner_height % mode.tiles().1 == 0
            &&& plan.final_inner_width % mode.tiles().0 == 0
            &&& plan.final_inner_height % mode.tiles().1 == 0
            &&& plan.final_inner_width / mode.tiles().0 == scale.times_ceil_spec(
                (plan.inner_width / mode.tiles().0) as int,
            )
            &&& plan.final_inner_height / mode.tiles().1 == scale.times_ceil_spec(
                (plan.inner_height / mode.tiles().1) as int,
            )
        },
{
    let plan = plan_spec(size, scale, mode, border_aware)->Ok_0;
    let (tiles_x, tiles_y) = mode.tiles();
    let cx = scale.times_ceil_spec((plan.inner_width / tiles_x) as int);
    let cy = scale.times_ceil_spec((plan.inner_height / tiles_y) as int);
    lemma_times_ceil_sign(scale, (plan.inner_width / tiles_x) as int);
    lemma_times_ceil_sign(scale, (plan.inner_height / tiles_y) as int);
    assert((cx * tiles_x) % (tiles_x as int) == 0 && (cx * tiles_x) / (tiles_x as int) == cx)
        by (nonlinear_arith)
        requires
            tiles_x > 0,
    ;
    assert((cy * tiles_y) % (tiles_y as int) == 0 && (cy * tiles_y) / (tiles_y as int) == cy)
        by (nonlinear_arith)
        requires
            tiles_y > 0,
    ;
}

/// Whether bounds call for border-aware scaling.
pub fn border_aware(pink_bounds: Option<&Bounds>, yellow_bounds: Option<&Bounds>) -> (aware: bool)
    ensures
        aware == border_aware_spec(deref_bounds(pink_bounds), deref_bounds(yellow_bounds)),
{
    match (pink_bounds, yellow_bounds) {
        (Some(pink), Some(yellow)) => !pink.is_empty() || !yellow.is_empty(),
        _ => false,
    }
}

/// The bounds behind an optional reference.
pub open spec fn deref_bounds(bounds: Option<&Bounds>) -> Option<Bounds> {
    match bounds {
        Some(b) => Some(*b),
        None => None,
    }
}

/// The scaled length of one dimension, as far as it fits in 128 bits.
fn scale_length(inner: u32, tiles: u32, scale: Scale) -> (length: u128)
    requires
        tiles > 0,
        scale.is_positive(),
    ensures
        length == scaled_length(inner, tiles, scale),
        length < 0x8000_0000_0000_0000_0000_0000_0000_0000,
{
    let tile = inner / tiles;
    let scaled_tile = scale.times_ceil(tile);
    proof {
        let a = tile * scale.numer;
        lemma_ceil_div_reaches(a, scale.denom as int);
        lemma_times_ceil_sign(scale, tile as int);
        let c = scale.times_ceil_spec(tile as int);
        assert(a <= 0xffff_ffff * 0x7fff_ffff_ffff_ffff) by (nonlinear_arith)
            requires
                a == tile * scale.numer,
                0 <= tile <= 0xffff_ffff,
                0 < scale.numer <= 0x7fff_ffff_ffff_ffff,
        ;
        if c > a {
            assert((c - 1) * scale.denom >= a) by (nonlinear_arith)
                requires
                    c - 1 >= a,
                    a >= 0,
                    scale.denom >= 1,
            ;
        }
        assert(c * tiles <= (0xffff_ffff * 0x7fff_ffff_ffff_ffff) * 0xffff_ffff)
            by (nonlinear_arith)
            requires
                0 <= c <= 0xffff_ffff * 0x7fff_ffff_ffff_ffff,
                0 < tiles <= 0xffff_ffff,
        ;
    }
    scaled_tile * (tiles as u128)
}

/// Whether a pixmap of this size can be made.
fn can_allocate(width: u128, height: u128) -> (can: bool)
    ensures
        can == allocatable(width as int, height as int),
{
    if width < 1 || width > MAX_WIDTH as u128 || height < 1 || height > u32::MAX as u128 {
        return false;
    }
    assert(4 * width * height <= 4 * 0x1FFF_FFFF * 0xffff_ffff) by (nonlinear_arith)
        requires
            0 <= width <= 0x1FFF_FFFF,
            0 <= height <= 0xffff_ffff,
    ;
    4 * width * height <= isize::MAX as u128
}

/// A dimension as an error reports it.
fn report(dimension: u128) -> (r: u32)
    ensures
        r == reported(dimension as int),
{
    if dimension > u32::MAX as u128 {
        u32::MAX
    } else {
        dimension as u32
    }
}

/// Works out the size of the upscaled image.
///
/// Every tile of the inner image is scaled on its own and rounded up to
/// whole pixels, so that tile boundaries never fall between pixels. A scale
/// that is not positive is refused as `InvalidScale` whatever the other
/// arguments are.
pub fn plan_upscale(size: SourceSize, scale: Scale, mode: &UpscaleMode, border_aware: bool) -> (plan:
    Result<UpscalePlan, UpscaleError>)
    requires
        plannable(size, scale, *mode, border_aware),
    ensures
        plan == plan_spec(size, scale, *mode, border_aware),
        !scale.is_positive() ==> plan == Err::<UpscalePlan, UpscaleError>(
            UpscaleError::InvalidScale(scale),
        ),
{
    if !scale.positive() {
        return Err(UpscaleError::InvalidScale(scale));
    }
    let (outer_width, outer_height) = match size {
        SourceSize::Fractional => { return Err(UpscaleError::FractionalInputResolution); },
        SourceSize::Whole { width, height } => (width, height),
    };
    let frame: u32 = if border_aware {
        2
    } else {
        0
    };
    let inner_width = outer_width - frame;
    let inner_height = outer_height - frame;
    let (tiles_x, tiles_y) = mode.tile_counts();
    let not_divisible = UpscaleError::NotDivisibleIntoTiles {
        w: inner_width,
        h: inner_height,
        tx: tiles_x,
        ty: tiles_y,
    };
    if divide_no_remainder(inner_width, tiles_x).is_none() {
        return Err(not_divisible);
    }
    if divide_no_remainder(inner_height, tiles_y).is_none() {
        return Err(not_divisible);
    }
    let final_inner_width = scale_length(inner_width, tiles_x, scale);
    let final_inner_height = scale_length(inner_height, tiles_y, scale);
    let final_outer_width = final_inner_width + frame as u128;
    let final_outer_height = final_inner_height + frame as u128;
    if !can_allocate(final_outer_width, final_outer_height) {
        return Err(
            UpscaleError::InvalidOutputResolution(
                report(final_outer_width),
                report(final_outer_height),
            ),
        );
    }
    Ok(
        UpscalePlan {
            border_aware,
            inner_width,
            inner_height,
            final_inner_width: final_inner_width as u32,
            final_inner_height: final_inner_height as u32,
            final_outer_width: final_outer_width as u32,
            final_outer_height: final_outer_height as u32,
        },
    )
}

/// The factor by which one axis grew. An axis without pixels did not grow.
pub open spec fn axis_scale(to: u32, from: u32) -> Scale {
    if from == 0 {
        Scale { numer: 0, denom: 1 }
    } else {
        Scale { numer: to as i64, denom: from as u64 }
    }
}

impl UpscalePlan {
    /// How far the image is shifted right and down by its frame, in pixels.
    pub open spec fn frame_offset_spec(self) -> u32 {
        if self.border_aware {
            1
        } else {
            0
        }
    }

    /// The factor by which bounds are scaled: the greater of the factors by
    /// which the inner width and the inner height grew, so that a border is
    /// never too narrow along the axis that grew less.
    pub open spec fn border_scale_spec(self) -> Scale {
        let horizontal = axis_scale(self.final_inner_width, self.inner_width);
        let vertical = axis_scale(self.final_inner_height, self.inner_height);
        if horizontal.lt(vertical) {
            vertical
        } else {
            horizontal
        }
    }

    /// How far the image is shifted right and down by its frame, in pixels.
    pub fn frame_offset(&self) -> (offset: u32)
        ensures
            offset == self.frame_offset_spec(),
    {
        if self.border_aware {
            1
        } else {
            0
        }
    }

    /// The factor by which bounds are scaled.
    pub fn border_scale(&self) -> (scale: Scale)
        ensures
            scale == self.border_scale_spec(),
    {
        let horizontal = if self.inner_width == 0 {
            Scale::new(0, 1)
        } else {
            Scale::ratio(self.final_inner_width, self.inner_width)
        };
        let vertical = if self.inner_height == 0 {
            Scale::new(0, 1)
        } else {
            Scale::ratio(self.final_inner_height, self.inner_height)
        };
        assert(horizontal.numer * vertical.denom <= 0xffff_ffff * 0xffff_ffff
            && vertical.numer * horizontal.denom <= 0xffff_ffff * 0xffff_ffff) by (nonlinear_arith)
            requires
                0 <= horizontal.numer <= 0xffff_ffff,
                0 <= vertical.numer <= 0xffff_ffff,
                0 <= horizontal.denom <= 0xffff_ffff,
                0 <= vertical.denom <= 0xffff_ffff,
        ;
        assert(horizontal.numer * vertical.denom >= 0 && vertical.numer * horizontal.denom >= 0)
            by (nonlinear_arith)
            requires
                0 <= horizontal.numer,
                0 <= vertical.numer,
                0 <= horizontal.denom,
                0 <= vertical.denom,
        ;
        if (horizontal.numer as u64) * vertical.denom < (vertical.numer as u64)
            * horizontal.denom {
            vertical
        } else {
            horizontal
        }
    }
}

/// An image with its old border cleared and both bounds drawn again at the
/// scale of `plan`: pink first, yellow over it.
pub open spec fn redrawn(
    pixels: Seq<Rgba>,
    width: nat,
    height: nat,
    plan: UpscalePlan,
    pink: Bounds,
    yellow: Bounds,
) -> Seq<Rgba> {
    let amount = plan.border_scale_spec();
    let cleared = erased(pixels, width, height);
    let with_pink = pink.scaled(amount).painted(cleared, width, height, Marker::Pink);
    yellow.scaled(amount).painted(with_pink, width, height, Marker::Yellow)
}

/// Clears the border that scaling has smeared and draws both bounds again,
/// scaled as `plan` says.
pub fn redraw_bounds(pixmap: &mut Pixmap, plan: &UpscalePlan, pink: &Bounds, yellow: &Bounds)
    requires
        is_packed(*old(pixmap)),
    ensures
        is_packed(*final(pixmap)),
        pixmap_width(*final(pixmap)) == pixmap_width(*old(pixmap)),
        pixmap_height(*final(pixmap)) == pixmap_height(*old(pixmap)),
        pixmap_pixels(*final(pixmap)) == redrawn(
            pixmap_pixels(*old(pixmap)),
            pixmap_width(*old(pixmap)),
            pixmap_height(*old(pixmap)),
            *plan,
            *pink,
            *yellow,
        ),
{
    let amount = plan.border_scale();
    let pink = pink.scale(amount);
    let yellow = yellow.scale(amount);
    erase_bounds(pixmap);
    pink.paint(pixmap, Marker::Pink);
    yellow.paint(pixmap, Marker::Yellow);
}

/// Whether a pixmap is a fresh target of the given size: every pixel clear,
/// and nothing but pixels in its buffer.
pub open spec fn is_blank(target: Pixmap, width: u32, height: u32) -> bool {
    &&& pixmap_width(target) == width
    &&& pixmap_height(target) == height
    &&& is_packed(target)
    &&& pixmap_pixels(target) == Seq::new((width * height) as nat, |i: int| Rgba::clear_spec())
}

/// Whether a pixmap has the given size.
pub open spec fn has_size(pixmap: Pixmap, width: u32, height: u32) -> bool {
    pixmap_width(pixmap) == width && pixmap_height(pixmap) == height
}

/// Whether a pixmap that was handed back is taken: it has the size of the
/// target and its buffer holds its pixels and nothing else.
pub open spec fn is_taken(drawn: Pixmap, width: u32, height: u32) -> bool {
    has_size(drawn, width, height) && is_packed(drawn)
}

/// The error for a pixmap that was handed back and is not taken: it gives
/// the size that the pixmap has.
pub open spec fn refused(drawn: Pixmap) -> UpscaleError {
    UpscaleError::InvalidOutputResolution(pixmap_width(drawn) as u32, pixmap_height(drawn) as u32)
}

/// What [`render`] answers once `draw` has handed back `drawn` for a target
/// of `width` by `height` pixels.
pub open spec fn render_outcome(
    drawn: Pixmap,
    width: u32,
    height: u32,
    rendered: Result<Pixmap, UpscaleError>,
) -> bool {
    if is_taken(drawn, width, height) {
        rendered == Ok::<Pixmap, UpscaleError>(drawn)
    } else {
        rendered == Err::<Pixmap, UpscaleError>(refused(drawn))
    }
}

/// What [`render_upscaled`] answers once `draw` has handed back `drawn` for
/// the target of `plan`.
pub open spec fn upscale_outcome(
    drawn: Pixmap,
    plan: UpscalePlan,
    pink: Option<Bounds>,
    yellow: Option<Bounds>,
    rendered: Result<Pixmap, UpscaleError>,
) -> bool {
    if !is_taken(drawn, plan.final_outer_width, plan.final_outer_height) {
        rendered == Err::<Pixmap, UpscaleError>(refused(drawn))
    } else {
        match (plan.border_aware, pink, yellow, rendered) {
            (true, Some(p), Some(y), Ok(out)) => {
                &&& is_taken(out, plan.final_outer_width, plan.final_outer_height)
                &&& pixmap_pixels(out) == redrawn(
                    pixmap_pixels(drawn),
                    plan.final_outer_width as nat,
                    plan.final_outer_height as nat,
                    plan,
                    p,
                    y,
                )
            },
            (false, _, _, Ok(out)) => out == drawn,
            _ => false,
        }
    }
}

/// Whether a pixmap that was handed back is taken.
fn take(drawn: &Pixmap, width: u32, height: u32) -> (taken: bool)
    ensures
        taken == is_taken(*drawn, width, height),
{
    drawn.width() == width && drawn.height() == height && is_packed_pixmap(drawn)
}

/// Renders the source at its own size.
///
/// A source that is no whole number of pixels wide and high is refused as
/// `FractionalInputResolution`, and one of a size that no pixmap can have as
/// `InvalidOutputResolution`; for neither is anything drawn. Else `draw` is
/// handed a blank pixmap of the size of the source and gives it back with
/// the source drawn onto it. A pixmap that comes back in another size, or
/// with a buffer that holds more or less than its pixels, is refused with
/// the size it has.
pub fn render<F: FnOnce(Pixmap) -> Pixmap>(size: SourceSize, draw: F) -> (rendered: Result<
    Pixmap,
    UpscaleError,
>)
    requires
        forall|target: Pixmap| call_requires(draw, (target,)),
    ensures
        size == SourceSize::Fractional ==> rendered == Err::<Pixmap, UpscaleError>(
            UpscaleError::FractionalInputResolution,
        ),
        size matches SourceSize::Whole { width, height } ==> (!allocatable(
            width as int,
            height as int,
        ) ==> rendered == Err::<Pixmap, UpscaleError>(
            UpscaleError::InvalidOutputResolution(width, height),
        )),
        size matches SourceSize::Whole { width, height } ==> (allocatable(
            width as int,
            height as int,
        ) ==> exists|target: Pixmap, drawn: Pixmap|
            is_blank(target, width, height) && call_ensures(draw, (target,), drawn)
                && render_outcome(drawn, width, height, rendered)),
        rendered matches Ok(out) ==> size matches SourceSize::Whole { width, height } && is_taken(
            out,
            width,
            height,
        ),
{
    let (width, height) = match size {
        SourceSize::Fractional => { return Err(UpscaleError::FractionalInputResolution); },
        SourceSize::Whole { width, height } => (width, height),
    };
    if !can_allocate(width as u128, height as u128) {
        return Err(UpscaleError::InvalidOutputResolution(width, height));
    }
    assert(4 * width * height == 4 * (width as int) * (height as int)) by (nonlinear_arith);
    let target = match Pixmap::new(width, height) {
        Some(target) => target,
        None => { return Err(UpscaleError::InvalidOutputResolution(width, height)); },
    };
    let ghost blank = target;
    let drawn = draw(target);
    let rendered = if take(&drawn, width, height) {
        Ok(drawn)
    } else {
        Err(UpscaleError::InvalidOutputResolution(drawn.width(), drawn.height()))
    };
    assert(is_blank(blank, width, height) && call_ensures(draw, (blank,), drawn) && render_outcome(
        drawn,
        width,
        height,
        rendered,
    ));
    rendered
}

/// Renders the source upscaled by `scale`, every tile of it to whole
/// pixels, and redraws its border at the new scale.
///
/// The steps, in this order: the scale must be positive (`InvalidScale`),
/// the source a whole number of pixels (`FractionalInputResolution`), its
/// inner image must divide into the tiles of `mode` (`NotDivisibleIntoTiles`)
/// and the target must be a size that a pixmap can have
/// (`InvalidOutputResolution`). Then `draw` is handed the blank target and
/// the plan, and gives the target back with the source drawn onto it. A
/// pixmap that comes back in another size, or with a buffer that holds more
/// or less than its pixels, is refused with the size it has. With bounds,
/// the edge strips are cleared and both bounds drawn again.
pub fn render_upscaled<F: FnOnce(Pixmap, UpscalePlan) -> Pixmap>(
    size: SourceSize,
    scale: Scale,
    mode: &UpscaleMode,
    pink_bounds: Option<&Bounds>,
    yellow_bounds: Option<&Bounds>,
    draw: F,
) -> (rendered: Result<Pixmap, UpscaleError>)
    requires
        plannable(
            size,
            scale,
            *mode,
            border_aware_spec(deref_bounds(pink_bounds), deref_bounds(yellow_bounds)),
        ),
        forall|target: Pixmap, plan: UpscalePlan| call_requires(draw, (target, plan)),
    ensures
        !scale.is_positive() ==> rendered == Err::<Pixmap, UpscaleError>(
            UpscaleError::InvalidScale(scale),
        ),
        plan_spec(
            size,
            scale,
            *mode,
            border_aware_spec(deref_bounds(pink_bounds), deref_bounds(yellow_bounds)),
        ) matches Err(error) ==> rendered == Err::<Pixmap, UpscaleError>(error),
        plan_spec(
            size,
            scale,
            *mode,
            border_aware_spec(deref_bounds(pink_bounds), deref_bounds(yellow_bounds)),
        ) matches Ok(plan) ==> exists|target: Pixmap, drawn: Pixmap|
            is_blank(target, plan.final_outer_width, plan.final_outer_height) && call_ensures(
                draw,
                (target, plan),
                drawn,
            ) && upscale_outcome(
                drawn,
                plan,
                deref_bounds(pink_bounds),
                deref_bounds(yellow_bounds),
                rendered,
            ),
        rendered matches Ok(out) ==> plan_spec(
            size,
            scale,
            *mode,
            border_aware_spec(deref_bounds(pink_bounds), deref_bounds(yellow_bounds)),
        ) matches Ok(plan) && is_taken(out, plan.final_outer_width, plan.final_outer_height),
{
    let aware = border_aware(pink_bounds, yellow_bounds);
    let plan = match plan_upscale(size, scale, mode, aware) {
        Ok(plan) => plan,
        Err(error) => { return Err(error); },
    };
    let width = plan.final_outer_width;
    let height = plan.final_outer_height;
    assert(4 * width * height == 4 * (width as int) * (height as int)) by (nonlinear_arith);
    let target = match Pixmap::new(width, height) {
        Some(target) => target,
        None => { return Err(UpscaleError::InvalidOutputResolution(width, height)); },
    };
    let ghost blank = target;
    let mut drawn = draw(target, plan);
    let ghost handed_back = drawn;
    if !take(&drawn, width, height) {
        let rendered = Err(UpscaleError::InvalidOutputResolution(drawn.width(), drawn.height()));
        assert(is_blank(blank, width, height) && call_ensures(draw, (blank, plan), handed_back)
            && upscale_outcome(
            handed_back,
            plan,
            deref_bounds(pink_bounds),
            deref_bounds(yellow_bounds),
            rendered,
        ));
        return rendered;
    }
    match (pink_bounds, yellow_bounds) {
        (Some(pink), Some(yellow)) => {
            if aware {
                redraw_bounds(&mut drawn, &plan, pink, yellow);
            }
        },
        _ => {},
    }
    let rendered = Ok(drawn);
    assert(is_blank(blank, width, height) && call_ensures(draw, (blank, plan), handed_back)
        && upscale_outcome(
        handed_back,
        plan,
        deref_bounds(pink_bounds),
        deref_bounds(yellow_bounds),
        rendered,
    ));
    rendered
}

} // verus!
