//! What a render task says of tiles and of scales.

use vstd::prelude::*;

use crate::render::UpscaleMode;
use crate::scale::Scale;

verus! {

/// A number of tiles: never zero.
#[derive(Clone, Copy, Debug, PartialEq, Eq)]
pub struct TileCount {
    count: u32,
}

impl TileCount {
    #[verifier::type_invariant]
    spec fn positive(self) -> bool {
        self.count > 0
    }

    /// The number of tiles.
    pub closed spec fn value(self) -> u32 {
        self.count
    }

    /// `count` tiles, or `None` for zero.
    pub fn new(count: u32) -> (tiles: Option<TileCount>)
        ensures
            tiles is Some <==> count > 0,
            tiles matches Some(t) ==> t.value() == count,
    {
        if count == 0 {
            None
        } else {
            Some(TileCount { count })
        }
    }

    /// The number of tiles, which is at least one.
    pub fn get(&self) -> (count: u32)
        ensures
            count == self.value(),
            count > 0,
    {
        proof {
            use_type_invariant(self);
        }
        self.count
    }
}

/// How a task asks for its image to be divided into tiles.
#[derive(Clone, Copy, Debug)]
pub enum TileSetting {
    /// Three equal tiles side by side: a horizontally sliced button.
    HorizontalButton,
    /// Three equal tiles stacked vertically: a vertically sliced button.
    VerticalButton,
    /// `tx` columns and `ty` rows of tiles.
    Grid { tx: TileCount, ty: TileCount },
    /// `tx` tiles side by side.
    HorizontalTiles { tx: TileCount },
    /// `ty` tiles stacked vertically.
    VerticalTiles { ty: TileCount },
}

impl TileSetting {
    /// The upscale mode that this setting stands for.
    pub open spec fn mode_spec(self) -> UpscaleMode {
        match self {
            TileSetting::HorizontalButton => UpscaleMode::HorizontalTiles(3),
            TileSetting::VerticalButton => UpscaleMode::VerticalTiles(3),
            TileSetting::Grid { tx, ty } => UpscaleMode::Grid { x: tx.value(), y: ty.value() },
            TileSetting::HorizontalTiles { tx } => UpscaleMode::HorizontalTiles(tx.value()),
            TileSetting::VerticalTiles { ty } => UpscaleMode::VerticalTiles(ty.value()),
        }
    }

    /// The upscale mode that this setting stands for. It has at least one
    /// tile in each direction.
    pub fn upscale_mode(&self) -> (mode: UpscaleMode)
        ensures
            mode == self.mode_spec(),
            mode.well_formed(),
    {
        match self {
            TileSetting::HorizontalButton => UpscaleMode::horizontal_button(),
            TileSetting::VerticalButton => UpscaleMode::vertical_button(),
            TileSetting::Grid { tx, ty } => UpscaleMode::Grid { x: tx.get(), y: ty.get() },
            TileSetting::HorizontalTiles { tx } => UpscaleMode::HorizontalTiles(tx.get()),
            TileSetting::VerticalTiles { ty } => UpscaleMode::VerticalTiles(ty.get()),
        }
    }
}

/// The upscale mode of a task: that of its tile setting, or `Normal` where
/// it has none.
pub fn upscale_mode_of(setting: Option<&TileSetting>) -> (mode: UpscaleMode)
    ensures
        mode.well_formed(),
        setting matches Some(s) ==> mode == s.mode_spec(),
        setting is None ==> mode == UpscaleMode::Normal,
{
    match setting {
        Some(setting) => setting.upscale_mode(),
        None => UpscaleMode::Normal,
    }
}

/// What is done for one output of a task.
#[derive(Clone, Copy, Debug, PartialEq, Eq, Structural)]
pub enum OutputRoute {
    /// The image rendered at its own size is the output.
    PassThrough,
    /// The image is rendered again, upscaled.
    Upscale,
    /// Scales below one are not supported.
    Unsupported,
}

/// The route that a scale takes: exactly one passes the plain render
/// through, a number below one is refused, anything else is upscaled.
pub open spec fn route_spec(scale: Scale) -> OutputRoute {
    if scale.is_one() {
        OutputRoute::PassThrough
    } else if scale.is_below_one() {
        OutputRoute::Unsupported
    } else {
        OutputRoute::Upscale
    }
}

/// Decides what is done for an output of the given scale.
pub fn output_route(scale: Scale) -> (route: OutputRoute)
    ensures
        route == route_spec(scale),
{
    if scale.denom == 0 {
        return OutputRoute::Upscale;
    }
    if scale.numer > 0 && scale.numer as u64 == scale.denom {
        OutputRoute::PassThrough
    } else if scale.numer <= 0 || (scale.numer as u64) < scale.denom {
        OutputRoute::Unsupported
    } else {
        OutputRoute::Upscale
    }
}

} // verus!
