//! Pixels and the four classes a border scan tells apart.

use vstd::prelude::*;

verus! {

/// One RGBA8 pixel as a pixel buffer stores it (colour channels premultiplied
/// by alpha).
#[derive(Clone, Copy, Debug, PartialEq, Eq, Structural)]
pub struct Rgba {
    pub r: u8,
    pub g: u8,
    pub b: u8,
    pub a: u8,
}

/// What a pixel means to the border scan.
#[derive(Clone, Copy, Debug, PartialEq, Eq, Structural)]
pub enum PixelClass {
    /// Fully opaque (255, 255, 0).
    Yellow,
    /// Fully opaque (255, 0, 255).
    Pink,
    /// Alpha zero, whatever the colour channels hold.
    Transparent,
    /// Anything else.
    Other,
}

/// One of the two colours that a border may be drawn in.
#[derive(Clone, Copy, Debug, PartialEq, Eq, Structural)]
pub enum Marker {
    Yellow,
    Pink,
}

impl Marker {
    /// The pixel that this marker is drawn with.
    pub open spec fn rgba_spec(self) -> Rgba {
        match self {
            Marker::Yellow => Rgba::yellow_spec(),
            Marker::Pink => Rgba::pink_spec(),
        }
    }

    /// The class that a pixel of this marker has.
    pub open spec fn class(self) -> PixelClass {
        match self {
            Marker::Yellow => PixelClass::Yellow,
            Marker::Pink => PixelClass::Pink,
        }
    }

    #[verifier::when_used_as_spec(rgba_spec)]
    pub fn rgba(self) -> (c: Rgba)
        ensures
            c == self.rgba_spec(),
            c.class() == self.class(),
    {
        match self {
            Marker::Yellow => Rgba::yellow(),
            Marker::Pink => Rgba::pink(),
        }
    }
}

impl Rgba {
    /// Fully opaque yellow, the first marker colour.
    pub open spec fn yellow_spec() -> Rgba {
        Rgba { r: 255, g: 255, b: 0, a: 255 }
    }

    /// Fully opaque pink, the second marker colour.
    pub open spec fn pink_spec() -> Rgba {
        Rgba { r: 255, g: 0, b: 255, a: 255 }
    }

    /// Transparent black, what an erased pixel holds.
    pub open spec fn clear_spec() -> Rgba {
        Rgba { r: 0, g: 0, b: 0, a: 0 }
    }

    /// The class of this pixel.
    pub open spec fn class(self) -> PixelClass {
        if self.a == 0 {
            PixelClass::Transparent
        } else if self == Rgba::yellow_spec() {
            PixelClass::Yellow
        } else if self == Rgba::pink_spec() {
            PixelClass::Pink
        } else {
            PixelClass::Other
        }
    }

    #[verifier::when_used_as_spec(yellow_spec)]
    pub fn yellow() -> (c: Rgba)
        ensures
            c == Rgba::yellow_spec(),
    {
        Rgba { r: 255, g: 255, b: 0, a: 255 }
    }

    #[verifier::when_used_as_spec(pink_spec)]
    pub fn pink() -> (c: Rgba)
        ensures
            c == Rgba::pink_spec(),
    {
        Rgba { r: 255, g: 0, b: 255, a: 255 }
    }

    #[verifier::when_used_as_spec(clear_spec)]
    pub fn clear() -> (c: Rgba)
        ensures
            c == Rgba::clear_spec(),
    {
        Rgba { r: 0, g: 0, b: 0, a: 0 }
    }

    /// Classifies one pixel: a marker colour only when fully opaque with the
    /// exact colour, transparent whenever alpha is zero, `Other` otherwise.
    pub fn classify(&self) -> (c: PixelClass)
        ensures
            c == self.class(),
    {
        if self.a == 0 {
            PixelClass::Transparent
        } else if self.a == 255 && self.r == 255 && self.g == 255 && self.b == 0 {
            PixelClass::Yellow
        } else if self.a == 255 && self.r == 255 && self.g == 0 && self.b == 255 {
            PixelClass::Pink
        } else {
            PixelClass::Other
        }
    }
}

} // verus!
