use reaper_svg::pixel::{Marker, PixelClass, Rgba};

fn rgba(r: u8, g: u8, b: u8, a: u8) -> Rgba {
    Rgba { r, g, b, a }
}

#[test]
fn opaque_yellow_and_pink_are_markers() {
    assert_eq!(rgba(255, 255, 0, 255).classify(), PixelClass::Yellow);
    assert_eq!(rgba(255, 0, 255, 255).classify(), PixelClass::Pink);
    assert_eq!(Rgba::yellow().classify(), PixelClass::Yellow);
    assert_eq!(Rgba::pink().classify(), PixelClass::Pink);
}

#[test]
fn alpha_zero_is_transparent_whatever_the_colour() {
    assert_eq!(rgba(0, 0, 0, 0).classify(), PixelClass::Transparent);
    assert_eq!(rgba(255, 255, 0, 0).classify(), PixelClass::Transparent);
    assert_eq!(rgba(255, 0, 255, 0).classify(), PixelClass::Transparent);
    assert_eq!(rgba(12, 34, 56, 0).classify(), PixelClass::Transparent);
    assert_eq!(Rgba::clear().classify(), PixelClass::Transparent);
}

#[test]
fn everything_else_is_other() {
    assert_eq!(rgba(255, 255, 0, 254).classify(), PixelClass::Other);
    assert_eq!(rgba(255, 0, 255, 1).classify(), PixelClass::Other);
    assert_eq!(rgba(255, 255, 1, 255).classify(), PixelClass::Other);
    assert_eq!(rgba(254, 255, 0, 255).classify(), PixelClass::Other);
    assert_eq!(rgba(255, 1, 255, 255).classify(), PixelClass::Other);
    assert_eq!(rgba(255, 255, 255, 255).classify(), PixelClass::Other);
    assert_eq!(rgba(0, 0, 0, 255).classify(), PixelClass::Other);
    assert_eq!(rgba(0, 255, 255, 255).classify(), PixelClass::Other);
}

#[test]
fn marker_pixels() {
    assert_eq!(Marker::Yellow.rgba(), rgba(255, 255, 0, 255));
    assert_eq!(Marker::Pink.rgba(), rgba(255, 0, 255, 255));
    assert_eq!(Rgba::clear(), rgba(0, 0, 0, 0));
}
