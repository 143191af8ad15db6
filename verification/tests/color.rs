use reaper_svg::color::{opacity_alpha, Color};

#[test]
fn channels() {
    let plain = Color::RGB(1, 2, 3);
    assert_eq!((plain.r(), plain.g(), plain.b(), plain.a()), (1, 2, 3, None));
    let alpha = Color::RGBA(4, 5, 6, 7);
    assert_eq!((alpha.r(), alpha.g(), alpha.b(), alpha.a()), (4, 5, 6, Some(7)));
}

#[test]
fn with_a_keeps_an_alpha_that_is_there() {
    assert_eq!(Color::RGB(1, 2, 3).with_a(9), Color::RGBA(1, 2, 3, 9));
    assert_eq!(Color::RGBA(1, 2, 3, 4).with_a(9), Color::RGBA(1, 2, 3, 4));
}

#[test]
fn marker_colours_are_reserved() {
    assert!(Color::RGB(255, 255, 0).is_reaper_reserved());
    assert!(Color::RGB(255, 0, 255).is_reaper_reserved());
    assert!(Color::RGBA(255, 255, 0, 255).is_reaper_reserved());
    assert!(Color::RGBA(255, 0, 255, 255).is_reaper_reserved());
}

#[test]
fn other_colours_are_not_reserved() {
    assert!(!Color::RGBA(255, 255, 0, 254).is_reaper_reserved());
    assert!(!Color::RGBA(255, 0, 255, 0).is_reaper_reserved());
    assert!(!Color::RGB(255, 255, 255).is_reaper_reserved());
    assert!(!Color::RGB(0, 0, 0).is_reaper_reserved());
    assert!(!Color::RGB(255, 255, 1).is_reaper_reserved());
    assert!(!Color::RGB(254, 0, 255).is_reaper_reserved());
    assert!(!Color::RGB(0, 255, 255).is_reaper_reserved());
    assert!(!Color::RGB(255, 0, 0).is_reaper_reserved());
}

fn alpha_by_floats(opacity: f32) -> u8 {
    (255.0 * opacity).round() as u8
}

#[test]
fn opacity_alpha_of_plain_opacities() {
    assert_eq!(opacity_alpha(0.0f32.to_bits()), 0);
    assert_eq!(opacity_alpha(1.0f32.to_bits()), 255);
    assert_eq!(opacity_alpha(0.5f32.to_bits()), 128);
    assert_eq!(opacity_alpha(0.25f32.to_bits()), 64);
    assert_eq!(opacity_alpha(0.1f32.to_bits()), 26);
    assert_eq!(opacity_alpha(0.2f32.to_bits()), 51);
    assert_eq!(opacity_alpha(0.999f32.to_bits()), 255);
    assert_eq!(opacity_alpha(0.001f32.to_bits()), 0);
    assert_eq!(opacity_alpha(0.002f32.to_bits()), 1);
    assert_eq!(opacity_alpha(2.0f32.to_bits()), 255);
    assert_eq!(opacity_alpha((-0.5f32).to_bits()), 0);
    assert_eq!(opacity_alpha(f32::NAN.to_bits()), 0);
    assert_eq!(opacity_alpha(f32::INFINITY.to_bits()), 255);
    assert_eq!(opacity_alpha(f32::NEG_INFINITY.to_bits()), 0);
}

#[test]
fn opacity_alpha_is_what_single_precision_arithmetic_gives() {
    // Every alpha written as an opacity and read back.
    for a in 0..=255u32 {
        let opacity = a as f32 / 255.0;
        assert_eq!(opacity_alpha(opacity.to_bits()), a as u8);
        assert_eq!(opacity_alpha(opacity.to_bits()), alpha_by_floats(opacity));
    }
    // Around every tie, bit by bit.
    for k in 0..=256u32 {
        let tie = (k as f32 + 0.5) / 255.0;
        let bits = tie.to_bits();
        for near in bits.saturating_sub(300)..bits + 300 {
            assert_eq!(
                opacity_alpha(near),
                alpha_by_floats(f32::from_bits(near)),
                "bits {near:#x}"
            );
        }
    }
    // A sweep over all singles, and each exponent from its first mantissa on.
    let mut bits: u32 = 0;
    loop {
        assert_eq!(opacity_alpha(bits), alpha_by_floats(f32::from_bits(bits)), "bits {bits:#x}");
        match bits.checked_add(104729) {
            Some(next) => bits = next,
            None => break,
        }
    }
    for exponent in 0..=255u32 {
        for mantissa in (0..0x80_0000u32).step_by(65521).chain([1, 2, 3, 0x7f_ffff, 0x40_0000]) {
            for sign in [0u32, 0x8000_0000] {
                let bits = sign | (exponent << 23) | mantissa;
                assert_eq!(
                    opacity_alpha(bits),
                    alpha_by_floats(f32::from_bits(bits)),
                    "bits {bits:#x}"
                );
            }
        }
    }
}

#[test]
fn with_opacity_keeps_an_alpha_that_is_there() {
    assert_eq!(Color::RGB(1, 2, 3).with_opacity(0.5f32.to_bits()), Color::RGBA(1, 2, 3, 128));
    assert_eq!(Color::RGBA(1, 2, 3, 4).with_opacity(0.5f32.to_bits()), Color::RGBA(1, 2, 3, 4));
}
