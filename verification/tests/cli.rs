use reaper_svg::cli::{output_route, upscale_mode_of, OutputRoute, TileCount, TileSetting};
use reaper_svg::render::UpscaleMode;
use reaper_svg::scale::Scale;

fn count(n: u32) -> TileCount {
    TileCount::new(n).unwrap()
}

#[test]
fn validate_cli() {
    // Every tile setting that a command line can name stands for a mode
    // with at least one tile in each direction.
    let settings = vec![
        TileSetting::HorizontalButton,
        TileSetting::VerticalButton,
        TileSetting::Grid { tx: count(2), ty: count(5) },
        TileSetting::HorizontalTiles { tx: count(4) },
        TileSetting::VerticalTiles { ty: count(7) },
    ];
    for setting in settings.iter() {
        let (tx, ty) = setting.upscale_mode().tile_counts();
        assert!(tx >= 1 && ty >= 1);
    }
    assert!(TileCount::new(0).is_none());
    assert_eq!(upscale_mode_of(None), UpscaleMode::Normal);
}

#[test]
fn tile_settings_map_to_modes() {
    assert_eq!(TileSetting::HorizontalButton.upscale_mode(), UpscaleMode::HorizontalTiles(3));
    assert_eq!(TileSetting::VerticalButton.upscale_mode(), UpscaleMode::VerticalTiles(3));
    assert_eq!(
        TileSetting::Grid { tx: count(2), ty: count(5) }.upscale_mode(),
        UpscaleMode::Grid { x: 2, y: 5 }
    );
    assert_eq!(
        TileSetting::HorizontalTiles { tx: count(4) }.upscale_mode(),
        UpscaleMode::HorizontalTiles(4)
    );
    assert_eq!(
        TileSetting::VerticalTiles { ty: count(7) }.upscale_mode(),
        UpscaleMode::VerticalTiles(7)
    );
    let setting = TileSetting::VerticalTiles { ty: count(7) };
    assert_eq!(upscale_mode_of(Some(&setting)), UpscaleMode::VerticalTiles(7));
    assert_eq!(count(9).get(), 9);
}

#[test]
fn scale_of_one_passes_through() {
    assert_eq!(output_route(Scale::new(1, 1)), OutputRoute::PassThrough);
    assert_eq!(output_route(Scale::new(8, 8)), OutputRoute::PassThrough);
}

#[test]
fn scale_below_one_is_unsupported() {
    assert_eq!(output_route(Scale::new(1, 2)), OutputRoute::Unsupported);
    assert_eq!(output_route(Scale::new(0, 1)), OutputRoute::Unsupported);
    assert_eq!(output_route(Scale::new(-3, 2)), OutputRoute::Unsupported);
}

#[test]
fn scale_above_one_is_upscaled() {
    assert_eq!(output_route(Scale::new(3, 2)), OutputRoute::Upscale);
    assert_eq!(output_route(Scale::new(2, 1)), OutputRoute::Upscale);
    // A factor that is no number is left to the renderer to refuse.
    assert_eq!(output_route(Scale::new(1, 0)), OutputRoute::Upscale);
}
