use moodbar::{
    apply_png_patch, apply_svg_patch, check_fft_size, check_frames_per_color, parse_hex_color,
    parse_svg_background, resolve_band_colors, DetectionMode, DetectionModeInput, MoodbarError,
    NormalizeMode, NormalizeModeInput, PngOptions, PngOptionsPatch, SvgOptions, SvgOptionsPatch,
    SvgShape, SvgShapeInput, Theme, ThemeInput,
};

#[test]
fn defaults_match_documentation() {
    let svg = SvgOptions::default();
    assert_eq!((svg.width, svg.height, svg.shape), (1200, 96, SvgShape::Strip));
    assert_eq!(svg.background, "transparent");
    assert_eq!(svg.max_gradient_stops, 512);
    let png = PngOptions::default();
    assert_eq!((png.width, png.height, png.shape), (1200, 96, SvgShape::Strip));
    assert_eq!(Theme::default(), Theme::Classic);
}

#[test]
fn background_names() {
    for name in ["transparent", "black", "white", "none"] {
        assert_eq!(parse_svg_background(name), Ok(name));
    }
    assert_eq!(
        parse_svg_background("red"),
        Err("unsupported background; use one of: transparent, black, white, none".to_string())
    );
    assert!(parse_svg_background("Black").is_err());
}

#[test]
fn svg_patch_replaces_present_fields() {
    let mut options = SvgOptions::default();
    let patch = SvgOptionsPatch {
        width: Some(600),
        height: Some(64),
        shape: Some(SvgShapeInput::Waveform),
        background: Some("white".to_string()),
        max_gradient_stops: None,
    };
    assert_eq!(apply_svg_patch(&mut options, patch), Ok(()));
    assert_eq!((options.width, options.height), (600, 64));
    assert_eq!(options.shape, SvgShape::Waveform);
    assert_eq!(options.background, "white");
    assert_eq!(options.max_gradient_stops, 512);
}

#[test]
fn svg_patch_with_bad_background_fails_after_other_fields() {
    let mut options = SvgOptions::default();
    let patch = SvgOptionsPatch {
        width: Some(10),
        background: Some("purple".to_string()),
        ..SvgOptionsPatch::default()
    };
    assert!(apply_svg_patch(&mut options, patch).is_err());
    assert_eq!(options.width, 10);
    assert_eq!(options.background, "transparent");
}

#[test]
fn empty_patches_change_nothing() {
    let mut svg = SvgOptions::default();
    assert!(apply_svg_patch(&mut svg, SvgOptionsPatch::default()).is_ok());
    assert_eq!((svg.width, svg.height, svg.shape, svg.background), (1200, 96, SvgShape::Strip, "transparent"));
    let mut png = PngOptions::default();
    apply_png_patch(&mut png, PngOptionsPatch::default());
    assert_eq!(png, PngOptions::default());
}

#[test]
fn png_patch_replaces_present_fields() {
    let mut options = PngOptions::default();
    apply_png_patch(
        &mut options,
        PngOptionsPatch { width: Some(100), height: Some(20), shape: Some(SvgShapeInput::SplitStacked) },
    );
    assert_eq!(options, PngOptions { width: 100, height: 20, shape: SvgShape::SplitStacked });
}

#[test]
fn input_enums_convert() {
    assert_eq!(NormalizeMode::from(NormalizeModeInput::GlobalPeak), NormalizeMode::GlobalPeak);
    assert_eq!(DetectionMode::from(DetectionModeInput::SpectralFlux), DetectionMode::SpectralFlux);
    assert_eq!(SvgShape::from(SvgShapeInput::SplitLanes), SvgShape::SplitLanes);
    assert_eq!(Theme::from(ThemeInput::Light), Theme::Light);
}

#[test]
fn hex_colors() {
    assert_eq!(parse_hex_color("#ff00Aa"), [255, 0, 170]);
    assert_eq!(parse_hex_color("  ##102030\n"), [16, 32, 48]);
    assert_eq!(parse_hex_color("+f0a0b"), [15, 10, 11]);
    assert_eq!(parse_hex_color("#12345"), [0, 0, 0]);
    assert_eq!(parse_hex_color("#12345g"), [0, 0, 0]);
    assert_eq!(parse_hex_color("#1234567"), [0, 0, 0]);
    assert_eq!(parse_hex_color(""), [0, 0, 0]);
}

#[test]
fn option_checks() {
    assert!(check_fft_size(2048).is_ok());
    assert!(check_fft_size(64).is_ok());
    assert_eq!(
        check_fft_size(100),
        Err(MoodbarError::InvalidOptions("fft_size must be a power of two and >= 64".to_string()))
    );
    assert!(check_fft_size(32).is_err());
    assert!(check_fft_size(0).is_err());
    assert!(check_frames_per_color(1).is_ok());
    assert_eq!(
        check_frames_per_color(0),
        Err(MoodbarError::InvalidOptions("frames_per_color must be >= 1".to_string()))
    );
}

#[test]
fn custom_themes_and_colors_work() {
    let none: Option<Vec<[u8; 3]>> = None;
    assert_eq!(
        resolve_band_colors(3, Theme::Cool, &none, &Vec::new()),
        vec![[220, 20, 180], [240, 120, 0], [0, 160, 240]]
    );
    assert_eq!(
        resolve_band_colors(3, Theme::Light, &none, &Vec::new()),
        vec![[240, 128, 128], [144, 238, 144], [173, 216, 230]]
    );
    let custom = Some(vec![[255, 0, 255], [0, 255, 0], [255, 255, 0]]);
    assert_eq!(
        resolve_band_colors(3, Theme::Classic, &custom, &Vec::new()),
        vec![[255, 0, 255], [0, 255, 0], [255, 255, 0]]
    );
}

#[test]
fn band_colors_are_completed_and_cut() {
    let short = Some(vec![[1, 1, 1]]);
    assert_eq!(
        resolve_band_colors(3, Theme::Cool, &short, &Vec::new()),
        vec![[1, 1, 1], [0, 255, 0], [0, 0, 255]]
    );
    let wheel = vec![[9, 9, 9], [8, 8, 8], [7, 7, 7], [6, 6, 6], [5, 5, 5]];
    let none: Option<Vec<[u8; 3]>> = None;
    assert_eq!(
        resolve_band_colors(5, Theme::Classic, &none, &wheel),
        vec![[255, 0, 0], [0, 255, 0], [0, 0, 255], [6, 6, 6], [5, 5, 5]]
    );
    assert_eq!(resolve_band_colors(2, Theme::Classic, &none, &Vec::new()), vec![[255, 0, 0], [0, 255, 0]]);
}
