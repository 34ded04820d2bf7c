use moodbar::{
    analysis_to_raw_rgb_bytes, decode_png, empty_png, encode_png, fill_column_raw, gradient_stop_indices,
    is_split_shape, new_rgba_buffer, svg_capacity, write_gradient_defs, write_split_style_block,
    write_svg_shell, GradientStop, MoodbarError, SvgOptions, SvgShape,
};

#[test]
fn gradient_stop_count_is_capped() {
    let stops = gradient_stop_indices(5000, 256);
    assert!(stops.len() <= 256);
    assert!(stops.len() > 1);
    assert_eq!(*stops.last().unwrap(), 4999);
}

#[test]
fn gradient_stops_cover_every_frame_when_few() {
    assert_eq!(gradient_stop_indices(0, 256), Vec::<usize>::new());
    assert_eq!(gradient_stop_indices(4, 256), vec![0, 1, 2, 3]);
    assert_eq!(gradient_stop_indices(4, 4), vec![0, 1, 2, 3]);
}

#[test]
fn gradient_stops_spread_with_rounding() {
    // 10 frames, 4 stops: 9 * i / 3 for i in 0..4.
    assert_eq!(gradient_stop_indices(10, 4), vec![0, 3, 6, 9]);
    // 6 frames, 3 stops: 5 * i / 2 = 0, 2.5 -> 3, 5.
    assert_eq!(gradient_stop_indices(6, 3), vec![0, 3, 5]);
    // One allowed stop still keeps the first and the last frame.
    assert_eq!(gradient_stop_indices(7, 1), vec![0, 6]);
}

#[test]
fn gradient_stops_strictly_increase() {
    for frames in [3usize, 17, 100, 2000, 5000] {
        for cap in [2usize, 3, 16, 255, 512] {
            let stops = gradient_stop_indices(frames, cap);
            assert!(stops.len() <= cap.max(frames.min(cap)));
            assert_eq!(stops[0], 0);
            assert_eq!(*stops.last().unwrap(), frames - 1);
            for w in stops.windows(2) {
                assert!(w[0] < w[1]);
            }
        }
    }
}

#[test]
fn split_shapes_are_the_five_band_layouts() {
    assert!(!is_split_shape(SvgShape::Strip));
    assert!(!is_split_shape(SvgShape::Waveform));
    for shape in [
        SvgShape::SplitStacked,
        SvgShape::SplitWaveform,
        SvgShape::SplitLanes,
        SvgShape::SplitCentrifugal,
        SvgShape::SplitOverlapping,
    ] {
        assert!(is_split_shape(shape));
    }
}

#[test]
fn svg_capacity_estimates() {
    assert_eq!(svg_capacity(10, SvgShape::Strip), 10 * 96 + 512);
    assert_eq!(svg_capacity(10, SvgShape::Waveform), 10 * 96 + 512);
    assert_eq!(svg_capacity(10, SvgShape::SplitStacked), 10 * 216 + 256 + 512);
    assert_eq!(svg_capacity(10, SvgShape::SplitWaveform), 10 * 432 + 256 + 512);
    assert_eq!(svg_capacity(10, SvgShape::SplitCentrifugal), 10 * 432 + 256 + 512);
    assert_eq!(svg_capacity(10, SvgShape::SplitLanes), 10 * 216 + 256 + 512);
    assert_eq!(svg_capacity(10, SvgShape::SplitOverlapping), 10 * 216 + 256 + 512);
    assert_eq!(svg_capacity(0, SvgShape::Strip), 512);
}

#[test]
fn style_block_uses_band_colors_and_fallbacks() {
    let mut out = String::new();
    write_split_style_block(&mut out, &vec![[1, 2, 3], [40, 50, 60], [255, 0, 9]]);
    assert_eq!(
        out,
        "<style>.mb-bass{fill:rgb(1,2,3)}.mb-mid{fill:rgb(40,50,60)}.mb-treble{fill:rgb(255,0,9)}</style>"
    );
    let mut fallback = String::from("x");
    write_split_style_block(&mut fallback, &vec![[7, 7, 7]]);
    assert_eq!(
        fallback,
        "x<style>.mb-bass{fill:rgb(7,7,7)}.mb-mid{fill:rgb(240,120,0)}.mb-treble{fill:rgb(0,160,240)}</style>"
    );
}

#[test]
fn svg_shell_clamps_dimensions() {
    let mut out = String::new();
    let dims = write_svg_shell(
        &mut out,
        &SvgOptions { width: 600, height: 0, background: "black", ..SvgOptions::default() },
    );
    assert_eq!(dims, (600, 1));
    assert_eq!(
        out,
        "<svg xmlns=\"http://www.w3.org/2000/svg\" viewBox=\"0 0 600 1\" width=\"600\" height=\"1\"><rect x=\"0\" y=\"0\" width=\"600\" height=\"1\" fill=\"black\"/>"
    );
}

#[test]
fn gradient_defs_markup() {
    let mut out = String::new();
    let stops = vec![
        GradientStop { offset: "0.000".to_string(), color: [10, 20, 30] },
        GradientStop { offset: "100.000".to_string(), color: [0, 0, 255] },
    ];
    let id = write_gradient_defs(&mut out, &vec![[1, 1, 1]], 1200, false, &stops);
    assert_eq!(id, "mood-gradient");
    assert_eq!(
        out,
        "<defs><linearGradient id=\"mood-gradient\" x1=\"0\" y1=\"0\" x2=\"1200\" y2=\"0\" gradientUnits=\"userSpaceOnUse\"><stop offset=\"0.000%\" stop-color=\"rgb(10,20,30)\"/><stop offset=\"100.000%\" stop-color=\"rgb(0,0,255)\"/></linearGradient></defs>"
    );
    let mut styled = String::new();
    write_gradient_defs(&mut styled, &vec![[1, 1, 1]], 5, true, &Vec::new());
    assert!(styled.starts_with("<defs><style>.mb-bass{fill:rgb(1,1,1)}"));
    assert!(styled.ends_with("</linearGradient></defs>"));
}

#[test]
fn raw_rgb_bytes_interleave_channels() {
    let bytes = analysis_to_raw_rgb_bytes(&vec![[1, 2, 3], [4, 5, 6]]);
    assert_eq!(bytes, vec![1, 2, 3, 4, 5, 6]);
    assert!(analysis_to_raw_rgb_bytes(&Vec::new()).is_empty());
}

#[test]
fn fill_column_paints_only_that_column() {
    let mut buf = new_rgba_buffer(3, 4);
    assert_eq!(buf.len(), 48);
    assert!(buf.iter().all(|b| *b == 0));
    fill_column_raw(&mut buf, 3, 1, 1, 3, [9, 8, 7, 6]);
    for y in 0..4usize {
        for x in 0..3usize {
            let px = &buf[(y * 3 + x) * 4..(y * 3 + x) * 4 + 4];
            if x == 1 && (1..3).contains(&y) {
                assert_eq!(px, &[9, 8, 7, 6]);
            } else {
                assert_eq!(px, &[0, 0, 0, 0]);
            }
        }
    }
    let before = buf.clone();
    fill_column_raw(&mut buf, 3, 0, 2, 2, [1, 1, 1, 1]);
    assert_eq!(buf, before);
}

#[test]
fn png_encoding_produces_valid_png_signature() {
    let mut buf = new_rgba_buffer(64, 24);
    fill_column_raw(&mut buf, 64, 5, 0, 24, [255, 0, 0, 255]);
    let png = encode_png(buf.clone(), 64, 24).expect("encode png");
    assert!(png.starts_with(b"\x89PNG\r\n\x1a\n"));
    let decoded = image::load_from_memory(&png).unwrap().into_rgba8();
    assert_eq!(decoded.dimensions(), (64, 24));
    assert_eq!(decoded.as_raw(), &buf);
}

#[test]
fn png_encoding_refuses_empty_dimensions() {
    assert!(matches!(encode_png(Vec::new(), 0, 5), Err(MoodbarError::Image(_))));
    let png = empty_png(4, 2).unwrap();
    let decoded = image::load_from_memory(&png).unwrap().into_rgba8();
    assert_eq!(decoded.dimensions(), (4, 2));
    assert!(decoded.as_raw().iter().all(|b| *b == 0));
}

#[test]
fn png_round_trip_through_decode() {
    let mut buf = new_rgba_buffer(7, 3);
    fill_column_raw(&mut buf, 7, 6, 1, 3, [10, 20, 30, 40]);
    let png = encode_png(buf.clone(), 7, 3).expect("encode png");
    let decoded = decode_png(&png).expect("decode png");
    assert_eq!((decoded.width, decoded.height), (7, 3));
    assert_eq!(decoded.rgba, buf);
    assert!(matches!(decode_png(&b"not a png".to_vec()), Err(MoodbarError::Image(_))));
}
