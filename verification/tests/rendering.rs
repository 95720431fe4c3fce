use glyphcast::bitmap::Bitmap;
use glyphcast::color::Rgba;
use glyphcast::frame::{AsciiFrame, Cell};
use glyphcast::layout::target_size;
use glyphcast::present::{fit_and_render, PresentError};
use glyphcast::quantize::Quantizer;
use glyphcast::ramp::{GlyphRamp, RampOrder};
use glyphcast::render::{image_to_ascii_with_color, render, RenderError};
use glyphcast::resize::{can_resize, resize_exact, ResizeError, RESIZE_LIMIT};

fn shape_of(width: usize, height: usize) {
    let bitmap = Bitmap::filled(width, height, Rgba::opaque(90, 120, 30)).unwrap();
    let frame = render(&bitmap, &GlyphRamp::standard(), &Quantizer::perceptual()).unwrap();
    assert_eq!(frame.height(), height);
    assert_eq!(frame.width(), width);
    for y in 0..height {
        assert_eq!(frame.line(y).chars().count(), width);
        assert_eq!(frame.colors(y).len(), width);
    }
}

#[test]
fn shape_one_by_one() {
    shape_of(1, 1);
}

#[test]
fn shape_one_by_hundred() {
    shape_of(1, 100);
}

#[test]
fn shape_hundred_by_one() {
    shape_of(100, 1);
}

#[test]
fn shape_odd_dimensions() {
    shape_of(37, 19);
}

#[test]
fn colours_come_through_unchanged() {
    let green = Rgba::opaque(34, 177, 76);
    let bitmap = Bitmap::filled(7, 5, green).unwrap();
    let frame = render(&bitmap, &GlyphRamp::standard(), &Quantizer::perceptual()).unwrap();
    for y in 0..5 {
        for x in 0..7 {
            assert_eq!(frame.cell(x, y), Cell { glyph: '~', color: green });
        }
        assert_eq!(frame.colors(y), vec![green; 7]);
        assert_eq!(frame.line(y), "~~~~~~~");
    }
}

#[test]
fn rows_and_columns_keep_their_order() {
    let pixels = vec![
        Rgba::opaque(0, 0, 0),
        Rgba::opaque(255, 255, 255),
        Rgba::opaque(128, 128, 128),
        Rgba::opaque(255, 0, 0),
        Rgba::opaque(0, 255, 0),
        Rgba::opaque(0, 0, 255),
    ];
    let bitmap = Bitmap::new(3, 2, pixels.clone()).unwrap();
    let frame = render(&bitmap, &GlyphRamp::standard(), &Quantizer::perceptual()).unwrap();
    assert_eq!(frame.lines(), vec!["@ *".to_string(), "$:@".to_string()]);
    assert_eq!(frame.text(), "@ *\n$:@\n");
    assert_eq!(frame.color_rows(), vec![pixels[0..3].to_vec(), pixels[3..6].to_vec()]);
    assert_eq!(frame.cell(1, 0).color, Rgba::opaque(255, 255, 255));
    assert_eq!(frame.cell(0, 1).glyph, '$');
    let inverse = render(&bitmap, &GlyphRamp::dense_first(), &Quantizer::perceptual()).unwrap();
    assert_eq!(inverse.text(), "@.?\nS;@\n");
}

#[test]
fn empty_bitmaps_are_refused() {
    let ramp = GlyphRamp::standard();
    let q = Quantizer::perceptual();
    let no_rows = Bitmap::new(5, 0, Vec::new()).unwrap();
    let no_cols = Bitmap::new(0, 5, Vec::new()).unwrap();
    let nothing = Bitmap::new(0, 0, Vec::new()).unwrap();
    assert!(matches!(render(&no_rows, &ramp, &q), Err(RenderError::InvalidBitmap)));
    assert!(matches!(render(&no_cols, &ramp, &q), Err(RenderError::InvalidBitmap)));
    assert!(matches!(render(&nothing, &ramp, &q), Err(RenderError::InvalidBitmap)));
    assert!(matches!(image_to_ascii_with_color(&nothing), Err(RenderError::InvalidBitmap)));
}

#[test]
fn standard_rendering_hands_out_both_grids() {
    let pixels = vec![Rgba::new(0, 0, 0, 7), Rgba::new(255, 255, 255, 9)];
    let bitmap = Bitmap::new(1, 2, pixels.clone()).unwrap();
    let (lines, colors) = image_to_ascii_with_color(&bitmap).unwrap();
    assert_eq!(lines, vec!["@".to_string(), " ".to_string()]);
    assert_eq!(colors, vec![vec![pixels[0]], vec![pixels[1]]]);
}

#[test]
fn custom_ramps() {
    let ramp = GlyphRamp::from_text("ab", RampOrder::DenseFirst).unwrap();
    assert_eq!(ramp.len(), 2);
    assert_eq!(ramp.direction(), RampOrder::DenseFirst);
    assert_eq!((ramp.glyph(0), ramp.glyph(1)), ('a', 'b'));
    assert!(GlyphRamp::from_text("", RampOrder::LightFirst).is_none());
    assert!(GlyphRamp::new(Vec::new(), RampOrder::LightFirst).is_none());
    let one = GlyphRamp::new(vec!['#'], RampOrder::LightFirst).unwrap();
    let bitmap = Bitmap::filled(2, 1, Rgba::opaque(9, 200, 13)).unwrap();
    assert_eq!(render(&bitmap, &one, &Quantizer::perceptual()).unwrap().text(), "##\n");
    let black_white = Bitmap::new(2, 1, vec![Rgba::opaque(0, 0, 0), Rgba::opaque(255, 255, 255)])
        .unwrap();
    assert_eq!(render(&black_white, &ramp, &Quantizer::red_channel()).unwrap().text(), "ab\n");
    let standard = GlyphRamp::standard();
    let spelled: String = (0..standard.len()).map(|i| standard.glyph(i)).collect();
    assert_eq!(spelled, " .\u{b7}:!~*=$#@");
    let dense = GlyphRamp::dense_first();
    let spelled: String = (0..dense.len()).map(|i| dense.glyph(i)).collect();
    assert_eq!(spelled, "@#S%?*+;:,.");
}

#[test]
fn frames_from_rows() {
    let c = Cell { glyph: 'x', color: Rgba::opaque(1, 2, 3) };
    let frame = AsciiFrame::from_rows(vec![vec![c, c], vec![c, c], vec![c, c]]).unwrap();
    assert_eq!((frame.width(), frame.height()), (2, 3));
    assert_eq!(frame.text(), "xx\nxx\nxx\n");
    assert!(AsciiFrame::from_rows(vec![vec![c, c], vec![c]]).is_none());
    assert!(AsciiFrame::from_rows(vec![vec![], vec![c]]).is_none());
    let empty = AsciiFrame::from_rows(Vec::new()).unwrap();
    assert_eq!((empty.width(), empty.height()), (0, 0));
    assert_eq!(empty.text(), "");
    assert!(empty.lines().is_empty());
}

#[test]
fn bitmaps_from_buffers() {
    assert!(Bitmap::new(2, 2, vec![Rgba::opaque(0, 0, 0); 3]).is_none());
    assert!(Bitmap::new(usize::MAX, 2, Vec::new()).is_none());
    assert!(Bitmap::filled(usize::MAX, 2, Rgba::opaque(0, 0, 0)).is_none());
    let rgba = Bitmap::from_rgba_bytes(2, 1, &[1, 2, 3, 4, 5, 6, 7, 8]).unwrap();
    assert_eq!((rgba.width(), rgba.height()), (2, 1));
    assert_eq!(rgba.pixel(0, 0), Rgba::new(1, 2, 3, 4));
    assert_eq!(rgba.pixel(1, 0), Rgba::new(5, 6, 7, 8));
    assert_eq!(rgba.to_rgba_bytes().unwrap(), vec![1, 2, 3, 4, 5, 6, 7, 8]);
    assert!(Bitmap::from_rgba_bytes(2, 1, &[1, 2, 3, 4, 5, 6, 7]).is_none());
    assert!(Bitmap::from_rgba_bytes(2, 1, &[0; 12]).is_none());
    let rgb = Bitmap::from_rgb_bytes(1, 2, &[1, 2, 3, 4, 5, 6]).unwrap();
    assert_eq!(rgb.pixel(0, 0), Rgba::new(1, 2, 3, 255));
    assert_eq!(rgb.pixel(0, 1), Rgba::new(4, 5, 6, 255));
    assert!(Bitmap::from_rgb_bytes(1, 2, &[1, 2, 3, 4, 5]).is_none());
    let grid = Bitmap::new(2, 3, (0..6).map(|i| Rgba::opaque(i, 0, 0)).collect()).unwrap();
    assert_eq!(grid.pixel(1, 2), Rgba::opaque(5, 0, 0));
    assert_eq!(grid.pixel(0, 1), Rgba::opaque(2, 0, 0));
    assert_eq!(Rgba::new(9, 8, 7, 6).foreground(), (9, 8, 7));
}

#[test]
fn resizing_gives_the_size_asked_for() {
    let pixels: Vec<Rgba> = (0..16u8).map(|i| Rgba::opaque(i * 16, 255 - i * 16, 40)).collect();
    let bitmap = Bitmap::new(4, 4, pixels).unwrap();
    let small = resize_exact(&bitmap, 2, 3).unwrap();
    assert_eq!((small.width(), small.height()), (2, 3));
    let large = resize_exact(&bitmap, 9, 5).unwrap();
    assert_eq!((large.width(), large.height()), (9, 5));
    let none = resize_exact(&bitmap, 0, 5).unwrap();
    assert_eq!((none.width(), none.height()), (0, 5));
}

#[test]
fn resizing_to_the_same_size_copies() {
    let pixels: Vec<Rgba> = (0..6u8).map(|i| Rgba::new(i, 2 * i, 3 * i, 200 + i)).collect();
    let bitmap = Bitmap::new(3, 2, pixels.clone()).unwrap();
    let same = resize_exact(&bitmap, 3, 2).unwrap();
    for y in 0..2 {
        for x in 0..3 {
            assert_eq!(same.pixel(x, y), pixels[y * 3 + x]);
        }
    }
}

#[test]
fn resizing_one_colour_keeps_it() {
    let c = Rgba::opaque(34, 177, 76);
    let bitmap = Bitmap::filled(8, 6, c).unwrap();
    let scaled = resize_exact(&bitmap, 5, 3).unwrap();
    for y in 0..3 {
        for x in 0..5 {
            assert_eq!(scaled.pixel(x, y), c);
        }
    }
}

#[test]
fn resizing_nothing_gives_transparent_black() {
    let empty = Bitmap::new(0, 3, Vec::new()).unwrap();
    let scaled = resize_exact(&empty, 2, 2).unwrap();
    for y in 0..2 {
        for x in 0..2 {
            assert_eq!(scaled.pixel(x, y), Rgba::new(0, 0, 0, 0));
        }
    }
}

#[test]
fn resizing_beyond_the_limit_is_refused() {
    let bitmap = Bitmap::filled(2, 2, Rgba::opaque(1, 2, 3)).unwrap();
    assert!(matches!(resize_exact(&bitmap, RESIZE_LIMIT + 1, 1), Err(ResizeError::TooLarge)));
    assert!(matches!(resize_exact(&bitmap, 1, u32::MAX), Err(ResizeError::TooLarge)));
    assert!(!can_resize(2, 2, RESIZE_LIMIT + 1, 1));
    assert!(!can_resize(RESIZE_LIMIT as usize + 1, 2, 1, 1));
    assert!(can_resize(2, 2, 250, 100));
    assert!(can_resize(0, 0, 0, 0));
}

#[test]
fn target_sizes() {
    assert_eq!(target_size(Some(40), 100), (100, 40));
    assert_eq!(target_size(None, 100), (125, 50));
    assert_eq!(target_size(None, 50), (125, 50));
    assert_eq!(target_size(Some(200), 100), (250, 100));
    assert_eq!(target_size(Some(200), 50), (125, 50));
    assert_eq!(target_size(Some(33), 100), (82, 33));
    assert_eq!(target_size(Some(1), 100), (2, 1));
    assert_eq!(target_size(Some(0), 100), (0, 0));
    assert_eq!(target_size(Some(65535), u32::MAX), (163837, 65535));
    assert_eq!(target_size(None, 0), (0, 0));
}

#[test]
fn pictures_are_fitted_to_the_terminal() {
    let ramp = GlyphRamp::standard();
    let q = Quantizer::perceptual();
    let picture = Bitmap::filled(40, 30, Rgba::opaque(255, 255, 255)).unwrap();
    let frame = fit_and_render(&picture, Some(8), 100, &ramp, &q).unwrap();
    assert_eq!((frame.width(), frame.height()), (20, 8));
    assert_eq!(frame.line(0), " ".repeat(20));
    assert_eq!(frame.cell(19, 7).color, Rgba::opaque(255, 255, 255));
    let capped = fit_and_render(&picture, Some(500), 4, &ramp, &q).unwrap();
    assert_eq!((capped.width(), capped.height()), (10, 4));
    let unknown = fit_and_render(&picture, None, 100, &ramp, &q).unwrap();
    assert_eq!((unknown.width(), unknown.height()), (125, 50));
}

#[test]
fn fitting_reports_why_it_failed() {
    let ramp = GlyphRamp::standard();
    let q = Quantizer::perceptual();
    let picture = Bitmap::filled(4, 4, Rgba::opaque(0, 0, 0)).unwrap();
    assert!(matches!(
        fit_and_render(&picture, Some(0), 100, &ramp, &q),
        Err(PresentError::InvalidBitmap)
    ));
    let wide = Bitmap::new(RESIZE_LIMIT as usize + 1, 0, Vec::new()).unwrap();
    assert!(matches!(fit_and_render(&wide, Some(8), 100, &ramp, &q), Err(PresentError::TooLarge)));
    assert!(matches!(fit_and_render(&wide, Some(0), 100, &ramp, &q), Err(PresentError::TooLarge)));
    assert!(matches!(
        fit_and_render(&picture, Some(65535), 0, &ramp, &q),
        Err(PresentError::InvalidBitmap)
    ));
}
