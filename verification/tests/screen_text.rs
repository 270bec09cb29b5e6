use noto_sans_mono_bitmap::{get_raster, FontWeight, RasterHeight};
use pong_kernel::font::{Glyph, GLYPH_HEIGHT, GLYPH_WIDTH};
use pong_kernel::screen::{
    draw_score, init, screenwriter, FrameBufferInfo, PixelFormat, ScreenWriter, Writer,
};

fn text_info(width: usize, height: usize, format: PixelFormat) -> FrameBufferInfo {
    FrameBufferInfo { width, height, pixel_format: format, bytes_per_pixel: 4, stride: width }
}

fn text_surface(width: usize, height: usize) -> ScreenWriter<'static> {
    ScreenWriter::new(vec![0; width * height * 4].leak(), text_info(width, height, PixelFormat::Rgb))
}

fn font_raster(c: char) -> Vec<Vec<u8>> {
    let rendered = get_raster(c, FontWeight::Regular, RasterHeight::Size16).unwrap();
    rendered.raster().iter().map(|row| row.to_vec()).collect()
}

/// Puts the glyph of `c` into `expected` the way the text path draws it.
fn stamp(expected: &mut Vec<u8>, width: usize, c: char, x: usize, y: usize) {
    for (dy, row) in font_raster(c).iter().enumerate() {
        for (dx, intensity) in row.iter().enumerate() {
            let at = ((y + dy) * width + x + dx) * 4;
            expected[at] = intensity / 4;
            expected[at + 1] = *intensity;
            expected[at + 2] = intensity / 2;
            expected[at + 3] = 0;
        }
    }
}

fn small_glyph() -> Glyph {
    Glyph { raster: &[&[1, 2, 3], &[40, 80, 255]], width: 3, height: 2 }
}

#[test]
fn glyph_size_is_that_of_the_font() {
    let rendered = get_raster('A', FontWeight::Regular, RasterHeight::Size16).unwrap();
    assert_eq!(GLYPH_WIDTH, 9);
    assert_eq!(GLYPH_HEIGHT, 16);
    assert_eq!(rendered.width(), GLYPH_WIDTH);
    assert_eq!(rendered.height(), GLYPH_HEIGHT);
}

#[test]
fn can_write_text_needs_a_known_format_and_room_for_a_glyph() {
    let ready = |info: FrameBufferInfo, len: usize| ScreenWriter::new(vec![0; len].leak(), info).can_write_text();
    let good = text_info(9, 16, PixelFormat::Rgb);
    assert!(ready(good, 9 * 16 * 4));
    assert!(ready(text_info(9, 16, PixelFormat::Bgr), 9 * 16 * 4));
    assert!(!ready(good, 9 * 16 * 4 - 1));
    assert!(!ready(text_info(9, 16, PixelFormat::Other), 9 * 16 * 4));
    assert!(!ready(text_info(8, 16, PixelFormat::Rgb), 1024));
    assert!(!ready(text_info(9, 15, PixelFormat::Rgb), 1024));
    assert!(!ready(FrameBufferInfo { stride: 8, ..good }, 1024));
    assert!(!ready(FrameBufferInfo { bytes_per_pixel: 0, ..good }, 1024));
    assert!(!ready(FrameBufferInfo { bytes_per_pixel: 5, ..good }, 4096));
    assert!(ready(FrameBufferInfo { bytes_per_pixel: 1, ..good }, 9 * 16));
    assert!(ready(FrameBufferInfo { stride: 12, ..good }, 12 * 16 * 4));
    assert!(!ready(FrameBufferInfo { stride: 12, ..good }, 12 * 16 * 4 - 1));
    assert!(!ready(FrameBufferInfo { stride: usize::MAX, height: usize::MAX, ..good }, 1024));
}

#[test]
fn write_pixel_rgb_tints_green() {
    let mut writer = text_surface(9, 16);
    writer.write_pixel(2, 1, 200);
    let at = (9 + 2) * 4;
    let mut expected = vec![0u8; 9 * 16 * 4];
    expected[at] = 50;
    expected[at + 1] = 200;
    expected[at + 2] = 100;
    assert_eq!(writer.buffer(), &expected[..]);
}

#[test]
fn write_pixel_bgr_swaps_red_and_blue() {
    let mut writer = ScreenWriter::new(vec![7; 9 * 16 * 4].leak(), text_info(9, 16, PixelFormat::Bgr));
    writer.write_pixel(0, 0, 255);
    assert_eq!(&writer.buffer()[..8], &[127, 255, 63, 0, 0, 0, 0, 0][..]);
}

#[test]
fn write_pixel_with_three_bytes_leaves_the_neighbour() {
    let info = FrameBufferInfo { bytes_per_pixel: 3, ..text_info(9, 16, PixelFormat::Rgb) };
    let mut writer = ScreenWriter::new(vec![0; 9 * 16 * 3].leak(), info);
    writer.write_pixel(1, 0, 7);
    assert_eq!(&writer.buffer()[..9], &[0, 0, 0, 1, 7, 3, 0, 0, 0][..]);
}

#[test]
fn newline_and_carriage_return_move_the_cursor() {
    let mut writer = text_surface(40, 40);
    writer.write_number(7, 11, 3);
    assert_eq!(writer.cursor(), (20, 3));
    writer.carriage_return();
    assert_eq!(writer.cursor(), (0, 3));
    writer.write_number(7, 11, 3);
    writer.newline();
    assert_eq!(writer.cursor(), (0, 19));
    writer.write_char('\r');
    assert_eq!(writer.cursor(), (0, 19));
    writer.write_char('\n');
    assert_eq!(writer.cursor(), (0, 35));
}

#[test]
fn write_number_far_below_the_screen_recycles_it() {
    let mut writer = text_surface(40, 40);
    writer.write_number(1, 0, usize::MAX - 20);
    assert_eq!(writer.cursor(), (9, 0));
    let mut expected = vec![0u8; 40 * 40 * 4];
    stamp(&mut expected, 40, '1', 0, 0);
    assert_eq!(writer.buffer(), &expected[..]);
    writer.write_number(1, 0, 0);
    writer.newline();
    assert_eq!(writer.cursor(), (0, 16));
}

#[test]
fn write_rendered_char_draws_the_raster_at_the_cursor() {
    let mut writer = text_surface(12, 16);
    writer.write_number(0, 0, 0);
    writer.clear();
    writer.write_rendered_char(small_glyph());
    assert_eq!(writer.cursor(), (3, 0));
    writer.write_rendered_char(small_glyph());
    assert_eq!(writer.cursor(), (6, 0));
    let mut expected = vec![0u8; 12 * 16 * 4];
    for start in [0usize, 3] {
        for (dy, row) in [[1u8, 2, 3], [40, 80, 255]].iter().enumerate() {
            for (dx, intensity) in row.iter().enumerate() {
                let at = (dy * 12 + start + dx) * 4;
                expected[at] = intensity / 4;
                expected[at + 1] = *intensity;
                expected[at + 2] = intensity / 2;
            }
        }
    }
    assert_eq!(writer.buffer(), &expected[..]);
}

#[test]
fn write_glyph_wraps_at_the_right_edge() {
    let mut writer = text_surface(20, 40);
    writer.write_number(5, 9, 2);
    assert_eq!(writer.cursor(), (18, 2));
    writer.write_glyph(small_glyph());
    assert_eq!(writer.cursor(), (3, 18));
    let mut expected = vec![0u8; 20 * 40 * 4];
    stamp(&mut expected, 20, '5', 9, 2);
    for (dy, row) in [[1u8, 2, 3], [40, 80, 255]].iter().enumerate() {
        for (dx, intensity) in row.iter().enumerate() {
            let at = ((18 + dy) * 20 + dx) * 4;
            expected[at] = intensity / 4;
            expected[at + 1] = *intensity;
            expected[at + 2] = intensity / 2;
        }
    }
    assert_eq!(writer.buffer(), &expected[..]);
}

#[test]
fn write_glyph_that_just_fits_does_not_wrap() {
    let mut writer = text_surface(12, 18);
    writer.write_number(5, 0, 16);
    assert_eq!(writer.cursor(), (9, 0));
    writer.write_glyph(small_glyph());
    assert_eq!(writer.cursor(), (12, 0));
    writer.write_glyph(small_glyph());
    assert_eq!(writer.cursor(), (3, 16));
}

#[test]
fn write_char_clears_the_screen_when_the_line_does_not_fit() {
    let mut writer = text_surface(20, 40);
    writer.write_number(8, 0, 0);
    writer.write_number(3, 4, 25);
    assert_eq!(writer.cursor(), (9, 0));
    let mut expected = vec![0u8; 20 * 40 * 4];
    stamp(&mut expected, 20, '3', 0, 0);
    assert_eq!(writer.buffer(), &expected[..]);
}

#[test]
fn write_char_wraps_then_clears() {
    let mut writer = text_surface(20, 40);
    writer.write_number(8, 0, 0);
    writer.write_number(3, 12, 10);
    assert_eq!(writer.cursor(), (9, 0));
    let mut expected = vec![0u8; 20 * 40 * 4];
    stamp(&mut expected, 20, '3', 0, 0);
    assert_eq!(writer.buffer(), &expected[..]);
}

#[test]
fn write_char_draws_the_glyph_of_the_font() {
    let mut writer = text_surface(30, 20);
    writer.write_char('A');
    writer.write_char('g');
    assert_eq!(writer.cursor(), (18, 0));
    let mut expected = vec![0u8; 30 * 20 * 4];
    stamp(&mut expected, 30, 'A', 0, 0);
    stamp(&mut expected, 30, 'g', 9, 0);
    assert_eq!(writer.buffer(), &expected[..]);
    assert!(expected.iter().any(|byte| *byte != 0));
}

#[test]
fn write_char_skips_what_the_font_does_not_know() {
    let mut writer = text_surface(30, 20);
    writer.write_char('\u{1F600}');
    writer.write_char('\t');
    assert_eq!(writer.cursor(), (0, 0));
    assert!(writer.buffer().iter().all(|byte| *byte == 0));
}

#[test]
fn write_str_writes_every_character_in_order() {
    let mut writer = text_surface(30, 40);
    writer.write_str("ab\ncd\re");
    assert_eq!(writer.cursor(), (9, 16));
    let mut expected = vec![0u8; 30 * 40 * 4];
    stamp(&mut expected, 30, 'a', 0, 0);
    stamp(&mut expected, 30, 'b', 9, 0);
    stamp(&mut expected, 30, 'c', 0, 16);
    stamp(&mut expected, 30, 'd', 9, 16);
    stamp(&mut expected, 30, 'e', 0, 16);
    assert_eq!(writer.buffer(), &expected[..]);
}

#[test]
fn write_str_of_nothing_changes_nothing() {
    let mut writer = text_surface(30, 40);
    writer.write_str("");
    assert_eq!(writer.cursor(), (0, 0));
    assert!(writer.buffer().iter().all(|byte| *byte == 0));
}

#[test]
fn write_number_writes_decimal_digits() {
    let mut writer = text_surface(60, 40);
    writer.write_number(1204, 5, 7);
    assert_eq!(writer.cursor(), (5 + 4 * 9, 7));
    let mut expected = vec![0u8; 60 * 40 * 4];
    stamp(&mut expected, 60, '1', 5, 7);
    stamp(&mut expected, 60, '2', 14, 7);
    stamp(&mut expected, 60, '0', 23, 7);
    stamp(&mut expected, 60, '4', 32, 7);
    assert_eq!(writer.buffer(), &expected[..]);
}

#[test]
fn write_number_zero_is_one_digit() {
    let mut writer = text_surface(60, 40);
    writer.write_number(0, 0, 0);
    assert_eq!(writer.cursor(), (9, 0));
    let mut expected = vec![0u8; 60 * 40 * 4];
    stamp(&mut expected, 60, '0', 0, 0);
    assert_eq!(writer.buffer(), &expected[..]);
}

#[test]
fn write_number_matches_write_str_of_its_digits() {
    for num in [9usize, 10, 99, 100, 65535, usize::MAX] {
        let mut by_number = text_surface(200, 40);
        by_number.write_number(num, 1, 2);
        let mut by_text = text_surface(200, 40);
        by_text.write_number(0, 1, 2);
        by_text.clear();
        by_text.write_number(num / 10, 1, 2);
        if num < 10 {
            by_text.clear();
            by_text.write_number(num, 1, 2);
        } else {
            by_text.write_str(&(num % 10).to_string());
        }
        assert_eq!(by_number.buffer(), by_text.buffer());
        assert_eq!(by_number.cursor(), by_text.cursor());
        assert_eq!(by_number.cursor().0, 1 + 9 * num.to_string().len());
    }
}

#[test]
fn draw_score_writes_left_and_right_of_the_middle() {
    let mut writer = text_surface(200, 60);
    draw_score(&mut writer, 3, 12);
    assert_eq!(writer.cursor(), (120 + 18, 20));
    let mut expected = vec![0u8; 200 * 60 * 4];
    stamp(&mut expected, 200, '3', 60, 20);
    stamp(&mut expected, 200, '1', 120, 20);
    stamp(&mut expected, 200, '2', 129, 20);
    assert_eq!(writer.buffer(), &expected[..]);
}

#[test]
fn draw_score_on_a_narrow_screen_starts_at_the_left_edge() {
    let mut writer = text_surface(60, 60);
    draw_score(&mut writer, 4, 0);
    let mut expected = vec![0u8; 60 * 60 * 4];
    stamp(&mut expected, 60, '4', 0, 20);
    stamp(&mut expected, 60, '0', 50, 20);
    assert_eq!(writer.buffer(), &expected[..]);
    assert_eq!(writer.cursor(), (59, 20));
}

#[test]
fn write_large_text_doubles_every_bright_pixel() {
    let mut writer = text_surface(80, 50);
    writer.write_large_text("Po", 3, 5, 10, 20, 30);
    assert_eq!(writer.cursor(), (0, 0));
    let mut expected = vec![0u8; 80 * 50 * 4];
    let mut bright = 0;
    for (k, c) in ['P', 'o'].iter().enumerate() {
        for (i, row) in font_raster(*c).iter().enumerate() {
            for (j, intensity) in row.iter().enumerate() {
                if *intensity >= 128 {
                    bright += 1;
                    for dy in 0..2 {
                        for dx in 0..2 {
                            let x = 3 + 18 * k + 2 * j + dx;
                            let y = 5 + 2 * i + dy;
                            let at = (y * 80 + x) * 4;
                            expected[at] = 10;
                            expected[at + 1] = 20;
                            expected[at + 2] = 30;
                        }
                    }
                }
            }
        }
    }
    assert!(bright > 0);
    assert_eq!(writer.buffer(), &expected[..]);
}

#[test]
fn write_large_text_skips_unknown_characters_but_keeps_their_cell() {
    let mut with_gap = text_surface(80, 40);
    with_gap.write_large_text("\u{1F600}I", 0, 0, 255, 255, 255);
    let mut shifted = text_surface(80, 40);
    shifted.write_large_text("I", 18, 0, 255, 255, 255);
    assert_eq!(with_gap.buffer(), shifted.buffer());
    assert!(with_gap.buffer().iter().any(|byte| *byte != 0));
}

#[test]
fn write_large_text_is_clipped_and_never_fails() {
    let mut writer = text_surface(20, 20);
    writer.write_large_text("PONG", 10, 10, 255, 255, 255);
    writer.write_large_text("PONG", usize::MAX - 5, 3, 255, 255, 255);
    writer.write_large_text("PONG", 3, usize::MAX - 5, 255, 255, 255);
    let mut other = ScreenWriter::new(
        vec![0; 64].leak(),
        FrameBufferInfo { pixel_format: PixelFormat::Other, ..text_info(4, 4, PixelFormat::Rgb) },
    );
    other.write_large_text("PONG", 0, 0, 255, 255, 255);
    assert!(other.buffer().iter().all(|byte| *byte == 0));
    let mut expected = text_surface(20, 20);
    expected.write_large_text("P", 10, 10, 255, 255, 255);
    assert_eq!(writer.buffer(), expected.buffer());
}

#[test]
fn writer_holds_the_surface_after_init() {
    let mut slot = Writer::new();
    assert!(!slot.is_initialized());
    init(&mut slot, vec![9; 30 * 20 * 4].leak(), text_info(30, 20, PixelFormat::Rgb));
    assert!(slot.is_initialized());
    assert!(screenwriter(&mut slot).buffer().iter().all(|byte| *byte == 0));
    slot.write_str("ok");
    let mut expected = vec![0u8; 30 * 20 * 4];
    stamp(&mut expected, 30, 'o', 0, 0);
    stamp(&mut expected, 30, 'k', 9, 0);
    assert_eq!(screenwriter(&mut slot).buffer(), &expected[..]);
    screenwriter(&mut slot).draw_pixel(29, 19, 1, 2, 3);
    assert_eq!(&screenwriter(&mut slot).buffer()[30 * 20 * 4 - 4..], &[1, 2, 3, 0][..]);
}

#[test]
fn draw_large_glyph_doubles_a_given_raster() {
    let mut writer = text_surface(12, 16);
    let glyph = Glyph { raster: &[&[127, 128, 0], &[255, 0, 200]], width: 3, height: 2 };
    writer.draw_large_glyph(glyph, 1, 2, 7, 8, 9);
    assert_eq!(writer.cursor(), (0, 0));
    let lit = [(1usize, 0usize), (0, 1), (2, 1)];
    let mut expected = vec![0u8; 12 * 16 * 4];
    for (j, i) in lit {
        for dy in 0..2 {
            for dx in 0..2 {
                let at = ((2 + 2 * i + dy) * 12 + 1 + 2 * j + dx) * 4;
                expected[at] = 7;
                expected[at + 1] = 8;
                expected[at + 2] = 9;
            }
        }
    }
    assert_eq!(writer.buffer(), &expected[..]);
}

#[test]
fn draw_large_glyph_is_clipped_at_the_edges() {
    let mut writer = text_surface(9, 16);
    let glyph = Glyph { raster: &[&[255, 255]], width: 2, height: 1 };
    writer.draw_large_glyph(glyph, 6, 15, 1, 1, 1);
    writer.draw_large_glyph(glyph, usize::MAX, 0, 1, 1, 1);
    writer.draw_large_glyph(glyph, 0, usize::MAX, 1, 1, 1);
    let mut expected = vec![0u8; 9 * 16 * 4];
    for x in 6..9 {
        let at = (15 * 9 + x) * 4;
        expected[at] = 1;
        expected[at + 1] = 1;
        expected[at + 2] = 1;
    }
    assert_eq!(writer.buffer(), &expected[..]);
}
