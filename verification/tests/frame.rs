use matrix_clock::color::{Color, Tone, DEFAULT_BRIGHTNESS, MAX_BRIGHTNESS, MIN_BRIGHTNESS};
use matrix_clock::encoder::LATCH_GAP;
use matrix_clock::frame::{Bitmap, Frame, Pixel, COLS, FRAME_BYTES, PIXELS, ROWS};

fn numbered() -> [(u8, u8, u8); 256] {
    let mut mixed = [(0u8, 0u8, 0u8); 256];
    for (k, entry) in mixed.iter_mut().enumerate() {
        *entry = (k as u8, 100, 200);
    }
    mixed
}

fn glyph(columns: &[&[u8]]) -> Bitmap {
    Bitmap { bits: columns.iter().map(|c| c.to_vec()).collect() }
}

fn lit(frame: &Frame) -> Vec<(usize, usize)> {
    let mut found = Vec::new();
    for col in 0..COLS {
        for row in 0..ROWS {
            if frame.get_pixel(col, row) != Some(Color::Black) {
                found.push((col, row));
            }
        }
    }
    found
}

#[test]
fn new_frame_is_dark() {
    let frame = Frame::new();
    assert!(lit(&frame).is_empty());
    assert_eq!(frame.get_brightness(), DEFAULT_BRIGHTNESS);
    assert_eq!(frame.get_phase(), 0);
    assert_eq!(frame.to_bytes(&numbered()), vec![0u8; FRAME_BYTES]);
    assert_eq!(frame.get_pixel(COLS, 0), None);
    assert_eq!(frame.get_pixel(0, ROWS), None);
}

#[test]
fn serialized_frame_has_768_bytes_in_green_red_blue_order() {
    let mut frame = Frame::new();
    frame.draw_pixel(&Color::White, 0, 0);
    let bytes = frame.to_bytes(&[(11, 22, 33); 256]);
    assert_eq!(bytes.len(), 768);
    assert_eq!(&bytes[0..3], &[22, 11, 33]);
    assert!(bytes[3..].iter().all(|b| *b == 0));
}

#[test]
fn strip_runs_down_even_columns_and_up_odd_ones() {
    let mixed = numbered();
    for col in 0..COLS {
        for row in 0..ROWS {
            let mut frame = Frame::new();
            frame.draw_pixel(&Color::White, col, row);
            let bytes = frame.to_bytes(&mixed);
            let place = if col % 2 == 1 { 8 * col + (7 - row) } else { 8 * col + row };
            for (k, three) in bytes.chunks(3).enumerate() {
                if k == place {
                    assert_eq!(three, &[100, place as u8, 200]);
                } else {
                    assert_eq!(three, &[0, 0, 0]);
                }
            }
        }
    }
}

#[test]
fn odd_column_is_the_reverse_of_an_even_one() {
    let mut even = Frame::new();
    let mut odd = Frame::new();
    for row in 0..ROWS {
        let color = Color::Raw(row as u8, 0, 0);
        even.draw_pixel(&color, 0, row);
        odd.draw_pixel(&color, 1, row);
    }
    let even_tones = even.tones();
    let odd_tones = odd.tones();
    let mut reversed: Vec<Tone> = odd_tones[8..16].to_vec();
    reversed.reverse();
    assert_eq!(&even_tones[0..8], &reversed[..]);
    assert_eq!(even_tones[3], Tone::Rgb { red: 3, green: 0, blue: 0, value: 100 });
    assert_eq!(odd_tones[8], Tone::Rgb { red: 7, green: 0, blue: 0, value: 100 });
}

#[test]
fn tones_carry_the_position_of_their_pixel() {
    let mut frame = Frame::new();
    frame.draw_pixel(&Color::Rainbow, 3, 2);
    let tones = frame.tones();
    assert_eq!(tones.len(), PIXELS);
    assert_eq!(tones[8 * 3 + 5], Tone::Hsv { hue: 3 * 5625, saturation: 700, value: 100 });
    assert_eq!(tones.iter().filter(|t| **t != Tone::Off).count(), 1);
}

#[test]
fn brightness_is_clamped_at_both_ends() {
    let mut frame = Frame::new();
    for (asked, taken) in [
        (0u16, MIN_BRIGHTNESS),
        (3, MIN_BRIGHTNESS),
        (4, 4),
        (5, 5),
        (299, 299),
        (300, MAX_BRIGHTNESS),
        (301, MAX_BRIGHTNESS),
        (u16::MAX, MAX_BRIGHTNESS),
    ] {
        frame.set_brightness(asked);
        assert_eq!(frame.get_brightness(), taken);
    }
}

#[test]
fn brightness_beyond_the_range_renders_like_the_end_of_the_range() {
    let mixed = numbered();
    let mut at_end = Frame::new();
    let mut beyond = Frame::new();
    for frame in [&mut at_end, &mut beyond] {
        frame.draw_pixel(&Color::Rainbow, 4, 4);
        frame.draw_pixel(&Color::Raw(1, 2, 3), 9, 1);
    }
    at_end.set_brightness(300);
    beyond.set_brightness(900);
    assert_eq!(at_end.tones(), beyond.tones());
    assert_eq!(at_end.get_spi_data(&mixed), beyond.get_spi_data(&mixed));
    at_end.set_brightness(4);
    beyond.set_brightness(1);
    assert_eq!(at_end.tones(), beyond.tones());
    assert_eq!(at_end.to_bytes(&mixed), beyond.to_bytes(&mixed));
}

#[test]
fn white_frame_at_one_hundredth_is_all_ones() {
    let mut frame = Frame::new();
    for col in 0..COLS {
        for row in 0..ROWS {
            frame.draw_pixel(&Color::White, col, row);
        }
    }
    frame.set_brightness(10);
    assert_eq!(frame.to_bytes(&[(0, 0, 0); 256]), vec![1u8; 768]);
    assert_eq!(frame.to_bytes(&[(255, 255, 255); 256]), vec![1u8; 768]);
    assert!(frame.tones().iter().all(|t| *t == Tone::Dim));
}

#[test]
fn clear_turns_every_pixel_off() {
    let mut frame = Frame::new();
    frame.set_brightness(200);
    frame.draw_pixel(&Color::White, 5, 5);
    frame.draw_pixel(&Color::Rainbow, 31, 7);
    frame.clear();
    assert!(lit(&frame).is_empty());
    assert_eq!(frame.get_brightness(), 200);
}

#[test]
fn pixel_outside_the_panel_paints_nothing() {
    let mut frame = Frame::new();
    frame.draw_pixel(&Color::White, 32, 0);
    frame.draw_pixel(&Color::White, 0, 8);
    frame.draw_pixel(&Color::White, usize::MAX, usize::MAX);
    assert!(lit(&frame).is_empty());
    frame.draw_pixel(&Color::White, 31, 7);
    assert_eq!(lit(&frame), vec![(31, 7)]);
    frame.draw_pixel(&Color::Black, 31, 7);
    assert!(lit(&frame).is_empty());
}

#[test]
fn bitmap_paints_only_its_set_bits() {
    let mut frame = Frame::new();
    frame.draw_pixel(&Color::Rainbow, 3, 2);
    frame.draw_bitmap(&glyph(&[&[1, 0, 1], &[0, 0, 9]]), &Color::White, 2, 1);
    assert_eq!(lit(&frame), vec![(2, 1), (2, 3), (3, 2), (3, 3)]);
    assert_eq!(frame.get_pixel(3, 2), Some(Color::Rainbow));
    assert_eq!(frame.get_pixel(3, 3), Some(Color::White));
}

#[test]
fn bitmap_is_clipped_at_the_edges() {
    let mut frame = Frame::new();
    let block = glyph(&[&[1, 1, 1], &[1, 1, 1], &[1, 1, 1]]);
    frame.draw_bitmap(&block, &Color::White, 30, 6);
    assert_eq!(lit(&frame), vec![(30, 6), (30, 7), (31, 6), (31, 7)]);
    frame.clear();
    frame.draw_bitmap(&block, &Color::White, 32, 0);
    frame.draw_bitmap(&block, &Color::White, 0, 8);
    frame.draw_bitmap(&block, &Color::White, usize::MAX, usize::MAX);
    assert!(lit(&frame).is_empty());
    let tall = Bitmap { bits: vec![vec![1u8; 20]] };
    frame.draw_bitmap(&tall, &Color::White, 0, 0);
    assert_eq!(lit(&frame).len(), 8);
}

#[test]
fn text_advances_by_glyph_width_and_one() {
    let mut frame = Frame::new();
    let glyphs = vec![glyph(&[&[1], &[1]]), glyph(&[]), glyph(&[&[1]]), glyph(&[&[0, 1]])];
    frame.draw_text(&glyphs, &Color::White, 1, 0);
    assert_eq!(lit(&frame), vec![(1, 0), (2, 0), (5, 0), (7, 1)]);
}

#[test]
fn text_is_clipped_at_the_right_edge() {
    let mut frame = Frame::new();
    let wide = Bitmap { bits: vec![vec![1u8]; 40] };
    let glyphs = vec![glyph(&[&[1]]), wide, glyph(&[&[1]])];
    frame.draw_text(&glyphs, &Color::White, 29, 7);
    assert_eq!(lit(&frame), vec![(29, 7), (31, 7)]);
    frame.clear();
    frame.draw_text(&glyphs, &Color::White, usize::MAX, 0);
    assert!(lit(&frame).is_empty());
    frame.draw_text(&Vec::new(), &Color::White, 0, 0);
    assert!(lit(&frame).is_empty());
}

#[test]
fn spi_data_is_sixteen_bytes_per_byte_and_the_gap() {
    let mut frame = Frame::new();
    frame.draw_pixel(&Color::White, 0, 0);
    let data = frame.get_spi_data(&[(0x80, 0x01, 0xff); 256]);
    assert_eq!(data.len(), 768 * 8 * 2 + LATCH_GAP);
    assert_eq!(data.len(), 12288 + LATCH_GAP);
    let one = [0b1111_1111u8, 0b1111_0000u8];
    let zero = [0b1111_0000u8, 0b0000_0000u8];
    let mut expected: Vec<u8> = Vec::new();
    for bit in [0, 0, 0, 0, 0, 0, 0, 1] {
        expected.extend_from_slice(if bit == 1 { &one } else { &zero });
    }
    for bit in [1, 0, 0, 0, 0, 0, 0, 0] {
        expected.extend_from_slice(if bit == 1 { &one } else { &zero });
    }
    for _ in 0..8 {
        expected.extend_from_slice(&one);
    }
    assert_eq!(&data[0..48], &expected[..]);
    for pair in data[48..12288].chunks(2) {
        assert_eq!(pair, &zero);
    }
    assert!(data[12288..].iter().all(|b| *b == 0));
}

#[test]
fn encoding_twice_gives_the_same_bytes() {
    let mixed = numbered();
    let mut a = Frame::new();
    let mut b = Frame::new();
    a.draw_pixel(&Color::White, 7, 7);
    b.draw_pixel(&Color::White, 7, 7);
    let first = a.get_spi_data(&mixed);
    let second = b.get_spi_data(&mixed);
    assert_eq!(first, second);
    assert_eq!(first.len(), second.len());
}

#[test]
fn every_frame_sent_moves_the_phase_on() {
    let mut frame = Frame::new();
    frame.draw_pixel(&Color::RGB, 0, 0);
    let mixed = numbered();
    for sent in 0..10 {
        assert_eq!(frame.get_phase(), sent);
        assert_eq!(
            frame.tones()[0],
            Tone::Hsv { hue: ((sent / 5) % 64) as u32 * 5625, saturation: 600, value: 100 }
        );
        frame.get_spi_data(&mixed);
    }
    assert_eq!(frame.get_pixel(0, 0), Some(Color::RGB));
}

#[test]
fn pixel_bytes_are_green_red_blue() {
    let mut pixel = Pixel::default();
    assert_eq!(pixel.to_bytes(100, 0, 0, 0, (1, 2, 3)), [0, 0, 0]);
    pixel.set_color(&Color::White);
    assert_eq!(pixel.to_bytes(100, 0, 0, 0, (1, 2, 3)), [2, 1, 3]);
    assert_eq!(pixel.to_bytes(40, 0, 0, 0, (1, 2, 3)), [1, 1, 1]);
}

#[test]
fn odd_column_bytes_read_backwards_equal_an_even_column() {
    let mut frame = Frame::new();
    for row in 0..ROWS {
        let color = Color::Raw(10 * row as u8 + 1, 7, 9);
        frame.draw_pixel(&color, 2, row);
        frame.draw_pixel(&color, 5, row);
    }
    let mut mixed = [(0u8, 0u8, 0u8); 256];
    for (k, tone) in frame.tones().iter().enumerate() {
        if let Tone::Rgb { red, green, blue, .. } = tone {
            mixed[k] = (*red, green + 1, blue + 2);
        }
    }
    let bytes = frame.to_bytes(&mixed);
    for row in 0..ROWS {
        for j in 0..3 {
            assert_eq!(bytes[24 * 5 + 3 * (7 - row) + j], bytes[24 * 2 + 3 * row + j]);
        }
        assert_eq!(bytes[24 * 2 + 3 * row + 1], 10 * row as u8 + 1);
    }
}

#[test]
fn one_white_pixel_lights_exactly_its_three_bytes() {
    for (col, row, place) in [(0usize, 0usize, 0usize), (1, 0, 15), (1, 7, 8), (6, 3, 51), (31, 0, 255), (31, 7, 248)] {
        let mut frame = Frame::new();
        frame.draw_pixel(&Color::White, col, row);
        let bytes = frame.to_bytes(&[(25, 26, 27); 256]);
        for (j, byte) in bytes.iter().enumerate() {
            if j / 3 == place {
                assert_eq!(*byte, [26u8, 25, 27][j % 3]);
            } else {
                assert_eq!(*byte, 0);
            }
        }
    }
}
