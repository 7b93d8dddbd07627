use blinkt_cdev::{
    brightness_level, write_stage, Blinkt, Channel, Line, LineWrite, Pixel, PixelIndexError, Stage,
    CLEAR_BRIGHTNESS, FULL_BRIGHTNESS,
};

fn data_bits(writes: &[LineWrite]) -> Vec<u8> {
    writes.iter().filter(|w| w.line == Line::Data).map(|w| w.value).collect()
}

fn clock_highs(writes: &[LineWrite]) -> usize {
    writes.iter().filter(|w| w.line == Line::Clock && w.value == 1).count()
}

fn byte_of(bits: &[u8]) -> u8 {
    bits.iter().fold(0u8, |acc, b| (acc << 1) | b)
}

#[test]
fn new_chain_holds_eight_default_pixels() {
    let mut b = Blinkt::new();
    for i in 0..8 {
        assert_eq!(b.get_pixel(i), Ok((0, 0, 0, 7)));
    }
    assert_eq!(b.get_pixel(8), Err(PixelIndexError { index: 8 }));
}

#[test]
fn set_pixel_full_red_reads_back() {
    let mut b = Blinkt::new();
    b.set_pixel(0, 255, 0, 0, FULL_BRIGHTNESS);
    let (r, g, bl, level) = b.get_pixel(0).unwrap();
    assert_eq!((r, g, bl), (255, 0, 0));
    assert_eq!(level as f32 / 31.0, 1.0);
    assert_eq!(b.get_pixel(1), Ok((0, 0, 0, 7)));
}

#[test]
fn clear_sets_every_pixel_black_at_one_fifth() {
    let mut b = Blinkt::new();
    b.set_all_pixels(10, 20, 30, FULL_BRIGHTNESS);
    b.clear();
    for i in 0..8 {
        let (r, g, bl, level) = b.get_pixel(i).unwrap();
        assert_eq!((r, g, bl, level), (0, 0, 0, 6));
        assert!((level as f32 / 31.0 - 0.1935).abs() < 0.001);
    }
}

#[test]
fn get_pixel_out_of_range_errors() {
    let mut b = Blinkt::new();
    assert_eq!(b.get_pixel(8), Err(PixelIndexError { index: 8 }));
    assert_eq!(b.get_pixel(usize::MAX), Err(PixelIndexError { index: usize::MAX }));
}

#[test]
fn set_pixel_out_of_range_changes_nothing() {
    let mut b = Blinkt::new();
    b.set_pixel(3, 1, 2, 3, FULL_BRIGHTNESS / 2);
    let before: Vec<_> = (0..8).map(|i| b.get_pixel(i).unwrap()).collect();
    b.set_pixel(8, 255, 255, 255, FULL_BRIGHTNESS);
    let after: Vec<_> = (0..8).map(|i| b.get_pixel(i).unwrap()).collect();
    assert_eq!(before, after);
    assert_eq!(after[3], (1, 2, 3, 15));
}

#[test]
fn set_all_pixels_sets_each() {
    let mut b = Blinkt::new();
    b.set_all_pixels(9, 8, 7, FULL_BRIGHTNESS / 4);
    for i in 0..8 {
        assert_eq!(b.get_pixel(i), Ok((9, 8, 7, 7)));
    }
}

#[test]
fn brightness_below_zero_clamps_to_zero() {
    assert_eq!(brightness_level(-1), 0);
    assert_eq!(brightness_level(-FULL_BRIGHTNESS), 0);
    assert_eq!(brightness_level(i64::MIN), 0);
    let mut p = Pixel::default();
    p.set_brightness(-5);
    assert_eq!(p.rgbb().3, 0);
}

#[test]
fn brightness_above_full_clamps_to_top_level() {
    assert_eq!(brightness_level(FULL_BRIGHTNESS + 1), 31);
    assert_eq!(brightness_level(2 * FULL_BRIGHTNESS), 31);
    assert_eq!(brightness_level(i64::MAX), 31);
    let mut p = Pixel::default();
    p.set_brightness(3 * FULL_BRIGHTNESS);
    assert_eq!(p.rgbb().3 as f32 / 31.0, 1.0);
}

#[test]
fn brightness_in_range_rounds_down() {
    assert_eq!(brightness_level(0), 0);
    assert_eq!(brightness_level(1), 0);
    assert_eq!(brightness_level(FULL_BRIGHTNESS / 2), 15);
    assert_eq!(brightness_level(FULL_BRIGHTNESS - 1), 30);
    assert_eq!(brightness_level(FULL_BRIGHTNESS), 31);
    assert_eq!(brightness_level(CLEAR_BRIGHTNESS), 6);
    let mut p = Pixel::default();
    p.set_brightness(FULL_BRIGHTNESS / 2);
    let level = p.rgbb().3;
    assert_eq!(level, 15);
    assert!(level as f32 / 31.0 != 0.5);
}

#[test]
fn marker_bits_are_set_after_any_brightness() {
    for b in [i64::MIN, -1, 0, 1, FULL_BRIGHTNESS / 3, FULL_BRIGHTNESS, i64::MAX] {
        let mut chain = Blinkt::new();
        chain.set_pixel(0, 0, 0, 0, b);
        let frame = chain.show();
        let bits = data_bits(&frame[65..65 + 24]);
        assert_eq!(&bits[..3], &[1, 1, 1]);
        assert_eq!(byte_of(&bits) & 0b0001_1111, brightness_level(b));
    }
}

#[test]
fn set_rgb_round_trips_every_byte() {
    let mut p = Pixel::default();
    for v in 0..=255u8 {
        p.set_rgb(v, 255 - v, v / 2);
        assert_eq!(p.rgb(), (v, 255 - v, v / 2));
        assert_eq!(p.rgbb().3, 7);
    }
}

#[test]
fn pixel_clear_keeps_brightness() {
    let mut p = Pixel::default();
    p.set_rgbb(1, 2, 3, FULL_BRIGHTNESS);
    p.clear();
    assert_eq!(p.rgbb(), (0, 0, 0, 31));
}

#[test]
fn fresh_frame_has_expected_pulses() {
    let b = Blinkt::new();
    let frame = b.show();
    assert_eq!(frame.len(), 906);
    assert_eq!(clock_highs(&frame), 32 + 8 * 32 + 36);
    assert_eq!(frame[0], LineWrite { line: Line::Data, value: 0 });
    assert!(frame[1..65].iter().all(|w| w.line == Line::Clock));
    assert_eq!(clock_highs(&frame[..65]), 32);
    let end = &frame[906 - 73..];
    assert_eq!(end[0], LineWrite { line: Line::Data, value: 0 });
    assert!(end[1..].iter().all(|w| w.line == Line::Clock));
    assert_eq!(clock_highs(end), 36);
}

#[test]
fn pixel_bytes_go_out_brightness_blue_green_red_msb_first() {
    let mut b = Blinkt::new();
    b.set_pixel(1, 0b1000_0001, 0x0F, 0xF0, FULL_BRIGHTNESS);
    let frame = b.show();
    let start = 65 + 96;
    let bits = data_bits(&frame[start..start + 96]);
    assert_eq!(bits.len(), 32);
    assert_eq!(byte_of(&bits[0..8]), 0xFF);
    assert_eq!(byte_of(&bits[8..16]), 0xF0);
    assert_eq!(byte_of(&bits[16..24]), 0x0F);
    assert_eq!(byte_of(&bits[24..32]), 0b1000_0001);
    assert_eq!(&bits[24..32], &[1, 0, 0, 0, 0, 0, 0, 1]);
    let first = data_bits(&frame[65..65 + 96]);
    assert_eq!(byte_of(&first[0..8]), 0b1110_0111);
    for w in frame[start..start + 3].iter().enumerate() {
        let expected = [Line::Data, Line::Clock, Line::Clock][w.0];
        assert_eq!(w.1.line, expected);
    }
}

#[test]
fn teardown_blanks_the_chain() {
    let mut b = Blinkt::new();
    b.set_all_pixels(200, 100, 50, FULL_BRIGHTNESS);
    let frame = b.teardown().unwrap();
    assert_eq!(frame, b.show());
    for i in 0..8 {
        assert_eq!(b.get_pixel(i), Ok((0, 0, 0, 6)));
        let bits = data_bits(&frame[65 + 96 * i..65 + 96 * (i + 1)]);
        assert_eq!(byte_of(&bits[0..8]), 0b1110_0110);
        assert!(bits[8..].iter().all(|&x| x == 0));
    }
}

#[test]
fn write_stage_names_each_part() {
    assert_eq!(write_stage(0), Stage::StartOfFrame);
    assert_eq!(write_stage(64), Stage::StartOfFrame);
    assert_eq!(write_stage(65), Stage::PixelByte { pixel: 0, channel: Channel::Brightness });
    assert_eq!(write_stage(65 + 24), Stage::PixelByte { pixel: 0, channel: Channel::Blue });
    assert_eq!(write_stage(65 + 48), Stage::PixelByte { pixel: 0, channel: Channel::Green });
    assert_eq!(write_stage(65 + 95), Stage::PixelByte { pixel: 0, channel: Channel::Red });
    assert_eq!(write_stage(65 + 96 * 7 + 30), Stage::PixelByte { pixel: 7, channel: Channel::Blue });
    assert_eq!(write_stage(833), Stage::EndOfFrame);
    assert_eq!(write_stage(905), Stage::EndOfFrame);
}
