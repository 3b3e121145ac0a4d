use embedded_graphics::pixelcolor::raw::RawU16;
use embedded_graphics::pixelcolor::{Rgb565 as EgRgb565, RgbColor};
use embedded_graphics::prelude::RawData;
use pico_canvas::color::{
    next_color, palette_color, Rgb565, BLACK, BLUE, CIRCLE_COLORS, CYAN, GREEN, MAGENTA,
    PALETTE_LEN, RED, SENTINEL_INDEX, WHITE,
};

fn eg_raw(color: EgRgb565) -> u16 {
    RawU16::from(color).into_inner()
}

#[test]
fn channels_are_packed_five_six_five() {
    assert_eq!(Rgb565::new(31, 0, 0).into_raw(), 0xF800);
    assert_eq!(Rgb565::new(0, 63, 0).into_raw(), 0x07E0);
    assert_eq!(Rgb565::new(0, 0, 31).into_raw(), 0x001F);
    assert_eq!(Rgb565::new(1, 2, 3).into_raw(), (1 << 11) | (2 << 5) | 3);
}

#[test]
fn channel_bits_that_do_not_fit_are_dropped() {
    assert_eq!(Rgb565::new(0xFF, 0xFF, 0xFF).into_raw(), 0xFFFF);
    assert_eq!(Rgb565::new(32, 64, 32).into_raw(), 0);
    assert_eq!(Rgb565::new(33, 65, 34), Rgb565::new(1, 1, 2));
}

#[test]
fn channels_read_back() {
    let c = Rgb565::new(17, 42, 9);
    assert_eq!((c.r(), c.g(), c.b()), (17, 42, 9));
    let w = Rgb565::from_raw(WHITE);
    assert_eq!((w.r(), w.g(), w.b()), (31, 63, 31));
}

#[test]
fn packing_agrees_with_embedded_graphics() {
    for (r, g, b) in [(0u8, 0u8, 0u8), (31, 63, 31), (15, 31, 0), (200, 100, 50), (7, 9, 250)] {
        assert_eq!(Rgb565::new(r, g, b).into_raw(), eg_raw(EgRgb565::new(r, g, b)));
    }
}

#[test]
fn named_colours_agree_with_embedded_graphics() {
    assert_eq!(BLACK, eg_raw(EgRgb565::BLACK));
    assert_eq!(WHITE, eg_raw(EgRgb565::WHITE));
    assert_eq!(RED, eg_raw(EgRgb565::RED));
    assert_eq!(GREEN, eg_raw(EgRgb565::GREEN));
    assert_eq!(BLUE, eg_raw(EgRgb565::BLUE));
    assert_eq!(MAGENTA, eg_raw(EgRgb565::MAGENTA));
    assert_eq!(CYAN, eg_raw(EgRgb565::CYAN));
}

#[test]
fn palette_holds_the_twelve_colours() {
    let expected = [
        EgRgb565::RED,
        EgRgb565::GREEN,
        EgRgb565::BLUE,
        EgRgb565::BLACK,
        EgRgb565::MAGENTA,
        EgRgb565::CYAN,
        EgRgb565::new(31, 31, 0),
        EgRgb565::new(31, 15, 0),
        EgRgb565::new(15, 31, 0),
        EgRgb565::new(0, 31, 15),
        EgRgb565::new(15, 0, 31),
        EgRgb565::new(31, 0, 15),
    ];
    assert_eq!(PALETTE_LEN, 12);
    for i in 0..PALETTE_LEN {
        assert_eq!(CIRCLE_COLORS[i], eg_raw(expected[i]));
        assert_eq!(palette_color(i).into_raw(), eg_raw(expected[i]));
    }
}

#[test]
fn only_the_sentinel_is_black() {
    for i in 0..PALETTE_LEN {
        assert_eq!(palette_color(i).is_sentinel(), i == SENTINEL_INDEX);
    }
}

#[test]
fn next_colour_skips_the_sentinel() {
    assert_eq!(next_color(0), 1);
    assert_eq!(next_color(1), 2);
    assert_eq!(next_color(2), 4);
    assert_eq!(next_color(3), 4);
    assert_eq!(next_color(10), 11);
    assert_eq!(next_color(11), 0);
    for i in 0..PALETTE_LEN {
        assert!(!palette_color(next_color(i)).is_sentinel());
    }
}
