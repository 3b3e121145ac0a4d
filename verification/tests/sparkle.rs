use pico_canvas::canvas::RectStyle;
use pico_canvas::color::{Rgb565, WHITE};
use pico_canvas::command::{DrawCommand, Indicator};
use pico_canvas::rng::Rng;
use pico_canvas::sparkle::{animation_pixels, sparkle_step};

fn block(x: i32, y: i32, raw: u16) -> DrawCommand {
    DrawCommand::Rectangle {
        x,
        y,
        width: 4,
        height: 4,
        color: Rgb565::from_raw(raw),
        style: RectStyle::Filled,
    }
}

#[test]
fn step_takes_six_draws() {
    let mut rng = Rng::new(0xACE1);
    let frame = sparkle_step(&mut rng);
    assert_eq!(frame.commands, vec![block(104, 188, 0x7ab1)]);
    assert_eq!(frame.indicator, Indicator::Unchanged);
    assert_eq!(frame.delay_us, 0);
    assert_eq!(rng.0, 3664636389);
}

#[test]
fn first_blocks_for_known_seed() {
    let mut rng = Rng::new(0xACE1);
    let frames = animation_pixels(&mut rng);
    assert_eq!(frames[1].commands, vec![block(104, 188, 0x7ab1)]);
    assert_eq!(frames[2].commands, vec![block(52, 220, 0x6d88)]);
    assert_eq!(frames[3].commands, vec![block(44, 196, 0x2cb5)]);
}

#[test]
fn pass_scales_with_the_screen() {
    let mut rng = Rng::new(0xACE1);
    let frames = animation_pixels(&mut rng);
    assert_eq!(frames.len(), 240 * 320 / 32 + 1);
    assert_eq!(frames[0].commands, vec![DrawCommand::Clear { color: Rgb565::from_raw(WHITE) }]);
    assert_eq!(frames[0].indicator, Indicator::Unchanged);
    assert_eq!(frames[0].delay_us, 0);
    assert_eq!(rng.0, 658819658);
}

#[test]
fn blocks_sit_on_the_grid_and_on_the_screen() {
    let mut rng = Rng::new(99);
    let frames = animation_pixels(&mut rng);
    for frame in &frames[1..] {
        assert_eq!(frame.commands.len(), 1);
        match frame.commands[0] {
            DrawCommand::Rectangle { x, y, width, height, style, .. } => {
                assert_eq!((width, height), (4, 4));
                assert_eq!(style, RectStyle::Filled);
                assert_eq!((x % 4, y % 4), (0, 0));
                assert!(x >= 0 && x + 4 <= 240);
                assert!(y >= 0 && y + 4 <= 320);
            }
            other => panic!("{:?}", other),
        }
    }
}

#[test]
fn pulses_come_with_their_delay() {
    let mut rng = Rng::new(0xACE1);
    let frames = animation_pixels(&mut rng);
    let mut pulses = 0;
    for frame in &frames[1..] {
        match frame.indicator {
            Indicator::Pulse => {
                pulses += 1;
                assert_eq!(frame.delay_us, 1_000);
            }
            Indicator::Unchanged => assert_eq!(frame.delay_us, 0),
            other => panic!("{:?}", other),
        }
    }
    assert_eq!(pulses, 24);
}

#[test]
fn same_seed_same_field() {
    let first = animation_pixels(&mut Rng::new(4242));
    let second = animation_pixels(&mut Rng::new(4242));
    assert_eq!(first, second);
    let third = animation_pixels(&mut Rng::new(4243));
    assert_ne!(first, third);
}
