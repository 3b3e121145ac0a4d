use pico_canvas::bounce::{animation_text, BounceState, TextBounce};
use pico_canvas::canvas::RectStyle;
use pico_canvas::color::{palette_color, Rgb565, BLACK};
use pico_canvas::command::{DrawCommand, Indicator};
use pico_canvas::label::Label;
use pico_canvas::rng::Rng;

fn black() -> Rgb565 {
    Rgb565::from_raw(BLACK)
}

fn state(x: i32, y: i32, vx: i32, vy: i32, color_index: usize) -> BounceState {
    BounceState { x, y, vx, vy, color_index }
}

fn banner(x: i32, y: i32, vx: i32, vy: i32, color_index: usize) -> TextBounce {
    TextBounce::at(state(x, y, vx, vy, color_index)).unwrap()
}

#[test]
fn start_places_the_banner_from_two_draws() {
    let mut rng = Rng::new(0xACE1);
    let bounce = TextBounce::start(&mut rng);
    assert_eq!(bounce.state(), state(47, 161, 2, 2, 0));
    assert_eq!(rng.0, 3770886741);
}

#[test]
fn start_is_always_on_the_screen() {
    let mut rng = Rng::new(7);
    for _ in 0..2000 {
        let s = TextBounce::start(&mut rng).state();
        assert!((0..160).contains(&s.x));
        assert!((20..320).contains(&s.y));
        assert_eq!((s.vx, s.vy, s.color_index), (2, 2, 0));
        assert!(s.is_steppable());
    }
}

#[test]
fn states_that_cannot_be_stepped_are_refused() {
    assert!(TextBounce::at(state(10, 10, 2, 2, 0)).is_some());
    assert!(TextBounce::at(state(0, 0, -2, -2, 11)).is_some());
    assert!(TextBounce::at(state(239, 319, 2, 2, 0)).is_some());
    assert!(TextBounce::at(state(237, 317, -2, -2, 0)).is_some());
    assert!(TextBounce::at(state(10, 319, 2, -2, 0)).is_none());
    assert!(TextBounce::at(state(10, 318, 2, -2, 0)).is_none());
    assert!(TextBounce::at(state(238, 10, -2, 2, 0)).is_none());
    assert!(TextBounce::at(state(-1, 10, 2, 2, 0)).is_none());
    assert!(TextBounce::at(state(10, -1, 2, 2, 0)).is_none());
    assert!(TextBounce::at(state(240, 10, 2, 2, 0)).is_none());
    assert!(TextBounce::at(state(10, 320, 2, 2, 0)).is_none());
    assert!(TextBounce::at(state(10, 10, 3, 2, 0)).is_none());
    assert!(TextBounce::at(state(10, 10, 2, 0, 0)).is_none());
    assert!(TextBounce::at(state(10, 10, 2, 2, 12)).is_none());
    assert!(TextBounce::at(state(10, 10, i32::MIN, i32::MAX, 0)).is_none());
}

#[test]
fn banner_moving_up_from_the_bottom_edge_would_leave_the_screen() {
    let s = state(10, 319, 2, -2, 0);
    assert!(!s.is_steppable());
    let ahead = s.y + s.vy;
    assert!(ahead + 20 >= 320);
    assert_eq!(s.y - s.vy, 321);
}

#[test]
fn step_without_bounce_moves_by_the_velocity() {
    let mut bounce = banner(47, 161, 2, 2, 0);
    let frame = bounce.step();
    assert_eq!(bounce.state(), state(49, 163, 2, 2, 0));
    assert_eq!(frame.indicator, Indicator::Low);
    assert_eq!(frame.delay_us, 5_000);
    assert_eq!(
        frame.commands,
        vec![
            DrawCommand::Rectangle {
                x: 47,
                y: 146,
                width: 80,
                height: 20,
                color: black(),
                style: RectStyle::Filled,
            },
            DrawCommand::Text { x: 49, y: 163, label: Label::Banner, color: palette_color(0) },
        ]
    );
}

#[test]
fn bounce_at_the_right_edge() {
    let mut bounce = banner(158, 100, 2, 2, 0);
    let frame = bounce.step();
    assert_eq!(bounce.state(), state(156, 102, -2, 2, 1));
    assert_eq!(frame.indicator, Indicator::High);
}

#[test]
fn no_bounce_one_step_before_the_right_edge() {
    let mut bounce = banner(157, 100, 2, 2, 0);
    let frame = bounce.step();
    assert_eq!(bounce.state(), state(159, 102, 2, 2, 0));
    assert_eq!(frame.indicator, Indicator::Low);
}

#[test]
fn bounce_at_the_left_and_top_edges() {
    let mut bounce = banner(2, 100, -2, -2, 5);
    bounce.step();
    assert_eq!(bounce.state(), state(4, 98, 2, -2, 6));
    let mut bounce = banner(50, 1, 2, -2, 11);
    bounce.step();
    assert_eq!(bounce.state(), state(52, 3, 2, 2, 0));
    let mut bounce = banner(3, 3, -2, -2, 0);
    bounce.step();
    assert_eq!(bounce.state(), state(1, 1, -2, -2, 0));
}

#[test]
fn bounce_in_a_corner_changes_colour_once() {
    let mut bounce = banner(158, 298, 2, 2, 0);
    let frame = bounce.step();
    assert_eq!(bounce.state(), state(156, 296, -2, -2, 1));
    assert_eq!(frame.indicator, Indicator::High);
}

#[test]
fn bounce_skips_the_background_colour() {
    let mut bounce = banner(158, 100, 2, 2, 2);
    bounce.step();
    assert_eq!(bounce.state().color_index, 4);
}

#[test]
fn banner_started_low_on_the_screen_turns_every_step() {
    let mut bounce = banner(10, 319, 2, 2, 0);
    bounce.step();
    assert_eq!((bounce.state().y, bounce.state().vy), (317, -2));
    bounce.step();
    assert_eq!((bounce.state().y, bounce.state().vy), (319, 2));
}

#[test]
fn position_stays_on_the_screen() {
    let mut rng = Rng::new(0xACE1);
    for _ in 0..50 {
        let mut bounce = TextBounce::start(&mut rng);
        for _ in 0..3000 {
            let before = bounce.state();
            let frame = bounce.step();
            let now = bounce.state();
            assert!((0..240).contains(&now.x), "{:?}", now);
            assert!((0..320).contains(&now.y), "{:?}", now);
            assert_eq!(now.vx.abs(), 2);
            assert_eq!(now.vy.abs(), 2);
            assert!(now.is_steppable());
            let ahead_x = before.x + before.vx;
            let ahead_y = before.y + before.vy;
            let hit_x = ahead_x <= 0 || ahead_x + 80 >= 240;
            let hit_y = ahead_y <= 0 || ahead_y + 20 >= 320;
            assert_eq!(now.vx == -before.vx, hit_x);
            assert_eq!(now.vy == -before.vy, hit_y);
            assert_eq!(frame.indicator == Indicator::High, hit_x || hit_y);
            assert_eq!(now.color_index != before.color_index, hit_x || hit_y);
            assert!(!palette_color(now.color_index).is_sentinel());
        }
    }
}

#[test]
fn every_steppable_state_steps_to_a_steppable_state() {
    for x in 0..240 {
        for y in 0..320 {
            for (vx, vy) in [(2, 2), (2, -2), (-2, 2), (-2, -2)] {
                if let Some(mut bounce) = TextBounce::at(state(x, y, vx, vy, 0)) {
                    bounce.step();
                    assert!(bounce.state().is_steppable(), "{:?}", bounce);
                } else {
                    assert!((vx < 0 && x >= 238) || (vy < 0 && y >= 318));
                }
            }
        }
    }
}

#[test]
fn pass_has_setup_and_a_thousand_steps() {
    let mut rng = Rng::new(0xACE1);
    let frames = animation_text(&mut rng);
    assert_eq!(frames.len(), 1001);
    assert_eq!(frames[0].commands, vec![DrawCommand::Clear { color: black() }]);
    assert_eq!(frames[0].indicator, Indicator::Unchanged);
    assert_eq!(frames[0].delay_us, 0);
    assert_eq!(rng.0, 3770886741);
    let bounces = frames.iter().filter(|f| f.indicator == Indicator::High).count();
    assert_eq!(bounces, 19);
    for frame in &frames[1..] {
        assert_eq!(frame.commands.len(), 2);
        assert_eq!(frame.delay_us, 5_000);
        assert!(frame.indicator == Indicator::High || frame.indicator == Indicator::Low);
    }
}

#[test]
fn banner_pass_follows_the_stepper() {
    let mut rng = Rng::new(12345);
    let frames = animation_text(&mut rng);
    let mut rng = Rng::new(12345);
    let mut bounce = TextBounce::start(&mut rng);
    for frame in &frames[1..] {
        assert_eq!(*frame, bounce.step());
    }
}

#[test]
fn pass_erases_where_the_banner_was_drawn() {
    let mut rng = Rng::new(0xACE1);
    let frames = animation_text(&mut rng);
    let mut at = (47, 161);
    for frame in &frames[1..] {
        match (frame.commands[0], frame.commands[1]) {
            (
                DrawCommand::Rectangle { x, y, width, height, color, style },
                DrawCommand::Text { x: tx, y: ty, label, color: text_color },
            ) => {
                assert_eq!((x, y), (at.0, at.1 - 15));
                assert_eq!((width, height), (80, 20));
                assert_eq!(color, black());
                assert_eq!(style, RectStyle::Filled);
                assert_eq!(label, Label::Banner);
                assert_ne!(text_color, black());
                at = (tx, ty);
            }
            other => panic!("{:?}", other),
        }
    }
    assert_eq!(at, (151, 225));
}
