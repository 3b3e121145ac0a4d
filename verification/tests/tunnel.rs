use pico_canvas::color::{palette_color, Rgb565, BLACK};
use pico_canvas::command::{DrawCommand, Indicator};
use pico_canvas::tunnel::{animation_tunnel, Tunnel};

fn radii(commands: &[DrawCommand]) -> Vec<u32> {
    commands
        .iter()
        .filter_map(|c| match c {
            DrawCommand::Circle { radius, .. } => Some(*radius),
            _ => None,
        })
        .collect()
}

#[test]
fn rings_start_twenty_apart() {
    assert_eq!(Tunnel::new().depths(), [0, 20, 40, 60, 80, 100, 120, 140, 160, 180]);
}

#[test]
fn depths_past_the_maximum_are_refused() {
    assert!(Tunnel::with_depths([200; 10]).is_some());
    assert!(Tunnel::with_depths([0; 10]).is_some());
    assert!(Tunnel::with_depths([0, 0, 0, 0, 0, 0, 0, 0, 0, 201]).is_none());
    assert!(Tunnel::with_depths([u32::MAX, 0, 0, 0, 0, 0, 0, 0, 0, 0]).is_none());
    let depths = [1, 2, 3, 4, 5, 6, 7, 8, 9, 10];
    assert_eq!(Tunnel::with_depths(depths).unwrap().depths(), depths);
}

#[test]
fn step_advances_every_ring() {
    let mut tunnel = Tunnel::new();
    tunnel.step();
    assert_eq!(tunnel.depths(), [4, 24, 44, 64, 84, 104, 124, 144, 164, 184]);
}

#[test]
fn depth_wraps_past_the_maximum_only() {
    let mut tunnel =
        Tunnel::with_depths([192, 196, 197, 200, 0, 4, 199, 198, 195, 193]).unwrap();
    tunnel.step();
    assert_eq!(tunnel.depths(), [196, 200, 0, 0, 4, 8, 0, 0, 199, 197]);
}

#[test]
fn depth_stays_in_range_for_ever() {
    let mut tunnel = Tunnel::new();
    for _ in 0..5000 {
        let before = tunnel.depths();
        tunnel.step();
        let now = tunnel.depths();
        for i in 0..10 {
            assert!(now[i] <= 200);
            assert_eq!(now[i] == 0, before[i] + 4 > 200);
            if now[i] != 0 {
                assert_eq!(now[i], before[i] + 4);
            }
        }
    }
}

#[test]
fn frame_clears_then_draws_all_rings_but_the_black_one() {
    let mut tunnel = Tunnel::new();
    let frame = tunnel.step();
    assert_eq!(frame.indicator, Indicator::Toggle);
    assert_eq!(frame.delay_us, 100);
    assert_eq!(frame.commands.len(), 10);
    assert_eq!(frame.commands[0], DrawCommand::Clear { color: Rgb565::from_raw(BLACK) });
    assert_eq!(radii(&frame.commands), vec![2, 6, 18, 60, 92, 130, 174, 226, 284]);
    let rings = [0usize, 1, 2, 4, 5, 6, 7, 8, 9];
    for (k, command) in frame.commands[1..].iter().enumerate() {
        match *command {
            DrawCommand::Circle { cx, cy, color, stroke, .. } => {
                assert_eq!((cx, cy, stroke), (119, 159, 2));
                assert_eq!(color, palette_color(rings[k]));
                assert_ne!(color, Rgb565::from_raw(BLACK));
            }
            other => panic!("{:?}", other),
        }
    }
}

#[test]
fn radius_is_the_square_of_the_depth_scaled() {
    let mut tunnel = Tunnel::with_depths([196, 0, 6, 16, 56, 116, 176, 96, 36, 76]).unwrap();
    let frame = tunnel.step();
    assert_eq!(tunnel.depths(), [200, 4, 10, 20, 60, 120, 180, 100, 40, 80]);
    assert_eq!(radii(&frame.commands), vec![335, 2, 2, 32, 122, 272, 85, 15, 55]);
}

#[test]
fn pass_has_three_hundred_frames() {
    let frames = animation_tunnel();
    assert_eq!(frames.len(), 300);
    assert_eq!(radii(&frames[0].commands), vec![2, 6, 18, 60, 92, 130, 174, 226, 284]);
    assert_eq!(radii(&frames[1].commands), vec![2, 8, 21, 66, 99, 138, 184, 237, 296]);
    assert_eq!(radii(&frames[299].commands), vec![272, 335, 4, 28, 50, 78, 114, 156, 204]);
    for frame in &frames {
        assert_eq!(frame.commands[0], DrawCommand::Clear { color: Rgb565::from_raw(BLACK) });
        assert_eq!(frame.commands.len(), 10);
        assert_eq!(frame.indicator, Indicator::Toggle);
        assert_eq!(frame.delay_us, 100);
    }
}

#[test]
fn tunnel_pass_follows_the_stepper() {
    let frames = animation_tunnel();
    let mut tunnel = Tunnel::new();
    for frame in &frames {
        assert_eq!(*frame, tunnel.step());
    }
}
