//! The random pixel field: small blocks of random colour dropped on a grid.

use crate::canvas::{RectStyle, HEIGHT, WIDTH};
use crate::color::{pack565, Rgb565, WHITE};
use crate::command::{all_drawable, frame_views, DrawCommand, Frame, FrameView, Indicator};
use crate::rng::{xorshift32, Rng};
use vstd::prelude::*;

verus! {

/// Number of blocks in one pass: the screen's area over thirty-two.
pub const SPARKLE_STEPS: usize = 2400;

/// Side of a block, and spacing of the grid that blocks sit on.
pub const GRID: u32 = 4;

/// A step pulses the indicator when its last draw is a multiple of this.
pub const PULSE_ODDS: u32 = 100;

/// Length of an indicator pulse, in microseconds.
pub const PULSE_US: u64 = 1_000;

/// The generator's state after one step.
pub open spec fn sparkle_draws(state: u32) -> u32 {
    xorshift32(xorshift32(xorshift32(xorshift32(xorshift32(xorshift32(state))))))
}

/// The generator's state after `n` steps.
pub open spec fn sparkle_state(state: u32, n: nat) -> u32
    decreases n,
{
    if n == 0 {
        state
    } else {
        sparkle_draws(sparkle_state(state, (n - 1) as nat))
    }
}

/// The frame of one step, for a generator in the given state. Six draws
/// are taken: red, green and blue, each cut to its channel's width; the
/// column and the row of the grid; and one that decides on the pulse.
pub open spec fn sparkle_frame(state: u32) -> FrameView {
    let red = xorshift32(state);
    let green = xorshift32(red);
    let blue = xorshift32(green);
    let column = xorshift32(blue);
    let row = xorshift32(column);
    let chance = xorshift32(row);
    let pulse = chance % PULSE_ODDS == 0;
    FrameView {
        commands: seq![
            DrawCommand::Rectangle {
                x: ((column % ((WIDTH as u32) / GRID)) * GRID) as i32,
                y: ((row % ((HEIGHT as u32) / GRID)) * GRID) as i32,
                width: GRID,
                height: GRID,
                color: Rgb565 {
                    raw: pack565((red & 0x1f) as u8, (green & 0x3f) as u8, (blue & 0x1f) as u8),
                },
                style: RectStyle::Filled,
            },
        ],
        indicator: if pulse {
            Indicator::Pulse
        } else {
            Indicator::Unchanged
        },
        delay_us: if pulse {
            PULSE_US
        } else {
            0
        },
    }
}

/// The frame that opens a pass: the screen is cleared to white.
pub open spec fn sparkle_setup() -> FrameView {
    FrameView {
        commands: seq![DrawCommand::Clear { color: Rgb565 { raw: WHITE } }],
        indicator: Indicator::Unchanged,
        delay_us: 0,
    }
}

/// The frames of one pass, for a generator in the given state.
pub open spec fn sparkle_frames(state: u32) -> Seq<FrameView> {
    Seq::new(
        (SPARKLE_STEPS + 1) as nat,
        |i: int|
            if i == 0 {
                sparkle_setup()
            } else {
                sparkle_frame(sparkle_state(state, (i - 1) as nat))
            },
    )
}

/// Every block of the field lies wholly on the screen, on the grid.
pub proof fn lemma_sparkle_on_screen(state: u32)
    ensures
        sparkle_frame(state).commands.len() == 1,
        sparkle_frame(state).commands[0] matches DrawCommand::Rectangle { x, y, width, height, .. }
            && 0 <= x && x + width <= WIDTH && 0 <= y && y + height <= HEIGHT && (x as int) % (
        GRID as int) == 0 && (y as int) % (GRID as int) == 0,
{
}

/// Draws the next block of the field.
pub fn sparkle_step(rng: &mut Rng) -> (frame: Frame)
    ensures
        frame@ == sparkle_frame(old(rng).state()),
        all_drawable(frame@.commands),
        final(rng).state() == sparkle_draws(old(rng).state()),
        old(rng).wf() ==> final(rng).wf(),
{
    let red: u32 = rng.next() & 0x1F;
    let green: u32 = rng.next() & 0x3F;
    let blue: u32 = rng.next() & 0x1F;
    assert(red < 256 && green < 256 && blue < 256) by {
        let r = xorshift32(old(rng).state());
        let g = xorshift32(r);
        let b = xorshift32(g);
        assert(r & 0x1F < 256) by (bit_vector);
        assert(g & 0x3F < 256) by (bit_vector);
        assert(b & 0x1F < 256) by (bit_vector);
    }
    let color = Rgb565::new(red as u8, green as u8, blue as u8);
    let x: i32 = ((rng.next() % (WIDTH as u32 / GRID)) * GRID) as i32;
    let y: i32 = ((rng.next() % (HEIGHT as u32 / GRID)) * GRID) as i32;
    let mut commands: Vec<DrawCommand> = Vec::new();
    commands.push(
        DrawCommand::Rectangle { x, y, width: GRID, height: GRID, color, style: RectStyle::Filled },
    );
    let pulse = rng.next() % PULSE_ODDS == 0;
    assert(commands@ == sparkle_frame(old(rng).state()).commands);
    if pulse {
        Frame { commands, indicator: Indicator::Pulse, delay_us: PULSE_US }
    } else {
        Frame { commands, indicator: Indicator::Unchanged, delay_us: 0 }
    }
}

/// One pass of the random pixel field, as the frames to show in order.
pub fn animation_pixels(rng: &mut Rng) -> (frames: Vec<Frame>)
    ensures
        frame_views(frames@) == sparkle_frames(old(rng).state()),
        forall|i: int| 0 <= i < frames@.len() ==> all_drawable(#[trigger] frames@[i]@.commands),
        final(rng).state() == sparkle_state(old(rng).state(), SPARKLE_STEPS as nat),
        old(rng).wf() ==> final(rng).wf(),
{
    let mut frames: Vec<Frame> = Vec::new();
    let mut setup: Vec<DrawCommand> = Vec::new();
    setup.push(DrawCommand::Clear { color: Rgb565::from_raw(WHITE) });
    frames.push(Frame { commands: setup, indicator: Indicator::Unchanged, delay_us: 0 });
    assert(frames@[0]@ == sparkle_setup());
    let ghost origin = rng.state();
    let mut i: usize = 0;
    while i < (WIDTH * HEIGHT) / 32
        invariant
            i <= SPARKLE_STEPS,
            origin == old(rng).state(),
            rng.state() == sparkle_state(origin, i as nat),
            old(rng).wf() ==> rng.wf(),
            frames@.len() == i + 1,
            frames@[0]@ == sparkle_setup(),
            forall|k: int|
                1 <= k <= i ==> (#[trigger] frames@[k])@ == sparkle_frame(
                    sparkle_state(origin, (k - 1) as nat),
                ),
            forall|k: int| 0 <= k <= i ==> all_drawable(#[trigger] frames@[k]@.commands),
        decreases SPARKLE_STEPS - i,
    {
        let frame = sparkle_step(rng);
        frames.push(frame);
        i += 1;
    }
    assert(frame_views(frames@) =~= sparkle_frames(origin));
    frames
}

} // verus!
