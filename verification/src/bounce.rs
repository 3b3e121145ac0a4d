//! The bouncing banner: a line of text that drifts across the screen,
//! turns round at the edges and changes colour each time it does.

use crate::canvas::{in_bounds, RectStyle, HEIGHT, WIDTH};
use crate::color::{next_color, next_color_index, palette, palette_color, Rgb565, BLACK, PALETTE_LEN};
use crate::command::{all_drawable, frame_views, DrawCommand, Frame, FrameView, Indicator};
use crate::label::{lemma_label_printable, Label};
use crate::raster::{text_bounding_box, GLYPH_BASELINE};
use crate::rng::{xorshift32, Rng};
use vstd::prelude::*;

verus! {

/// Number of steps in one pass of the animation.
pub const BOUNCE_STEPS: usize = 1000;

/// Pause after each step, in microseconds.
pub const BOUNCE_DELAY_US: u64 = 5_000;

/// Distance that the banner moves along each axis in one step.
pub const BOUNCE_SPEED: i32 = 2;

/// Width of the banner's box: eight glyph cells.
pub const BANNER_WIDTH: i32 = 80;

/// Height of the banner's box: one glyph cell.
pub const BANNER_HEIGHT: i32 = 20;

/// Whether the position one step ahead would reach an edge: the near edge
/// of the screen, or the far edge once the banner's extent is added.
pub open spec fn axis_hits(position: int, velocity: int, extent: int, limit: int) -> bool {
    position + velocity <= 0 || position + velocity + extent >= limit
}

/// The velocity after the look-ahead: turned round where an edge would be
/// reached, kept otherwise.
pub open spec fn axis_velocity(position: int, velocity: int, extent: int, limit: int) -> int {
    if axis_hits(position, velocity, extent, limit) {
        -velocity
    } else {
        velocity
    }
}

/// One axis of a state that can be stepped for ever without leaving the
/// screen: the speed is the animation's, the position is on the screen, and
/// a banner that moves towards the near edge has room behind it for the
/// step back that a turn at the far edge would take.
pub open spec fn axis_ok(position: int, velocity: int, limit: int) -> bool {
    &&& velocity == BOUNCE_SPEED || velocity == -BOUNCE_SPEED
    &&& 0 <= position < limit
    &&& velocity < 0 ==> position + BOUNCE_SPEED < limit
}

/// Where the banner is, how it moves, and which palette colour it has.
#[derive(Clone, Copy, Debug, PartialEq, Eq, Structural)]
pub struct BounceState {
    pub x: i32,
    pub y: i32,
    pub vx: i32,
    pub vy: i32,
    pub color_index: usize,
}

impl BounceState {
    /// The state can be stepped: both axes are in order and the colour is a palette entry.
    pub open spec fn steppable(self) -> bool {
        &&& axis_ok(self.x as int, self.vx as int, WIDTH as int)
        &&& axis_ok(self.y as int, self.vy as int, HEIGHT as int)
        &&& self.color_index < PALETTE_LEN
    }

    pub open spec fn hits_x(self) -> bool {
        axis_hits(self.x as int, self.vx as int, BANNER_WIDTH as int, WIDTH as int)
    }

    pub open spec fn hits_y(self) -> bool {
        axis_hits(self.y as int, self.vy as int, BANNER_HEIGHT as int, HEIGHT as int)
    }

    /// The state one step later.
    pub open spec fn next(self) -> BounceState {
        let vx = axis_velocity(self.x as int, self.vx as int, BANNER_WIDTH as int, WIDTH as int);
        let vy = axis_velocity(self.y as int, self.vy as int, BANNER_HEIGHT as int, HEIGHT as int);
        BounceState {
            x: (self.x + vx) as i32,
            y: (self.y + vy) as i32,
            vx: vx as i32,
            vy: vy as i32,
            color_index: if self.hits_x() || self.hits_y() {
                next_color_index(self.color_index as int) as usize
            } else {
                self.color_index
            },
        }
    }

    /// The state `n` steps later.
    pub open spec fn after(self, n: nat) -> BounceState
        decreases n,
    {
        if n == 0 {
            self
        } else {
            self.after((n - 1) as nat).next()
        }
    }

    /// What one step draws: the banner's old box is blacked out, then the
    /// banner is drawn where it has moved to. The indicator is high on a
    /// bounce and low otherwise.
    pub open spec fn frame(self) -> FrameView {
        let moved = self.next();
        FrameView {
            commands: seq![
                DrawCommand::Rectangle {
                    x: self.x,
                    y: (self.y - GLYPH_BASELINE) as i32,
                    width: BANNER_WIDTH as u32,
                    height: BANNER_HEIGHT as u32,
                    color: Rgb565 { raw: BLACK },
                    style: RectStyle::Filled,
                },
                DrawCommand::Text {
                    x: moved.x,
                    y: moved.y,
                    label: Label::Banner,
                    color: palette(moved.color_index as int),
                },
            ],
            indicator: if self.hits_x() || self.hits_y() {
                Indicator::High
            } else {
                Indicator::Low
            },
            delay_us: BOUNCE_DELAY_US,
        }
    }

    /// The state that a pass starts from, given the generator's state: the
    /// first draw places the banner across, the second down.
    pub open spec fn start_from(state: u32) -> BounceState {
        let first = xorshift32(state);
        let second = xorshift32(first);
        BounceState {
            x: (first % ((WIDTH - BANNER_WIDTH) as u32)) as i32,
            y: (second % ((HEIGHT - BANNER_HEIGHT) as u32) + BANNER_HEIGHT) as i32,
            vx: BOUNCE_SPEED,
            vy: BOUNCE_SPEED,
            color_index: 0,
        }
    }

    /// Whether the state can be stepped.
    pub fn is_steppable(&self) -> (ok: bool)
        ensures
            ok == self.steppable(),
    {
        let speed_ok = (self.vx == BOUNCE_SPEED || self.vx == -BOUNCE_SPEED) && (self.vy
            == BOUNCE_SPEED || self.vy == -BOUNCE_SPEED);
        let on_screen = 0 <= self.x && self.x < WIDTH as i32 && 0 <= self.y && self.y
            < HEIGHT as i32;
        speed_ok && on_screen && (self.vx > 0 || self.x + BOUNCE_SPEED < WIDTH as i32) && (self.vy
            > 0 || self.y + BOUNCE_SPEED < HEIGHT as i32) && self.color_index < PALETTE_LEN
    }
}

/// The bouncing banner. It only ever holds a state that can be stepped.
#[derive(Clone, Copy, Debug, PartialEq, Eq)]
pub struct TextBounce {
    state: BounceState,
}

impl View for TextBounce {
    type V = BounceState;

    closed spec fn view(&self) -> BounceState {
        self.state
    }
}

impl TextBounce {
    /// Held by every banner: its state can be stepped.
    #[verifier::type_invariant]
    pub open spec fn wf(&self) -> bool {
        self@.steppable()
    }

    /// A banner in the given state; `None` for a state that cannot be stepped.
    pub fn at(state: BounceState) -> (bounce: Option<Self>)
        ensures
            bounce.is_some() == state.steppable(),
            bounce matches Some(b) ==> b@ == state,
    {
        if state.is_steppable() {
            Some(TextBounce { state })
        } else {
            None
        }
    }

    /// Places the banner at random and sets it moving down and to the right.
    pub fn start(rng: &mut Rng) -> (bounce: Self)
        ensures
            bounce@ == BounceState::start_from(old(rng).state()),
            bounce@.steppable(),
            final(rng).state() == xorshift32(xorshift32(old(rng).state())),
            old(rng).wf() ==> final(rng).wf(),
    {
        let banner = Label::Banner.text();
        proof {
            lemma_label_printable(Label::Banner);
        }
        let bounds = text_bounding_box(&banner, 0, 0);
        let text_width: u32 = bounds.2;
        let text_height: u32 = bounds.3;
        let x: i32 = (rng.next() % (WIDTH as u32 - text_width)) as i32;
        let y: i32 = (rng.next() % (HEIGHT as u32 - text_height)) as i32 + text_height as i32;
        TextBounce {
            state: BounceState { x, y, vx: BOUNCE_SPEED, vy: BOUNCE_SPEED, color_index: 0 },
        }
    }

    /// The state that the banner is in.
    pub fn state(&self) -> (state: BounceState)
        ensures
            state == self@,
            state.steppable(),
    {
        proof {
            use_type_invariant(self);
        }
        self.state
    }

    /// Moves the banner by one step and says what to draw for it.
    pub fn step(&mut self) -> (frame: Frame)
        ensures
            final(self)@ == old(self)@.next(),
            final(self)@.steppable(),
            frame@ == old(self)@.frame(),
            all_drawable(frame@.commands),
            (final(self)@.vx == -old(self)@.vx) == old(self)@.hits_x(),
            (final(self)@.vy == -old(self)@.vy) == old(self)@.hits_y(),
            in_bounds(final(self)@.x as int, final(self)@.y as int),
    {
        proof {
            use_type_invariant(&*self);
        }
        let BounceState { x, y, vx, vy, color_index } = self.state;
        let banner = Label::Banner.text();
        proof {
            lemma_label_printable(Label::Banner);
        }
        let bounds = text_bounding_box(&banner, x, y);
        let text_width: i32 = bounds.2 as i32;
        let text_height: i32 = bounds.3 as i32;
        let mut commands: Vec<DrawCommand> = Vec::new();
        commands.push(
            DrawCommand::Rectangle {
                x: bounds.0,
                y: bounds.1,
                width: bounds.2,
                height: bounds.3,
                color: Rgb565::from_raw(BLACK),
                style: RectStyle::Filled,
            },
        );
        let next_x: i32 = x + vx;
        let next_y: i32 = y + vy;
        let mut vx: i32 = vx;
        let mut vy: i32 = vy;
        let mut color_index: usize = color_index;
        let mut hit = false;
        if next_x <= 0 || next_x + text_width >= WIDTH as i32 {
            vx = -vx;
            hit = true;
        }
        if next_y <= 0 || next_y + text_height >= HEIGHT as i32 {
            vy = -vy;
            hit = true;
        }
        if hit {
            color_index = next_color(color_index);
        }
        let moved = BounceState { x: x + vx, y: y + vy, vx, vy, color_index };
        commands.push(
            DrawCommand::Text {
                x: moved.x,
                y: moved.y,
                label: Label::Banner,
                color: palette_color(color_index),
            },
        );
        let indicator = if hit {
            Indicator::High
        } else {
            Indicator::Low
        };
        assert(commands@ == old(self)@.frame().commands);
        self.state = moved;
        Frame { commands, indicator, delay_us: BOUNCE_DELAY_US }
    }
}

/// A step keeps a steppable state steppable, and with it on the screen. A
/// velocity changes sign exactly when the look-ahead reaches an edge, and a
/// bounce never leaves the banner in the background colour.
pub proof fn lemma_bounce_step(state: BounceState)
    requires
        state.steppable(),
    ensures
        state.next().steppable(),
        in_bounds(state.next().x as int, state.next().y as int),
        (state.next().vx == -state.vx) == state.hits_x(),
        (state.next().vy == -state.vy) == state.hits_y(),
        state.hits_x() || state.hits_y() ==> palette(state.next().color_index as int).raw
            != BLACK,
{
}

/// However many steps are taken, the banner's position stays on the screen.
/// A state that moves towards the near edge from within one step of the far
/// edge is not steppable, and is the one kind of start for which this fails.
pub proof fn lemma_bounce_stays_on_screen(state: BounceState, steps: nat)
    requires
        state.steppable(),
    ensures
        state.after(steps).steppable(),
        in_bounds(state.after(steps).x as int, state.after(steps).y as int),
    decreases steps,
{
    if steps > 0 {
        lemma_bounce_stays_on_screen(state, (steps - 1) as nat);
        lemma_bounce_step(state.after((steps - 1) as nat));
    }
}

/// The frame that opens a pass: the screen is cleared to black.
pub open spec fn bounce_setup() -> FrameView {
    FrameView {
        commands: seq![DrawCommand::Clear { color: Rgb565 { raw: BLACK } }],
        indicator: Indicator::Unchanged,
        delay_us: 0,
    }
}

/// The frames of one pass, for a generator in the given state: the opening
/// frame, then one frame for each step.
pub open spec fn bounce_frames(state: u32) -> Seq<FrameView> {
    Seq::new(
        (BOUNCE_STEPS + 1) as nat,
        |i: int|
            if i == 0 {
                bounce_setup()
            } else {
                BounceState::start_from(state).after((i - 1) as nat).frame()
            },
    )
}

/// One pass of the bouncing banner, as the frames to show in order.
pub fn animation_text(rng: &mut Rng) -> (frames: Vec<Frame>)
    ensures
        frame_views(frames@) == bounce_frames(old(rng).state()),
        forall|i: int| 0 <= i < frames@.len() ==> all_drawable(#[trigger] frames@[i]@.commands),
        final(rng).state() == xorshift32(xorshift32(old(rng).state())),
        old(rng).wf() ==> final(rng).wf(),
{
    let mut bounce = TextBounce::start(rng);
    let ghost origin = bounce@;
    let mut frames: Vec<Frame> = Vec::new();
    let mut setup: Vec<DrawCommand> = Vec::new();
    setup.push(DrawCommand::Clear { color: Rgb565::from_raw(BLACK) });
    frames.push(Frame { commands: setup, indicator: Indicator::Unchanged, delay_us: 0 });
    assert(frames@[0]@ == bounce_setup());
    let mut i: usize = 0;
    while i < BOUNCE_STEPS
        invariant
            i <= BOUNCE_STEPS,
            bounce@ == origin.after(i as nat),
            frames@.len() == i + 1,
            frames@[0]@ == bounce_setup(),
            forall|k: int| 1 <= k <= i ==> (#[trigger] frames@[k])@ == origin.after((k - 1) as nat).frame(),
            forall|k: int| 0 <= k <= i ==> all_drawable(#[trigger] frames@[k]@.commands),
        decreases BOUNCE_STEPS - i,
    {
        let frame = bounce.step();
        frames.push(frame);
        i += 1;
    }
    assert(frame_views(frames@) =~= bounce_frames(old(rng).state()));
    frames
}

} // verus!
