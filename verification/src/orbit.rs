//! The orbiting circles: twelve rings set at equal angles round the middle
//! of the screen, one drawn in each step on a screen cleared once.

use crate::canvas::{CENTER_X, CENTER_Y};
use crate::color::{palette, palette_color, Rgb565, PALETTE_LEN, WHITE};
use crate::command::{all_drawable, frame_views, DrawCommand, Frame, FrameView, Indicator};
use vstd::prelude::*;

verus! {

/// Number of circles on the orbit, and of steps in one pass.
pub const ORBIT_COUNT: usize = 12;

/// Angle between neighbours on the orbit, in degrees.
pub const ORBIT_STEP_DEGREES: u32 = 30;

/// Radius of the orbit, and of every circle drawn.
pub const ORBIT_RADIUS: u32 = 30;

/// Stroke width of every circle.
pub const STROKE_WIDTH: u32 = 2;

/// Pause after each step, in microseconds.
pub const ORBIT_DELAY_US: u64 = 50_000;

/// How far, in pixels, the length of an offset may differ from the radius.
/// Cutting to whole pixels and the coarseness of a small machine's cosine
/// each move a place by less than a pixel.
pub const ORBIT_SLACK: u32 = 2;

/// The square of the length of an offset.
pub open spec fn squared_length(offset: (i32, i32)) -> int {
    offset.0 * offset.0 + offset.1 * offset.1
}

/// Whether an offset from the centre ends on the orbit: its length differs
/// from the radius by no more than the slack.
pub open spec fn on_orbit(offset: (i32, i32)) -> bool {
    (ORBIT_RADIUS - ORBIT_SLACK) * (ORBIT_RADIUS - ORBIT_SLACK) <= squared_length(offset) <= (
    ORBIT_RADIUS + ORBIT_SLACK) * (ORBIT_RADIUS + ORBIT_SLACK)
}

/// An offset on the orbit is no longer than the radius and the slack on
/// either axis, and is not the centre itself.
pub proof fn lemma_on_orbit_reach(offset: (i32, i32))
    requires
        on_orbit(offset),
    ensures
        -(ORBIT_RADIUS + ORBIT_SLACK) <= offset.0 <= ORBIT_RADIUS + ORBIT_SLACK,
        -(ORBIT_RADIUS + ORBIT_SLACK) <= offset.1 <= ORBIT_RADIUS + ORBIT_SLACK,
        offset != (0i32, 0i32),
{
    let dx = offset.0 as int;
    let dy = offset.1 as int;
    assert(784 <= dx * dx + dy * dy <= 1024);
    assert(-32 <= dx <= 32 && -32 <= dy <= 32) by (nonlinear_arith)
        requires
            dx * dx + dy * dy <= 1024,
    ;
    if dx == 0 && dy == 0 {
        assert(dx * dx + dy * dy == 0) by (nonlinear_arith)
            requires
                dx == 0,
                dy == 0,
        ;
    }
}

/// The frame that opens a pass: the screen is cleared to white, and
/// nothing else is drawn.
pub open spec fn orbit_setup() -> FrameView {
    FrameView {
        commands: seq![DrawCommand::Clear { color: Rgb565 { raw: WHITE } }],
        indicator: Indicator::Unchanged,
        delay_us: 0,
    }
}

/// The frame of step `step`: one circle, moved from the centre by the
/// offset of its place on the orbit, in the palette colour of its number.
/// The indicator is high while the frame is shown.
pub open spec fn orbit_frame(step: int, offset: (i32, i32)) -> FrameView {
    FrameView {
        commands: seq![
            DrawCommand::Circle {
                cx: (CENTER_X + offset.0) as i32,
                cy: (CENTER_Y + offset.1) as i32,
                radius: ORBIT_RADIUS,
                color: palette(step % (PALETTE_LEN as int)),
                stroke: STROKE_WIDTH,
            },
        ],
        indicator: Indicator::Pulse,
        delay_us: ORBIT_DELAY_US,
    }
}

/// The frames of one pass: the opening frame, then one for each place on the orbit.
pub open spec fn orbit_frames(offsets: Seq<(i32, i32)>) -> Seq<FrameView> {
    Seq::new(
        (ORBIT_COUNT + 1) as nat,
        |i: int|
            if i == 0 {
                orbit_setup()
            } else {
                orbit_frame(i - 1, offsets[i - 1])
            },
    )
}

/// How many of the commands draw a circle.
pub open spec fn circles_in(commands: Seq<DrawCommand>) -> nat
    decreases commands.len(),
{
    if commands.len() == 0 {
        0
    } else {
        circles_in(commands.drop_last()) + if commands.last() is Circle {
            1nat
        } else {
            0nat
        }
    }
}

/// How many circles a run of frames draws.
pub open spec fn circles_drawn(frames: Seq<FrameView>) -> nat
    decreases frames.len(),
{
    if frames.len() == 0 {
        0
    } else {
        circles_drawn(frames.drop_last()) + circles_in(frames.last().commands)
    }
}

/// The first frames of a pass draw one circle fewer than their number: the
/// opening frame draws none, every later frame one.
proof fn lemma_orbit_prefix_circles(offsets: Seq<(i32, i32)>, count: nat)
    requires
        1 <= count <= ORBIT_COUNT + 1,
    ensures
        circles_drawn(orbit_frames(offsets).take(count as int)) == count - 1,
    decreases count,
{
    let frames = orbit_frames(offsets);
    let prefix = frames.take(count as int);
    let last = frames[count - 1].commands;
    assert(prefix.drop_last() == frames.take(count - 1));
    assert(prefix.last() == frames[count - 1]);
    assert(last.len() == 1);
    assert(last.drop_last() == Seq::<DrawCommand>::empty());
    assert(circles_in(last.drop_last()) == 0);
    if count == 1 {
        assert(frames.take(0) == Seq::<FrameView>::empty());
        assert(circles_drawn(frames.take(0)) == 0);
        assert(!(last.last() is Circle));
    } else {
        lemma_orbit_prefix_circles(offsets, (count - 1) as nat);
        assert(last.last() is Circle);
    }
}

/// A pass draws exactly twelve circles: none in the opening frame, which
/// only clears the screen, and one in the frame of each place.
pub proof fn lemma_orbit_pass_draws_twelve_circles(offsets: Seq<(i32, i32)>)
    ensures
        circles_drawn(orbit_frames(offsets)) == ORBIT_COUNT,
        orbit_frames(offsets).len() == ORBIT_COUNT + 1,
        orbit_frames(offsets)[0].commands == seq![
            DrawCommand::Clear { color: Rgb565 { raw: WHITE } },
        ],
        forall|i: int|
            1 <= i <= ORBIT_COUNT ==> {
                let commands = (#[trigger] orbit_frames(offsets)[i]).commands;
                commands.len() == 1 && commands[0] is Circle
            },
{
    let frames = orbit_frames(offsets);
    lemma_orbit_prefix_circles(offsets, (ORBIT_COUNT + 1) as nat);
    assert(frames.take(ORBIT_COUNT + 1) == frames);
}

/// Whether a list of offsets has one for each place, each ending on the orbit.
pub open spec fn orbit_ok(offsets: Seq<(i32, i32)>) -> bool {
    &&& offsets.len() == ORBIT_COUNT
    &&& forall|i: int| 0 <= i < offsets.len() ==> on_orbit(#[trigger] offsets[i])
}

/// The angle of place `step` on the orbit, in degrees from the positive x
/// axis; `None` for a step past the last place.
pub fn orbit_angle(step: usize) -> (degrees: Option<u32>)
    ensures
        degrees == if step < ORBIT_COUNT {
            Some((ORBIT_STEP_DEGREES * step) as u32)
        } else {
            None
        },
        degrees matches Some(d) ==> d < 360,
{
    if step < ORBIT_COUNT {
        Some(ORBIT_STEP_DEGREES * (step as u32))
    } else {
        None
    }
}

/// The places on the orbit: for each, how far it lies from the centre
/// across and down. The offsets are the radius times the cosine and the
/// sine of the place's angle, cut to whole pixels, so each ends on the
/// orbit.
#[derive(Clone, Copy, Debug, PartialEq, Eq)]
pub struct Orbit {
    offsets: [(i32, i32); 12],
}

impl View for Orbit {
    type V = Seq<(i32, i32)>;

    closed spec fn view(&self) -> Seq<(i32, i32)> {
        self.offsets@
    }
}

impl Orbit {
    /// Held by every orbit: one offset for each place, each ending on the orbit.
    #[verifier::type_invariant]
    pub open spec fn wf(&self) -> bool {
        orbit_ok(self@)
    }

    /// An orbit with the given offsets; `None` where one of them does not
    /// end on the orbit.
    pub fn new(offsets: [(i32, i32); 12]) -> (orbit: Option<Self>)
        ensures
            orbit.is_some() == orbit_ok(offsets@),
            orbit matches Some(o) ==> o@ == offsets@,
    {
        let reach: i32 = (ORBIT_RADIUS + ORBIT_SLACK) as i32;
        let inner: i32 = (ORBIT_RADIUS - ORBIT_SLACK) as i32;
        assert(inner * inner == 784 && reach * reach == 1024) by (nonlinear_arith)
            requires
                inner == 28,
                reach == 32,
        ;
        let shortest: i32 = inner * inner;
        let longest: i32 = reach * reach;
        let mut i: usize = 0;
        while i < ORBIT_COUNT
            invariant
                i <= ORBIT_COUNT,
                reach == ORBIT_RADIUS + ORBIT_SLACK,
                shortest == (ORBIT_RADIUS - ORBIT_SLACK) * (ORBIT_RADIUS - ORBIT_SLACK),
                longest == (ORBIT_RADIUS + ORBIT_SLACK) * (ORBIT_RADIUS + ORBIT_SLACK),
                forall|k: int| 0 <= k < i ==> on_orbit(#[trigger] offsets@[k]),
            decreases ORBIT_COUNT - i,
        {
            let (dx, dy) = offsets[i];
            if dx < -reach || dx > reach || dy < -reach || dy > reach {
                proof {
                    if on_orbit(offsets@[i as int]) {
                        lemma_on_orbit_reach(offsets@[i as int]);
                    }
                }
                return None;
            }
            assert(0 <= dx * dx <= 1024 && 0 <= dy * dy <= 1024) by (nonlinear_arith)
                requires
                    -32 <= dx <= 32,
                    -32 <= dy <= 32,
            ;
            let length: i32 = dx * dx + dy * dy;
            if length < shortest || length > longest {
                return None;
            }
            i += 1;
        }
        Some(Orbit { offsets })
    }

    /// The offsets, place by place.
    pub fn offsets(&self) -> (offsets: [(i32, i32); 12])
        ensures
            offsets@ == self@,
            orbit_ok(self@),
    {
        proof {
            use_type_invariant(self);
        }
        self.offsets
    }

    /// The frame that draws the circle at place `step`; `None` for a step
    /// past the last place.
    pub fn step(&self, step: usize) -> (frame: Option<Frame>)
        ensures
            frame.is_some() == (step < ORBIT_COUNT),
            frame matches Some(f) ==> f@ == orbit_frame(step as int, self@[step as int])
                && all_drawable(f@.commands),
    {
        proof {
            use_type_invariant(self);
        }
        if step >= ORBIT_COUNT {
            return None;
        }
        let offset = self.offsets[step];
        proof {
            lemma_on_orbit_reach(offset);
        }
        let mut commands: Vec<DrawCommand> = Vec::new();
        commands.push(
            DrawCommand::Circle {
                cx: CENTER_X + offset.0,
                cy: CENTER_Y + offset.1,
                radius: ORBIT_RADIUS,
                color: palette_color(step % PALETTE_LEN),
                stroke: STROKE_WIDTH,
            },
        );
        assert(commands@ == orbit_frame(step as int, offset).commands);
        Some(Frame { commands, indicator: Indicator::Pulse, delay_us: ORBIT_DELAY_US })
    }
}

/// One pass of the orbiting circles, as the frames to show in order: the
/// screen is cleared once, then the twelve circles are drawn, one to a frame.
pub fn animation_circles(orbit: &Orbit) -> (frames: Vec<Frame>)
    ensures
        frame_views(frames@) == orbit_frames(orbit@),
        circles_drawn(frame_views(frames@)) == ORBIT_COUNT,
        forall|i: int| 0 <= i < frames@.len() ==> all_drawable(#[trigger] frames@[i]@.commands),
{
    let mut frames: Vec<Frame> = Vec::new();
    let mut setup: Vec<DrawCommand> = Vec::new();
    setup.push(DrawCommand::Clear { color: Rgb565::from_raw(WHITE) });
    assert(setup@ == orbit_setup().commands);
    frames.push(Frame { commands: setup, indicator: Indicator::Unchanged, delay_us: 0 });
    let mut i: usize = 0;
    while i < ORBIT_COUNT
        invariant
            i <= ORBIT_COUNT,
            frames@.len() == i + 1,
            frames@[0]@ == orbit_setup(),
            forall|k: int| 1 <= k <= i ==> (#[trigger] frames@[k])@ == orbit_frame(k - 1, orbit@[k - 1]),
            forall|k: int| 0 <= k <= i ==> all_drawable(#[trigger] frames@[k]@.commands),
        decreases ORBIT_COUNT - i,
    {
        if let Some(frame) = orbit.step(i) {
            frames.push(frame);
        }
        i += 1;
    }
    assert(frame_views(frames@) =~= orbit_frames(orbit@));
    proof {
        lemma_orbit_pass_draws_twelve_circles(orbit@);
    }
    frames
}

} // verus!
