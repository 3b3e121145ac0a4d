//! The tunnel: rings that rush towards the viewer, each growing faster the
//! nearer it comes, and starting again at the far end once it has passed.

use crate::color::{palette, palette_color, Rgb565, BLACK, PALETTE_LEN};
use crate::command::{all_drawable, frame_views, DrawCommand, Frame, FrameView, Indicator};
use crate::canvas::{CENTER_X, CENTER_Y};
use vstd::prelude::*;

verus! {

/// Number of rings.
pub const RING_COUNT: usize = 10;

/// Distance in depth between neighbouring rings at the start.
pub const RING_SPACING: u32 = 20;

/// How far every ring advances in one frame.
pub const DEPTH_STEP: u32 = 4;

/// The depth past which a ring starts again at zero.
pub const MAX_DEPTH: u32 = 200;

/// Divisor that scales the square of the depth down to a radius.
pub const RADIUS_DIVISOR: u32 = 120;

/// Radius of a ring at depth zero.
pub const MIN_RADIUS: u32 = 2;

/// Stroke width of every ring.
pub const RING_STROKE: u32 = 2;

/// Number of frames in one pass.
pub const TUNNEL_FRAMES: usize = 300;

/// Pause after each frame, in microseconds.
pub const TUNNEL_DELAY_US: u64 = 100;

/// The depth of a ring one frame later: advanced by the step, and back at
/// zero where that would pass the maximum.
pub open spec fn advance_depth(depth: int) -> int {
    if depth + DEPTH_STEP > MAX_DEPTH {
        0
    } else {
        depth + DEPTH_STEP
    }
}

/// The radius at which a ring of the given depth is drawn.
pub open spec fn ring_radius(depth: int) -> int {
    depth * depth / (RADIUS_DIVISOR as int) + MIN_RADIUS
}

/// The depths one frame later.
pub open spec fn advance_all(depths: Seq<u32>) -> Seq<u32> {
    Seq::new(depths.len(), |i: int| advance_depth(depths[i] as int) as u32)
}

/// The depths that a pass starts from: ring `i` at `i` times the spacing.
pub open spec fn initial_depths() -> Seq<u32> {
    Seq::new(RING_COUNT as nat, |i: int| (i * RING_SPACING) as u32)
}

/// The depths after `n` frames.
pub open spec fn depths_after(n: nat) -> Seq<u32>
    decreases n,
{
    if n == 0 {
        initial_depths()
    } else {
        advance_all(depths_after((n - 1) as nat))
    }
}

/// Whether a list of depths is one for each ring, none past the maximum.
pub open spec fn depths_ok(depths: Seq<u32>) -> bool {
    &&& depths.len() == RING_COUNT
    &&& forall|i: int| 0 <= i < depths.len() ==> #[trigger] depths[i] <= MAX_DEPTH
}

/// The circle drawn for ring `ring` at the given depth.
pub open spec fn ring_command(ring: int, depth: u32) -> DrawCommand {
    DrawCommand::Circle {
        cx: CENTER_X,
        cy: CENTER_Y,
        radius: ring_radius(depth as int) as u32,
        color: palette(ring % (PALETTE_LEN as int)),
        stroke: RING_STROKE,
    }
}

/// The circles drawn for the first `count` rings. A ring whose palette
/// colour is the background colour is left out.
pub open spec fn ring_commands(depths: Seq<u32>, count: nat) -> Seq<DrawCommand>
    decreases count,
{
    if count == 0 {
        Seq::empty()
    } else {
        let ring = (count - 1) as int;
        let before = ring_commands(depths, (count - 1) as nat);
        if palette(ring % (PALETTE_LEN as int)).raw == BLACK {
            before
        } else {
            before.push(ring_command(ring, depths[ring]))
        }
    }
}

/// The frame drawn from the given depths, which are those before the
/// frame's advance: the screen is cleared to black, then every ring is
/// drawn at its new depth. The indicator changes level.
pub open spec fn tunnel_frame(depths: Seq<u32>) -> FrameView {
    FrameView {
        commands: seq![DrawCommand::Clear { color: Rgb565 { raw: BLACK } }] + ring_commands(
            advance_all(depths),
            RING_COUNT as nat,
        ),
        indicator: Indicator::Toggle,
        delay_us: TUNNEL_DELAY_US,
    }
}

/// The frames of one pass.
pub open spec fn tunnel_frames() -> Seq<FrameView> {
    Seq::new(TUNNEL_FRAMES as nat, |i: int| tunnel_frame(depths_after(i as nat)))
}

/// A ring's depth is back at zero exactly when the step would take it past
/// the maximum; otherwise it has grown by the step. It never passes the
/// maximum and is never negative.
pub proof fn lemma_depth_wraps(depth: int)
    requires
        0 <= depth <= MAX_DEPTH,
    ensures
        0 <= advance_depth(depth) <= MAX_DEPTH,
        (advance_depth(depth) == 0) == (depth + DEPTH_STEP > MAX_DEPTH),
        depth + DEPTH_STEP <= MAX_DEPTH ==> advance_depth(depth) == depth + DEPTH_STEP,
{
}

/// However many frames are drawn, every ring's depth stays between zero
/// and the maximum.
pub proof fn lemma_depths_stay_in_range(frames: nat)
    ensures
        depths_ok(depths_after(frames)),
    decreases frames,
{
    if frames > 0 {
        lemma_depths_stay_in_range((frames - 1) as nat);
        let before = depths_after((frames - 1) as nat);
        assert forall|i: int| 0 <= i < depths_after(frames).len() implies #[trigger] depths_after(
            frames,
        )[i] <= MAX_DEPTH by {
            lemma_depth_wraps(before[i] as int);
        }
    }
}

/// A deeper ring is never drawn smaller.
pub proof fn lemma_radius_grows(near: int, far: int)
    requires
        0 <= near <= far,
    ensures
        MIN_RADIUS <= ring_radius(near) <= ring_radius(far),
{
    assert(near * near <= far * far) by (nonlinear_arith)
        requires
            0 <= near <= far,
    ;
    assert(0 <= near * near) by (nonlinear_arith);
    let a = near * near;
    let b = far * far;
    assert(a / 120 <= b / 120);
    assert(0 <= a / 120);
}

/// The radius of a ring within the maximum depth.
pub proof fn lemma_radius_bound(depth: int)
    requires
        0 <= depth <= MAX_DEPTH,
    ensures
        MIN_RADIUS <= ring_radius(depth) <= 335,
{
    lemma_radius_grows(depth, MAX_DEPTH as int);
    lemma_radius_grows(0, depth);
    assert(ring_radius(200) == 335) by {
        assert(200 * 200 == 40000int);
    }
}

/// The rings of the tunnel, by their depths. No ring is ever past the
/// maximum depth.
#[derive(Clone, Copy, Debug, PartialEq, Eq)]
pub struct Tunnel {
    depths: [u32; 10],
}

impl View for Tunnel {
    type V = Seq<u32>;

    closed spec fn view(&self) -> Seq<u32> {
        self.depths@
    }
}

impl Tunnel {
    /// Held by every tunnel: one depth for each ring, none past the maximum.
    #[verifier::type_invariant]
    pub open spec fn wf(&self) -> bool {
        depths_ok(self@)
    }

    /// The tunnel at the start of a pass.
    pub fn new() -> (tunnel: Self)
        ensures
            tunnel@ == initial_depths(),
    {
        let mut depths: [u32; 10] = [0u32; 10];
        let mut i: usize = 0;
        while i < RING_COUNT
            invariant
                i <= RING_COUNT,
                forall|k: int| 0 <= k < i ==> depths@[k] == k * RING_SPACING,
            decreases RING_COUNT - i,
        {
            depths[i] = (i as u32) * RING_SPACING;
            i += 1;
        }
        assert(depths@ =~= initial_depths());
        Tunnel { depths }
    }

    /// A tunnel with the given depths; `None` where a depth is past the maximum.
    pub fn with_depths(depths: [u32; 10]) -> (tunnel: Option<Self>)
        ensures
            tunnel.is_some() == depths_ok(depths@),
            tunnel matches Some(t) ==> t@ == depths@,
    {
        let mut i: usize = 0;
        while i < RING_COUNT
            invariant
                i <= RING_COUNT,
                forall|k: int| 0 <= k < i ==> #[trigger] depths@[k] <= MAX_DEPTH,
            decreases RING_COUNT - i,
        {
            if depths[i] > MAX_DEPTH {
                return None;
            }
            i += 1;
        }
        Some(Tunnel { depths })
    }

    /// The depths of the rings.
    pub fn depths(&self) -> (depths: [u32; 10])
        ensures
            depths@ == self@,
            depths_ok(self@),
    {
        proof {
            use_type_invariant(self);
        }
        self.depths
    }

    /// Advances every ring by one frame and says what to draw for it.
    pub fn step(&mut self) -> (frame: Frame)
        ensures
            final(self)@ == advance_all(old(self)@),
            depths_ok(final(self)@),
            frame@ == tunnel_frame(old(self)@),
            all_drawable(frame@.commands),
    {
        proof {
            use_type_invariant(&*self);
        }
        let mut depths: [u32; 10] = self.depths;
        let mut commands: Vec<DrawCommand> = Vec::new();
        commands.push(DrawCommand::Clear { color: Rgb565::from_raw(BLACK) });
        let ghost target = advance_all(old(self)@);
        let mut i: usize = 0;
        while i < RING_COUNT
            invariant
                i <= RING_COUNT,
                depths_ok(old(self)@),
                target == advance_all(old(self)@),
                depths@.len() == RING_COUNT,
                forall|k: int| 0 <= k < i ==> depths@[k] == target[k],
                forall|k: int| i <= k < RING_COUNT ==> depths@[k] == old(self)@[k],
                commands@ == seq![DrawCommand::Clear { color: Rgb565 { raw: BLACK } }]
                    + ring_commands(target, i as nat),
                all_drawable(commands@),
            decreases RING_COUNT - i,
        {
            let mut depth: u32 = depths[i] + DEPTH_STEP;
            if depth > MAX_DEPTH {
                depth = 0;
            }
            depths[i] = depth;
            proof {
                lemma_radius_bound(depth as int);
                assert(depth * depth <= 40000) by (nonlinear_arith)
                    requires
                        0 <= depth <= 200,
                ;
            }
            let radius: u32 = (depth * depth) / RADIUS_DIVISOR + MIN_RADIUS;
            let color = palette_color(i % PALETTE_LEN);
            i += 1;
            if color.is_sentinel() {
                continue ;
            }
            commands.push(
                DrawCommand::Circle {
                    cx: CENTER_X,
                    cy: CENTER_Y,
                    radius,
                    color,
                    stroke: RING_STROKE,
                },
            );
            assert(commands@ == seq![DrawCommand::Clear { color: Rgb565 { raw: BLACK } }]
                + ring_commands(target, i as nat));
        }
        assert(depths@ =~= target);
        proof {
            assert forall|k: int| 0 <= k < target.len() implies #[trigger] target[k] <= MAX_DEPTH by {
                lemma_depth_wraps(old(self)@[k] as int);
            }
        }
        self.depths = depths;
        Frame { commands, indicator: Indicator::Toggle, delay_us: TUNNEL_DELAY_US }
    }
}

/// One pass of the tunnel, as the frames to show in order.
pub fn animation_tunnel() -> (frames: Vec<Frame>)
    ensures
        frame_views(frames@) == tunnel_frames(),
        forall|i: int| 0 <= i < frames@.len() ==> all_drawable(#[trigger] frames@[i]@.commands),
{
    let mut tunnel = Tunnel::new();
    let mut frames: Vec<Frame> = Vec::new();
    let mut i: usize = 0;
    while i < TUNNEL_FRAMES
        invariant
            i <= TUNNEL_FRAMES,
            tunnel@ == depths_after(i as nat),
            frames@.len() == i,
            forall|k: int| 0 <= k < i ==> (#[trigger] frames@[k])@ == tunnel_frame(depths_after(k as nat)),
            forall|k: int| 0 <= k < i ==> all_drawable(#[trigger] frames@[k]@.commands),
        decreases TUNNEL_FRAMES - i,
    {
        let frame = tunnel.step();
        frames.push(frame);
        i += 1;
    }
    assert(frame_views(frames@) =~= tunnel_frames());
    frames
}

} // verus!
