//! The frame pipeline and the order of play: how a frame, the touch
//! overlay and the canvas come together before the display is fed, and
//! which animation follows which.

use crate::bounce::{animation_text, bounce_frames};
use crate::canvas::{Block, FrameBuffer, AREA, HEIGHT, WIDTH};
use crate::command::{
    all_drawable, frame_views, render, render_all, DrawCommand, Frame, FrameView, Indicator,
};
use crate::orbit::{animation_circles, orbit_frames, Orbit};
use crate::report::{report_overlay, show_fps};
use crate::rng::{xorshift32, Rng};
use crate::sparkle::{animation_pixels, sparkle_frames, sparkle_state, SPARKLE_STEPS};
use crate::touch::{overlay_for, touch_overlay};
use crate::tunnel::{animation_tunnel, tunnel_frames};
use vstd::prelude::*;

verus! {

/// Pause between two animations, in microseconds.
pub const INTERMISSION_US: u64 = 1_000_000;

/// The animations.
#[derive(Clone, Copy, Debug, PartialEq, Eq, Structural)]
pub enum AnimationKind {
    /// The bouncing banner.
    Text,
    /// The orbiting circles.
    Circles,
    /// The random pixel field.
    Pixels,
    /// The tunnel.
    Tunnel,
}

/// The animations to play, in order and round again, and which one is on.
pub struct Playlist {
    entries: Vec<AnimationKind>,
    position: usize,
}

impl Playlist {
    /// The animations in their order.
    pub closed spec fn entries(&self) -> Seq<AnimationKind> {
        self.entries@
    }

    /// The place of the animation that is on.
    pub closed spec fn position(&self) -> int {
        self.position as int
    }

    /// Held by every playlist: it is not empty and the place is within it.
    #[verifier::type_invariant]
    spec fn in_range(&self) -> bool {
        self.position < self.entries@.len()
    }

    /// A playlist that starts with its first entry; `None` for an empty list.
    pub fn new(entries: Vec<AnimationKind>) -> (playlist: Option<Self>)
        ensures
            playlist.is_some() == (entries@.len() > 0),
            playlist matches Some(p) ==> p.entries() == entries@ && p.position() == 0,
    {
        if entries.len() == 0 {
            None
        } else {
            Some(Playlist { entries, position: 0 })
        }
    }

    /// The four animations in their usual order, starting with the banner.
    pub fn standard() -> (playlist: Self)
        ensures
            playlist.position() == 0,
            playlist.entries() == seq![
                AnimationKind::Text,
                AnimationKind::Circles,
                AnimationKind::Pixels,
                AnimationKind::Tunnel,
            ],
    {
        let mut entries: Vec<AnimationKind> = Vec::new();
        entries.push(AnimationKind::Text);
        entries.push(AnimationKind::Circles);
        entries.push(AnimationKind::Pixels);
        entries.push(AnimationKind::Tunnel);
        Playlist { entries, position: 0 }
    }

    /// The animation that is on.
    pub fn current(&self) -> (kind: AnimationKind)
        ensures
            0 <= self.position() < self.entries().len(),
            kind == self.entries()[self.position()],
    {
        proof {
            use_type_invariant(self);
        }
        self.entries[self.position]
    }

    /// Moves on to the next animation; after the last comes the first.
    pub fn advance(&mut self)
        ensures
            final(self).entries() == old(self).entries(),
            final(self).position() == if old(self).position() + 1 == old(self).entries().len() {
                0
            } else {
                old(self).position() + 1
            },
    {
        proof {
            use_type_invariant(&*self);
        }
        let count: usize = self.entries.len();
        let following: usize = self.position + 1;
        if following == count {
            self.position = 0;
        } else {
            self.position = following;
        }
    }
}

/// The frames of one pass of an animation, for a generator in the given
/// state and the given places on the orbit.
pub open spec fn pass_frames(kind: AnimationKind, state: u32, orbit: Seq<(i32, i32)>) -> Seq<
    FrameView,
> {
    match kind {
        AnimationKind::Text => bounce_frames(state),
        AnimationKind::Circles => orbit_frames(orbit),
        AnimationKind::Pixels => sparkle_frames(state),
        AnimationKind::Tunnel => tunnel_frames(),
    }
}

/// The generator's state after one pass of an animation.
pub open spec fn pass_state(kind: AnimationKind, state: u32) -> u32 {
    match kind {
        AnimationKind::Text => xorshift32(xorshift32(state)),
        AnimationKind::Circles => state,
        AnimationKind::Pixels => sparkle_state(state, SPARKLE_STEPS as nat),
        AnimationKind::Tunnel => state,
    }
}

/// One pass of the given animation, as the frames to show in order. The
/// places on the orbit are used by the circles alone.
pub fn animate(kind: AnimationKind, rng: &mut Rng, orbit: &Orbit) -> (frames: Vec<Frame>)
    ensures
        frame_views(frames@) == pass_frames(kind, old(rng).state(), orbit@),
        forall|i: int| 0 <= i < frames@.len() ==> all_drawable(#[trigger] frames@[i]@.commands),
        final(rng).state() == pass_state(kind, old(rng).state()),
        old(rng).wf() ==> final(rng).wf(),
{
    match kind {
        AnimationKind::Text => animation_text(rng),
        AnimationKind::Circles => animation_circles(orbit),
        AnimationKind::Pixels => animation_pixels(rng),
        AnimationKind::Tunnel => animation_tunnel(),
    }
}

/// The commands of a frame with the touch overlay added: one text command
/// at the end where a finger is down, and nothing where none is.
pub open spec fn with_overlay(commands: Seq<DrawCommand>, sample: Option<(u16, u16)>) -> Seq<
    DrawCommand,
> {
    match overlay_for(sample) {
        Some(overlay) => commands.push(overlay),
        None => commands,
    }
}

/// The frame that closes a pass: the rate report, where the pass took any
/// time at all, and the pause before the next animation.
pub open spec fn closing_frame(elapsed_us: u64) -> FrameView {
    FrameView {
        commands: match report_overlay(elapsed_us) {
            Some(report) => seq![report],
            None => Seq::empty(),
        },
        indicator: Indicator::Unchanged,
        delay_us: INTERMISSION_US,
    }
}

/// The frame to show once a pass has ended after `elapsed_us` microseconds.
pub fn finish_pass(elapsed_us: u64) -> (frame: Frame)
    ensures
        frame@ == closing_frame(elapsed_us),
        all_drawable(frame@.commands),
        elapsed_us == 0 ==> frame@.commands.len() == 0,
        elapsed_us > 0 ==> frame@.commands.len() == 1,
{
    let mut commands: Vec<DrawCommand> = Vec::new();
    match show_fps(elapsed_us) {
        Some(report) => {
            commands.push(report);
            assert(commands@ == seq![report]);
        },
        None => {
            assert(commands@ == Seq::<DrawCommand>::empty());
        },
    }
    Frame { commands, indicator: Indicator::Unchanged, delay_us: INTERMISSION_US }
}

/// Draws a frame on the canvas, adds the touch overlay for the sample taken
/// with it, and hands back the whole canvas as the block to send.
pub fn compose_frame(canvas: &mut FrameBuffer, frame: &Frame, sample: Option<(u16, u16)>) -> (block:
    Block)
    requires
        all_drawable(frame@.commands),
    ensures
        final(canvas)@.len() == AREA,
        final(canvas)@ == render_all(old(canvas)@, with_overlay(frame@.commands, sample)),
        sample.is_none() ==> final(canvas)@ == render_all(old(canvas)@, frame@.commands),
        block.x0 == 0,
        block.y0 == 0,
        block.x1 == WIDTH - 1,
        block.y1 == HEIGHT - 1,
        block.pixels@ == final(canvas)@,
{
    canvas.execute_all(&frame.commands);
    match touch_overlay(sample) {
        Some(overlay) => {
            let ghost drawn = canvas@;
            canvas.execute(&overlay);
            proof {
                let all = frame@.commands.push(overlay);
                assert(all.drop_last() == frame@.commands);
                assert(canvas@ == render(drawn, all.last()));
            }
        },
        None => {},
    }
    canvas.present()
}

/// Draws a frame as `compose_frame` does, for any frame at all: one that
/// holds a command out of the rasteriser's reach is not drawn, the canvas
/// stays as it was, and `None` comes back.
pub fn try_compose_frame(canvas: &mut FrameBuffer, frame: &Frame, sample: Option<(u16, u16)>) -> (block:
    Option<Block>)
    ensures
        final(canvas)@.len() == AREA,
        block.is_some() == all_drawable(frame@.commands),
        block.is_none() ==> final(canvas)@ == old(canvas)@,
        block matches Some(b) ==> {
            &&& final(canvas)@ == render_all(old(canvas)@, with_overlay(frame@.commands, sample))
            &&& b.x0 == 0
            &&& b.y0 == 0
            &&& b.x1 == WIDTH - 1
            &&& b.y1 == HEIGHT - 1
            &&& b.pixels@ == final(canvas)@
        },
{
    if frame.is_drawable() {
        Some(compose_frame(canvas, frame, sample))
    } else {
        proof {
            use_type_invariant(&*canvas);
        }
        None
    }
}

} // verus!
