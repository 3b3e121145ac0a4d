//! Draw commands: what an animation asks to have drawn, as plain data, and
//! how the canvas carries a command out.

use crate::canvas::{
    circle_placeable, draw_glyphs, draw_rect, draw_ring, lemma_plot_points_cells, FrameBuffer,
    RectStyle, AREA,
};
use crate::color::Rgb565;
use crate::label::{label_text, lemma_label_printable, Label};
use crate::raster::{circle_outline, placeable, COORD_LIMIT, DIAMETER_LIMIT, STROKE_LIMIT};
use vstd::prelude::*;

verus! {

/// One drawing operation.
#[derive(Clone, Copy, Debug, PartialEq, Eq, Structural)]
pub enum DrawCommand {
    /// Set every cell to one colour.
    Clear { color: Rgb565 },
    /// A rectangle with its corner at `(x, y)`.
    Rectangle { x: i32, y: i32, width: u32, height: u32, color: Rgb565, style: RectStyle },
    /// The outline of a circle round `(cx, cy)`.
    Circle { cx: i32, cy: i32, radius: u32, color: Rgb565, stroke: u32 },
    /// A label with its baseline starting at `(x, y)`.
    Text { x: i32, y: i32, label: Label, color: Rgb565 },
}

/// What the indicator output does while a frame is shown.
#[derive(Clone, Copy, Debug, PartialEq, Eq, Structural)]
pub enum Indicator {
    /// Left as it is.
    Unchanged,
    /// Driven high and held.
    High,
    /// Driven low and held.
    Low,
    /// High for the length of the frame's delay, then low.
    Pulse,
    /// Switched to the other level.
    Toggle,
}

/// One step of an animation: what to draw, what the indicator does, and
/// how long to wait before the next step.
#[derive(Clone, Debug, PartialEq, Eq)]
pub struct Frame {
    pub commands: Vec<DrawCommand>,
    pub indicator: Indicator,
    pub delay_us: u64,
}

/// A frame as a mathematical value.
pub ghost struct FrameView {
    pub commands: Seq<DrawCommand>,
    pub indicator: Indicator,
    pub delay_us: u64,
}

impl View for Frame {
    type V = FrameView;

    open spec fn view(&self) -> FrameView {
        FrameView { commands: self.commands@, indicator: self.indicator, delay_us: self.delay_us }
    }
}

/// The views of a run of frames.
pub open spec fn frame_views(frames: Seq<Frame>) -> Seq<FrameView> {
    frames.map_values(|f: Frame| f@)
}

impl DrawCommand {
    /// Whether the command places its shape within reach of the rasteriser.
    pub open spec fn drawable(self) -> bool {
        match self {
            DrawCommand::Clear { .. } => true,
            DrawCommand::Rectangle { .. } => true,
            DrawCommand::Circle { cx, cy, radius, stroke, .. } => circle_placeable(
                cx as int,
                cy as int,
                radius as int,
                stroke as int,
            ),
            DrawCommand::Text { x, y, .. } => placeable(x as int, y as int),
        }
    }
}

impl DrawCommand {
    /// The colour that the command draws in.
    pub open spec fn color(self) -> Rgb565 {
        match self {
            DrawCommand::Clear { color } => color,
            DrawCommand::Rectangle { color, .. } => color,
            DrawCommand::Circle { color, .. } => color,
            DrawCommand::Text { color, .. } => color,
        }
    }
}

impl DrawCommand {
    /// Whether the command places its shape within reach of the rasteriser.
    pub fn is_drawable(&self) -> (ok: bool)
        ensures
            ok == self.drawable(),
    {
        match *self {
            DrawCommand::Clear { .. } => true,
            DrawCommand::Rectangle { .. } => true,
            DrawCommand::Circle { cx, cy, radius, stroke, .. } => {
                let left: i64 = cx as i64 - radius as i64;
                let top: i64 = cy as i64 - radius as i64;
                let limit: i64 = COORD_LIMIT as i64;
                -limit <= left && left <= limit && -limit <= top && top <= limit && radius
                    <= DIAMETER_LIMIT / 2 && stroke <= STROKE_LIMIT
            },
            DrawCommand::Text { x, y, .. } => {
                -COORD_LIMIT <= x && x <= COORD_LIMIT && -COORD_LIMIT <= y && y <= COORD_LIMIT
            },
        }
    }
}

/// Whether every command of a run is drawable.
pub open spec fn all_drawable(commands: Seq<DrawCommand>) -> bool {
    forall|i: int| 0 <= i < commands.len() ==> (#[trigger] commands[i]).drawable()
}

impl Frame {
    /// Whether every command of the frame is within reach of the rasteriser.
    pub fn is_drawable(&self) -> (ok: bool)
        ensures
            ok == all_drawable(self@.commands),
    {
        let mut i: usize = 0;
        while i < self.commands.len()
            invariant
                i <= self.commands@.len(),
                forall|k: int| 0 <= k < i ==> (#[trigger] self.commands@[k]).drawable(),
            decreases self.commands.len() - i,
        {
            if !self.commands[i].is_drawable() {
                return false;
            }
            i += 1;
        }
        true
    }
}

/// The cells after one command is carried out.
pub open spec fn render(cells: Seq<Rgb565>, command: DrawCommand) -> Seq<Rgb565> {
    match command {
        DrawCommand::Clear { color } => Seq::new(cells.len(), |i: int| color),
        DrawCommand::Rectangle { x, y, width, height, color, style } => draw_rect(
            cells,
            x as int,
            y as int,
            width as int,
            height as int,
            color,
            style,
        ),
        DrawCommand::Circle { cx, cy, radius, color, stroke } => draw_ring(
            cells,
            cx as int,
            cy as int,
            radius as int,
            stroke as int,
            color,
        ),
        DrawCommand::Text { x, y, label, color } => draw_glyphs(
            cells,
            x as int,
            y as int,
            label_text(label),
            color,
        ),
    }
}

/// The cells after a run of commands is carried out, first to last.
pub open spec fn render_all(cells: Seq<Rgb565>, commands: Seq<DrawCommand>) -> Seq<Rgb565>
    decreases commands.len(),
{
    if commands.len() == 0 {
        cells
    } else {
        render(render_all(cells, commands.drop_last()), commands.last())
    }
}

/// Whatever a command draws, and wherever, the canvas keeps its size, and
/// each cell is left as it was or takes the command's colour: what falls
/// off the canvas is dropped and never lands elsewhere.
pub proof fn lemma_render_cells(cells: Seq<Rgb565>, command: DrawCommand)
    requires
        cells.len() == AREA,
    ensures
        render(cells, command).len() == AREA,
        forall|i: int|
            0 <= i < AREA ==> {
                let after = #[trigger] render(cells, command)[i];
                after == cells[i] || after == command.color()
            },
{
    match command {
        DrawCommand::Circle { cx, cy, radius, color, stroke } => {
            lemma_plot_points_cells(
                cells,
                circle_outline(cx - radius, cy - radius, 2 * radius, stroke as int),
                color,
            );
        },
        _ => {},
    }
}

/// A run of commands leaves the canvas at its size.
pub proof fn lemma_render_all_size(cells: Seq<Rgb565>, commands: Seq<DrawCommand>)
    requires
        cells.len() == AREA,
    ensures
        render_all(cells, commands).len() == AREA,
    decreases commands.len(),
{
    if commands.len() > 0 {
        lemma_render_all_size(cells, commands.drop_last());
        lemma_render_cells(render_all(cells, commands.drop_last()), commands.last());
    }
}

impl FrameBuffer {
    /// Carries out one command.
    pub fn execute(&mut self, command: &DrawCommand)
        requires
            command.drawable(),
        ensures
            final(self)@.len() == AREA,
            final(self)@ == render(old(self)@, *command),
    {
        proof {
            use_type_invariant(&*self);
        }
        match *command {
            DrawCommand::Clear { color } => {
                self.clear(color);
            },
            DrawCommand::Rectangle { x, y, width, height, color, style } => {
                self.draw_rectangle(x, y, width, height, color, style);
            },
            DrawCommand::Circle { cx, cy, radius, color, stroke } => {
                self.draw_circle(cx, cy, radius, color, stroke);
            },
            DrawCommand::Text { x, y, label, color } => {
                let text = label.text();
                proof {
                    lemma_label_printable(label);
                }
                self.draw_text(x, y, &text, color);
            },
        }
    }

    /// Carries out the commands of a frame in order.
    pub fn execute_all(&mut self, commands: &Vec<DrawCommand>)
        requires
            all_drawable(commands@),
        ensures
            final(self)@.len() == AREA,
            final(self)@ == render_all(old(self)@, commands@),
    {
        proof {
            use_type_invariant(&*self);
        }
        let mut i: usize = 0;
        while i < commands.len()
            invariant
                i <= commands.len(),
                all_drawable(commands@),
                self@.len() == AREA,
                self@ == render_all(old(self)@, commands@.take(i as int)),
            decreases commands.len() - i,
        {
            assert(commands@.take(i + 1).drop_last() == commands@.take(i as int));
            self.execute(&commands[i]);
            i += 1;
        }
        assert(commands@.take(i as int) == commands@);
    }
}

} // verus!
