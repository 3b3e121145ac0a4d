//! The pixel canvas: a fixed grid of colours that the animations draw on
//! and that is handed to the display one block at a time.

use crate::color::Rgb565;
use crate::raster::{
    circle_outline, circle_outline_points, placeable, text_coverage, text_stencil,
    DIAMETER_LIMIT, STROKE_LIMIT, TEXT_LIMIT,
};
use vstd::prelude::*;

verus! {

/// Width of the canvas in pixels.
pub const WIDTH: usize = 240;

/// Height of the canvas in pixels.
pub const HEIGHT: usize = 320;

/// Number of cells of the canvas.
pub const AREA: usize = 76800;

/// The middle of the canvas, across: half of the last column's number.
pub const CENTER_X: i32 = 119;

/// The middle of the canvas, down: half of the last row's number.
pub const CENTER_Y: i32 = 159;

/// The middle of the canvas is the middle of its rows and columns, taken
/// down where their number is even.
pub proof fn lemma_center_is_the_middle()
    ensures
        CENTER_X == (WIDTH - 1) / 2,
        CENTER_Y == (HEIGHT - 1) / 2,
        in_bounds(CENTER_X as int, CENTER_Y as int),
        WIDTH * HEIGHT == AREA,
{
}

/// Whether `(x, y)` names a cell of the canvas.
pub open spec fn in_bounds(x: int, y: int) -> bool {
    0 <= x < WIDTH as int && 0 <= y < HEIGHT as int
}

/// Position of cell `(x, y)` in the row-major store.
pub open spec fn cell_index(x: int, y: int) -> int {
    y * (WIDTH as int) + x
}

/// The cells after one pixel is drawn: the cell at `(x, y)` takes `color`
/// when the point lies on the canvas, and nothing changes when it does not.
pub open spec fn plot(cells: Seq<Rgb565>, x: int, y: int, color: Rgb565) -> Seq<Rgb565> {
    if in_bounds(x, y) {
        cells.update(cell_index(x, y), color)
    } else {
        cells
    }
}

/// A point with the colour to draw there.
#[derive(Clone, Copy, Debug, PartialEq, Eq, Structural)]
pub struct Pixel {
    pub x: i32,
    pub y: i32,
    pub color: Rgb565,
}

/// The cells after a run of pixels is drawn, first to last.
pub open spec fn plot_all(cells: Seq<Rgb565>, pixels: Seq<Pixel>) -> Seq<Rgb565>
    decreases pixels.len(),
{
    if pixels.len() == 0 {
        cells
    } else {
        let last = pixels.last();
        plot(plot_all(cells, pixels.drop_last()), last.x as int, last.y as int, last.color)
    }
}

/// The cells after a run of points is drawn in one colour, first to last.
pub open spec fn plot_points(cells: Seq<Rgb565>, points: Seq<(i32, i32)>, color: Rgb565) -> Seq<
    Rgb565,
>
    decreases points.len(),
{
    if points.len() == 0 {
        cells
    } else {
        let last = points.last();
        plot(plot_points(cells, points.drop_last(), color), last.0 as int, last.1 as int, color)
    }
}

/// The cells after `color` is laid through a stencil: where the stencil is
/// set the cell takes the colour, elsewhere it stays.
pub open spec fn stamp(cells: Seq<Rgb565>, stencil: Seq<bool>, color: Rgb565) -> Seq<Rgb565> {
    Seq::new(
        cells.len(),
        |i: int|
            if 0 <= i < stencil.len() && stencil[i] {
                color
            } else {
                cells[i]
            },
    )
}

/// How a rectangle is drawn.
#[derive(Clone, Copy, Debug, PartialEq, Eq, Structural)]
pub enum RectStyle {
    /// Every cell of the rectangle.
    Filled,
    /// The one-pixel border of the rectangle.
    Stroked,
}

/// Whether `(x, y)` lies in the rectangle with corner `(ox, oy)` and size `w` by `h`.
pub open spec fn rect_covers(ox: int, oy: int, w: int, h: int, x: int, y: int) -> bool {
    ox <= x < ox + w && oy <= y < oy + h
}

/// Whether drawing the rectangle in `style` touches `(x, y)`.
pub open spec fn rect_paints(style: RectStyle, ox: int, oy: int, w: int, h: int, x: int, y: int) -> bool {
    rect_covers(ox, oy, w, h, x, y) && (style == RectStyle::Filled || x == ox || x == ox + w - 1
        || y == oy || y == oy + h - 1)
}

/// The cells after a rectangle is drawn.
pub open spec fn draw_rect(
    cells: Seq<Rgb565>,
    ox: int,
    oy: int,
    w: int,
    h: int,
    color: Rgb565,
    style: RectStyle,
) -> Seq<Rgb565> {
    Seq::new(
        cells.len(),
        |i: int|
            if rect_paints(style, ox, oy, w, h, i % (WIDTH as int), i / (WIDTH as int)) {
                color
            } else {
                cells[i]
            },
    )
}

/// Whether a circle with this centre, radius and stroke is within reach of
/// the rasteriser.
pub open spec fn circle_placeable(cx: int, cy: int, radius: int, stroke: int) -> bool {
    placeable(cx - radius, cy - radius) && 2 * radius <= DIAMETER_LIMIT as int && stroke
        <= STROKE_LIMIT as int
}

/// The cells after the outline of a circle is drawn.
pub open spec fn draw_ring(
    cells: Seq<Rgb565>,
    cx: int,
    cy: int,
    radius: int,
    stroke: int,
    color: Rgb565,
) -> Seq<Rgb565> {
    plot_points(cells, circle_outline(cx - radius, cy - radius, 2 * radius, stroke), color)
}

/// The cells after a text is drawn with its baseline starting at `(x, y)`.
pub open spec fn draw_glyphs(cells: Seq<Rgb565>, x: int, y: int, text: Seq<u8>, color: Rgb565) -> Seq<
    Rgb565,
> {
    stamp(cells, text_coverage(text, x, y), color)
}

/// Drawing points on a full canvas never resizes the store, and leaves each
/// cell either as it was or in the colour drawn.
pub proof fn lemma_plot_points_cells(cells: Seq<Rgb565>, points: Seq<(i32, i32)>, color: Rgb565)
    requires
        cells.len() == AREA,
    ensures
        plot_points(cells, points, color).len() == cells.len(),
        forall|i: int|
            0 <= i < cells.len() ==> {
                let after = #[trigger] plot_points(cells, points, color)[i];
                after == cells[i] || after == color
            },
    decreases points.len(),
{
    if points.len() > 0 {
        lemma_plot_points_cells(cells, points.drop_last(), color);
        let before = plot_points(cells, points.drop_last(), color);
        let last = points.last();
        let after = plot_points(cells, points, color);
        assert(after == plot(before, last.0 as int, last.1 as int, color));
        assert forall|i: int| 0 <= i < cells.len() implies {
            let cell = #[trigger] plot_points(cells, points, color)[i];
            cell == cells[i] || cell == color
        } by {
            assert(before[i] == cells[i] || before[i] == color);
            assert(after[i] == before[i] || after[i] == color);
        }
    }
}

/// A filled rectangle of one cell is a pixel.
pub proof fn lemma_unit_rectangle_is_pixel(cells: Seq<Rgb565>, x: int, y: int, color: Rgb565)
    requires
        cells.len() == AREA,
    ensures
        draw_rect(cells, x, y, 1, 1, color, RectStyle::Filled) == plot(cells, x, y, color),
{
    let drawn = draw_rect(cells, x, y, 1, 1, color, RectStyle::Filled);
    let plotted = plot(cells, x, y, color);
    assert forall|i: int| 0 <= i < AREA implies drawn[i] == plotted[i] by {
        if in_bounds(x, y) && i == cell_index(x, y) {
            assert(i % (WIDTH as int) == x && i / (WIDTH as int) == y);
        }
    }
    assert(drawn =~= plotted);
}

/// A filled rectangle over the whole canvas is a clear.
pub proof fn lemma_full_rectangle_is_clear(cells: Seq<Rgb565>, color: Rgb565)
    requires
        cells.len() == AREA,
    ensures
        draw_rect(cells, 0, 0, WIDTH as int, HEIGHT as int, color, RectStyle::Filled) == Seq::new(
            AREA as nat,
            |i: int| color,
        ),
{
    assert(draw_rect(cells, 0, 0, WIDTH as int, HEIGHT as int, color, RectStyle::Filled)
        =~= Seq::new(AREA as nat, |i: int| color));
}

/// Position of row `r`, column `c` in a block that is `w` cells wide.
pub open spec fn block_index(r: int, c: int, w: int) -> int {
    r * w + c
}

/// The first row or column of a region that lies on the canvas.
pub open spec fn clip_low(origin: int) -> int {
    if origin < 0 {
        0
    } else {
        origin
    }
}

/// One past the last row or column of a region that lies on the canvas.
pub open spec fn clip_high(end: int, limit: int) -> int {
    if end > limit {
        limit
    } else {
        end
    }
}

/// Whether `pixels` holds, row by row, the cells of the region that is `w`
/// wide and `h` high and has its corner at `(x0, y0)`.
pub open spec fn holds_region(
    pixels: Seq<Rgb565>,
    cells: Seq<Rgb565>,
    x0: int,
    y0: int,
    w: int,
    h: int,
) -> bool {
    &&& pixels.len() == w * h
    &&& forall|r: int, c: int|
        0 <= r < h && 0 <= c < w ==> pixels[#[trigger] block_index(r, c, w)] == cells[cell_index(
            x0 + c,
            y0 + r,
        )]
}

/// The cells of a block's rows lie one after another, none beyond the block.
pub proof fn lemma_block_index_bound(r: int, c: int, w: int, rows: int)
    requires
        0 <= r < rows,
        0 <= c < w,
    ensures
        0 <= block_index(r, c, w) < rows * w,
{
    assert((r + 1) * w <= rows * w) by (nonlinear_arith)
        requires
            r + 1 <= rows,
            w >= 0,
    ;
    assert((r + 1) * w == r * w + w) by (nonlinear_arith);
    assert(0 <= r * w) by (nonlinear_arith)
        requires
            r >= 0,
            w >= 0,
    ;
}

/// A region's cells, taken row by row, are one sequence and no other.
pub proof fn lemma_region_is_unique(
    first: Seq<Rgb565>,
    second: Seq<Rgb565>,
    cells: Seq<Rgb565>,
    x0: int,
    y0: int,
    w: int,
    h: int,
)
    requires
        0 < w,
        0 < h,
        holds_region(first, cells, x0, y0, w, h),
        holds_region(second, cells, x0, y0, w, h),
    ensures
        first == second,
{
    assert forall|k: int| 0 <= k < first.len() implies first[k] == second[k] by {
        let r = k / w;
        let c = k % w;
        vstd::arithmetic::div_mod::lemma_fundamental_div_mod(k, w);
        vstd::arithmetic::div_mod::lemma_mod_bound(k, w);
        vstd::arithmetic::div_mod::lemma_div_pos_is_pos(k, w);
        vstd::arithmetic::div_mod::lemma_multiply_divide_lt(k, w, h);
        vstd::arithmetic::mul::lemma_mul_is_commutative(w, r);
        assert(block_index(r, c, w) == k);
    }
    assert(first =~= second);
}

/// A rectangle of pixels on its way to the display: the corners, both
/// inclusive, and the colours row by row.
#[derive(Clone, Debug, PartialEq, Eq)]
pub struct Block {
    pub x0: u16,
    pub y0: u16,
    pub x1: u16,
    pub y1: u16,
    pub pixels: Vec<Rgb565>,
}

/// The frame buffer: `WIDTH` by `HEIGHT` cells, stored row by row. No
/// operation ever changes the number of cells.
#[derive(Debug, PartialEq, Eq)]
pub struct FrameBuffer {
    pixels: Vec<Rgb565>,
}

impl View for FrameBuffer {
    type V = Seq<Rgb565>;

    closed spec fn view(&self) -> Seq<Rgb565> {
        self.pixels@
    }
}

impl Clone for FrameBuffer {
    fn clone(&self) -> (copy: Self)
        ensures
            copy@ == self@,
    {
        proof {
            use_type_invariant(self);
        }
        let mut pixels: Vec<Rgb565> = Vec::new();
        let mut i: usize = 0;
        while i < AREA
            invariant
                i <= AREA,
                self.pixels@.len() == AREA,
                pixels@ == self.pixels@.take(i as int),
            decreases AREA - i,
        {
            pixels.push(self.pixels[i]);
            i += 1;
        }
        FrameBuffer { pixels }
    }
}

impl FrameBuffer {
    /// Held by every buffer: it has exactly one colour for each cell.
    #[verifier::type_invariant]
    pub open spec fn wf(&self) -> bool {
        self@.len() == AREA
    }

    /// The colour of cell `(x, y)`.
    pub open spec fn cell(&self, x: int, y: int) -> Rgb565 {
        self@[cell_index(x, y)]
    }

    /// A buffer with every cell set to `fill`.
    pub fn new(fill: Rgb565) -> (fb: Self)
        ensures
            fb@.len() == AREA,
            fb@ == Seq::new(AREA as nat, |i: int| fill),
    {
        let mut pixels: Vec<Rgb565> = Vec::new();
        let mut i: usize = 0;
        while i < AREA
            invariant
                i <= AREA,
                pixels@.len() == i,
                forall|k: int| 0 <= k < i ==> pixels@[k] == fill,
            decreases AREA - i,
        {
            pixels.push(fill);
            i += 1;
        }
        FrameBuffer { pixels }
    }

    /// The size of the canvas, width first.
    pub fn size(&self) -> (s: (u32, u32))
        ensures
            s.0 == WIDTH,
            s.1 == HEIGHT,
    {
        (WIDTH as u32, HEIGHT as u32)
    }

    /// Sets every cell to `color`.
    pub fn clear(&mut self, color: Rgb565)
        ensures
            final(self)@.len() == AREA,
            final(self)@ == Seq::new(AREA as nat, |i: int| color),
            forall|x: int, y: int| in_bounds(x, y) ==> #[trigger] final(self).cell(x, y) == color,
    {
        proof {
            use_type_invariant(&*self);
        }
        let mut i: usize = 0;
        while i < AREA
            invariant
                i <= AREA,
                self.pixels@.len() == AREA,
                forall|k: int| 0 <= k < i ==> self.pixels@[k] == color,
            decreases AREA - i,
        {
            self.pixels[i] = color;
            i += 1;
        }
    }

    /// Draws one pixel. A point off the canvas is ignored.
    pub fn draw_pixel(&mut self, x: i32, y: i32, color: Rgb565)
        ensures
            final(self)@.len() == AREA,
            final(self)@ == plot(old(self)@, x as int, y as int, color),
            in_bounds(x as int, y as int) ==> final(self).cell(x as int, y as int) == color,
            !in_bounds(x as int, y as int) ==> final(self)@ == old(self)@,
    {
        proof {
            use_type_invariant(&*self);
        }
        if x >= 0 && x < WIDTH as i32 && y >= 0 && y < HEIGHT as i32 {
            let index: usize = y as usize * WIDTH + x as usize;
            self.pixels[index] = color;
        }
    }

    /// Reads one cell; `None` for a point off the canvas.
    pub fn pixel(&self, x: i32, y: i32) -> (c: Option<Rgb565>)
        ensures
            self@.len() == AREA,
            c == if in_bounds(x as int, y as int) {
                Some(self.cell(x as int, y as int))
            } else {
                None
            },
    {
        proof {
            use_type_invariant(&*self);
        }
        if x >= 0 && x < WIDTH as i32 && y >= 0 && y < HEIGHT as i32 {
            let index: usize = y as usize * WIDTH + x as usize;
            Some(self.pixels[index])
        } else {
            None
        }
    }

    /// Draws the pixels in order; those off the canvas are ignored.
    pub fn draw_iter(&mut self, pixels: &Vec<Pixel>)
        ensures
            final(self)@.len() == AREA,
            final(self)@ == plot_all(old(self)@, pixels@),
    {
        proof {
            use_type_invariant(&*self);
        }
        let mut i: usize = 0;
        while i < pixels.len()
            invariant
                i <= pixels.len(),
                self@.len() == AREA,
                self@ == plot_all(old(self)@, pixels@.take(i as int)),
            decreases pixels.len() - i,
        {
            let p = pixels[i];
            assert(pixels@.take(i + 1).drop_last() == pixels@.take(i as int));
            self.draw_pixel(p.x, p.y, p.color);
            i += 1;
        }
        assert(pixels@.take(i as int) == pixels@);
    }

    /// Draws the points in one colour; those off the canvas are ignored.
    pub fn draw_points(&mut self, points: &Vec<(i32, i32)>, color: Rgb565)
        ensures
            final(self)@.len() == AREA,
            final(self)@ == plot_points(old(self)@, points@, color),
    {
        proof {
            use_type_invariant(&*self);
        }
        let mut i: usize = 0;
        while i < points.len()
            invariant
                i <= points.len(),
                self@.len() == AREA,
                self@ == plot_points(old(self)@, points@.take(i as int), color),
            decreases points.len() - i,
        {
            let p = points[i];
            assert(points@.take(i + 1).drop_last() == points@.take(i as int));
            self.draw_pixel(p.0, p.1, color);
            i += 1;
        }
        assert(points@.take(i as int) == points@);
    }

    /// Lays `color` through a stencil that has one entry for each cell, row
    /// by row. Cells beyond the end of a short stencil stay as they are.
    pub fn draw_stencil(&mut self, stencil: &Vec<bool>, color: Rgb565)
        ensures
            final(self)@.len() == AREA,
            final(self)@ == stamp(old(self)@, stencil@, color),
    {
        proof {
            use_type_invariant(&*self);
        }
        let count: usize = stencil.len();
        let mut i: usize = 0;
        while i < AREA
            invariant
                i <= AREA,
                count == stencil@.len(),
                self.pixels@.len() == AREA,
                old(self).pixels@.len() == AREA,
                forall|k: int|
                    0 <= k < i ==> #[trigger] self.pixels@[k] == (if k < stencil@.len() && stencil@[k] {
                        color
                    } else {
                        old(self).pixels@[k]
                    }),
                forall|k: int| i <= k < AREA ==> self.pixels@[k] == old(self).pixels@[k],
            decreases AREA - i,
        {
            if i < count && stencil[i] {
                self.pixels[i] = color;
            }
            i += 1;
        }
    }

    /// Draws a rectangle with its corner at `(x, y)`, clipped to the canvas.
    pub fn draw_rectangle(
        &mut self,
        x: i32,
        y: i32,
        width: u32,
        height: u32,
        color: Rgb565,
        style: RectStyle,
    )
        ensures
            final(self)@.len() == AREA,
            final(self)@ == draw_rect(
                old(self)@,
                x as int,
                y as int,
                width as int,
                height as int,
                color,
                style,
            ),
    {
        proof {
            use_type_invariant(&*self);
        }
        let left: i64 = x as i64;
        let top: i64 = y as i64;
        let right: i64 = left + width as i64;
        let bottom: i64 = top + height as i64;
        let x0: i64 = if left < 0 { 0 } else { left };
        let y0: i64 = if top < 0 { 0 } else { top };
        let x1: i64 = if right > WIDTH as i64 { WIDTH as i64 } else { right };
        let y1: i64 = if bottom > HEIGHT as i64 { HEIGHT as i64 } else { bottom };
        let filled = style == RectStyle::Filled;
        let mut row: i64 = y0;
        while row < y1
            invariant
                0 <= y0 <= row,
                y1 <= HEIGHT,
                0 <= x0,
                x1 <= WIDTH,
                left == x as int,
                top == y as int,
                right == x + width,
                bottom == y + height,
                x0 == (if left < 0 { 0 } else { left }),
                y0 == (if top < 0 { 0 } else { top }),
                x1 == (if right > WIDTH { WIDTH as int } else { right as int }),
                y1 == (if bottom > HEIGHT { HEIGHT as int } else { bottom as int }),
                filled == (style == RectStyle::Filled),
                self.pixels@.len() == AREA,
                old(self).pixels@.len() == AREA,
                forall|i: int|
                    0 <= i < AREA ==> #[trigger] self.pixels@[i] == (if i / (WIDTH as int) < row
                        && rect_paints(
                        style,
                        left as int,
                        top as int,
                        width as int,
                        height as int,
                        i % (WIDTH as int),
                        i / (WIDTH as int),
                    ) {
                        color
                    } else {
                        old(self).pixels@[i]
                    }),
            decreases y1 - row,
        {
            let mut col: i64 = x0;
            while col < x1
                invariant
                    0 <= y0 <= row < y1,
                    y1 <= HEIGHT,
                    0 <= x0 <= col,
                    x1 <= WIDTH,
                    left == x as int,
                    top == y as int,
                    right == x + width,
                    bottom == y + height,
                    x0 == (if left < 0 { 0 } else { left }),
                    y0 == (if top < 0 { 0 } else { top }),
                    x1 == (if right > WIDTH { WIDTH as int } else { right as int }),
                    y1 == (if bottom > HEIGHT { HEIGHT as int } else { bottom as int }),
                    filled == (style == RectStyle::Filled),
                    self.pixels@.len() == AREA,
                    old(self).pixels@.len() == AREA,
                    forall|i: int|
                        0 <= i < AREA ==> #[trigger] self.pixels@[i] == (if (i / (WIDTH as int) < row
                            || (i / (WIDTH as int) == row && i % (WIDTH as int) < col))
                            && rect_paints(
                            style,
                            left as int,
                            top as int,
                            width as int,
                            height as int,
                            i % (WIDTH as int),
                            i / (WIDTH as int),
                        ) {
                            color
                        } else {
                            old(self).pixels@[i]
                        }),
                decreases x1 - col,
            {
                if filled || col == left || col == right - 1 || row == top || row == bottom - 1 {
                    assert(0 <= row < HEIGHT && 0 <= col < WIDTH);
                    let index: usize = (row as usize) * WIDTH + (col as usize);
                    self.pixels[index] = color;
                }
                col += 1;
            }
            row += 1;
        }
    }

    /// Draws the outline of the circle round `(cx, cy)`, clipped to the canvas.
    pub fn draw_circle(&mut self, cx: i32, cy: i32, radius: u32, color: Rgb565, stroke: u32)
        requires
            circle_placeable(cx as int, cy as int, radius as int, stroke as int),
        ensures
            final(self)@.len() == AREA,
            final(self)@ == draw_ring(
                old(self)@,
                cx as int,
                cy as int,
                radius as int,
                stroke as int,
                color,
            ),
    {
        proof {
            use_type_invariant(&*self);
        }
        let left: i32 = cx - radius as i32;
        let top: i32 = cy - radius as i32;
        let points = circle_outline_points(left, top, radius * 2, stroke);
        self.draw_points(&points, color);
    }

    /// Draws `text` in the 10x20 font with its baseline starting at `(x, y)`,
    /// clipped to the canvas.
    pub fn draw_text(&mut self, x: i32, y: i32, text: &Vec<u8>, color: Rgb565)
        requires
            placeable(x as int, y as int),
            text@.len() <= TEXT_LIMIT,
        ensures
            final(self)@.len() == AREA,
            final(self)@ == draw_glyphs(old(self)@, x as int, y as int, text@, color),
    {
        proof {
            use_type_invariant(&*self);
        }
        let stencil = text_stencil(text, x, y);
        self.draw_stencil(&stencil, color);
    }

    /// The part of a region that lies on the canvas, as a block for the
    /// display; `None` where no part of it does.
    pub fn present_region(&self, x: i32, y: i32, width: u32, height: u32) -> (block: Option<Block>)
        ensures
            self@.len() == AREA,
            match block {
                Some(b) => {
                    &&& b.x0 == clip_low(x as int)
                    &&& b.y0 == clip_low(y as int)
                    &&& b.x1 + 1 == clip_high(x + width, WIDTH as int)
                    &&& b.y1 + 1 == clip_high(y + height, HEIGHT as int)
                    &&& b.x0 <= b.x1
                    &&& b.y0 <= b.y1
                    &&& holds_region(
                        b.pixels@,
                        self@,
                        b.x0 as int,
                        b.y0 as int,
                        b.x1 - b.x0 + 1,
                        b.y1 - b.y0 + 1,
                    )
                },
                None => clip_low(x as int) >= clip_high(x + width, WIDTH as int) || clip_low(
                    y as int,
                ) >= clip_high(y + height, HEIGHT as int),
            },
    {
        proof {
            use_type_invariant(&*self);
        }
        let right: i64 = x as i64 + width as i64;
        let bottom: i64 = y as i64 + height as i64;
        let x0: i64 = if x < 0 { 0 } else { x as i64 };
        let y0: i64 = if y < 0 { 0 } else { y as i64 };
        let x1: i64 = if right > WIDTH as i64 { WIDTH as i64 } else { right };
        let y1: i64 = if bottom > HEIGHT as i64 { HEIGHT as i64 } else { bottom };
        if x0 >= x1 || y0 >= y1 {
            return None;
        }
        let ghost w: int = x1 - x0;
        let mut out: Vec<Rgb565> = Vec::new();
        let mut row: i64 = y0;
        while row < y1
            invariant
                0 <= x0 < x1 <= WIDTH,
                0 <= y0 <= row <= y1 <= HEIGHT,
                w == x1 - x0,
                self.pixels@.len() == AREA,
                out@.len() == (row - y0) * w,
                forall|r: int, c: int|
                    0 <= r < row - y0 && 0 <= c < w ==> out@[#[trigger] block_index(r, c, w)]
                        == self.pixels@[cell_index(x0 + c, y0 + r)],
            decreases y1 - row,
        {
            let mut col: i64 = x0;
            while col < x1
                invariant
                    0 <= x0 <= col <= x1 <= WIDTH,
                    0 <= y0 <= row < y1 <= HEIGHT,
                    w == x1 - x0,
                    self.pixels@.len() == AREA,
                    out@.len() == (row - y0) * w + (col - x0),
                    forall|r: int, c: int|
                        0 <= r < row - y0 && 0 <= c < w ==> out@[#[trigger] block_index(r, c, w)]
                            == self.pixels@[cell_index(x0 + c, y0 + r)],
                    forall|c: int|
                        0 <= c < col - x0 ==> out@[#[trigger] block_index(row - y0, c, w)]
                            == self.pixels@[cell_index(x0 + c, row as int)],
                decreases x1 - col,
            {
                let index: usize = (row as usize) * WIDTH + (col as usize);
                let ghost before = out@;
                out.push(self.pixels[index]);
                proof {
                    assert forall|r: int, c: int| 0 <= r < row - y0 && 0 <= c < w implies out@[#[trigger] block_index(
                        r,
                        c,
                        w,
                    )] == self.pixels@[cell_index(x0 + c, y0 + r)] by {
                        lemma_block_index_bound(r, c, w, row - y0);
                        assert(out@[block_index(r, c, w)] == before[block_index(r, c, w)]);
                    }
                    assert forall|c: int| 0 <= c < col + 1 - x0 implies out@[#[trigger] block_index(
                        row - y0,
                        c,
                        w,
                    )] == self.pixels@[cell_index(x0 + c, row as int)] by {
                        if c < col - x0 {
                            assert(out@[block_index(row - y0, c, w)] == before[block_index(
                                row - y0,
                                c,
                                w,
                            )]);
                        }
                    }
                }
                col += 1;
            }
            proof {
                assert((row + 1 - y0) * w == (row - y0) * w + w) by (nonlinear_arith);
                assert forall|r: int, c: int| 0 <= r < row + 1 - y0 && 0 <= c < w implies out@[#[trigger] block_index(
                    r,
                    c,
                    w,
                )] == self.pixels@[cell_index(x0 + c, y0 + r)] by {
                    if r == row - y0 {
                        assert(out@[block_index(row - y0, c, w)] == self.pixels@[cell_index(
                            x0 + c,
                            row as int,
                        )]);
                    }
                }
            }
            row += 1;
        }
        proof {
            let h: int = y1 - y0;
            assert(out@.len() == w * h) by (nonlinear_arith)
                requires
                    out@.len() == (y1 - y0) * w,
                    h == y1 - y0,
            ;
        }
        Some(
            Block {
                x0: x0 as u16,
                y0: y0 as u16,
                x1: (x1 - 1) as u16,
                y1: (y1 - 1) as u16,
                pixels: out,
            },
        )
    }

    /// The whole canvas as one block, ready for the display.
    pub fn present(&self) -> (block: Block)
        ensures
            self@.len() == AREA,
            block.x0 == 0,
            block.y0 == 0,
            block.x1 == WIDTH - 1,
            block.y1 == HEIGHT - 1,
            block.pixels@ == self@,
    {
        proof {
            use_type_invariant(&*self);
        }
        let mut out: Vec<Rgb565> = Vec::new();
        let mut i: usize = 0;
        while i < AREA
            invariant
                i <= AREA,
                self.pixels@.len() == AREA,
                out@ == self.pixels@.take(i as int),
            decreases AREA - i,
        {
            out.push(self.pixels[i]);
            i += 1;
        }
        Block { x0: 0, y0: 0, x1: (WIDTH - 1) as u16, y1: (HEIGHT - 1) as u16, pixels: out }
    }
}

} // verus!
