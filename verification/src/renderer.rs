//! The renderer: a pixel buffer, row by row, and the drawing of the world
//! into it.

use vstd::prelude::*;
use crate::entity::{Entity, EntityType};
use crate::population::{count_entities_of_type, count_of};
use crate::position::Position;

verus! {

/// The colour of an empty pixel.
pub const BACKGROUND_COLOR: u32 = 0x000020;

/// The colour of the grid lines of the background.
pub const GRID_COLOR: u32 = 0x001040;

/// The distance between two grid lines of the background.
pub const GRID_SPACING: usize = 50;

/// The width of a gatherer's energy bar.
pub const BAR_WIDTH: i64 = 8;

/// The height of a gatherer's energy bar.
pub const BAR_HEIGHT: i64 = 2;

/// The colour of the empty part of a gatherer's energy bar.
pub const BAR_COLOR: u32 = 0x404040;

/// The colour of an energy bar more than half full.
pub const BAR_HIGH_COLOR: u32 = 0x00FF00;

/// The colour of an energy bar more than a quarter full.
pub const BAR_MIDDLE_COLOR: u32 = 0xFFFF00;

/// The colour of an energy bar at most a quarter full.
pub const BAR_LOW_COLOR: u32 = 0xFF0000;

/// The colour of the ring around a well-filled resource.
pub const RING_COLOR: u32 = 0xFFFFAA;

/// The colour of a predator's spikes.
pub const SPIKE_COLOR: u32 = 0xFF4444;

/// The most marks a tally shows.
pub const TALLY_LIMIT: usize = 20;

/// The row of the tally of gatherers.
pub const GATHERER_TALLY_ROW: i64 = 10;

/// The row of the tally of resources.
pub const RESOURCE_TALLY_ROW: i64 = 15;

/// The row of the tally of predators.
pub const PREDATOR_TALLY_ROW: i64 = 20;

/// The renderer: the pixels of a canvas, row by row.
pub struct Renderer {
    buffer: Vec<u32>,
    width: usize,
    height: usize,
    background_color: u32,
}

/// A canvas: `width` by `height` pixels, row by row.
pub struct Canvas {
    pub pixels: Seq<u32>,
    pub width: usize,
    pub height: usize,
}

/// The colour of the background at `(x, y)`: a grid line on every fiftieth
/// column and row, empty elsewhere.
pub open spec fn background_at(x: int, y: int) -> u32 {
    if x % (GRID_SPACING as int) == 0 || y % (GRID_SPACING as int) == 0 {
        GRID_COLOR
    } else {
        BACKGROUND_COLOR
    }
}

impl Canvas {
    /// The canvas holds one pixel for each of its points.
    pub open spec fn wf(self) -> bool {
        self.pixels.len() == self.width * self.height && self.width * self.height <= usize::MAX
    }

    /// Whether `(x, y)` is a point of the canvas.
    pub open spec fn holds(self, x: int, y: int) -> bool {
        0 <= x < self.width && 0 <= y < self.height
    }

    /// The colour at `(x, y)`.
    pub open spec fn at(self, x: int, y: int) -> u32
        recommends
            self.holds(x, y),
    {
        self.pixels[y * self.width + x]
    }

    /// `self` is `before` with the colour `color` wherever `mask` marks a
    /// point of the canvas, and everything else as it was.
    pub open spec fn is_stamp_on(
        self,
        before: Canvas,
        mask: spec_fn(int, int) -> bool,
        color: u32,
    ) -> bool {
        &&& self.same_frame(before)
        &&& forall|px: int, py: int|
            before.holds(px, py) ==> #[trigger] self.at(px, py) == if mask(px, py) {
                color
            } else {
                before.at(px, py)
            }
    }

    /// `self` is `before` with the colour that `ink` gives wherever it gives
    /// one, and everything else as it was.
    pub open spec fn is_print_on(self, before: Canvas, ink: spec_fn(int, int) -> Option<u32>) -> bool {
        &&& self.same_frame(before)
        &&& forall|px: int, py: int|
            before.holds(px, py) ==> #[trigger] self.at(px, py) == match ink(px, py) {
                Some(color) => color,
                None => before.at(px, py),
            }
    }

    /// `self` is `before` with the colour `color` at `(x, y)`, if that is a
    /// point of the canvas, and everything else as it was.
    pub open spec fn is_plot_on(self, before: Canvas, x: int, y: int, color: u32) -> bool {
        &&& self.same_frame(before)
        &&& forall|px: int, py: int|
            before.holds(px, py) ==> #[trigger] self.at(px, py) == if px == x && py == y {
                color
            } else {
                before.at(px, py)
            }
    }

    /// The two canvases have the same extent, and hold as many pixels.
    pub open spec fn same_frame(self, other: Canvas) -> bool {
        self.width == other.width && self.height == other.height && self.pixels.len()
            == other.pixels.len()
    }
}

/// Whether `(x, y)` lies in the rectangle of `columns` by `rows` points whose
/// first point is `(left, top)`.
pub open spec fn in_rect(x: int, y: int, left: int, top: int, columns: int, rows: int) -> bool {
    left <= x < left + columns && top <= y < top + rows
}

/// Whether `(x, y)` lies no farther than `radius` from `(cx, cy)`.
pub open spec fn in_disc(x: int, y: int, cx: int, cy: int, radius: int) -> bool {
    (x - cx) * (x - cx) + (y - cy) * (y - cy) <= radius * radius
}

/// Whether `(x, y)` is one of the first `shown` marks of the tally in row
/// `row`: the marks stand three apart, the first in column 10.
pub open spec fn on_tally(x: int, y: int, shown: int, row: int) -> bool {
    y == row && 10 <= x < 10 + 3 * shown && (x - 10) % 3 == 0
}

/// The cosine, in thousandths, of `k` sixteenths of a full turn.
pub open spec fn compass(k: int) -> int {
    let d = k % 16;
    if d == 0 {
        1000
    } else if d == 1 || d == 15 {
        924
    } else if d == 2 || d == 14 {
        707
    } else if d == 3 || d == 13 {
        383
    } else if d == 4 || d == 12 {
        0
    } else if d == 5 || d == 11 {
        -383
    } else if d == 6 || d == 10 {
        -707
    } else if d == 7 || d == 9 {
        -924
    } else {
        -1000
    }
}

/// `radius` scaled by so many thousandths and rounded toward zero.
pub open spec fn scaled(radius: int, thousandths: int) -> int {
    if thousandths >= 0 {
        radius * thousandths / 1000
    } else {
        -(radius * (-thousandths) / 1000)
    }
}

/// The tip of the ray from `(cx, cy)` of length `radius` that points `k`
/// sixteenths of a full turn away from the x axis.
pub open spec fn ray_tip(cx: int, cy: int, radius: int, k: int) -> (int, int) {
    (cx + scaled(radius, compass(k)), cy + scaled(radius, compass(k + 12)))
}

/// Whether `(x, y)` is the tip of one of the first `count` rays from
/// `(cx, cy)` of length `radius` that stand `step` sixteenths of a full turn
/// apart.
pub open spec fn on_rays(x: int, y: int, cx: int, cy: int, radius: int, count: int, step: int) -> bool
    decreases count,
{
    if count <= 0 {
        false
    } else {
        on_rays(x, y, cx, cy, radius, count - 1, step) || ray_tip(cx, cy, radius, (count - 1) * step)
            == (x, y)
    }
}

/// How far apart two coordinates are.
pub open spec fn span(a: int, b: int) -> int {
    if a <= b { b - a } else { a - b }
}

/// The point and the error term that follow `(cx, cy)` with error term
/// `err` on the line from `start` to `end`: a step along x while twice the
/// error exceeds the negated height of the line, a step along y while it is
/// below the width.
pub open spec fn line_step(cx: int, cy: int, err: int, start: Position, end: Position) -> (
    int,
    int,
    int,
) {
    let dx = span(start.x as int, end.x as int);
    let dy = span(start.y as int, end.y as int);
    let sx: int = if start.x < end.x { 1 } else { -1 };
    let sy: int = if start.y < end.y { 1 } else { -1 };
    let along_x = 2 * err > -dy;
    let along_y = 2 * err < dx;
    (
        if along_x { cx + sx } else { cx },
        if along_y { cy + sy } else { cy },
        err - (if along_x { dy } else { 0 }) + (if along_y { dx } else { 0 }),
    )
}

/// Whether `(x, y)` is `(cx, cy)` or one of the at most `fuel` points that
/// follow it on the line from `start` to `end`, up to `end`.
pub open spec fn on_trace(
    x: int,
    y: int,
    cx: int,
    cy: int,
    err: int,
    start: Position,
    end: Position,
    fuel: nat,
) -> bool
    decreases fuel,
{
    (x == cx && y == cy) || (fuel > 0 && !(cx == end.x && cy == end.y) && {
        let next = line_step(cx, cy, err, start, end);
        on_trace(x, y, next.0, next.1, next.2, start, end, (fuel - 1) as nat)
    })
}

/// Whether `(x, y)` is a point of the line from `start` to `end`, both ends
/// included, as the error-term method traces it.
pub open spec fn on_line(x: int, y: int, start: Position, end: Position) -> bool {
    let dx = span(start.x as int, end.x as int);
    let dy = span(start.y as int, end.y as int);
    on_trace(x, y, start.x as int, start.y as int, dx - dy, start, end, (dx + dy) as nat)
}

/// How many columns of a gatherer's energy bar are filled: the whole part of
/// its share of the bar's width.
pub open spec fn bar_fill(e: Entity) -> int {
    BAR_WIDTH * e.energy / (e.max_energy as int)
}

/// The colour of the filled part of a gatherer's energy bar.
pub open spec fn bar_fill_color(e: Entity) -> u32 {
    if 2 * e.energy > e.max_energy {
        BAR_HIGH_COLOR
    } else if 4 * e.energy > e.max_energy {
        BAR_MIDDLE_COLOR
    } else {
        BAR_LOW_COLOR
    }
}

/// The colour that the decoration of `e` puts at `(x, y)`, if any: for a
/// gatherer its energy bar above it, for a resource more than four fifths
/// full a ring of sixteen points around it, for a predator eight spikes.
pub open spec fn decoration_ink(e: Entity, x: int, y: int) -> Option<u32> {
    let left = e.position.x - BAR_WIDTH / 2;
    let top = e.position.y - e.size - 3;
    match e.entity_type {
        EntityType::Gatherer => if in_rect(x, y, left, top, bar_fill(e), BAR_HEIGHT as int) {
            Some(bar_fill_color(e))
        } else if in_rect(x, y, left, top, BAR_WIDTH as int, BAR_HEIGHT as int) {
            Some(BAR_COLOR)
        } else {
            None
        },
        EntityType::Resource => if 5 * e.energy > 4 * e.max_energy && on_rays(
            x,
            y,
            e.position.x as int,
            e.position.y as int,
            e.size + 2,
            16,
            1,
        ) {
            Some(RING_COLOR)
        } else {
            None
        },
        EntityType::Predator => if on_rays(
            x,
            y,
            e.position.x as int,
            e.position.y as int,
            e.size + 1,
            8,
            2,
        ) {
            Some(SPIKE_COLOR)
        } else {
            None
        },
    }
}

/// The colour that drawing `e` puts at `(x, y)`, if any: its decoration,
/// and under it a disc of half its size in its own colour.
pub open spec fn entity_ink(e: Entity, x: int, y: int) -> Option<u32> {
    match decoration_ink(e, x, y) {
        Some(color) => Some(color),
        None => if in_disc(x, y, e.position.x as int, e.position.y as int, (e.size / 2) as int) {
            Some(e.color)
        } else {
            None
        },
    }
}

/// The colour that drawing the entities of `s` one after the other puts at
/// `(x, y)`, if any: that of the last one that colours the point.
pub open spec fn scene_ink(s: Seq<Entity>, x: int, y: int) -> Option<u32>
    decreases s.len(),
{
    if s.len() == 0 {
        None
    } else {
        match entity_ink(s.last(), x, y) {
            Some(color) => Some(color),
            None => scene_ink(s.drop_last(), x, y),
        }
    }
}

/// How many marks the tally of `kind` shows.
pub open spec fn tally_of(s: Seq<Entity>, kind: EntityType) -> int {
    if count_of(s, kind) <= TALLY_LIMIT { count_of(s, kind) as int } else { TALLY_LIMIT as int }
}

/// The colour that the tallies of the three kinds put at `(x, y)`, if any.
pub open spec fn tally_ink(s: Seq<Entity>, x: int, y: int) -> Option<u32> {
    if on_tally(x, y, tally_of(s, EntityType::Predator), PREDATOR_TALLY_ROW as int) {
        Some(0xFF0000u32)
    } else if on_tally(x, y, tally_of(s, EntityType::Resource), RESOURCE_TALLY_ROW as int) {
        Some(0xFFFF00u32)
    } else if on_tally(x, y, tally_of(s, EntityType::Gatherer), GATHERER_TALLY_ROW as int) {
        Some(0x00FF00u32)
    } else {
        None
    }
}

/// The colour of the finished picture of the world at `(x, y)`: a tally
/// mark, else the entities, else the background.
pub open spec fn frame_at(s: Seq<Entity>, x: int, y: int) -> u32 {
    match tally_ink(s, x, y) {
        Some(color) => color,
        None => match scene_ink(s, x, y) {
            Some(color) => color,
            None => background_at(x, y),
        },
    }
}

/// A point no farther than `radius` from a centre lies no farther than that
/// from it on either axis.
pub proof fn lemma_disc_in_box(x: int, y: int, cx: int, cy: int, radius: int)
    requires
        0 <= radius,
        in_disc(x, y, cx, cy, radius),
    ensures
        -radius <= x - cx <= radius,
        -radius <= y - cy <= radius,
{
    let dx = x - cx;
    let dy = y - cy;
    assert(dy * dy >= 0) by (nonlinear_arith);
    assert(dx * dx >= 0) by (nonlinear_arith);
    if dx > radius || dx < -radius {
        assert(dx * dx > radius * radius) by (nonlinear_arith)
            requires 0 <= radius, dx > radius || dx < -radius;
    }
    if dy > radius || dy < -radius {
        assert(dy * dy > radius * radius) by (nonlinear_arith)
            requires 0 <= radius, dy > radius || dy < -radius;
    }
}

/// The pixel of a point of the canvas lies inside the buffer.
pub proof fn lemma_index_in_buffer(width: int, height: int, x: int, y: int)
    requires
        0 <= x < width,
        0 <= y < height,
    ensures
        0 <= y * width + x < width * height,
{
    assert(y * width + x < width * height) by (nonlinear_arith)
        requires 0 <= x < width, 0 <= y < height, y + 1 <= height;
    assert(0 <= y * width) by (nonlinear_arith)
        requires 0 <= y, 0 <= width;
}

/// Two points of the canvas share a pixel only if they are the same point.
pub proof fn lemma_index_is_unique(width: int, x: int, y: int, px: int, py: int)
    requires
        0 <= x < width,
        0 <= px < width,
        0 <= y,
        0 <= py,
        y * width + x == py * width + px,
    ensures
        x == px,
        y == py,
{
    if y < py {
        assert(py * width >= (y + 1) * width) by (nonlinear_arith)
            requires y + 1 <= py, 0 <= width;
        assert((y + 1) * width == y * width + width) by (nonlinear_arith);
    } else if py < y {
        assert(y * width >= (py + 1) * width) by (nonlinear_arith)
            requires py + 1 <= y, 0 <= width;
        assert((py + 1) * width == py * width + width) by (nonlinear_arith);
    }
}

impl Renderer {
    /// The canvas that the renderer holds.
    pub closed spec fn view(&self) -> Canvas {
        Canvas { pixels: self.buffer@, width: self.width, height: self.height }
    }

    /// The renderer holds a well-formed canvas and the background colour.
    pub closed spec fn wf(&self) -> bool {
        self@.wf() && self.background_color == BACKGROUND_COLOR
    }

    /// A renderer with a black canvas of the given extent.
    pub fn new(width: usize, height: usize) -> (renderer: Renderer)
        requires
            width * height <= usize::MAX,
        ensures
            renderer.wf(),
            renderer@.width == width,
            renderer@.height == height,
            renderer@.pixels == Seq::new((width * height) as nat, |i: int| 0u32),
    {
        let size: usize = width * height;
        let mut buffer: Vec<u32> = Vec::new();
        let mut i: usize = 0;
        while i < size
            invariant
                i <= size,
                buffer@ == Seq::new(i as nat, |k: int| 0u32),
            decreases size - i,
        {
            buffer.push(0);
            assert(buffer@ =~= Seq::new((i + 1) as nat, |k: int| 0u32));
            i = i + 1;
        }
        Renderer { buffer, width, height, background_color: BACKGROUND_COLOR }
    }

    /// The pixels, row by row.
    pub fn get_buffer(&self) -> (buffer: &[u32])
        ensures
            buffer@ == self@.pixels,
    {
        self.buffer.as_slice()
    }

    /// Empties every pixel.
    pub fn clear(&mut self)
        requires
            old(self).wf(),
        ensures
            final(self).wf(),
            final(self)@.same_frame(old(self)@),
            final(self)@.pixels == Seq::new(old(self)@.pixels.len(), |i: int| BACKGROUND_COLOR),
    {
        let n: usize = self.buffer.len();
        let mut i: usize = 0;
        while i < n
            invariant
                i <= n,
                n == old(self)@.pixels.len(),
                self.wf(),
                self@.same_frame(old(self)@),
                forall|k: int| 0 <= k < i ==> self@.pixels[k] == BACKGROUND_COLOR,
            decreases n - i,
        {
            self.buffer.set(i, self.background_color);
            i = i + 1;
        }
        assert(self@.pixels =~= Seq::new(old(self)@.pixels.len(), |i: int| BACKGROUND_COLOR));
    }

    /// Colours the pixel at `(x, y)`, if that is a point of the canvas.
    fn plot_at(&mut self, x: usize, y: usize, color: u32)
        requires
            old(self).wf(),
        ensures
            final(self).wf(),
            final(self)@.is_plot_on(old(self)@, x as int, y as int, color),
    {
        if x < self.width && y < self.height {
            proof {
                lemma_index_in_buffer(self.width as int, self.height as int, x as int, y as int);
                assert(0 <= y * self.width) by (nonlinear_arith)
                    requires 0 <= y, 0 <= self.width;
            }
            let index: usize = y * self.width + x;
            self.buffer.set(index, color);
            proof {
                assert forall|px: int, py: int| old(self)@.holds(px, py) implies #[trigger] self@.at(
                    px,
                    py,
                ) == if px == x && py == y {
                    color
                } else {
                    old(self)@.at(px, py)
                } by {
                    lemma_index_in_buffer(self.width as int, self.height as int, px, py);
                    if py * self.width + px == y * self.width + x {
                        lemma_index_is_unique(self.width as int, x as int, y as int, px, py);
                    }
                }
            }
        }
    }

    /// Colours the pixel at `(x, y)`, if that is a point of the canvas.
    fn plot(&mut self, x: i64, y: i64, color: u32)
        requires
            old(self).wf(),
        ensures
            final(self).wf(),
            final(self)@.is_plot_on(old(self)@, x as int, y as int, color),
    {
        if x >= 0 && y >= 0 && (x as u64) < self.width as u64 && (y as u64) < self.height as u64 {
            self.plot_at(x as usize, y as usize, color);
        }
    }

    /// Colours the pixel at `position`, if that is a point of the canvas.
    pub fn set_pixel(&mut self, position: Position, color: u32)
        requires
            old(self).wf(),
        ensures
            final(self).wf(),
            final(self)@.is_plot_on(old(self)@, position.x as int, position.y as int, color),
    {
        self.plot(position.x as i64, position.y as i64, color);
    }

    /// Paints the background: a grid line on every fiftieth column and row.
    pub fn draw_background(&mut self)
        requires
            old(self).wf(),
        ensures
            final(self).wf(),
            final(self)@.same_frame(old(self)@),
            forall|x: int, y: int|
                old(self)@.holds(x, y) ==> #[trigger] final(self)@.at(x, y) == background_at(x, y),
    {
        let mut y: usize = 0;
        while y < self.height
            invariant
                y <= self.height,
                self.wf(),
                self@.same_frame(old(self)@),
                forall|px: int, py: int|
                    0 <= px < self.width && 0 <= py < y ==> #[trigger] self@.at(px, py)
                        == background_at(px, py),
            decreases self.height - y,
        {
            let mut x: usize = 0;
            while x < self.width
                invariant
                    y < self.height,
                    x <= self.width,
                    self.wf(),
                    self@.same_frame(old(self)@),
                    forall|px: int, py: int|
                        0 <= px < self.width && 0 <= py < y ==> #[trigger] self@.at(px, py)
                            == background_at(px, py),
                    forall|px: int| 0 <= px < x ==> #[trigger] self@.at(px, y as int) == background_at(
                        px,
                        y as int,
                    ),
                decreases self.width - x,
            {
                let color: u32 = if x % GRID_SPACING == 0 || y % GRID_SPACING == 0 {
                    GRID_COLOR
                } else {
                    self.background_color
                };
                self.plot_at(x, y, color);
                x = x + 1;
            }
            y = y + 1;
        }
    }

    /// Colours the rectangle of `columns` by `rows` points whose first point
    /// is `(left, top)`, as far as it lies on the canvas.
    fn fill_rect(&mut self, left: i64, top: i64, columns: i64, rows: i64, color: u32)
        requires
            old(self).wf(),
            -0x1_0000_0000 <= left <= 0x1_0000_0000,
            -0x1_0000_0000 <= top <= 0x1_0000_0000,
            0 <= columns <= 0x1_0000,
            0 <= rows <= 0x1_0000,
        ensures
            final(self).wf(),
            final(self)@.is_stamp_on(
                old(self)@,
                |x: int, y: int| in_rect(x, y, left as int, top as int, columns as int, rows as int),
                color,
            ),
    {
        let mut column: i64 = 0;
        while column < columns
            invariant
                0 <= column <= columns <= 0x1_0000,
                0 <= rows <= 0x1_0000,
                -0x1_0000_0000 <= left <= 0x1_0000_0000,
                -0x1_0000_0000 <= top <= 0x1_0000_0000,
                self.wf(),
                self@.is_stamp_on(
                    old(self)@,
                    |x: int, y: int| in_rect(x, y, left as int, top as int, column as int, rows as int),
                    color,
                ),
            decreases columns - column,
        {
            let ghost done = self@;
            let mut row: i64 = 0;
            while row < rows
                invariant
                    0 <= column < columns <= 0x1_0000,
                    0 <= row <= rows <= 0x1_0000,
                    -0x1_0000_0000 <= left <= 0x1_0000_0000,
                    -0x1_0000_0000 <= top <= 0x1_0000_0000,
                    self.wf(),
                    self@.is_stamp_on(
                        done,
                        |x: int, y: int| in_rect(x, y, left + column, top as int, 1, row as int),
                        color,
                    ),
                decreases rows - row,
            {
                self.plot(left + column, top + row, color);
                row = row + 1;
            }
            column = column + 1;
        }
    }

    /// Colours every point no farther than `radius` from `(cx, cy)`, as far
    /// as it lies on the canvas.
    fn fill_disc(&mut self, cx: i64, cy: i64, radius: i64, color: u32)
        requires
            old(self).wf(),
            -0x1_0000_0000 <= cx <= 0x1_0000_0000,
            -0x1_0000_0000 <= cy <= 0x1_0000_0000,
            0 <= radius <= 0x1_0000,
        ensures
            final(self).wf(),
            final(self)@.is_stamp_on(
                old(self)@,
                |x: int, y: int| in_disc(x, y, cx as int, cy as int, radius as int),
                color,
            ),
    {
        assert(radius * radius <= 0x1_0000 * 0x1_0000) by (nonlinear_arith)
            requires 0 <= radius <= 0x1_0000;
        let mut dy: i64 = -radius;
        while dy <= radius
            invariant
                -radius <= dy <= radius + 1,
                0 <= radius <= 0x1_0000,
                radius * radius <= 0x1_0000 * 0x1_0000,
                -0x1_0000_0000 <= cx <= 0x1_0000_0000,
                -0x1_0000_0000 <= cy <= 0x1_0000_0000,
                self.wf(),
                self@.is_stamp_on(
                    old(self)@,
                    |x: int, y: int|
                        in_disc(x, y, cx as int, cy as int, radius as int) && -radius <= x - cx
                            <= radius && -radius <= y - cy < dy,
                    color,
                ),
            decreases radius + 1 - dy,
        {
            let ghost done = self@;
            let mut dx: i64 = -radius;
            while dx <= radius
                invariant
                    -radius <= dy <= radius,
                    -radius <= dx <= radius + 1,
                    0 <= radius <= 0x1_0000,
                    radius * radius <= 0x1_0000 * 0x1_0000,
                    -0x1_0000_0000 <= cx <= 0x1_0000_0000,
                    -0x1_0000_0000 <= cy <= 0x1_0000_0000,
                    self.wf(),
                    self@.is_stamp_on(
                        done,
                        |x: int, y: int|
                            in_disc(x, y, cx as int, cy as int, radius as int) && y - cy == dy
                                && -radius <= x - cx < dx,
                        color,
                    ),
                decreases radius + 1 - dx,
            {
                assert(0 <= dx * dx <= 0x1_0000 * 0x1_0000 && 0 <= dy * dy <= 0x1_0000 * 0x1_0000)
                    by (nonlinear_arith)
                    requires -0x1_0000 <= dx <= 0x1_0000, -0x1_0000 <= dy <= 0x1_0000;
                if dx * dx + dy * dy <= radius * radius {
                    self.plot(cx + dx, cy + dy, color);
                }
                dx = dx + 1;
            }
            dy = dy + 1;
        }
        proof {
            assert forall|x: int, y: int|
                in_disc(x, y, cx as int, cy as int, radius as int) implies -radius <= x - cx
                    <= radius && -radius <= y - cy <= radius by {
                lemma_disc_in_box(x, y, cx as int, cy as int, radius as int);
            }
        }
    }

    /// Colours the first `shown` marks of the tally in row `row`.
    fn draw_tally(&mut self, shown: usize, row: i64, color: u32)
        requires
            old(self).wf(),
            shown <= 20,
            0 <= row <= 0x1_0000,
        ensures
            final(self).wf(),
            final(self)@.is_stamp_on(
                old(self)@,
                |x: int, y: int| on_tally(x, y, shown as int, row as int),
                color,
            ),
    {
        let mut i: usize = 0;
        while i < shown
            invariant
                i <= shown <= 20,
                0 <= row <= 0x1_0000,
                self.wf(),
                self@.is_stamp_on(
                    old(self)@,
                    |x: int, y: int| on_tally(x, y, i as int, row as int),
                    color,
                ),
            decreases shown - i,
        {
            self.plot(10 + 3 * (i as i64), row, color);
            i = i + 1;
        }
    }

    /// Colours the tips of `count` rays from `(cx, cy)` of length `radius`
    /// that stand `step` sixteenths of a full turn apart.
    fn draw_rays(&mut self, cx: i64, cy: i64, radius: i64, count: usize, step: usize, color: u32)
        requires
            old(self).wf(),
            -0x1_0000_0000 <= cx <= 0x1_0000_0000,
            -0x1_0000_0000 <= cy <= 0x1_0000_0000,
            0 <= radius <= 0x1_0000,
            count <= 16,
            step <= 16,
        ensures
            final(self).wf(),
            final(self)@.is_stamp_on(
                old(self)@,
                |x: int, y: int|
                    on_rays(x, y, cx as int, cy as int, radius as int, count as int, step as int),
                color,
            ),
    {
        let mut k: usize = 0;
        while k < count
            invariant
                k <= count <= 16,
                step <= 16,
                0 <= radius <= 0x1_0000,
                -0x1_0000_0000 <= cx <= 0x1_0000_0000,
                -0x1_0000_0000 <= cy <= 0x1_0000_0000,
                self.wf(),
                self@.is_stamp_on(
                    old(self)@,
                    |x: int, y: int|
                        on_rays(x, y, cx as int, cy as int, radius as int, k as int, step as int),
                    color,
                ),
            decreases count - k,
        {
            assert(k * step <= 16 * 16) by (nonlinear_arith)
                requires 0 <= k <= 16, 0 <= step <= 16;
            let turn: usize = k * step;
            let x: i64 = cx + scale(radius, compass_of(turn));
            let y: i64 = cy + scale(radius, compass_of(turn + 12));
            self.plot(x, y, color);
            k = k + 1;
        }
    }

    /// Draws a gatherer's energy bar: the bar, then its filled part.
    fn draw_gatherer_decoration(&mut self, entity: &Entity)
        requires
            old(self).wf(),
            entity.wf(),
            entity.entity_type == EntityType::Gatherer,
        ensures
            final(self).wf(),
            final(self)@.is_print_on(old(self)@, |x: int, y: int| decoration_ink(*entity, x, y)),
    {
        let left: i64 = entity.position.x as i64 - BAR_WIDTH / 2;
        let top: i64 = entity.position.y as i64 - entity.size as i64 - 3;
        self.fill_rect(left, top, BAR_WIDTH, BAR_HEIGHT, BAR_COLOR);
        assert(0 <= BAR_WIDTH * entity.energy / (entity.max_energy as int) <= BAR_WIDTH)
            by (nonlinear_arith)
            requires 0 <= entity.energy <= entity.max_energy, 0 < entity.max_energy;
        let fill_width: i64 = BAR_WIDTH * (entity.energy as i64) / (entity.max_energy as i64);
        let color: u32 = if 2 * entity.energy > entity.max_energy {
            BAR_HIGH_COLOR
        } else if 4 * entity.energy > entity.max_energy {
            BAR_MIDDLE_COLOR
        } else {
            BAR_LOW_COLOR
        };
        self.fill_rect(left, top, fill_width, BAR_HEIGHT, color);
    }

    /// Draws the ring around a resource that is more than four fifths full.
    fn draw_resource_decoration(&mut self, entity: &Entity)
        requires
            old(self).wf(),
            entity.wf(),
            entity.entity_type == EntityType::Resource,
        ensures
            final(self).wf(),
            final(self)@.is_print_on(old(self)@, |x: int, y: int| decoration_ink(*entity, x, y)),
    {
        if 5 * entity.energy > 4 * entity.max_energy {
            let ring_radius: i64 = entity.size as i64 + 2;
            self.draw_rays(
                entity.position.x as i64,
                entity.position.y as i64,
                ring_radius,
                16,
                1,
                RING_COLOR,
            );
        }
    }

    /// Draws a predator's spikes.
    fn draw_predator_decoration(&mut self, entity: &Entity)
        requires
            old(self).wf(),
            entity.wf(),
            entity.entity_type == EntityType::Predator,
        ensures
            final(self).wf(),
            final(self)@.is_print_on(old(self)@, |x: int, y: int| decoration_ink(*entity, x, y)),
    {
        let spike_length: i64 = entity.size as i64 + 1;
        self.draw_rays(
            entity.position.x as i64,
            entity.position.y as i64,
            spike_length,
            8,
            2,
            SPIKE_COLOR,
        );
    }

    /// Draws one entity: a disc of half its size in its colour, and over it
    /// the decoration of its kind.
    pub fn draw_entity(&mut self, entity: &Entity)
        requires
            old(self).wf(),
            entity.wf(),
        ensures
            final(self).wf(),
            final(self)@.is_print_on(old(self)@, |x: int, y: int| entity_ink(*entity, x, y)),
    {
        let half_size: i64 = (entity.size / 2) as i64;
        self.fill_disc(entity.position.x as i64, entity.position.y as i64, half_size, entity.color);
        match entity.entity_type {
            EntityType::Gatherer => self.draw_gatherer_decoration(entity),
            EntityType::Resource => self.draw_resource_decoration(entity),
            EntityType::Predator => self.draw_predator_decoration(entity),
        }
    }

    /// Draws the tallies of the three kinds: one mark for each entity, at
    /// most twenty in a row.
    pub fn draw_ui_info(&mut self, entities: &[Entity])
        requires
            old(self).wf(),
        ensures
            final(self).wf(),
            final(self)@.is_print_on(old(self)@, |x: int, y: int| tally_ink(entities@, x, y)),
    {
        let gatherer_count: usize = count_entities_of_type(entities, EntityType::Gatherer);
        let resource_count: usize = count_entities_of_type(entities, EntityType::Resource);
        let predator_count: usize = count_entities_of_type(entities, EntityType::Predator);
        self.draw_tally(at_most_tally(gatherer_count), GATHERER_TALLY_ROW, 0x00FF00);
        self.draw_tally(at_most_tally(resource_count), RESOURCE_TALLY_ROW, 0xFFFF00);
        self.draw_tally(at_most_tally(predator_count), PREDATOR_TALLY_ROW, 0xFF0000);
    }

    /// Draws the whole world: the background, the entities in their order,
    /// and the tallies on top.
    pub fn draw_world(&mut self, entities: &[Entity])
        requires
            old(self).wf(),
            forall|k: int| 0 <= k < entities@.len() ==> (#[trigger] entities@[k]).wf(),
        ensures
            final(self).wf(),
            final(self)@.same_frame(old(self)@),
            forall|x: int, y: int|
                old(self)@.holds(x, y) ==> #[trigger] final(self)@.at(x, y) == frame_at(
                    entities@,
                    x,
                    y,
                ),
    {
        self.draw_background();
        let ghost ground = self@;
        let n: usize = entities.len();
        let mut i: usize = 0;
        while i < n
            invariant
                i <= n,
                n == entities@.len(),
                forall|k: int| 0 <= k < entities@.len() ==> (#[trigger] entities@[k]).wf(),
                self.wf(),
                self@.is_print_on(ground, |x: int, y: int| scene_ink(entities@.take(i as int), x, y)),
            decreases n - i,
        {
            proof {
                assert(entities@.take(i + 1).drop_last() =~= entities@.take(i as int));
            }
            self.draw_entity(&entities[i]);
            i = i + 1;
        }
        proof {
            assert(entities@.take(n as int) =~= entities@);
        }
        self.draw_ui_info(entities);
    }

    /// Draws the line from `start` to `end`, both ends included.
    pub fn draw_line(&mut self, start: Position, end: Position, color: u32)
        requires
            old(self).wf(),
        ensures
            final(self).wf(),
            final(self)@.is_stamp_on(old(self)@, |x: int, y: int| on_line(x, y, start, end), color),
    {
        let dx: i64 = if start.x <= end.x {
            end.x as i64 - start.x as i64
        } else {
            start.x as i64 - end.x as i64
        };
        let dy: i64 = if start.y <= end.y {
            end.y as i64 - start.y as i64
        } else {
            start.y as i64 - end.y as i64
        };
        let sx: i64 = if start.x < end.x { 1 } else { -1 };
        let sy: i64 = if start.y < end.y { 1 } else { -1 };
        let mut err: i128 = dx as i128 - dy as i128;
        let mut x: i64 = start.x as i64;
        let mut y: i64 = start.y as i64;
        let ghost mut nx: int = 0;
        let ghost mut ny: int = 0;
        let ghost mut fuel: nat = (dx + dy) as nat;
        let ghost mut seen: Set<(int, int)> = Set::empty().insert((x as int, y as int));
        self.plot(x, y, color);
        assert(dy * 0 == 0 && dx * 0 == 0) by (nonlinear_arith);
        while !(x == end.x as i64 && y == end.y as i64)
            invariant
                dx == span(start.x as int, end.x as int),
                dy == span(start.y as int, end.y as int),
                sx == if start.x < end.x { 1i64 } else { -1i64 },
                sy == if start.y < end.y { 1i64 } else { -1i64 },
                0 <= nx <= dx <= 0xffff_ffff,
                0 <= ny <= dy <= 0xffff_ffff,
                x == if start.x < end.x { start.x + nx } else { start.x - nx },
                y == if start.y < end.y { start.y + ny } else { start.y - ny },
                err == dx - dy - dy * nx + dx * ny,
                fuel >= (dx - nx) + (dy - ny),
                seen.contains((x as int, y as int)),
                self.wf(),
                self@.is_stamp_on(old(self)@, |px: int, py: int| seen.contains((px, py)), color),
                forall|px: int, py: int|
                    on_line(px, py, start, end) <==> seen.contains((px, py)) || on_trace(
                        px,
                        py,
                        x as int,
                        y as int,
                        err as int,
                        start,
                        end,
                        fuel,
                    ),
            decreases (dx - nx) + (dy - ny),
        {
            proof {
                assert(0 <= dy * nx <= 0xffff_ffff * 0xffff_ffff) by (nonlinear_arith)
                    requires 0 <= nx <= dx <= 0xffff_ffff, 0 <= dy <= 0xffff_ffff;
                assert(0 <= dx * ny <= 0xffff_ffff * 0xffff_ffff) by (nonlinear_arith)
                    requires 0 <= ny <= dy <= 0xffff_ffff, 0 <= dx <= 0xffff_ffff;
                if nx == dx {
                    assert(dx * (1 + ny - dy) <= 0) by (nonlinear_arith)
                        requires 0 <= dx, ny < dy;
                    assert(dx - dy - dy * dx + dx * ny == dx * (1 + ny - dy) - dy)
                        by (nonlinear_arith);
                }
                if ny == dy {
                    assert(dy * (dx - 1 - nx) >= 0) by (nonlinear_arith)
                        requires 0 <= dy, nx < dx;
                    assert(2 * (dx - dy - dy * nx + dx * dy) - dx == dx + 2 * (dy * (dx - 1 - nx)))
                        by (nonlinear_arith);
                }
                assert(dy * (nx + 1) == dy * nx + dy) by (nonlinear_arith);
                assert(dx * (ny + 1) == dx * ny + dx) by (nonlinear_arith);
            }
            let ghost here = (x as int, y as int, err as int);
            let e2: i128 = 2 * err;
            if e2 > -(dy as i128) {
                err = err - dy as i128;
                x = x + sx;
                proof {
                    nx = nx + 1;
                }
            }
            if e2 < dx as i128 {
                err = err + dx as i128;
                y = y + sy;
                proof {
                    ny = ny + 1;
                }
            }
            proof {
                assert((x as int, y as int, err as int) == line_step(
                    here.0,
                    here.1,
                    here.2,
                    start,
                    end,
                ));
                assert forall|px: int, py: int|
                    on_line(px, py, start, end) <==> seen.insert((x as int, y as int)).contains(
                        (px, py),
                    ) || on_trace(
                        px,
                        py,
                        x as int,
                        y as int,
                        err as int,
                        start,
                        end,
                        (fuel - 1) as nat,
                    ) by {
                    assert(on_trace(px, py, here.0, here.1, here.2, start, end, fuel) == ((px
                        == here.0 && py == here.1) || on_trace(
                        px,
                        py,
                        x as int,
                        y as int,
                        err as int,
                        start,
                        end,
                        (fuel - 1) as nat,
                    )));
                }
                seen = seen.insert((x as int, y as int));
                fuel = (fuel - 1) as nat;
            }
            self.plot(x, y, color);
        }
    }
}

/// A count, held at the most marks a tally shows.
fn at_most_tally(count: usize) -> (shown: usize)
    ensures
        shown == if count <= TALLY_LIMIT { count } else { TALLY_LIMIT },
{
    if count <= TALLY_LIMIT { count } else { TALLY_LIMIT }
}

/// The cosine, in thousandths, of `k` sixteenths of a full turn.
fn compass_of(k: usize) -> (c: i64)
    ensures
        c == compass(k as int),
        -1000 <= c <= 1000,
{
    let d: usize = k % 16;
    if d == 0 {
        1000
    } else if d == 1 || d == 15 {
        924
    } else if d == 2 || d == 14 {
        707
    } else if d == 3 || d == 13 {
        383
    } else if d == 4 || d == 12 {
        0
    } else if d == 5 || d == 11 {
        -383
    } else if d == 6 || d == 10 {
        -707
    } else if d == 7 || d == 9 {
        -924
    } else {
        -1000
    }
}

/// `radius` scaled by so many thousandths and rounded toward zero.
fn scale(radius: i64, thousandths: i64) -> (r: i64)
    requires
        0 <= radius <= 0x1_0000,
        -1000 <= thousandths <= 1000,
    ensures
        r == scaled(radius as int, thousandths as int),
        -radius <= r <= radius,
{
    if thousandths >= 0 {
        assert(0 <= radius * thousandths <= radius * 1000) by (nonlinear_arith)
            requires 0 <= radius, 0 <= thousandths <= 1000;
        radius * thousandths / 1000
    } else {
        assert(0 <= radius * (-thousandths) <= radius * 1000) by (nonlinear_arith)
            requires 0 <= radius, 0 <= -thousandths <= 1000;
        -(radius * (-thousandths) / 1000)
    }
}

} // verus!
