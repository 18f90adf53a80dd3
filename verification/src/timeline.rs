//! The layout of a timeline: where on the screen each span goes, at a given
//! zoom and scroll, and which spans are drawn at all.

use crate::config::ViewerConfig;
use crate::record::Span;
use vstd::prelude::*;

verus! {

/// The number of colours of each palette.
pub const PALETTE_LEN: u64 = 6;

/// The column of a row in which nothing was drawn yet. No span is drawn at it.
pub const NO_COLUMN: i32 = -1;

/// A rectangle of the screen that shows one span, kept to find the span again
/// under the pointer.
#[derive(Clone, Copy, Debug, PartialEq, Eq, Structural)]
pub struct Area {
    pub y_start: u64,
    pub x_start: i32,
    pub y_stop: u64,
    pub x_stop: i32,
    pub tag_data: Span,
}

/// A point of the screen.
#[derive(Clone, Copy, Debug, PartialEq, Eq, Structural)]
pub struct Position {
    pub x: i32,
    pub y: i32,
}

/// The two sets of colours: the bright one for spans narrower than one pixel,
/// several of which may share a pixel, the muted one for the others.
#[derive(Clone, Copy, Debug, PartialEq, Eq, Structural)]
pub enum Palette {
    Bright,
    Muted,
}

/// One rectangle to fill: its colour, by palette and index, and its place.
#[derive(Clone, Copy, Debug, PartialEq, Eq, Structural)]
pub struct Bar {
    pub palette: Palette,
    pub color: u64,
    pub x: i32,
    pub y: i32,
    pub width: u32,
    pub height: u32,
}

/// What drawing one span comes to: the rectangle to fill, if the span is in
/// sight, and the area to remember, if it is at least one pixel wide.
#[derive(Clone, Copy, Debug, PartialEq, Eq, Structural)]
pub struct Plan {
    pub bar: Option<Bar>,
    pub zone: Option<Area>,
}

/// The state of one pass over the spans: the place of the span drawn last in
/// each row, the areas remembered and the rectangles to fill, both in drawing
/// order.
pub struct Scene {
    pub rows: Seq<Position>,
    pub zones: Seq<Area>,
    pub bars: Seq<Bar>,
}

/// The state of the timeline.
pub struct App {
    pub window_width: u32,
    pub draw_zones: Vec<Area>,
    /// span cycles per horizontal pixel, less one
    pub scale: u64,
    /// vertical pixels per span
    pub span_height: i32,
    /// vertical pixels between spans
    pub span_spacing: i32,
    pub min_start: u64,
    pub max_stop: u64,
    pub scroll: i32,
}

/// `value` is an `i32`.
pub open spec fn fits_i32(value: int) -> bool {
    i32::MIN <= value <= i32::MAX
}

/// The least `start` among `spans`, which is not empty.
pub open spec fn least_start(spans: Seq<Span>) -> u64
    decreases spans.len(),
{
    if spans.len() <= 1 {
        spans[0].start
    } else if spans.last().start < least_start(spans.drop_last()) {
        spans.last().start
    } else {
        least_start(spans.drop_last())
    }
}

/// The greatest `stop` among `spans`, which is not empty.
pub open spec fn greatest_stop(spans: Seq<Span>) -> u64
    decreases spans.len(),
{
    if spans.len() <= 1 {
        spans[0].stop
    } else if spans.last().stop > greatest_stop(spans.drop_last()) {
        spans.last().stop
    } else {
        greatest_stop(spans.drop_last())
    }
}

/// `least_start` is the `start` of one of the spans, and no span starts
/// earlier.
pub proof fn lemma_least_start(spans: Seq<Span>)
    requires
        spans.len() > 0,
    ensures
        exists|i: int| 0 <= i < spans.len() && (#[trigger] spans[i]).start == least_start(spans),
        forall|i: int| 0 <= i < spans.len() ==> least_start(spans) <= (#[trigger] spans[i]).start,
    decreases spans.len(),
{
    if spans.len() > 1 {
        let front = spans.drop_last();
        lemma_least_start(front);
        let i = choose|i: int| 0 <= i < front.len() && (#[trigger] front[i]).start == least_start(front);
        assert forall|j: int| 0 <= j < spans.len() implies least_start(spans) <= (
        #[trigger] spans[j]).start by {
            if j < front.len() {
                assert(spans[j] == front[j]);
            }
        }
    } else {
        assert(spans[0].start == least_start(spans));
    }
}

/// `greatest_stop` is the `stop` of one of the spans, and no span stops later.
pub proof fn lemma_greatest_stop(spans: Seq<Span>)
    requires
        spans.len() > 0,
    ensures
        exists|i: int| 0 <= i < spans.len() && (#[trigger] spans[i]).stop == greatest_stop(spans),
        forall|i: int| 0 <= i < spans.len() ==> greatest_stop(spans) >= (#[trigger] spans[i]).stop,
    decreases spans.len(),
{
    if spans.len() > 1 {
        let front = spans.drop_last();
        lemma_greatest_stop(front);
        let i = choose|i: int| 0 <= i < front.len() && (#[trigger] front[i]).stop == greatest_stop(front);
        assert forall|j: int| 0 <= j < spans.len() implies greatest_stop(spans) >= (
        #[trigger] spans[j]).stop by {
            if j < front.len() {
                assert(spans[j] == front[j]);
            }
        }
    } else {
        assert(spans[0].stop == greatest_stop(spans));
    }
}

/// The index of the first row at or after `from` that lies at height `y`, or the
/// number of rows where there is none.
pub open spec fn row_at(rows: Seq<Position>, y: i32, from: nat) -> nat
    decreases rows.len() - from,
{
    if from >= rows.len() || rows[from as int].y == y {
        from
    } else {
        row_at(rows, y, from + 1)
    }
}

/// `row_at` is the end of the run of rows at other heights that begins at `from`.
pub proof fn lemma_row_at(rows: Seq<Position>, y: i32, from: nat, end: nat)
    requires
        from <= end <= rows.len(),
        forall|j: int| from <= j < end ==> (#[trigger] rows[j]).y != y,
        end == rows.len() || rows[end as int].y == y,
    ensures
        row_at(rows, y, from) == end,
    decreases end - from,
{
    if from < end {
        lemma_row_at(rows, y, from + 1, end);
    }
}

/// `a - b`, kept within the `i32` range.
pub open spec fn saturating_difference(a: i32, b: i32) -> i32 {
    if a - b > i32::MAX {
        i32::MAX
    } else if a - b < i32::MIN {
        i32::MIN
    } else {
        (a - b) as i32
    }
}

/// `a + b`, kept within the `i32` range.
pub open spec fn saturating_sum(a: i32, b: i32) -> i32 {
    if a + b > i32::MAX {
        i32::MAX
    } else if a + b < i32::MIN {
        i32::MIN
    } else {
        (a + b) as i32
    }
}

/// `a + b`, kept within the `i32` range.
pub fn saturating_add(a: i32, b: i32) -> (sum: i32)
    ensures
        sum == saturating_sum(a, b),
{
    let sum: i64 = a as i64 + b as i64;
    if sum > i32::MAX as i64 {
        i32::MAX
    } else if sum < i32::MIN as i64 {
        i32::MIN
    } else {
        sum as i32
    }
}

/// `a - b`, kept within the `i32` range.
pub fn saturating_sub(a: i32, b: i32) -> (difference: i32)
    ensures
        difference == saturating_difference(a, b),
{
    let difference: i64 = a as i64 - b as i64;
    if difference > i32::MAX as i64 {
        i32::MAX
    } else if difference < i32::MIN as i64 {
        i32::MIN
    } else {
        difference as i32
    }
}

impl Plan {
    /// The rectangle of the plan as a sequence of one or none.
    pub open spec fn bars(self) -> Seq<Bar> {
        match self.bar {
            Some(bar) => seq![bar],
            None => Seq::empty(),
        }
    }

    /// The area of the plan as a sequence of one or none.
    pub open spec fn zones(self) -> Seq<Area> {
        match self.zone {
            Some(zone) => seq![zone],
            None => Seq::empty(),
        }
    }
}

impl Bar {
    /// The red, green and blue of the bar's colour. The six colours of a
    /// palette are red, green, blue, yellow, cyan and magenta, at full strength
    /// in the bright palette and at 192 in the muted one.
    pub fn rgb(&self) -> (rgb: (u8, u8, u8))
        ensures
            rgb == self.spec_rgb(),
    {
        let on: u8 = match self.palette {
            Palette::Bright => 255,
            Palette::Muted => 192,
        };
        let which = self.color % PALETTE_LEN;
        if which == 0 {
            (on, 0, 0)
        } else if which == 1 {
            (0, on, 0)
        } else if which == 2 {
            (0, 0, on)
        } else if which == 3 {
            (on, on, 0)
        } else if which == 4 {
            (0, on, on)
        } else {
            (on, 0, on)
        }
    }

    /// The red, green and blue of the bar's colour.
    pub open spec fn spec_rgb(&self) -> (u8, u8, u8) {
        let on: u8 = match self.palette {
            Palette::Bright => 255u8,
            Palette::Muted => 192u8,
        };
        let which = self.color % PALETTE_LEN;
        if which == 0 {
            (on, 0u8, 0u8)
        } else if which == 1 {
            (0u8, on, 0u8)
        } else if which == 2 {
            (0u8, 0u8, on)
        } else if which == 3 {
            (on, on, 0u8)
        } else if which == 4 {
            (0u8, on, on)
        } else {
            (on, 0u8, on)
        }
    }
}

impl App {
    /// All of the state but the remembered areas is the same in both.
    pub open spec fn same_settings(&self, other: App) -> bool {
        &&& self.window_width == other.window_width
        &&& self.scale == other.scale
        &&& self.span_height == other.span_height
        &&& self.span_spacing == other.span_spacing
        &&& self.min_start == other.min_start
        &&& self.max_stop == other.max_stop
        &&& self.scroll == other.scroll
    }

    /// The scale at which the spans from `min_start` to `max_stop` fill the
    /// width of the window: `None` for a window without width or a `max_stop`
    /// before `min_start`.
    pub open spec fn spec_fitting_scale(min_start: u64, max_stop: u64, window_width: u32) -> Option<
        u64,
    > {
        if window_width == 0 || max_stop < min_start {
            None
        } else {
            Some(((max_stop - min_start) / (window_width as int)) as u64)
        }
    }

    /// The scale at which the spans from `min_start` to `max_stop` fill the
    /// width of the window.
    pub fn fitting_scale(min_start: u64, max_stop: u64, window_width: u32) -> (scale: Option<u64>)
        ensures
            scale == App::spec_fitting_scale(min_start, max_stop, window_width),
    {
        if window_width == 0 || max_stop < min_start {
            None
        } else {
            Some((max_stop - min_start) / (window_width as u64))
        }
    }

    /// The timeline of `spans` with the window width, row height and row spacing
    /// of `config`: it reaches from the least `start` to the greatest `stop`, at
    /// the scale that fits them into the window, unscrolled. `None` where there
    /// is no span, or no such scale.
    pub fn new(spans: &Vec<Span>, config: &ViewerConfig) -> (app: Option<App>)
        ensures
            match app {
                Some(app) => {
                    &&& spans@.len() > 0
                    &&& app.min_start == least_start(spans@)
                    &&& app.max_stop == greatest_stop(spans@)
                    &&& exists|i: int|
                        0 <= i < spans@.len() && (#[trigger] spans@[i]).start == app.min_start
                    &&& exists|i: int|
                        0 <= i < spans@.len() && (#[trigger] spans@[i]).stop == app.max_stop
                    &&& forall|i: int|
                        0 <= i < spans@.len() ==> app.min_start <= (#[trigger] spans@[i]).start
                            && spans@[i].stop <= app.max_stop
                    &&& App::spec_fitting_scale(app.min_start, app.max_stop, config.window_width)
                        == Some(app.scale)
                    &&& app.window_width == config.window_width
                    &&& app.span_height == config.span_height
                    &&& app.span_spacing == config.span_spacing
                    &&& app.scroll == 0
                    &&& app.draw_zones@ == Seq::<Area>::empty()
                },
                None => spans@.len() == 0 || App::spec_fitting_scale(
                    least_start(spans@),
                    greatest_stop(spans@),
                    config.window_width,
                ) is None,
            },
    {
        let n = spans.len();
        if n == 0 {
            return None;
        }
        let mut min_start: u64 = spans[0].start;
        let mut max_stop: u64 = spans[0].stop;
        let mut i: usize = 1;
        while i < n
            invariant
                n == spans@.len(),
                1 <= i <= n,
                min_start == least_start(spans@.take(i as int)),
                max_stop == greatest_stop(spans@.take(i as int)),
            decreases n - i,
        {
            let span = spans[i];
            proof {
                let longer = spans@.take(i + 1);
                assert(longer.drop_last() =~= spans@.take(i as int));
            }
            if span.start < min_start {
                min_start = span.start;
            }
            if span.stop > max_stop {
                max_stop = span.stop;
            }
            i += 1;
        }
        assert(spans@.take(n as int) =~= spans@);
        proof {
            lemma_least_start(spans@);
            lemma_greatest_stop(spans@);
        }
        match App::fitting_scale(min_start, max_stop, config.window_width) {
            Some(scale) => Some(
                App {
                    window_width: config.window_width,
                    draw_zones: Vec::new(),
                    scale,
                    span_height: config.span_height,
                    span_spacing: config.span_spacing,
                    min_start,
                    max_stop,
                    scroll: 0,
                },
            ),
            None => None,
        }
    }

    /// The width of `span` in pixels: its length divided by `scale + 1`. `None`
    /// where the span stops before it starts, where `scale + 1` is no `u64`, and
    /// where the width is no `u32`.
    pub open spec fn spec_x_size(&self, span: Span) -> Option<u32> {
        if span.stop < span.start || self.scale == u64::MAX {
            None
        } else if (span.stop - span.start) / (self.scale + 1) > u32::MAX {
            None
        } else {
            Some(((span.stop - span.start) / (self.scale + 1)) as u32)
        }
    }

    /// The width of `span` in pixels.
    pub fn x_size(&self, span: &Span) -> (size: Option<u32>)
        ensures
            size == self.spec_x_size(*span),
    {
        if span.stop < span.start || self.scale == u64::MAX {
            return None;
        }
        let size: u64 = (span.stop - span.start) / (self.scale + 1);
        if size > u32::MAX as u64 {
            None
        } else {
            Some(size as u32)
        }
    }

    /// The pixel column at which `span` starts, before scrolling: its distance
    /// from `min_start` divided by `scale + 1`, and `i32::MAX` where that is
    /// more. `None` where the span starts before `min_start` and where
    /// `scale + 1` is no `u64`.
    pub open spec fn spec_x_pos(&self, span: Span) -> Option<i32> {
        if span.start < self.min_start || self.scale == u64::MAX {
            None
        } else if (span.start - self.min_start) / (self.scale + 1) > i32::MAX {
            Some(i32::MAX)
        } else {
            Some(((span.start - self.min_start) / (self.scale + 1)) as i32)
        }
    }

    /// The pixel column at which `span` starts, before scrolling.
    pub fn x_pos(&self, span: &Span) -> (x: Option<i32>)
        ensures
            x == self.spec_x_pos(*span),
    {
        if span.start < self.min_start || self.scale == u64::MAX {
            return None;
        }
        let x: u64 = (span.start - self.min_start) / (self.scale + 1);
        if x > i32::MAX as u64 {
            Some(i32::MAX)
        } else {
            Some(x as i32)
        }
    }

    /// The pixel row at which `span` is drawn: one row of `span_height` pixels
    /// for each tag, with `span_spacing` pixels above each. `None` where the tag
    /// is no `i32`, and where a step of the sum is none.
    pub open spec fn spec_y_pos(&self, span: Span) -> Option<i32> {
        let pitch = self.span_spacing + self.span_height;
        if span.tag > i32::MAX || !fits_i32(pitch) || !fits_i32(pitch * span.tag) || !fits_i32(
            pitch * span.tag + self.span_spacing,
        ) {
            None
        } else {
            Some((pitch * span.tag + self.span_spacing) as i32)
        }
    }

    /// The pixel row at which `span` is drawn.
    pub fn y_pos(&self, span: &Span) -> (y: Option<i32>)
        ensures
            y == self.spec_y_pos(*span),
    {
        if span.tag > i32::MAX as u64 {
            return None;
        }
        let tag: i32 = span.tag as i32;
        match self.span_spacing.checked_add(self.span_height) {
            None => None,
            Some(pitch) => match pitch.checked_mul(tag) {
                None => None,
                Some(rows) => rows.checked_add(self.span_spacing),
            },
        }
    }

    /// What drawing `span` comes to at the present zoom and scroll. The span is
    /// in sight where its scrolled start lies left of the window's right edge and
    /// its scrolled end right of the left edge. A span narrower than one pixel
    /// takes its colour from the bright palette and leaves no area; another takes
    /// it from the muted palette and leaves the area of its rectangle. `None`
    /// where one of the numbers needed does not fit its type.
    pub open spec fn spec_draw_span(&self, span: Span) -> Option<Plan> {
        match (self.spec_x_size(span), self.spec_x_pos(span)) {
            (Some(size), Some(x)) => {
                let scrolled = saturating_difference(x, self.scroll);
                if self.window_width > i32::MAX {
                    None
                } else if scrolled >= self.window_width {
                    Some(Plan { bar: None, zone: None })
                } else if !fits_i32(scrolled + (size as i32)) {
                    None
                } else if scrolled + (size as i32) <= 0 {
                    Some(Plan { bar: None, zone: None })
                } else {
                    match self.spec_y_pos(span) {
                        None => None,
                        Some(y) => {
                            let palette = if size < 1 {
                                Palette::Bright
                            } else {
                                Palette::Muted
                            };
                            let bar = Bar {
                                palette,
                                color: span.tag % PALETTE_LEN,
                                x: scrolled,
                                y,
                                width: size,
                                height: self.span_height as u32,
                            };
                            if size < 1 {
                                Some(Plan { bar: Some(bar), zone: None })
                            } else if !fits_i32(y + self.span_height) {
                                None
                            } else {
                                Some(
                                    Plan {
                                        bar: Some(bar),
                                        zone: Some(
                                            Area {
                                                y_start: y as u64,
                                                x_start: scrolled,
                                                y_stop: ((y + self.span_height) as i32) as u64,
                                                x_stop: (scrolled + (size as i32)) as i32,
                                                tag_data: span,
                                            },
                                        ),
                                    },
                                )
                            }
                        },
                    }
                }
            },
            _ => None,
        }
    }

    /// What drawing `span` comes to at the present zoom and scroll.
    pub fn draw_span(&self, span: &Span) -> (plan: Option<Plan>)
        ensures
            plan == self.spec_draw_span(*span),
    {
        let size = match self.x_size(span) {
            Some(size) => size,
            None => return None,
        };
        let x = match self.x_pos(span) {
            Some(x) => x,
            None => return None,
        };
        let scrolled = saturating_sub(x, self.scroll);
        if self.window_width > i32::MAX as u32 {
            return None;
        }
        if scrolled >= self.window_width as i32 {
            return Some(Plan { bar: None, zone: None });
        }
        let right = match scrolled.checked_add(size as i32) {
            Some(right) => right,
            None => return None,
        };
        if right <= 0 {
            return Some(Plan { bar: None, zone: None });
        }
        let y = match self.y_pos(span) {
            Some(y) => y,
            None => return None,
        };
        let palette = if size < 1 {
            Palette::Bright
        } else {
            Palette::Muted
        };
        let bar = Bar {
            palette,
            color: span.tag % PALETTE_LEN,
            x: scrolled,
            y,
            width: size,
            height: self.span_height as u32,
        };
        if size < 1 {
            return Some(Plan { bar: Some(bar), zone: None });
        }
        let bottom = match y.checked_add(self.span_height) {
            Some(bottom) => bottom,
            None => return None,
        };
        Some(
            Plan {
                bar: Some(bar),
                zone: Some(
                    Area {
                        y_start: y as u64,
                        x_start: scrolled,
                        y_stop: bottom as u64,
                        x_stop: right,
                        tag_data: *span,
                    },
                ),
            },
        )
    }
}


/// The index of the first row at height `y`, or the number of rows where there
/// is none.
fn find_row(rows: &Vec<Position>, y: i32) -> (row: usize)
    ensures
        row == row_at(rows@, y, 0),
{
    let mut row: usize = 0;
    while row < rows.len() && rows[row].y != y
        invariant
            row <= rows@.len(),
            forall|j: int| 0 <= j < row ==> (#[trigger] rows@[j]).y != y,
        decreases rows@.len() - row,
    {
        row += 1;
    }
    proof {
        lemma_row_at(rows@, y, 0, row as nat);
    }
    row
}

impl App {
    /// The rows of the timeline before anything is drawn: one for each height at
    /// which a span of `spans` lies, in the order in which the heights first
    /// occur, each with the column `NO_COLUMN`. `None` where
    /// a span has no height.
    pub open spec fn spec_rows(&self, spans: Seq<Span>) -> Option<Seq<Position>>
        decreases spans.len(),
    {
        if spans.len() == 0 {
            Some(Seq::empty())
        } else {
            match (self.spec_rows(spans.drop_last()), self.spec_y_pos(spans.last())) {
                (Some(rows), Some(y)) => if row_at(rows, y, 0) < rows.len() {
                    Some(rows)
                } else {
                    Some(rows.push(Position { x: NO_COLUMN, y }))
                },
                _ => None,
            }
        }
    }

    /// Where the rows of a part of the spans cannot be made, those of all of
    /// them cannot.
    pub proof fn lemma_rows_fail_early(&self, spans: Seq<Span>, part: int)
        requires
            0 <= part <= spans.len(),
            self.spec_rows(spans.take(part)) is None,
        ensures
            self.spec_rows(spans) is None,
        decreases spans.len(),
    {
        if part < spans.len() {
            assert(spans.drop_last().take(part) =~= spans.take(part));
            self.lemma_rows_fail_early(spans.drop_last(), part);
        } else {
            assert(spans.take(part) =~= spans);
        }
    }

    /// The rows of the timeline before anything is drawn.
    pub fn rows(&self, spans: &Vec<Span>) -> (rows: Option<Vec<Position>>)
        ensures
            match rows {
                Some(rows) => self.spec_rows(spans@) == Some(rows@),
                None => self.spec_rows(spans@) is None,
            },
    {
        let n = spans.len();
        let mut rows: Vec<Position> = Vec::new();
        let mut i: usize = 0;
        while i < n
            invariant
                n == spans@.len(),
                i <= n,
                self.spec_rows(spans@.take(i as int)) == Some(rows@),
            decreases n - i,
        {
            proof {
                let longer = spans@.take(i + 1);
                assert(longer.drop_last() =~= spans@.take(i as int));
            }
            match self.y_pos(&spans[i]) {
                None => {
                    proof {
                        self.lemma_rows_fail_early(spans@, i + 1);
                    }
                    return None;
                },
                Some(y) => {
                    if find_row(&rows, y) >= rows.len() {
                        rows.push(Position { x: NO_COLUMN, y });
                    }
                },
            }
            i += 1;
        }
        assert(spans@.take(n as int) =~= spans@);
        Some(rows)
    }

    /// The scene after `span` had its turn. A span at a height that has no row
    /// is passed over. Another is drawn unless it starts in the column of the
    /// span drawn last in its row and is narrower than one pixel; where it is
    /// drawn, it becomes the span drawn last in its row. `None` where one of the
    /// numbers needed does not fit its type.
    pub open spec fn spec_place(&self, scene: Scene, span: Span) -> Option<Scene> {
        match (self.spec_x_pos(span), self.spec_y_pos(span)) {
            (Some(x), Some(y)) => {
                let row = row_at(scene.rows, y, 0) as int;
                if row >= scene.rows.len() {
                    Some(scene)
                } else if x == scene.rows[row].x && self.spec_x_size(span) is None {
                    None
                } else if x == scene.rows[row].x && self.spec_x_size(span) == Some(0u32) {
                    Some(scene)
                } else {
                    match self.spec_draw_span(span) {
                        None => None,
                        Some(plan) => Some(
                            Scene {
                                rows: scene.rows.update(row, Position { x, y }),
                                zones: scene.zones + plan.zones(),
                                bars: scene.bars + plan.bars(),
                            },
                        ),
                    }
                }
            },
            _ => None,
        }
    }

    /// The scene after one pass over `spans`, in order, that begins with the
    /// given rows and nothing drawn.
    pub open spec fn spec_frame(&self, rows: Seq<Position>, spans: Seq<Span>) -> Option<Scene>
        decreases spans.len(),
    {
        if spans.len() == 0 {
            Some(Scene { rows, zones: Seq::empty(), bars: Seq::empty() })
        } else {
            match self.spec_frame(rows, spans.drop_last()) {
                None => None,
                Some(scene) => self.spec_place(scene, spans.last()),
            }
        }
    }

    /// Where the pass over a part of the spans fails, the pass over all of them
    /// fails.
    pub proof fn lemma_frame_fails_early(&self, rows: Seq<Position>, spans: Seq<Span>, part: int)
        requires
            0 <= part <= spans.len(),
            self.spec_frame(rows, spans.take(part)) is None,
        ensures
            self.spec_frame(rows, spans) is None,
        decreases spans.len(),
    {
        if part < spans.len() {
            assert(spans.drop_last().take(part) =~= spans.take(part));
            self.lemma_frame_fails_early(rows, spans.drop_last(), part);
        } else {
            assert(spans.take(part) =~= spans);
        }
    }

    /// One pass over `spans`: gives the rectangles to fill, in drawing order,
    /// remembers the areas of the spans drawn in place of those of the pass
    /// before, and brings `rows` up to date. Where the pass fails, nothing
    /// changes.
    pub fn frame(&mut self, rows: &mut Vec<Position>, spans: &Vec<Span>) -> (bars: Option<Vec<Bar>>)
        ensures
            match old(self).spec_frame(old(rows)@, spans@) {
                Some(scene) => {
                    &&& bars matches Some(bars)
                    &&& bars@ == scene.bars
                    &&& final(rows)@ == scene.rows
                    &&& final(self).draw_zones@ == scene.zones
                    &&& final(self).same_settings(*old(self))
                },
                None => bars is None && *final(self) == *old(self) && *final(rows) == *old(rows),
            },
    {
        let n = spans.len();
        let mut next_rows: Vec<Position> = Vec::new();
        let mut r: usize = 0;
        while r < rows.len()
            invariant
                r <= rows@.len(),
                next_rows@ == rows@.take(r as int),
            decreases rows@.len() - r,
        {
            next_rows.push(rows[r]);
            r += 1;
        }
        assert(rows@.take(rows@.len() as int) =~= rows@);
        let mut zones: Vec<Area> = Vec::new();
        let mut bars: Vec<Bar> = Vec::new();
        let mut i: usize = 0;
        while i < n
            invariant
                n == spans@.len(),
                i <= n,
                *self == *old(self),
                *rows == *old(rows),
                self.spec_frame(rows@, spans@.take(i as int)) == Some(
                    Scene { rows: next_rows@, zones: zones@, bars: bars@ },
                ),
            decreases n - i,
        {
            let span = spans[i];
            proof {
                let longer = spans@.take(i + 1);
                assert(longer.drop_last() =~= spans@.take(i as int));
            }
            let ghost scene = Scene { rows: next_rows@, zones: zones@, bars: bars@ };
            let x = self.x_pos(&span);
            let y = self.y_pos(&span);
            match (x, y) {
                (Some(x), Some(y)) => {
                    let row = find_row(&next_rows, y);
                    if row < next_rows.len() {
                        let mut drawn = x != next_rows[row].x;
                        if !drawn {
                            match self.x_size(&span) {
                                None => {
                                    proof {
                                        self.lemma_frame_fails_early(rows@, spans@, i + 1);
                                    }
                                    return None;
                                },
                                Some(size) => {
                                    drawn = size > 0;
                                },
                            }
                        }
                        if drawn {
                            match self.draw_span(&span) {
                                None => {
                                    proof {
                                        self.lemma_frame_fails_early(rows@, spans@, i + 1);
                                    }
                                    return None;
                                },
                                Some(plan) => {
                                    if let Some(bar) = plan.bar {
                                        bars.push(bar);
                                    }
                                    if let Some(zone) = plan.zone {
                                        zones.push(zone);
                                    }
                                    next_rows[row] = Position { x, y };
                                    proof {
                                        assert(bars@ =~= scene.bars + plan.bars());
                                        assert(zones@ =~= scene.zones + plan.zones());
                                    }
                                },
                            }
                        }
                    }
                },
                _ => {
                    proof {
                        self.lemma_frame_fails_early(rows@, spans@, i + 1);
                    }
                    return None;
                },
            }
            i += 1;
        }
        assert(spans@.take(n as int) =~= spans@);
        self.draw_zones = zones;
        *rows = next_rows;
        Some(bars)
    }
}

} // verus!
