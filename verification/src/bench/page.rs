//! One page per phrase: the engine, the reference and their difference, as
//! log-mel spectrograms.

use crate::canvas::{
    in_box, ink_stays_in_its_box, inked, one_more_stroke, right_start, stream_of, shown, Canvas, Colour, Stroke,
};
use crate::order::{first_least, is_first_least, ranks, ranks_of};
use crate::reading::Reading;
use crate::text::{characters, decimal, from_characters, print};
use vstd::prelude::*;

verus! {

/// Pixel rows of one mel band.
pub const BAND_PX: usize = 3;

/// Pixel columns of a panel.
pub const PLOT_W: usize = 1080;

pub const MARGIN_L: usize = 76;

pub const MARGIN_R: usize = 132;

pub const MARGIN_T: usize = 40;

pub const PANEL_GAP: usize = 32;

pub const MARGIN_B: usize = 44;

/// Pixel columns of a page.
pub const PAGE_W: usize = 1288;

/// Where the colour bars stand.
pub const BAR_X: usize = 1180;

pub const BAR_W: usize = 14;

/// Samples of an analysis frame, and between two frames.
pub const WINDOW: u64 = 1024;

pub const HOP: u64 = 256;

#[verifier::allow_in_spec]
pub fn ink() -> Colour
    returns
        (Colour { red: 0xd6, green: 0xd8, blue: 0xdd }),
{
    Colour { red: 0xd6, green: 0xd8, blue: 0xdd }
}

#[verifier::allow_in_spec]
pub fn dim() -> Colour
    returns
        (Colour { red: 0x8a, green: 0x8e, blue: 0x96 }),
{
    Colour { red: 0x8a, green: 0x8e, blue: 0x96 }
}

#[verifier::allow_in_spec]
pub fn paper() -> Colour
    returns
        (Colour { red: 0x10, green: 0x11, blue: 0x16 }),
{
    Colour { red: 0x10, green: 0x11, blue: 0x16 }
}

#[verifier::allow_in_spec]
pub fn grid() -> Colour
    returns
        (Colour { red: 0x3a, green: 0x3d, blue: 0x46 }),
{
    Colour { red: 0x3a, green: 0x3d, blue: 0x46 }
}

/// A frequency to mark: the band whose centre is nearest, and its name.
pub struct Tick {
    pub band: usize,
    pub label: String,
}

/// An instant to mark: how far into the plot it lies, and its name.
pub struct Second {
    pub offset: usize,
    pub label: String,
}

/// A colour bar: one colour for each pixel row from the top, and what its top,
/// middle and bottom stand for.
pub struct Bar {
    pub rows: Vec<Colour>,
    pub top: String,
    pub middle: String,
    pub bottom: String,
}

/// What a page shows. A panel's colours are listed column by column, the
/// lowest band of a column first.
pub struct Page {
    pub bands: usize,
    pub heading: String,
    pub range: String,
    pub engine: Vec<Colour>,
    pub reference: Vec<Colour>,
    pub difference: Vec<Colour>,
    pub ticks: Vec<Tick>,
    pub seconds: Vec<Second>,
    pub level_bar: Bar,
    pub difference_bar: Bar,
}

/// The title of a panel.
pub open spec fn title(range: Seq<char>, panel: int) -> Seq<char> {
    if panel == 0 {
        "ENGINE"@
    } else if panel == 1 {
        "REFERENCE  SALAMANDER C5"@
    } else {
        "DIFFERENCE  ENGINE MINUS REFERENCE  PLUS/MINUS "@ + range + " DB"@
    }
}

/// Text of this length can be placed anywhere on the page.
pub open spec fn placeable(s: Seq<char>) -> bool {
    12 * s.len() + PAGE_W <= usize::MAX
}

impl Bar {
    pub open spec fn wf(self, bands: int) -> bool {
        &&& self.rows.len() == bands * BAND_PX
        &&& placeable(self.top@)
        &&& placeable(self.middle@)
        &&& placeable(self.bottom@)
    }

    /// The strokes of the colours of the first `n` rows.
    pub open spec fn row_strokes(self, y: int, n: int) -> Seq<Stroke> {
        Seq::new(
            n as nat,
            |row: int|
                Stroke::Box {
                    x: BAR_X as int,
                    y: y + row,
                    w: BAR_W as int,
                    h: 1,
                    c: self.rows@[row],
                },
        )
    }

    /// The strokes of a bar whose top is at `y`.
    pub open spec fn strokes(self, y: int) -> Seq<Stroke> {
        let h = self.rows.len() as int;
        self.row_strokes(y, h) + bar_mark(y, 0, self.top@) + bar_mark(y, h / 2, self.middle@)
            + bar_mark(y, h - 1, self.bottom@)
    }
}

/// The mark beside one row of a colour bar.
pub open spec fn bar_mark(y: int, row: int, label: Seq<char>) -> Seq<Stroke> {
    seq![
        Stroke::Box { x: BAR_X + BAR_W, y: y + row, w: 4, h: 1, c: dim() },
        Stroke::Text { x: BAR_X + BAR_W + 7, y: y + row - 3, s: label, scale: 1, c: dim() },
    ]
}

impl Page {
    /// The three panels have a colour for each of their cells, every tick
    /// names a band, and a picture of this many bands can be held.
    pub open spec fn wf(self) -> bool {
        &&& self.bands >= 1
        &&& PAGE_W * (180 + 9 * self.bands) <= usize::MAX
        &&& self.engine.len() == PLOT_W * self.bands
        &&& self.reference.len() == PLOT_W * self.bands
        &&& self.difference.len() == PLOT_W * self.bands
        &&& forall|i: int| 0 <= i < self.ticks.len() ==> (#[trigger] self.ticks@[i]).band < self.bands
        &&& forall|i: int| 0 <= i < self.ticks.len() ==> placeable((#[trigger] self.ticks@[i]).label@)
        &&& forall|i: int|
            0 <= i < self.seconds.len() ==> placeable((#[trigger] self.seconds@[i]).label@)
        &&& self.level_bar.wf(self.bands as int)
        &&& self.difference_bar.wf(self.bands as int)
        &&& placeable(self.heading@)
        &&& placeable(title(self.range@, 2))
    }

    pub open spec fn panel_height(self) -> int {
        self.bands * BAND_PX
    }

    /// The pixel row where a panel starts.
    pub open spec fn panel_top(self, panel: int) -> int {
        MARGIN_T + panel * (PANEL_GAP + self.panel_height()) + PANEL_GAP
    }

    pub open spec fn page_height(self) -> int {
        MARGIN_T + 3 * (PANEL_GAP + self.panel_height()) + MARGIN_B
    }

    pub open spec fn panel_colours(self, panel: int) -> Seq<Colour> {
        if panel == 0 {
            self.engine@
        } else if panel == 1 {
            self.reference@
        } else {
            self.difference@
        }
    }

    /// The first `n` cells of column `x` of a panel, from the lowest band up;
    /// the lowest band is the bottom of the panel.
    pub open spec fn column_strokes(self, panel: int, x: int, n: int) -> Seq<Stroke> {
        Seq::new(
            n as nat,
            |band: int|
                Stroke::Box {
                    x: MARGIN_L + x,
                    y: self.panel_top(panel) + (self.bands - 1 - band) * BAND_PX,
                    w: 1,
                    h: BAND_PX as int,
                    c: self.panel_colours(panel)[x * self.bands + band],
                },
        )
    }

    /// The first `x` columns of a panel.
    pub open spec fn plot_strokes(self, panel: int, x: int) -> Seq<Stroke>
        decreases x,
    {
        if x <= 0 {
            Seq::empty()
        } else {
            self.plot_strokes(panel, x - 1) + self.column_strokes(panel, x - 1, self.bands as int)
        }
    }

    /// The pixel row of a tick: the middle of its band.
    pub open spec fn tick_row(self, panel: int, i: int) -> int {
        self.panel_top(panel) + (self.bands - 1 - self.ticks@[i].band) * BAND_PX + BAND_PX / 2
    }

    /// The row of the last of the first `n` ticks that was drawn.
    pub open spec fn last_row(self, panel: int, n: int) -> Option<int>
        decreases n, 0int,
    {
        if n <= 0 {
            None
        } else if self.tick_dropped(panel, n - 1) {
            self.last_row(panel, n - 1)
        } else {
            Some(self.tick_row(panel, n - 1))
        }
    }

    /// A tick is dropped where it would land less than a glyph's height above
    /// the last one, or below it.
    pub open spec fn tick_dropped(self, panel: int, i: int) -> bool
        decreases i, 1int,
    {
        match self.last_row(panel, i) {
            None => false,
            Some(y) => y - self.tick_row(panel, i) < 10,
        }
    }

    /// The strokes of the first `n` ticks.
    pub open spec fn tick_strokes(self, panel: int, n: int) -> Seq<Stroke>
        decreases n,
    {
        if n <= 0 {
            Seq::empty()
        } else if self.tick_dropped(panel, n - 1) {
            self.tick_strokes(panel, n - 1)
        } else {
            let y = self.tick_row(panel, n - 1);
            let s = self.ticks@[n - 1].label@;
            self.tick_strokes(panel, n - 1).push(
                Stroke::Box { x: MARGIN_L - 5, y, w: 4, h: 1, c: dim() },
            ).push(
                Stroke::Text {
                    x: right_start(MARGIN_L - 8, s, 1),
                    y: y - 3,
                    s,
                    scale: 1,
                    c: dim(),
                },
            )
        }
    }

    /// The dots of a grid line: every sixth pixel of the panel, `n` of them.
    pub open spec fn grid_strokes(self, panel: int, x: int, n: int) -> Seq<Stroke> {
        Seq::new(
            n as nat,
            |k: int|
                Stroke::Box { x, y: self.panel_top(panel) + 6 * k, w: 1, h: 1, c: grid() },
        )
    }

    pub open spec fn grid_dots(self) -> int {
        (self.panel_height() + 5) / 6
    }

    /// The strokes of one instant: a grid line, and on the lowest panel a mark
    /// with its name.
    pub open spec fn second_strokes(self, panel: int, i: int) -> Seq<Stroke> {
        let x = MARGIN_L + self.seconds@[i].offset;
        let foot = self.panel_top(panel) + self.panel_height();
        let line = self.grid_strokes(panel, x, self.grid_dots());
        if self.seconds@[i].offset >= PLOT_W {
            Seq::empty()
        } else if panel == 2 {
            line.push(Stroke::Box { x, y: foot + 1, w: 1, h: 4, c: dim() }).push(
                Stroke::Text {
                    x: x - 4,
                    y: foot + 8,
                    s: self.seconds@[i].label@,
                    scale: 1,
                    c: dim(),
                },
            )
        } else {
            line
        }
    }

    /// The strokes of the first `n` instants.
    pub open spec fn seconds_strokes(self, panel: int, n: int) -> Seq<Stroke>
        decreases n,
    {
        if n <= 0 {
            Seq::empty()
        } else {
            self.seconds_strokes(panel, n - 1) + self.second_strokes(panel, n - 1)
        }
    }

    /// Everything that is drawn on one panel.
    pub open spec fn panel_strokes(self, panel: int) -> Seq<Stroke> {
        seq![
            Stroke::Text {
                x: MARGIN_L as int,
                y: self.panel_top(panel) - 22,
                s: title(self.range@, panel),
                scale: 2,
                c: ink(),
            },
        ] + self.plot_strokes(panel, PLOT_W as int) + self.tick_strokes(
            panel,
            self.ticks.len() as int,
        ) + self.seconds_strokes(panel, self.seconds.len() as int)
    }

    /// Everything that is drawn on the page, in order.
    pub open spec fn strokes(self) -> Seq<Stroke> {
        seq![
            Stroke::Text { x: MARGIN_L as int, y: 12, s: self.heading@, scale: 2, c: ink() },
        ] + self.panel_strokes(0) + self.panel_strokes(1) + self.panel_strokes(2) + seq![
            Stroke::Text {
                x: MARGIN_L + PLOT_W / 2 - 30,
                y: MARGIN_T + 3 * (PANEL_GAP + self.panel_height()) + 20,
                s: "SECONDS"@,
                scale: 1,
                c: dim(),
            },
        ] + self.level_bar.strokes(MARGIN_T + PANEL_GAP) + self.difference_bar.strokes(
            self.panel_top(2),
        )
    }

    /// The page, pixel by pixel.
    pub open spec fn picture(self) -> Seq<Colour> {
        Seq::new(
            (PAGE_W * self.page_height()) as nat,
            |i: int| shown(paper(), self.strokes(), i % (PAGE_W as int), i / (PAGE_W as int)),
        )
    }
}

fn put_box(c: &mut Canvas, x: usize, y: usize, w: usize, h: usize, colour: Colour, strokes: Ghost<Seq<Stroke>>)
    requires
        old(c).shows(paper(), strokes@),
        x + w <= usize::MAX,
        y + h <= usize::MAX,
    ensures
        final(c).shows(
            paper(),
            strokes@.push(
                Stroke::Box { x: x as int, y: y as int, w: w as int, h: h as int, c: colour },
            ),
        ),
        final(c).width() == old(c).width(),
        final(c).height() == old(c).height(),
{
    let ghost before = *c;
    c.rect(x, y, w, h, colour);
    proof {
        one_more_stroke(
            before,
            *c,
            |px: int, py: int| in_box(x as int, y as int, w as int, h as int, px, py),
            paper(),
            strokes@,
            Stroke::Box { x: x as int, y: y as int, w: w as int, h: h as int, c: colour },
        );
    }
}

fn put_text(c: &mut Canvas, x: usize, y: usize, s: &str, scale: usize, colour: Colour, strokes: Ghost<Seq<Stroke>>)
    requires
        old(c).shows(paper(), strokes@),
        1 <= scale <= 2,
        x <= PAGE_W,
        placeable(s@),
        y + 14 <= usize::MAX,
    ensures
        final(c).shows(
            paper(),
            strokes@.push(
                Stroke::Text { x: x as int, y: y as int, s: s@, scale: scale as int, c: colour },
            ),
        ),
        final(c).width() == old(c).width(),
        final(c).height() == old(c).height(),
{
    let ghost before = *c;
    proof {
        assert(6 * s@.len() * scale <= 12 * s@.len()) by (nonlinear_arith)
            requires
                scale <= 2,
                0 <= s@.len(),
        ;
    }
    c.text(x, y, s, scale, colour);
    proof {
        one_more_stroke(
            before,
            *c,
            |px: int, py: int| inked(x as int, y as int, s@, scale as int, px, py),
            paper(),
            strokes@,
            Stroke::Text { x: x as int, y: y as int, s: s@, scale: scale as int, c: colour },
        );
    }
}

fn put_text_right(c: &mut Canvas, x: usize, y: usize, s: &str, colour: Colour, strokes: Ghost<Seq<Stroke>>)
    requires
        old(c).shows(paper(), strokes@),
        x <= PAGE_W,
        placeable(s@),
        y + 14 <= usize::MAX,
    ensures
        final(c).shows(
            paper(),
            strokes@.push(
                Stroke::Text {
                    x: right_start(x as int, s@, 1),
                    y: y as int,
                    s: s@,
                    scale: 1,
                    c: colour,
                },
            ),
        ),
        final(c).width() == old(c).width(),
        final(c).height() == old(c).height(),
{
    let ghost before = *c;
    c.text_right(x, y, s, 1, colour);
    proof {
        one_more_stroke(
            before,
            *c,
            |px: int, py: int|
                inked(right_start(x as int, s@, 1), y as int, s@, 1, px, py),
            paper(),
            strokes@,
            Stroke::Text { x: right_start(x as int, s@, 1), y: y as int, s: s@, scale: 1, c: colour },
        );
    }
}

fn draw_bar(c: &mut Canvas, y: usize, bar: &Bar, bands: usize, strokes: Ghost<Seq<Stroke>>)
    requires
        old(c).shows(paper(), strokes@),
        bands >= 1,
        bar.wf(bands as int),
        y >= 3,
        y + bands * BAND_PX + 14 <= usize::MAX,
    ensures
        final(c).shows(paper(), strokes@ + bar.strokes(y as int)),
        final(c).width() == old(c).width(),
        final(c).height() == old(c).height(),
{
    let h: usize = bar.rows.len();
    let mut row: usize = 0;
    proof {
        assert(strokes@ + bar.row_strokes(y as int, 0) =~= strokes@);
    }
    while row < h
        invariant
            row <= h,
            h == bar.rows.len(),
            h == bands * BAND_PX,
            y + h + 14 <= usize::MAX,
            c.shows(paper(), strokes@ + bar.row_strokes(y as int, row as int)),
            c.width() == old(c).width(),
            c.height() == old(c).height(),
        decreases h - row,
    {
        put_box(
            c,
            BAR_X,
            y + row,
            BAR_W,
            1,
            bar.rows[row],
            Ghost(strokes@ + bar.row_strokes(y as int, row as int)),
        );
        proof {
            assert((strokes@ + bar.row_strokes(y as int, row as int)).push(
                Stroke::Box {
                    x: BAR_X as int,
                    y: y + row,
                    w: BAR_W as int,
                    h: 1,
                    c: bar.rows@[row as int],
                },
            ) =~= strokes@ + bar.row_strokes(y as int, row + 1));
        }
        row = row + 1;
    }
    let ghost g0 = strokes@ + bar.row_strokes(y as int, h as int);
    put_mark(c, y, 0, bar.top.as_str(), Ghost(g0));
    let ghost g1 = g0 + bar_mark(y as int, 0, bar.top@);
    put_mark(c, y, h / 2, bar.middle.as_str(), Ghost(g1));
    let ghost g2 = g1 + bar_mark(y as int, h as int / 2, bar.middle@);
    put_mark(c, y, h - 1, bar.bottom.as_str(), Ghost(g2));
    proof {
        assert(g2 + bar_mark(y as int, h - 1, bar.bottom@) =~= strokes@ + bar.strokes(y as int));
    }
}

fn put_mark(c: &mut Canvas, y: usize, row: usize, label: &str, strokes: Ghost<Seq<Stroke>>)
    requires
        old(c).shows(paper(), strokes@),
        placeable(label@),
        y >= 3,
        y + row + 14 <= usize::MAX,
    ensures
        final(c).shows(paper(), strokes@ + bar_mark(y as int, row as int, label@)),
        final(c).width() == old(c).width(),
        final(c).height() == old(c).height(),
{
    put_box(c, BAR_X + BAR_W, y + row, 4, 1, dim(), strokes);
    let ghost g = strokes@.push(
        Stroke::Box { x: BAR_X + BAR_W, y: y + row, w: 4, h: 1, c: dim() },
    );
    put_text(c, BAR_X + BAR_W + 7, y + row - 3, label, 1, dim(), Ghost(g));
    proof {
        assert(g.push(
            Stroke::Text { x: BAR_X + BAR_W + 7, y: y + row - 3, s: label@, scale: 1, c: dim() },
        ) =~= strokes@ + bar_mark(y as int, row as int, label@));
    }
}

impl Page {
    fn top_of(&self, panel: usize) -> (r: usize)
        requires
            self.wf(),
            panel <= 2,
        ensures
            r == self.panel_top(panel as int),
            72 <= r,
            r + self.panel_height() + 44 <= self.page_height() <= usize::MAX,
    {
        proof {
            assert(panel * (PANEL_GAP + self.panel_height()) <= 2 * (PANEL_GAP
                + self.panel_height())) by (nonlinear_arith)
                requires
                    0 <= panel <= 2,
                    0 <= PANEL_GAP + self.panel_height(),
            ;
            assert(0 <= panel * (PANEL_GAP + self.panel_height())) by (nonlinear_arith)
                requires
                    0 <= panel <= 2,
                    0 <= PANEL_GAP + self.panel_height(),
            ;
            assert(self.page_height() == 180 + 9 * self.bands);
            assert(self.page_height() <= usize::MAX) by (nonlinear_arith)
                requires
                    PAGE_W * (180 + 9 * self.bands) <= usize::MAX,
                    PAGE_W == 1288,
                    self.page_height() == 180 + 9 * self.bands,
                    0 <= self.bands,
            ;
        }
        MARGIN_T + panel * (PANEL_GAP + self.bands * BAND_PX) + PANEL_GAP
    }

    fn colour(&self, panel: usize, at: usize) -> (r: Colour)
        requires
            self.wf(),
            panel <= 2,
            at < PLOT_W * self.bands,
        ensures
            r == self.panel_colours(panel as int)[at as int],
    {
        if panel == 0 {
            self.engine[at]
        } else if panel == 1 {
            self.reference[at]
        } else {
            self.difference[at]
        }
    }

    fn draw_plot(&self, c: &mut Canvas, panel: usize, strokes: Ghost<Seq<Stroke>>)
        requires
            self.wf(),
            panel <= 2,
            old(c).shows(paper(), strokes@),
        ensures
            final(c).shows(paper(), strokes@ + self.plot_strokes(panel as int, PLOT_W as int)),
            final(c).width() == old(c).width(),
            final(c).height() == old(c).height(),
    {
        let top: usize = self.top_of(panel);
        let mut x: usize = 0;
        proof {
            assert(strokes@ + self.plot_strokes(panel as int, 0) =~= strokes@);
        }
        while x < PLOT_W
            invariant
                self.wf(),
                panel <= 2,
                x <= PLOT_W,
                top == self.panel_top(panel as int),
                top + self.panel_height() + 44 <= usize::MAX,
                c.shows(paper(), strokes@ + self.plot_strokes(panel as int, x as int)),
                c.width() == old(c).width(),
                c.height() == old(c).height(),
            decreases PLOT_W - x,
        {
            let ghost g = strokes@ + self.plot_strokes(panel as int, x as int);
            let mut band: usize = 0;
            proof {
                assert(g + self.column_strokes(panel as int, x as int, 0) =~= g);
                assert((x + 1) * self.bands <= PLOT_W * self.bands) by (nonlinear_arith)
                    requires
                        x + 1 <= PLOT_W,
                        0 <= self.bands,
                ;
                assert((x + 1) * self.bands == x * self.bands + self.bands) by (nonlinear_arith);
                assert(0 <= x * self.bands) by (nonlinear_arith)
                    requires
                        0 <= x,
                        0 <= self.bands,
                ;
            }
            while band < self.bands
                invariant
                    self.wf(),
                    panel <= 2,
                    x < PLOT_W,
                    band <= self.bands,
                    top == self.panel_top(panel as int),
                    top + self.panel_height() + 44 <= usize::MAX,
                    0 <= x * self.bands,
                    x * self.bands + self.bands <= PLOT_W * self.bands,
                    c.shows(paper(), g + self.column_strokes(panel as int, x as int, band as int)),
                    c.width() == old(c).width(),
                    c.height() == old(c).height(),
                decreases self.bands - band,
            {
                let colour = self.colour(panel, x * self.bands + band);
                let y: usize = top + (self.bands - 1 - band) * BAND_PX;
                put_box(
                    c,
                    MARGIN_L + x,
                    y,
                    1,
                    BAND_PX,
                    colour,
                    Ghost(g + self.column_strokes(panel as int, x as int, band as int)),
                );
                proof {
                    assert((g + self.column_strokes(panel as int, x as int, band as int)).push(
                        Stroke::Box {
                            x: MARGIN_L + x,
                            y: y as int,
                            w: 1,
                            h: BAND_PX as int,
                            c: colour,
                        },
                    ) =~= g + self.column_strokes(panel as int, x as int, band + 1));
                }
                band = band + 1;
            }
            proof {
                assert(g + self.column_strokes(panel as int, x as int, self.bands as int)
                    =~= strokes@ + self.plot_strokes(panel as int, x + 1));
            }
            x = x + 1;
        }
    }

    fn draw_ticks(&self, c: &mut Canvas, panel: usize, strokes: Ghost<Seq<Stroke>>)
        requires
            self.wf(),
            panel <= 2,
            old(c).shows(paper(), strokes@),
        ensures
            final(c).shows(
                paper(),
                strokes@ + self.tick_strokes(panel as int, self.ticks.len() as int),
            ),
            final(c).width() == old(c).width(),
            final(c).height() == old(c).height(),
    {
        let top: usize = self.top_of(panel);
        let mut last: Option<usize> = None;
        let mut i: usize = 0;
        proof {
            assert(strokes@ + self.tick_strokes(panel as int, 0) =~= strokes@);
        }
        while i < self.ticks.len()
            invariant
                self.wf(),
                panel <= 2,
                i <= self.ticks.len(),
                72 <= top,
                top == self.panel_top(panel as int),
                top + self.panel_height() + 44 <= usize::MAX,
                match last {
                    None => self.last_row(panel as int, i as int) is None,
                    Some(y) => self.last_row(panel as int, i as int) == Some(y as int),
                },
                c.shows(paper(), strokes@ + self.tick_strokes(panel as int, i as int)),
                c.width() == old(c).width(),
                c.height() == old(c).height(),
            decreases self.ticks.len() - i,
        {
            let tick = &self.ticks[i];
            proof {
                assert(self.ticks@[i as int].band < self.bands);
                assert(placeable(self.ticks@[i as int].label@));
            }
            let y: usize = top + (self.bands - 1 - tick.band) * BAND_PX + BAND_PX / 2;
            assert(y == self.tick_row(panel as int, i as int));
            let dropped = match last {
                None => false,
                Some(above) => above < y || above - y < 10,
            };
            assert(dropped == self.tick_dropped(panel as int, i as int));
            if !dropped {
                let ghost g = strokes@ + self.tick_strokes(panel as int, i as int);
                last = Some(y);
                put_box(c, MARGIN_L - 5, y, 4, 1, dim(), Ghost(g));
                let ghost g1 = g.push(Stroke::Box { x: MARGIN_L - 5, y: y as int, w: 4, h: 1, c: dim() });
                put_text_right(c, MARGIN_L - 8, y - 3, tick.label.as_str(), dim(), Ghost(g1));
                proof {
                    assert(g1.push(
                        Stroke::Text {
                            x: right_start(MARGIN_L - 8, tick.label@, 1),
                            y: y - 3,
                            s: tick.label@,
                            scale: 1,
                            c: dim(),
                        },
                    ) =~= strokes@ + self.tick_strokes(panel as int, i + 1));
                }
            }
            i = i + 1;
        }
    }

    fn draw_seconds(&self, c: &mut Canvas, panel: usize, strokes: Ghost<Seq<Stroke>>)
        requires
            self.wf(),
            panel <= 2,
            old(c).shows(paper(), strokes@),
        ensures
            final(c).shows(
                paper(),
                strokes@ + self.seconds_strokes(panel as int, self.seconds.len() as int),
            ),
            final(c).width() == old(c).width(),
            final(c).height() == old(c).height(),
    {
        let top: usize = self.top_of(panel);
        let tall: usize = self.bands * BAND_PX;
        let mut i: usize = 0;
        proof {
            assert(strokes@ + self.seconds_strokes(panel as int, 0) =~= strokes@);
        }
        while i < self.seconds.len()
            invariant
                self.wf(),
                panel <= 2,
                i <= self.seconds.len(),
                top == self.panel_top(panel as int),
                tall == self.panel_height(),
                top + tall + 44 <= usize::MAX,
                c.shows(paper(), strokes@ + self.seconds_strokes(panel as int, i as int)),
                c.width() == old(c).width(),
                c.height() == old(c).height(),
            decreases self.seconds.len() - i,
        {
            let mark = &self.seconds[i];
            let ghost g = strokes@ + self.seconds_strokes(panel as int, i as int);
            proof {
                assert(placeable(self.seconds@[i as int].label@));
            }
            if mark.offset < PLOT_W {
                let x: usize = MARGIN_L + mark.offset;
                let dots: usize = tall / 6 + (if tall % 6 == 0 {
                    0usize
                } else {
                    1usize
                });
                assert(dots == self.grid_dots());
                let mut k: usize = 0;
                proof {
                    assert(g + self.grid_strokes(panel as int, x as int, 0) =~= g);
                }
                while k < dots
                    invariant
                        k <= dots,
                        6 * dots <= tall + 5,
                        top == self.panel_top(panel as int),
                        top + tall + 44 <= usize::MAX,
                        x < MARGIN_L + PLOT_W,
                        c.shows(paper(), g + self.grid_strokes(panel as int, x as int, k as int)),
                        c.width() == old(c).width(),
                        c.height() == old(c).height(),
                    decreases dots - k,
                {
                    put_box(
                        c,
                        x,
                        top + 6 * k,
                        1,
                        1,
                        grid(),
                        Ghost(g + self.grid_strokes(panel as int, x as int, k as int)),
                    );
                    proof {
                        assert((g + self.grid_strokes(panel as int, x as int, k as int)).push(
                            Stroke::Box { x: x as int, y: top + 6 * k, w: 1, h: 1, c: grid() },
                        ) =~= g + self.grid_strokes(panel as int, x as int, k + 1));
                    }
                    k = k + 1;
                }
                let ghost g1 = g + self.grid_strokes(panel as int, x as int, dots as int);
                if panel == 2 {
                    put_box(c, x, top + tall + 1, 1, 4, dim(), Ghost(g1));
                    let ghost g2 = g1.push(
                        Stroke::Box { x: x as int, y: top + tall + 1, w: 1, h: 4, c: dim() },
                    );
                    put_text(c, x - 4, top + tall + 8, mark.label.as_str(), 1, dim(), Ghost(g2));
                    proof {
                        assert(g2.push(
                            Stroke::Text {
                                x: x - 4,
                                y: top + tall + 8,
                                s: mark.label@,
                                scale: 1,
                                c: dim(),
                            },
                        ) =~= g + self.second_strokes(panel as int, i as int));
                    }
                }
            }
            proof {
                assert(g + self.second_strokes(panel as int, i as int) =~= strokes@
                    + self.seconds_strokes(panel as int, i + 1));
                assert(self.seconds@[i as int].offset >= PLOT_W ==> g
                    + self.second_strokes(panel as int, i as int) =~= g);
            }
            i = i + 1;
        }
    }

    fn title_of(&self, panel: usize) -> (r: String)
        requires
            panel <= 2,
            placeable(title(self.range@, 2)),
        ensures
            r@ == title(self.range@, panel as int),
            placeable(r@),
    {
        proof {
            reveal_strlit("ENGINE");
            reveal_strlit("REFERENCE  SALAMANDER C5");
        }
        if panel == 0 {
            String::from_str("ENGINE")
        } else if panel == 1 {
            String::from_str("REFERENCE  SALAMANDER C5")
        } else {
            let mut out = String::from_str("DIFFERENCE  ENGINE MINUS REFERENCE  PLUS/MINUS ");
            out.append(self.range.as_str());
            out.append(" DB");
            out
        }
    }

    fn draw_panel(&self, c: &mut Canvas, panel: usize, strokes: Ghost<Seq<Stroke>>)
        requires
            self.wf(),
            panel <= 2,
            old(c).shows(paper(), strokes@),
        ensures
            final(c).shows(paper(), strokes@ + self.panel_strokes(panel as int)),
            final(c).width() == old(c).width(),
            final(c).height() == old(c).height(),
    {
        let top: usize = self.top_of(panel);
        let name = self.title_of(panel);
        put_text(c, MARGIN_L, top - 22, name.as_str(), 2, ink(), strokes);
        let ghost g0 = strokes@.push(
            Stroke::Text { x: MARGIN_L as int, y: top - 22, s: name@, scale: 2, c: ink() },
        );
        self.draw_plot(c, panel, Ghost(g0));
        let ghost g1 = g0 + self.plot_strokes(panel as int, PLOT_W as int);
        self.draw_ticks(c, panel, Ghost(g1));
        let ghost g2 = g1 + self.tick_strokes(panel as int, self.ticks.len() as int);
        self.draw_seconds(c, panel, Ghost(g2));
        proof {
            assert(g2 + self.seconds_strokes(panel as int, self.seconds.len() as int) =~= strokes@
                + self.panel_strokes(panel as int));
        }
    }
}

/// Draws a page.
pub fn draw_page(page: &Page) -> (c: Canvas)
    requires
        page.wf(),
    ensures
        c.shows(paper(), page.strokes()),
        c.width() == PAGE_W,
        c.height() == page.page_height(),
{
    let top_c: usize = page.top_of(2);
    let tall: usize = MARGIN_T + 3 * (PANEL_GAP + page.bands * BAND_PX) + MARGIN_B;
    let mut c = Canvas::new(MARGIN_L + PLOT_W + MARGIN_R, tall, paper());
    put_text(&mut c, MARGIN_L, 12, page.heading.as_str(), 2, ink(), Ghost(Seq::empty()));
    let ghost g0 = Seq::<Stroke>::empty().push(
        Stroke::Text { x: MARGIN_L as int, y: 12, s: page.heading@, scale: 2, c: ink() },
    );
    page.draw_panel(&mut c, 0, Ghost(g0));
    let ghost g1 = g0 + page.panel_strokes(0);
    page.draw_panel(&mut c, 1, Ghost(g1));
    let ghost g2 = g1 + page.panel_strokes(1);
    page.draw_panel(&mut c, 2, Ghost(g2));
    let ghost g3 = g2 + page.panel_strokes(2);
    let foot: usize = tall - MARGIN_B + 20;
    proof {
        reveal_strlit("SECONDS");
    }
    put_text(&mut c, MARGIN_L + PLOT_W / 2 - 30, foot, "SECONDS", 1, dim(), Ghost(g3));
    let ghost g4 = g3.push(
        Stroke::Text {
            x: MARGIN_L + PLOT_W / 2 - 30,
            y: foot as int,
            s: "SECONDS"@,
            scale: 1,
            c: dim(),
        },
    );
    draw_bar(&mut c, MARGIN_T + PANEL_GAP, &page.level_bar, page.bands, Ghost(g4));
    let ghost g5 = g4 + page.level_bar.strokes(MARGIN_T + PANEL_GAP);
    draw_bar(&mut c, top_c, &page.difference_bar, page.bands, Ghost(g5));
    proof {
        assert(g5 + page.difference_bar.strokes(page.panel_top(2)) =~= page.strokes());
    }
    c
}

/// The frames that fall in column `x` of a plot of `frames` frames.
pub open spec fn column_of(x: int, frames: int) -> (int, int) {
    let lo = x * frames / (PLOT_W as int);
    let next = (x + 1) * frames / (PLOT_W as int);
    let hi = if next > lo + 1 {
        next
    } else {
        lo + 1
    };
    (lo, if hi < frames {
        hi
    } else {
        frames
    })
}

/// The frames that fall in column `x`, from the first to before the second.
pub fn column_frames(x: usize, frames: usize) -> (r: (usize, usize))
    requires
        x < PLOT_W,
        PLOT_W * frames <= usize::MAX,
    ensures
        (r.0 as int, r.1 as int) == column_of(x as int, frames as int),
{
    proof {
        assert((x + 1) * frames <= PLOT_W * frames) by (nonlinear_arith)
            requires
                x + 1 <= PLOT_W,
                0 <= frames,
        ;
        assert(x * frames <= (x + 1) * frames) by (nonlinear_arith)
            requires
                0 <= frames,
        ;
        assert(0 <= x * frames) by (nonlinear_arith)
            requires
                0 <= frames,
                0 <= x,
        ;
    }
    let lo: usize = x * frames / PLOT_W;
    let next: usize = (x + 1) * frames / PLOT_W;
    let hi: usize = if next > lo + 1 {
        next
    } else {
        lo + 1
    };
    (lo, if hi < frames {
        hi
    } else {
        frames
    })
}

/// Every column of a plot that has frames shows at least one of them, and no
/// frame that is not there.
pub proof fn no_column_is_empty(x: int, frames: int)
    requires
        0 <= x < PLOT_W,
        frames > 0,
    ensures
        0 <= column_of(x, frames).0 < column_of(x, frames).1 <= frames,
{
    assert(x * frames < PLOT_W * frames && 0 <= x * frames) by (nonlinear_arith)
        requires
            0 <= x < PLOT_W,
            frames > 0,
    ;
}

/// Where a plot has at least as many frames as columns, each column starts at
/// the frame where the one before it stops.
pub proof fn columns_adjoin(x: int, frames: int)
    requires
        0 <= x,
        x + 1 < PLOT_W,
        frames >= PLOT_W,
    ensures
        column_of(x, frames).1 == column_of(x + 1, frames).0,
{
    assert((x + 1) * frames == x * frames + frames) by (nonlinear_arith);
    assert((x + 2) * frames == (x + 1) * frames + frames) by (nonlinear_arith);
    assert((x + 2) * frames <= PLOT_W * frames) by (nonlinear_arith)
        requires
            x + 2 <= PLOT_W,
            frames >= 0,
    ;
}

/// `s` with its underscores made spaces.
pub open spec fn spaced(s: Seq<char>) -> Seq<char> {
    s.map_values(
        |c: char|
            if c == '_' {
                ' '
            } else {
                c
            },
    )
}

/// The heading of a phrase's page; `low` and `high` are the ends of the mel
/// range as they are printed, in Hz and in kHz.
pub fn heading(name: &str, bands: u64, low: &str, high: &str) -> (r: String)
    ensures
        r@ == spaced(name@) + "  -  LOG-MEL "@ + decimal(bands as nat) + " BANDS "@ + low@
            + " HZ TO "@ + high@ + " KHZ  -  WINDOW "@ + decimal(WINDOW as nat) + " HOP "@
            + decimal(HOP as nat),
{
    let chars = characters(name);
    let mut plain: Vec<char> = Vec::new();
    let mut i: usize = 0;
    while i < chars.len()
        invariant
            i <= chars.len(),
            plain@ == spaced(chars@.take(i as int)),
        decreases chars.len() - i,
    {
        if chars[i] == '_' {
            plain.push(' ');
        } else {
            plain.push(chars[i]);
        }
        i = i + 1;
        proof {
            assert(plain@ =~= spaced(chars@.take(i as int)));
        }
    }
    proof {
        assert(chars@.take(i as int) =~= chars@);
    }
    let mut out = from_characters(&plain);
    out.append("  -  LOG-MEL ");
    out.append(print(bands).as_str());
    out.append(" BANDS ");
    out.append(low);
    out.append(" HZ TO ");
    out.append(high);
    out.append(" KHZ  -  WINDOW ");
    out.append(print(WINDOW).as_str());
    out.append(" HOP ");
    out.append(print(HOP).as_str());
    out
}

/// Hertz in whole thousands: the nearer one, and the even one of two that are
/// equally near.
pub open spec fn thousands(hz: nat) -> nat {
    let below = hz / 1000;
    if hz % 1000 > 500 || (hz % 1000 == 500 && below % 2 == 1) {
        below + 1
    } else {
        below
    }
}

/// The name of a marked frequency: thousands of hertz from 1000 on.
pub open spec fn hz_name(hz: nat) -> Seq<char> {
    if hz >= 1000 {
        decimal(thousands(hz)) + "K"@
    } else {
        decimal(hz)
    }
}

/// The name of a marked frequency.
pub fn hz_label(hz: u32) -> (r: String)
    ensures
        r@ == hz_name(hz as nat),
{
    if hz >= 1000 {
        let below: u32 = hz / 1000;
        let up = hz % 1000 > 500 || (hz % 1000 == 500 && below % 2 == 1);
        let near: u32 = if up {
            below + 1
        } else {
            below
        };
        let mut out = print(near as u64);
        out.append("K");
        out
    } else {
        print(hz as u64)
    }
}

/// A colour of a map.
pub open spec fn colour(red: u8, green: u8, blue: u8) -> Colour {
    Colour { red, green, blue }
}

/// The stops of the map that levels are drawn in, from the floor to the peak.
pub fn level_stops() -> (r: Vec<Colour>)
    ensures
        r@ == seq![
            colour(68, 1, 84),
            colour(72, 40, 120),
            colour(62, 74, 137),
            colour(49, 104, 142),
            colour(38, 130, 142),
            colour(31, 158, 137),
            colour(53, 183, 121),
            colour(110, 206, 88),
            colour(253, 231, 37),
        ],
{
    let mut v: Vec<Colour> = Vec::new();
    v.push(Colour { red: 68, green: 1, blue: 84 });
    v.push(Colour { red: 72, green: 40, blue: 120 });
    v.push(Colour { red: 62, green: 74, blue: 137 });
    v.push(Colour { red: 49, green: 104, blue: 142 });
    v.push(Colour { red: 38, green: 130, blue: 142 });
    v.push(Colour { red: 31, green: 158, blue: 137 });
    v.push(Colour { red: 53, green: 183, blue: 121 });
    v.push(Colour { red: 110, green: 206, blue: 88 });
    v.push(Colour { red: 253, green: 231, blue: 37 });
    v
}

/// The stops of the map that differences are drawn in: too little, none, too much.
pub fn difference_stops() -> (r: Vec<Colour>)
    ensures
        r@ == seq![
            colour(38, 88, 190),
            colour(90, 140, 205),
            colour(60, 62, 70),
            colour(214, 128, 96),
            colour(190, 48, 40),
        ],
{
    let mut v: Vec<Colour> = Vec::new();
    v.push(Colour { red: 38, green: 88, blue: 190 });
    v.push(Colour { red: 90, green: 140, blue: 205 });
    v.push(Colour { red: 60, green: 62, blue: 70 });
    v.push(Colour { red: 214, green: 128, blue: 96 });
    v.push(Colour { red: 190, green: 48, blue: 40 });
    v
}

/// The frequencies that are marked on a page.
pub fn marked_hz() -> (r: Vec<u32>)
    ensures
        r@ == seq![50u32, 100, 200, 500, 1000, 2000, 4000, 8000],
{
    let mut v: Vec<u32> = Vec::new();
    v.push(50);
    v.push(100);
    v.push(200);
    v.push(500);
    v.push(1000);
    v.push(2000);
    v.push(4000);
    v.push(8000);
    v
}

/// The band whose centre is nearest: the first of the smallest distances, or
/// band 0 where there is none.
pub fn nearest_band(distances: &Vec<Reading>) -> (r: usize)
    requires
        distances.len() > 1 ==> forall|i: int|
            0 <= i < distances.len() ==> !(#[trigger] distances@[i]).nan(),
    ensures
        distances.len() == 0 ==> r == 0,
        distances.len() > 0 ==> is_first_least(ranks_of(distances@), r as int),
{
    match first_least(&ranks(distances)) {
        None => 0,
        Some(i) => i,
    }
}

/// The error of `png::Encoder` and `png::Writer`.
#[verifier::external_type_specification]
#[verifier::external_body]
pub struct ExEncodingError(png::EncodingError);

/// The bytes of the PNG file of eight-bit RGB pixels, row by row from the top;
/// nothing where the encoder refuses them.
pub uninterp spec fn png_file(width: u32, height: u32, data: Seq<u8>) -> Option<Seq<u8>>;

/// Calls `png::Encoder` on a buffer in memory, with eight-bit RGB pixels: the
/// header, then the pixels. The contract names the file that comes out; it
/// says of it only that the encoder refuses a picture without rows or columns.
#[verifier::external_body]
fn encode_rgb(width: u32, height: u32, data: &Vec<u8>) -> (r: Result<Vec<u8>, png::EncodingError>)
    requires
        data.len() == 3 * width * height,
    ensures
        match r {
            Ok(file) => png_file(width, height, data@) == Some(file@) && width > 0 && height > 0,
            Err(_) => png_file(width, height, data@) is None,
        },
{
    let mut file: Vec<u8> = Vec::new();
    let mut encoder = png::Encoder::new(&mut file, width, height);
    encoder.set_color(png::ColorType::Rgb);
    encoder.set_depth(png::BitDepth::Eight);
    encoder.write_header()?.write_image_data(data)?;
    Ok(file)
}

/// The `Display` form of `png::EncodingError`. Nothing is claimed of it.
#[verifier::external_body]
fn encoding_message(e: &png::EncodingError) -> (r: String) {
    format!("{}", e)
}

/// Why a picture has no file.
pub enum PictureError {
    TooLarge,
    Refused(String),
}

/// The PNG file of a canvas.
pub fn write_png(c: &Canvas) -> (r: Result<Vec<u8>, PictureError>)
    requires
        c.wf(),
    ensures
        match r {
            Ok(file) => c.width() <= u32::MAX && c.height() <= u32::MAX && png_file(
                c.width() as u32,
                c.height() as u32,
                stream_of(c.raster()),
            ) == Some(file@),
            Err(PictureError::TooLarge) => c.width() > u32::MAX || c.height() > u32::MAX,
            Err(PictureError::Refused(_)) => c.width() <= u32::MAX && c.height() <= u32::MAX
                && png_file(c.width() as u32, c.height() as u32, stream_of(c.raster())) is None,
        },
{
    if c.wide() > 0xffff_ffff || c.high() > 0xffff_ffff {
        return Err(PictureError::TooLarge);
    }
    let data = c.bytes();
    proof {
        stream_length(c.raster());
        assert(c.width() * c.height() >= 0) by (nonlinear_arith)
            requires
                c.width() >= 0,
                c.height() >= 0,
        ;
        assert(3 * c.width() * c.height() == 3 * (c.width() * c.height())) by (nonlinear_arith);
    }
    match encode_rgb(c.wide() as u32, c.high() as u32, &data) {
        Ok(file) => Ok(file),
        Err(e) => Err(PictureError::Refused(encoding_message(&e))),
    }
}

proof fn stream_length(px: Seq<Colour>)
    ensures
        stream_of(px).len() == 3 * px.len(),
    decreases px.len(),
{
    if px.len() > 0 {
        stream_length(px.drop_last());
    }
}

/// The PNG file of a page.
pub fn page_png(page: &Page) -> (r: Result<Vec<u8>, PictureError>)
    requires
        page.wf(),
    ensures
        match r {
            Ok(file) => page.page_height() <= u32::MAX && png_file(
                PAGE_W as u32,
                page.page_height() as u32,
                stream_of(page.picture()),
            ) == Some(file@),
            Err(PictureError::TooLarge) => page.page_height() > u32::MAX,
            Err(PictureError::Refused(_)) => page.page_height() <= u32::MAX && png_file(
                PAGE_W as u32,
                page.page_height() as u32,
                stream_of(page.picture()),
            ) is None,
        },
{
    let c = draw_page(page);
    proof {
        let w = PAGE_W as int;
        let h = page.page_height();
        assert forall|i: int| 0 <= i < w * h implies c.raster()[i] == page.picture()[i] by {
            assert(0 <= i % w < w && 0 <= i / w < h) by (nonlinear_arith)
                requires
                    0 <= i < w * h,
                    w == 1288,
            ;
            assert(c.holds(i % w, i / w));
            assert(c.at(i % w, i / w) == shown(paper(), page.strokes(), i % w, i / w));
        }
        assert(c.raster() =~= page.picture());
    }
    write_png(&c)
}

/// No stroke covers the pixel.
spec fn clear(strokes: Seq<Stroke>, px: int, py: int) -> bool {
    forall|i: int| 0 <= i < strokes.len() ==> !(#[trigger] strokes[i]).covers(px, py)
}

proof fn clear_strokes_show_nothing(sheet: Colour, a: Seq<Stroke>, b: Seq<Stroke>, px: int, py: int)
    requires
        clear(b, px, py),
    ensures
        shown(sheet, a + b, px, py) == shown(sheet, a, px, py),
    decreases b.len(),
{
    if b.len() == 0 {
        assert(a + b =~= a);
    } else {
        assert(!b[b.len() - 1].covers(px, py));
        assert((a + b).drop_last() =~= a + b.drop_last());
        assert((a + b).last() == b.last());
        assert(clear(b.drop_last(), px, py)) by {
            assert forall|i: int| 0 <= i < b.drop_last().len() implies !(
            #[trigger] b.drop_last()[i]).covers(px, py) by {
                assert(b.drop_last()[i] == b[i]);
            }
        }
        clear_strokes_show_nothing(sheet, a, b.drop_last(), px, py);
    }
}

proof fn the_last_cover_shows(sheet: Colour, strokes: Seq<Stroke>, k: int, px: int, py: int)
    requires
        0 <= k < strokes.len(),
        strokes[k].covers(px, py),
        forall|i: int| k < i < strokes.len() ==> !(#[trigger] strokes[i]).covers(px, py),
    ensures
        shown(sheet, strokes, px, py) == strokes[k].colour(),
    decreases strokes.len(),
{
    if k < strokes.len() - 1 {
        assert(!strokes[strokes.len() - 1].covers(px, py));
        let shorter = strokes.drop_last();
        assert forall|i: int| k < i < shorter.len() implies !(#[trigger] shorter[i]).covers(
            px,
            py,
        ) by {
            assert(shorter[i] == strokes[i]);
        }
        the_last_cover_shows(sheet, shorter, k, px, py);
    }
}

proof fn one_stroke_shows(base: Seq<Stroke>, stroke: Stroke, px: int, py: int)
    requires
        clear(base, px, py),
    ensures
        shown(paper(), base + seq![stroke], px, py) == (if stroke.covers(px, py) {
            stroke.colour()
        } else {
            paper()
        }),
{
    clear_strokes_show_nothing(paper(), Seq::empty(), base, px, py);
    assert(Seq::<Stroke>::empty() + base =~= base);
    assert((base + seq![stroke]).drop_last() =~= base);
    assert((base + seq![stroke]).last() == stroke);
}

proof fn clear_together(a: Seq<Stroke>, b: Seq<Stroke>, px: int, py: int)
    requires
        clear(a, px, py),
        clear(b, px, py),
    ensures
        clear(a + b, px, py),
{
    assert forall|i: int| 0 <= i < (a + b).len() implies !(#[trigger] (a + b)[i]).covers(px, py) by {
        if i < a.len() {
            assert((a + b)[i] == a[i]);
        } else {
            assert((a + b)[i] == b[i - a.len()]);
        }
    }
}

/// Text covers nothing outside the rows it is written in, nor left of its start.
proof fn text_is_clear(x: int, y: int, s: Seq<char>, scale: int, c: Colour, px: int, py: int)
    requires
        scale == 1 || scale == 2,
        py < y || py >= y + 7 * scale || px < x || px >= x + 6 * s.len() * scale,
    ensures
        !(Stroke::Text { x, y, s, scale, c }).covers(px, py),
{
    if inked(x, y, s, scale, px, py) {
        ink_stays_in_its_box(x, y, s, scale, px, py);
    }
}

impl Page {
    /// Where the three panels start.
    proof fn tops(self)
        ensures
            self.panel_top(0) == 72,
            self.panel_top(1) == 104 + 3 * self.bands,
            self.panel_top(2) == 136 + 6 * self.bands,
    {
        let tall = PANEL_GAP + self.panel_height();
        assert(0 * tall == 0 && 1 * tall == tall && 2 * tall == tall + tall) by (nonlinear_arith);
    }

    /// The labels of the ticks fit left of the panels.
    pub open spec fn short_ticks(self) -> bool {
        forall|i: int| 0 <= i < self.ticks.len() ==> 6 * (#[trigger] self.ticks@[i]).label@.len() <= 68
    }

    proof fn ticks_are_left(self, panel: int, n: int, px: int, py: int)
        requires
            self.short_ticks(),
            0 <= n <= self.ticks.len(),
            px >= 76,
        ensures
            clear(self.tick_strokes(panel, n), px, py),
        decreases n,
    {
        if n > 0 {
            self.ticks_are_left(panel, n - 1, px, py);
            if !self.tick_dropped(panel, n - 1) {
                let y = self.tick_row(panel, n - 1);
                let s = self.ticks@[n - 1].label@;
                text_is_clear(right_start(MARGIN_L - 8, s, 1), y - 3, s, 1, dim(), px, py);
                let before = self.tick_strokes(panel, n - 1);
                let after = self.tick_strokes(panel, n);
                assert forall|i: int| 0 <= i < after.len() implies !(#[trigger] after[i]).covers(
                    px,
                    py,
                ) by {
                    if i < before.len() {
                        assert(after[i] == before[i]);
                    }
                }
            }
        }
    }

    proof fn seconds_are_elsewhere(self, panel: int, n: int, px: int, py: int)
        requires
            0 <= n <= self.seconds.len(),
            0 <= panel < 3,
            py < self.panel_top(panel) + self.panel_height() || panel < 2,
            forall|i: int|
                0 <= i < self.seconds.len() ==> 76 + (#[trigger] self.seconds@[i]).offset != px
                    || py < self.panel_top(panel) || py >= self.panel_top(panel)
                    + self.panel_height(),
        ensures
            clear(self.seconds_strokes(panel, n), px, py),
        decreases n,
    {
        if n > 0 {
            self.seconds_are_elsewhere(panel, n - 1, px, py);
            let s = self.seconds@[n - 1];
            let x = MARGIN_L + s.offset;
            let foot = self.panel_top(panel) + self.panel_height();
            let line = self.grid_strokes(panel, x, self.grid_dots());
            assert(clear(line, px, py)) by {
                assert forall|k: int| 0 <= k < line.len() implies !(#[trigger] line[k]).covers(
                    px,
                    py,
                ) by {}
            }
            let own = self.second_strokes(panel, n - 1);
            if panel == 2 && s.offset < PLOT_W {
                text_is_clear(x - 4, foot + 8, s.label@, 1, dim(), px, py);
                assert forall|i: int| 0 <= i < own.len() implies !(#[trigger] own[i]).covers(
                    px,
                    py,
                ) by {
                    if i < line.len() {
                        assert(own[i] == line[i]);
                    }
                }
            }
            assert(clear(own, px, py));
            clear_together(self.seconds_strokes(panel, n - 1), own, px, py);
        }
    }

    proof fn other_columns_are_clear(self, panel: int, n: int, px: int, py: int)
        requires
            0 <= n,
            px >= 76 + n || px < 76 || py < self.panel_top(panel) || py >= self.panel_top(panel)
                + self.panel_height(),
        ensures
            clear(self.plot_strokes(panel, n), px, py),
        decreases n,
    {
        if n > 0 {
            self.other_columns_are_clear(panel, n - 1, px, py);
            let own = self.column_strokes(panel, n - 1, self.bands as int);
            assert forall|b: int| 0 <= b < own.len() implies !(#[trigger] own[b]).covers(px, py) by {
                assert(0 <= (self.bands - 1 - b) * 3 && (self.bands - 1 - b) * 3 + 3 <= self.bands
                    * 3);
            }
            clear_together(self.plot_strokes(panel, n - 1), own, px, py);
        }
    }

    /// A pixel outside the rows of a panel, below its title, is not its own.
    proof fn other_panels_are_clear(self, panel: int, px: int, py: int)
        requires
            self.short_ticks(),
            0 <= panel < 3,
            px >= 76,
            py < self.panel_top(panel) - 22 || self.panel_top(panel) + self.panel_height() <= py
                && panel < 2,
        ensures
            clear(self.panel_strokes(panel), px, py),
    {
        let head = seq![
            Stroke::Text {
                x: MARGIN_L as int,
                y: self.panel_top(panel) - 22,
                s: title(self.range@, panel),
                scale: 2,
                c: ink(),
            },
        ];
        text_is_clear(
            MARGIN_L as int,
            self.panel_top(panel) - 22,
            title(self.range@, panel),
            2,
            ink(),
            px,
            py,
        );
        assert(clear(head, px, py));
        self.other_columns_are_clear(panel, PLOT_W as int, px, py);
        self.ticks_are_left(panel, self.ticks.len() as int, px, py);
        self.seconds_are_elsewhere(panel, self.seconds.len() as int, px, py);
        clear_together(head, self.plot_strokes(panel, PLOT_W as int), px, py);
        clear_together(
            head + self.plot_strokes(panel, PLOT_W as int),
            self.tick_strokes(panel, self.ticks.len() as int),
            px,
            py,
        );
        clear_together(
            head + self.plot_strokes(panel, PLOT_W as int) + self.tick_strokes(
                panel,
                self.ticks.len() as int,
            ),
            self.seconds_strokes(panel, self.seconds.len() as int),
            px,
            py,
        );
    }

    proof fn bars_are_right(self, bar: Bar, y: int, px: int, py: int)
        requires
            px < 1180,
        ensures
            clear(bar.strokes(y), px, py),
    {
        let h = bar.rows.len() as int;
        let rows = bar.row_strokes(y, h);
        assert(clear(rows, px, py)) by {
            assert forall|i: int| 0 <= i < rows.len() implies !(#[trigger] rows[i]).covers(
                px,
                py,
            ) by {}
        }
        mark_is_right(y, 0, bar.top@, px, py);
        mark_is_right(y, h / 2, bar.middle@, px, py);
        mark_is_right(y, h - 1, bar.bottom@, px, py);
        clear_together(rows, bar_mark(y, 0, bar.top@), px, py);
        clear_together(
            rows + bar_mark(y, 0, bar.top@),
            bar_mark(y, h / 2, bar.middle@),
            px,
            py,
        );
        clear_together(
            rows + bar_mark(y, 0, bar.top@) + bar_mark(y, h / 2, bar.middle@),
            bar_mark(y, h - 1, bar.bottom@),
            px,
            py,
        );
    }

    /// What a pixel of one panel shows is decided by that panel.
    proof fn only_its_panel_shows(self, panel: int, px: int, py: int)
        requires
            self.short_ticks(),
            0 <= panel < 3,
            76 <= px < 1156,
            self.panel_top(panel) - 22 <= py < self.panel_top(panel) + self.panel_height(),
        ensures
            shown(paper(), self.strokes(), px, py) == shown(
                paper(),
                self.before(panel) + self.panel_strokes(panel),
                px,
                py,
            ),
    {
        self.tops();
        let top = seq![
            Stroke::Text { x: MARGIN_L as int, y: 12, s: self.heading@, scale: 2, c: ink() },
        ];
        let foot = seq![
            Stroke::Text {
                x: MARGIN_L + PLOT_W / 2 - 30,
                y: MARGIN_T + 3 * (PANEL_GAP + self.panel_height()) + 20,
                s: "SECONDS"@,
                scale: 1,
                c: dim(),
            },
        ];
        let a = top + self.panel_strokes(0);
        let b = a + self.panel_strokes(1);
        let c = b + self.panel_strokes(2);
        let d = c + foot;
        let e = d + self.level_bar.strokes(MARGIN_T + PANEL_GAP);
        assert(self.strokes() == e + self.difference_bar.strokes(self.panel_top(2)));
        self.bars_are_right(self.difference_bar, self.panel_top(2), px, py);
        self.bars_are_right(self.level_bar, MARGIN_T + PANEL_GAP, px, py);
        clear_strokes_show_nothing(
            paper(),
            e,
            self.difference_bar.strokes(self.panel_top(2)),
            px,
            py,
        );
        clear_strokes_show_nothing(
            paper(),
            d,
            self.level_bar.strokes(MARGIN_T + PANEL_GAP),
            px,
            py,
        );
        text_is_clear(
            MARGIN_L + PLOT_W / 2 - 30,
            MARGIN_T + 3 * (PANEL_GAP + self.panel_height()) + 20,
            "SECONDS"@,
            1,
            dim(),
            px,
            py,
        );
        assert(clear(foot, px, py));
        clear_strokes_show_nothing(paper(), c, foot, px, py);
        if panel < 2 {
            self.other_panels_are_clear(2, px, py);
            clear_strokes_show_nothing(paper(), b, self.panel_strokes(2), px, py);
        }
        if panel < 1 {
            self.other_panels_are_clear(1, px, py);
            clear_strokes_show_nothing(paper(), a, self.panel_strokes(1), px, py);
        }
    }

    /// What is drawn before a panel.
    spec fn before(self, panel: int) -> Seq<Stroke> {
        let top = seq![
            Stroke::Text { x: MARGIN_L as int, y: 12, s: self.heading@, scale: 2, c: ink() },
        ];
        if panel == 0 {
            top
        } else if panel == 1 {
            top + self.panel_strokes(0)
        } else {
            top + self.panel_strokes(0) + self.panel_strokes(1)
        }
    }

    proof fn nothing_before_reaches(self, panel: int, px: int, py: int)
        requires
            self.short_ticks(),
            0 <= panel < 3,
            76 <= px,
            self.panel_top(panel) - 22 <= py,
        ensures
            clear(self.before(panel), px, py),
    {
        let top = seq![
            Stroke::Text { x: MARGIN_L as int, y: 12, s: self.heading@, scale: 2, c: ink() },
        ];
        text_is_clear(MARGIN_L as int, 12, self.heading@, 2, ink(), px, py);
        assert(clear(top, px, py));
        self.tops();
        assert(panel == 0 || panel == 1 || panel == 2);
        if panel > 0 {
            self.other_panels_are_clear(0, px, py);
            clear_together(top, self.panel_strokes(0), px, py);
        }
        if panel > 1 {
            self.other_panels_are_clear(1, px, py);
            clear_together(top + self.panel_strokes(0), self.panel_strokes(1), px, py);
        }
    }

    /// A cell of a panel shows its own colour.
    proof fn a_cell_shows(self, panel: int, x: int, band: int, row: int)
        requires
            self.wf(),
            self.short_ticks(),
            0 <= panel < 3,
            0 <= x < 1080,
            0 <= band < self.bands,
            0 <= row < 3,
            forall|i: int| 0 <= i < self.seconds.len() ==> (#[trigger] self.seconds@[i]).offset != x,
        ensures
            shown(
                paper(),
                self.strokes(),
                76 + x,
                self.panel_top(panel) + (self.bands - 1 - band) * 3 + row,
            ) == self.panel_colours(panel)[x * self.bands + band],
    {
        let px = 76 + x;
        let py = self.panel_top(panel) + (self.bands - 1 - band) * 3 + row;
        assert(0 <= (self.bands - 1 - band) * 3 && (self.bands - 1 - band) * 3 + 3 <= self.bands
            * 3);
        self.only_its_panel_shows(panel, px, py);
        let head = seq![
            Stroke::Text {
                x: MARGIN_L as int,
                y: self.panel_top(panel) - 22,
                s: title(self.range@, panel),
                scale: 2,
                c: ink(),
            },
        ];
        let base = self.before(panel);
        let plot = self.plot_strokes(panel, PLOT_W as int);
        let ticks = self.tick_strokes(panel, self.ticks.len() as int);
        let seconds = self.seconds_strokes(panel, self.seconds.len() as int);
        assert(base + self.panel_strokes(panel) =~= base + head + plot + ticks + seconds);
        self.seconds_are_elsewhere(panel, self.seconds.len() as int, px, py);
        self.ticks_are_left(panel, self.ticks.len() as int, px, py);
        clear_strokes_show_nothing(paper(), base + head + plot + ticks, seconds, px, py);
        clear_strokes_show_nothing(paper(), base + head + plot, ticks, px, py);
        self.a_column_shows(base + head, panel, PLOT_W as int, x, band, row);
    }

    proof fn a_column_shows(
        self,
        base: Seq<Stroke>,
        panel: int,
        n: int,
        x: int,
        band: int,
        row: int,
    )
        requires
            0 <= x < n,
            0 <= band < self.bands,
            0 <= row < 3,
        ensures
            shown(
                paper(),
                base + self.plot_strokes(panel, n),
                76 + x,
                self.panel_top(panel) + (self.bands - 1 - band) * 3 + row,
            ) == self.panel_colours(panel)[x * self.bands + band],
        decreases n,
    {
        let px = 76 + x;
        let py = self.panel_top(panel) + (self.bands - 1 - band) * 3 + row;
        let own = self.column_strokes(panel, n - 1, self.bands as int);
        let rest = base + self.plot_strokes(panel, n - 1);
        assert(base + self.plot_strokes(panel, n) =~= rest + own);
        if x < n - 1 {
            assert forall|b: int| 0 <= b < own.len() implies !(#[trigger] own[b]).covers(px, py) by {}
            clear_strokes_show_nothing(paper(), rest, own, px, py);
            self.a_column_shows(base, panel, n - 1, x, band, row);
        } else {
            let all = rest + own;
            let k = rest.len() + band;
            assert(all[k] == own[band]);
            assert(own[band].covers(px, py));
            assert forall|i: int| k < i < all.len() implies !(#[trigger] all[i]).covers(
                px,
                py,
            ) by {
                let b = i - rest.len();
                assert(all[i] == own[b]);
                assert((self.bands - 1 - b) * 3 + 3 <= (self.bands - 1 - band) * 3) by (nonlinear_arith)
                    requires
                        b >= band + 1,
                ;
            }
            the_last_cover_shows(paper(), all, k, px, py);
        }
    }

    /// The rows above a panel show its title, and paper around it.
    #[verifier::rlimit(40)]
    proof fn a_title_shows(self, panel: int, px: int, py: int)
        requires
            self.wf(),
            self.short_ticks(),
            0 <= panel < 3,
            76 <= px < 1156,
            self.panel_top(panel) - 22 <= py < self.panel_top(panel) - 8,
        ensures
            shown(paper(), self.strokes(), px, py) == (if inked(
                76,
                self.panel_top(panel) - 22,
                title(self.range@, panel),
                2,
                px,
                py,
            ) {
                ink()
            } else {
                paper()
            }),
    {
        self.only_its_panel_shows(panel, px, py);
        let head = seq![
            Stroke::Text {
                x: MARGIN_L as int,
                y: self.panel_top(panel) - 22,
                s: title(self.range@, panel),
                scale: 2,
                c: ink(),
            },
        ];
        let base = self.before(panel);
        let plot = self.plot_strokes(panel, PLOT_W as int);
        let ticks = self.tick_strokes(panel, self.ticks.len() as int);
        let seconds = self.seconds_strokes(panel, self.seconds.len() as int);
        assert(base + self.panel_strokes(panel) =~= base + head + plot + ticks + seconds);
        self.seconds_are_elsewhere(panel, self.seconds.len() as int, px, py);
        self.ticks_are_left(panel, self.ticks.len() as int, px, py);
        self.other_columns_are_clear(panel, PLOT_W as int, px, py);
        clear_strokes_show_nothing(paper(), base + head + plot + ticks, seconds, px, py);
        clear_strokes_show_nothing(paper(), base + head + plot, ticks, px, py);
        clear_strokes_show_nothing(paper(), base + head, plot, px, py);
        self.nothing_before_reaches(panel, px, py);
        one_stroke_shows(base, head[0], px, py);
        assert(seq![head[0]] =~= head);
    }
}

proof fn mark_is_right(y: int, row: int, label: Seq<char>, px: int, py: int)
    requires
        px < 1180,
    ensures
        clear(bar_mark(y, row, label), px, py),
{
    text_is_clear(BAR_X + BAR_W + 7, y + row - 3, label, 1, dim(), px, py);
    let m = bar_mark(y, row, label);
    assert forall|i: int| 0 <= i < m.len() implies !(#[trigger] m[i]).covers(px, py) by {
        if i == 0 {
        } else {
            assert(i == 1);
        }
    }
}

/// Under the title ENGINE stand the engine's colours, under REFERENCE the
/// reference's and under DIFFERENCE their difference's: of three panels of
/// equal height, one below the other, and in each the lowest band at the bottom
/// and the first column at the left. A column on which no second is marked shows
/// nothing else, where the labels of the ticks are short enough to end left of
/// the panels.
pub proof fn each_panel_shows_its_own(page: Page, c: Canvas, x: int, band: int, row: int)
    requires
        page.wf(),
        page.short_ticks(),
        c.shows(paper(), page.strokes()),
        c.width() == 1288,
        c.height() == page.page_height(),
        0 <= x < 1080,
        0 <= band < page.bands,
        0 <= row < 3,
        forall|i: int| 0 <= i < page.seconds.len() ==> (#[trigger] page.seconds@[i]).offset != x,
    ensures
        ({
            let tall = 3 * page.bands + 32;
            let y = (page.bands - 1 - band) * 3 + row;
            let at = x * page.bands + band;
            &&& c.at(76 + x, 72 + y) == page.engine@[at]
            &&& c.at(76 + x, 72 + tall + y) == page.reference@[at]
            &&& c.at(76 + x, 72 + 2 * tall + y) == page.difference@[at]
        }),
{
    let y = (page.bands - 1 - band) * 3 + row;
    page.tops();
    assert(0 <= y < page.bands * 3);
    page.a_cell_shows(0, x, band, row);
    page.a_cell_shows(1, x, band, row);
    page.a_cell_shows(2, x, band, row);
    assert(c.holds(76 + x, page.panel_top(0) + y));
    assert(c.holds(76 + x, page.panel_top(1) + y));
    assert(c.holds(76 + x, page.panel_top(2) + y));
}

/// Above each panel stands its title, in ink on paper.
pub proof fn each_panel_has_its_title(page: Page, c: Canvas, px: int, dy: int)
    requires
        page.wf(),
        page.short_ticks(),
        c.shows(paper(), page.strokes()),
        c.width() == 1288,
        c.height() == page.page_height(),
        76 <= px < 1156,
        0 <= dy < 14,
    ensures
        ({
            let tall = 3 * page.bands + 32;
            let difference = "DIFFERENCE  ENGINE MINUS REFERENCE  PLUS/MINUS "@ + page.range@
                + " DB"@;
            let said = |s: Seq<char>, y: int|
                if inked(76, y, s, 2, px, y + dy) {
                    ink()
                } else {
                    paper()
                };
            &&& c.at(px, 50 + dy) == said("ENGINE"@, 50)
            &&& c.at(px, 50 + tall + dy) == said("REFERENCE  SALAMANDER C5"@, 50 + tall)
            &&& c.at(px, 50 + 2 * tall + dy) == said(difference, 50 + 2 * tall)
        }),
{
    page.tops();
    page.a_title_shows(0, px, page.panel_top(0) - 22 + dy);
    page.a_title_shows(1, px, page.panel_top(1) - 22 + dy);
    page.a_title_shows(2, px, page.panel_top(2) - 22 + dy);
    assert(c.holds(px, page.panel_top(0) - 22 + dy));
    assert(c.holds(px, page.panel_top(1) - 22 + dy));
    assert(c.holds(px, page.panel_top(2) - 22 + dy));
}

impl Page {
    proof fn a_bar_shows(self, bar: Bar, base: Seq<Stroke>, y: int, k: int, row: int)
        requires
            0 <= row < bar.rows.len(),
            0 <= k < 14,
        ensures
            shown(paper(), base + bar.strokes(y), 1180 + k, y + row) == bar.rows@[row],
    {
        let (px, py) = (1180 + k, y + row);
        let h = bar.rows.len() as int;
        let rows = bar.row_strokes(y, h);
        let marks = bar_mark(y, 0, bar.top@) + bar_mark(y, h / 2, bar.middle@) + bar_mark(
            y,
            h - 1,
            bar.bottom@,
        );
        mark_is_past_the_bar(y, 0, bar.top@, px, py);
        mark_is_past_the_bar(y, h / 2, bar.middle@, px, py);
        mark_is_past_the_bar(y, h - 1, bar.bottom@, px, py);
        clear_together(bar_mark(y, 0, bar.top@), bar_mark(y, h / 2, bar.middle@), px, py);
        clear_together(
            bar_mark(y, 0, bar.top@) + bar_mark(y, h / 2, bar.middle@),
            bar_mark(y, h - 1, bar.bottom@),
            px,
            py,
        );
        assert(base + bar.strokes(y) =~= base + rows + marks);
        clear_strokes_show_nothing(paper(), base + rows, marks, px, py);
        let all = base + rows;
        assert(all[base.len() + row] == rows[row]);
        assert forall|i: int| base.len() + row < i < all.len() implies !(#[trigger] all[i]).covers(
            px,
            py,
        ) by {
            assert(all[i] == rows[i - base.len()]);
        }
        the_last_cover_shows(paper(), all, base.len() + row, px, py);
    }

    proof fn a_bar_is_clear_elsewhere(self, bar: Bar, y: int, px: int, py: int)
        requires
            bar.rows.len() >= 1,
            py < y - 3 || py >= y + bar.rows.len() + 4,
        ensures
            clear(bar.strokes(y), px, py),
    {
        let h = bar.rows.len() as int;
        let rows = bar.row_strokes(y, h);
        assert(clear(rows, px, py)) by {
            assert forall|i: int| 0 <= i < rows.len() implies !(#[trigger] rows[i]).covers(
                px,
                py,
            ) by {}
        }
        mark_is_beside_its_row(y, 0, bar.top@, px, py);
        mark_is_beside_its_row(y, h / 2, bar.middle@, px, py);
        mark_is_beside_its_row(y, h - 1, bar.bottom@, px, py);
        clear_together(rows, bar_mark(y, 0, bar.top@), px, py);
        clear_together(
            rows + bar_mark(y, 0, bar.top@),
            bar_mark(y, h / 2, bar.middle@),
            px,
            py,
        );
        clear_together(
            rows + bar_mark(y, 0, bar.top@) + bar_mark(y, h / 2, bar.middle@),
            bar_mark(y, h - 1, bar.bottom@),
            px,
            py,
        );
    }
}

proof fn mark_is_past_the_bar(y: int, row: int, label: Seq<char>, px: int, py: int)
    requires
        px < 1194,
    ensures
        clear(bar_mark(y, row, label), px, py),
{
    text_is_clear(BAR_X + BAR_W + 7, y + row - 3, label, 1, dim(), px, py);
    let m = bar_mark(y, row, label);
    assert forall|i: int| 0 <= i < m.len() implies !(#[trigger] m[i]).covers(px, py) by {
        if i == 0 {
        } else {
            assert(i == 1);
        }
    }
}

proof fn mark_is_beside_its_row(y: int, row: int, label: Seq<char>, px: int, py: int)
    requires
        py < y + row - 3 || py >= y + row + 4,
    ensures
        clear(bar_mark(y, row, label), px, py),
{
    text_is_clear(BAR_X + BAR_W + 7, y + row - 3, label, 1, dim(), px, py);
    let m = bar_mark(y, row, label);
    assert forall|i: int| 0 <= i < m.len() implies !(#[trigger] m[i]).covers(px, py) by {
        if i == 0 {
        } else {
            assert(i == 1);
        }
    }
}

/// The bar of the levels stands beside the engine's panel and that of the
/// differences beside the difference's, row by row from the top.
pub proof fn each_bar_stands_beside_its_panel(page: Page, c: Canvas, k: int, row: int)
    requires
        page.wf(),
        c.shows(paper(), page.strokes()),
        c.width() == 1288,
        c.height() == page.page_height(),
        0 <= k < 14,
        0 <= row < 3 * page.bands,
    ensures
        c.at(1180 + k, 72 + row) == page.level_bar.rows@[row],
        c.at(1180 + k, 72 + 2 * (3 * page.bands + 32) + row) == page.difference_bar.rows@[row],
{
    let foot = seq![
        Stroke::Text {
            x: MARGIN_L + PLOT_W / 2 - 30,
            y: MARGIN_T + 3 * (PANEL_GAP + page.panel_height()) + 20,
            s: "SECONDS"@,
            scale: 1,
            c: dim(),
        },
    ];
    let top = seq![
        Stroke::Text { x: MARGIN_L as int, y: 12, s: page.heading@, scale: 2, c: ink() },
    ];
    let d = top + page.panel_strokes(0) + page.panel_strokes(1) + page.panel_strokes(2) + foot;
    let low = MARGIN_T + PANEL_GAP;
    let e = d + page.level_bar.strokes(low);
    assert(page.strokes() == e + page.difference_bar.strokes(page.panel_top(2)));
    page.tops();
    assert(page.level_bar.rows.len() == 3 * page.bands);
    assert(page.difference_bar.rows.len() == 3 * page.bands);
    page.a_bar_shows(page.level_bar, d, low, k, row);
    page.a_bar_is_clear_elsewhere(page.difference_bar, page.panel_top(2), 1180 + k, 72 + row);
    clear_strokes_show_nothing(
        paper(),
        e,
        page.difference_bar.strokes(page.panel_top(2)),
        1180 + k,
        72 + row,
    );
    page.a_bar_shows(page.difference_bar, e, page.panel_top(2), k, row);
    assert(c.holds(1180 + k, 72 + row));
    assert(c.holds(1180 + k, page.panel_top(2) + row));
}

} // verus!
