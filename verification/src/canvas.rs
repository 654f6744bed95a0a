//! A small font and the surface it is drawn on.

use vstd::prelude::*;

verus! {

/// A pixel's colour.
#[derive(Clone, Copy, Debug, PartialEq, Eq, Structural)]
pub struct Colour {
    pub red: u8,
    pub green: u8,
    pub blue: u8,
}

/// The five columns of a glyph, left to right; bit 0 of a column is its top
/// row.
pub type Columns = (u8, u8, u8, u8, u8);

/// The 5x7 uppercase font. A character that it lacks is a blank.
pub open spec fn font(ch: char) -> Columns {
    match ch {
        '!' => (0x00, 0x00, 0x5f, 0x00, 0x00),
        '(' => (0x00, 0x1c, 0x22, 0x41, 0x00),
        ')' => (0x00, 0x41, 0x22, 0x1c, 0x00),
        '+' => (0x08, 0x08, 0x3e, 0x08, 0x08),
        ',' => (0x00, 0x50, 0x30, 0x00, 0x00),
        '-' => (0x08, 0x08, 0x08, 0x08, 0x08),
        '.' => (0x00, 0x60, 0x60, 0x00, 0x00),
        '/' => (0x20, 0x10, 0x08, 0x04, 0x02),
        '0' => (0x3e, 0x51, 0x49, 0x45, 0x3e),
        '1' => (0x00, 0x42, 0x7f, 0x40, 0x00),
        '2' => (0x42, 0x61, 0x51, 0x49, 0x46),
        '3' => (0x21, 0x41, 0x45, 0x4b, 0x31),
        '4' => (0x18, 0x14, 0x12, 0x7f, 0x10),
        '5' => (0x27, 0x45, 0x45, 0x45, 0x39),
        '6' => (0x3c, 0x4a, 0x49, 0x49, 0x30),
        '7' => (0x01, 0x71, 0x09, 0x05, 0x03),
        '8' => (0x36, 0x49, 0x49, 0x49, 0x36),
        '9' => (0x06, 0x49, 0x49, 0x29, 0x1e),
        ':' => (0x00, 0x36, 0x36, 0x00, 0x00),
        '<' => (0x08, 0x14, 0x22, 0x41, 0x00),
        '>' => (0x00, 0x41, 0x22, 0x14, 0x08),
        'A' => (0x7e, 0x11, 0x11, 0x11, 0x7e),
        'B' => (0x7f, 0x49, 0x49, 0x49, 0x36),
        'C' => (0x3e, 0x41, 0x41, 0x41, 0x22),
        'D' => (0x7f, 0x41, 0x41, 0x22, 0x1c),
        'E' => (0x7f, 0x49, 0x49, 0x49, 0x41),
        'F' => (0x7f, 0x09, 0x09, 0x01, 0x01),
        'G' => (0x3e, 0x41, 0x49, 0x49, 0x7a),
        'H' => (0x7f, 0x08, 0x08, 0x08, 0x7f),
        'I' => (0x00, 0x41, 0x7f, 0x41, 0x00),
        'J' => (0x20, 0x40, 0x41, 0x3f, 0x01),
        'K' => (0x7f, 0x08, 0x14, 0x22, 0x41),
        'L' => (0x7f, 0x40, 0x40, 0x40, 0x40),
        'M' => (0x7f, 0x02, 0x0c, 0x02, 0x7f),
        'N' => (0x7f, 0x04, 0x08, 0x10, 0x7f),
        'O' => (0x3e, 0x41, 0x41, 0x41, 0x3e),
        'P' => (0x7f, 0x09, 0x09, 0x09, 0x06),
        'Q' => (0x3e, 0x41, 0x51, 0x21, 0x5e),
        'R' => (0x7f, 0x09, 0x19, 0x29, 0x46),
        'S' => (0x46, 0x49, 0x49, 0x49, 0x31),
        'T' => (0x01, 0x01, 0x7f, 0x01, 0x01),
        'U' => (0x3f, 0x40, 0x40, 0x40, 0x3f),
        'V' => (0x1f, 0x20, 0x40, 0x20, 0x1f),
        'W' => (0x7f, 0x20, 0x18, 0x20, 0x7f),
        'X' => (0x63, 0x14, 0x08, 0x14, 0x63),
        'Y' => (0x03, 0x04, 0x78, 0x04, 0x03),
        'Z' => (0x61, 0x51, 0x49, 0x45, 0x43),
        '_' => (0x40, 0x40, 0x40, 0x40, 0x40),
        _ => (0x00, 0x00, 0x00, 0x00, 0x00),
    }
}

/// The 5x7 uppercase font. A character that it lacks is a blank.
pub fn glyph(ch: char) -> (r: Columns)
    ensures
        r == font(ch),
{
    match ch {
        '!' => (0x00, 0x00, 0x5f, 0x00, 0x00),
        '(' => (0x00, 0x1c, 0x22, 0x41, 0x00),
        ')' => (0x00, 0x41, 0x22, 0x1c, 0x00),
        '+' => (0x08, 0x08, 0x3e, 0x08, 0x08),
        ',' => (0x00, 0x50, 0x30, 0x00, 0x00),
        '-' => (0x08, 0x08, 0x08, 0x08, 0x08),
        '.' => (0x00, 0x60, 0x60, 0x00, 0x00),
        '/' => (0x20, 0x10, 0x08, 0x04, 0x02),
        '0' => (0x3e, 0x51, 0x49, 0x45, 0x3e),
        '1' => (0x00, 0x42, 0x7f, 0x40, 0x00),
        '2' => (0x42, 0x61, 0x51, 0x49, 0x46),
        '3' => (0x21, 0x41, 0x45, 0x4b, 0x31),
        '4' => (0x18, 0x14, 0x12, 0x7f, 0x10),
        '5' => (0x27, 0x45, 0x45, 0x45, 0x39),
        '6' => (0x3c, 0x4a, 0x49, 0x49, 0x30),
        '7' => (0x01, 0x71, 0x09, 0x05, 0x03),
        '8' => (0x36, 0x49, 0x49, 0x49, 0x36),
        '9' => (0x06, 0x49, 0x49, 0x29, 0x1e),
        ':' => (0x00, 0x36, 0x36, 0x00, 0x00),
        '<' => (0x08, 0x14, 0x22, 0x41, 0x00),
        '>' => (0x00, 0x41, 0x22, 0x14, 0x08),
        'A' => (0x7e, 0x11, 0x11, 0x11, 0x7e),
        'B' => (0x7f, 0x49, 0x49, 0x49, 0x36),
        'C' => (0x3e, 0x41, 0x41, 0x41, 0x22),
        'D' => (0x7f, 0x41, 0x41, 0x22, 0x1c),
        'E' => (0x7f, 0x49, 0x49, 0x49, 0x41),
        'F' => (0x7f, 0x09, 0x09, 0x01, 0x01),
        'G' => (0x3e, 0x41, 0x49, 0x49, 0x7a),
        'H' => (0x7f, 0x08, 0x08, 0x08, 0x7f),
        'I' => (0x00, 0x41, 0x7f, 0x41, 0x00),
        'J' => (0x20, 0x40, 0x41, 0x3f, 0x01),
        'K' => (0x7f, 0x08, 0x14, 0x22, 0x41),
        'L' => (0x7f, 0x40, 0x40, 0x40, 0x40),
        'M' => (0x7f, 0x02, 0x0c, 0x02, 0x7f),
        'N' => (0x7f, 0x04, 0x08, 0x10, 0x7f),
        'O' => (0x3e, 0x41, 0x41, 0x41, 0x3e),
        'P' => (0x7f, 0x09, 0x09, 0x09, 0x06),
        'Q' => (0x3e, 0x41, 0x51, 0x21, 0x5e),
        'R' => (0x7f, 0x09, 0x19, 0x29, 0x46),
        'S' => (0x46, 0x49, 0x49, 0x49, 0x31),
        'T' => (0x01, 0x01, 0x7f, 0x01, 0x01),
        'U' => (0x3f, 0x40, 0x40, 0x40, 0x3f),
        'V' => (0x1f, 0x20, 0x40, 0x20, 0x1f),
        'W' => (0x7f, 0x20, 0x18, 0x20, 0x7f),
        'X' => (0x63, 0x14, 0x08, 0x14, 0x63),
        'Y' => (0x03, 0x04, 0x78, 0x04, 0x03),
        'Z' => (0x61, 0x51, 0x49, 0x45, 0x43),
        '_' => (0x40, 0x40, 0x40, 0x40, 0x40),
        _ => (0x00, 0x00, 0x00, 0x00, 0x00),
    }
}

/// `ch` with the letters a to z made capital.
pub open spec fn capital(ch: char) -> char {
    if 'a' <= ch <= 'z' {
        (ch as int - 32) as char
    } else {
        ch
    }
}

/// One column of a glyph.
pub open spec fn column(g: Columns, col: int) -> u8 {
    if col == 0 {
        g.0
    } else if col == 1 {
        g.1
    } else if col == 2 {
        g.2
    } else if col == 3 {
        g.3
    } else {
        g.4
    }
}

/// Whether a column has a dot in `row`.
pub open spec fn dotted(bits: u8, row: int) -> bool {
    (bits >> (row as u8)) & 1u8 == 1u8
}

/// Whether character `i` of `s` has a dot at `col`, `row`.
pub open spec fn dot_of(s: Seq<char>, i: int, col: int, row: int) -> bool {
    &&& 0 <= i < s.len()
    &&& 0 <= col < 5
    &&& 0 <= row < 7
    &&& dotted(column(font(capital(s[i])), col), row)
}

/// Whether the pixel `px`, `py` lies in the box.
pub open spec fn in_box(x: int, y: int, w: int, h: int, px: int, py: int) -> bool {
    x <= px < x + w && y <= py < y + h
}

/// Whether `px`, `py` lies in the square of that dot, for text that starts at
/// `x`, `y` with characters six dots apart and dots `scale` pixels wide.
pub open spec fn in_dot(x: int, y: int, scale: int, i: int, col: int, row: int, px: int, py: int) -> bool {
    in_box(x + (6 * i + col) * scale, y + row * scale, scale, scale, px, py)
}

/// Whether the text puts ink on `px`, `py`.
pub open spec fn inked(x: int, y: int, s: Seq<char>, scale: int, px: int, py: int) -> bool {
    exists|i: int, col: int, row: int| #[trigger]
        dot_of(s, i, col, row) && in_dot(x, y, scale, i, col, row, px, py)
}

/// Something that is drawn in one colour.
pub ghost enum Stroke {
    Box { x: int, y: int, w: int, h: int, c: Colour },
    Text { x: int, y: int, s: Seq<char>, scale: int, c: Colour },
}

impl Stroke {
    /// Whether the stroke covers `px`, `py`.
    pub open spec fn covers(self, px: int, py: int) -> bool {
        match self {
            Stroke::Box { x, y, w, h, c } => in_box(x, y, w, h, px, py),
            Stroke::Text { x, y, s, scale, c } => inked(x, y, s, scale, px, py),
        }
    }

    pub open spec fn colour(self) -> Colour {
        match self {
            Stroke::Box { x, y, w, h, c } => c,
            Stroke::Text { x, y, s, scale, c } => c,
        }
    }
}

/// The colour at `px`, `py` of a sheet of `paper` on which `strokes` were
/// drawn in turn: that of the last stroke that covers it.
pub open spec fn shown(paper: Colour, strokes: Seq<Stroke>, px: int, py: int) -> Colour
    decreases strokes.len(),
{
    if strokes.len() == 0 {
        paper
    } else if strokes.last().covers(px, py) {
        strokes.last().colour()
    } else {
        shown(paper, strokes.drop_last(), px, py)
    }
}

/// A drawing surface of `w` by `h` pixels, row by row from the top.
pub struct Canvas {
    w: usize,
    h: usize,
    px: Vec<Colour>,
}

impl Canvas {
    pub closed spec fn width(self) -> int {
        self.w as int
    }

    pub closed spec fn height(self) -> int {
        self.h as int
    }

    /// There is one colour for each pixel.
    pub closed spec fn wf(self) -> bool {
        self.px.len() == self.w * self.h
    }

    /// The colour of a pixel.
    pub closed spec fn at(self, x: int, y: int) -> Colour {
        self.px@[y * self.w + x]
    }

    /// Whether a pixel is on the surface.
    pub open spec fn holds(self, x: int, y: int) -> bool {
        0 <= x < self.width() && 0 <= y < self.height()
    }

    /// The pixels that `area` names have become `c`, on a surface of the same
    /// size, and no other pixel has changed.
    pub open spec fn repainted(self, after: Canvas, area: spec_fn(int, int) -> bool, c: Colour) -> bool {
        &&& after.wf()
        &&& after.width() == self.width()
        &&& after.height() == self.height()
        &&& forall|x: int, y: int|
            self.holds(x, y) ==> #[trigger] after.at(x, y) == (if area(x, y) {
                c
            } else {
                self.at(x, y)
            })
    }

    /// Every pixel is what a sheet of `paper` with `strokes` on it shows.
    pub open spec fn shows(self, paper: Colour, strokes: Seq<Stroke>) -> bool {
        &&& self.wf()
        &&& forall|x: int, y: int|
            self.holds(x, y) ==> #[trigger] self.at(x, y) == shown(paper, strokes, x, y)
    }

    /// A surface of one colour.
    pub fn new(w: usize, h: usize, fill: Colour) -> (r: Canvas)
        requires
            w * h <= usize::MAX,
        ensures
            r.wf(),
            r.width() == w,
            r.height() == h,
            forall|x: int, y: int| r.holds(x, y) ==> #[trigger] r.at(x, y) == fill,
            r.shows(fill, Seq::empty()),
    {
        let n: usize = w * h;
        let mut px: Vec<Colour> = Vec::new();
        let mut i: usize = 0;
        while i < n
            invariant
                i <= n,
                px.len() == i,
                forall|k: int| 0 <= k < i ==> px@[k] == fill,
            decreases n - i,
        {
            px.push(fill);
            i = i + 1;
        }
        let r = Canvas { w, h, px };
        proof {
            assert forall|x: int, y: int| r.holds(x, y) implies #[trigger] r.at(x, y) == fill by {
                cell_in_range(x, y, w as int, h as int);
            }
        }
        r
    }

    pub fn wide(&self) -> (r: usize)
        ensures
            r == self.width(),
    {
        self.w
    }

    pub fn high(&self) -> (r: usize)
        ensures
            r == self.height(),
    {
        self.h
    }

    /// The colour of a pixel that is on the surface.
    pub fn get(&self, x: usize, y: usize) -> (r: Colour)
        requires
            self.wf(),
            self.holds(x as int, y as int),
        ensures
            r == self.at(x as int, y as int),
    {
        proof {
            cell_in_range(x as int, y as int, self.w as int, self.h as int);
            row_in_range(y as int, self.w as int, self.h as int);
        }
        self.px[y * self.w + x]
    }

    /// Paints one pixel; a pixel off the surface is ignored.
    pub fn set(&mut self, x: usize, y: usize, c: Colour)
        requires
            old(self).wf(),
        ensures
            old(self).repainted(*final(self), |px: int, py: int| px == x && py == y, c),
    {
        if x >= self.w || y >= self.h {
            return;
        }
        proof {
            cell_in_range(x as int, y as int, self.w as int, self.h as int);
            row_in_range(y as int, self.w as int, self.h as int);
        }
        let i: usize = y * self.w + x;
        self.px.set(i, c);
        proof {
            let before = *old(self);
            assert forall|px: int, py: int| before.holds(px, py) implies #[trigger] self.at(px, py) == (
            if px == x && py == y {
                c
            } else {
                before.at(px, py)
            }) by {
                cell_in_range(px, py, self.w as int, self.h as int);
                if py * self.w + px == y * self.w + x {
                    cells_differ(px, py, x as int, y as int, self.w as int);
                }
            }
        }
    }

    /// Paints the part of a box that is on the surface.
    pub fn rect(&mut self, x: usize, y: usize, w: usize, h: usize, c: Colour)
        requires
            old(self).wf(),
            x + w <= usize::MAX,
            y + h <= usize::MAX,
        ensures
            old(self).repainted(
                *final(self),
                |px: int, py: int| in_box(x as int, y as int, w as int, h as int, px, py),
                c,
            ),
    {
        let bottom: usize = if y + h < self.h {
            y + h
        } else {
            self.h
        };
        let right: usize = if x + w < self.w {
            x + w
        } else {
            self.w
        };
        let ghost before = *self;
        let mut yy: usize = y;
        while yy < bottom
            invariant
                before.wf(),
                self.wf(),
                self.width() == before.width(),
                self.height() == before.height(),
                y <= yy,
                yy <= bottom || yy == y,
                bottom <= before.height(),
                bottom <= y + h,
                bottom == y + h || bottom == before.height(),
                right == x + w || right == before.width(),
                right <= before.width(),
                right <= x + w,
                forall|px: int, py: int|
                    before.holds(px, py) ==> #[trigger] self.at(px, py) == (if x <= px < x + w && y
                        <= py < yy {
                        c
                    } else {
                        before.at(px, py)
                    }),
            decreases bottom - yy,
        {
            let ghost rows = *self;
            let mut xx: usize = x;
            while xx < right
                invariant
                    rows.wf(),
                    self.wf(),
                    self.width() == rows.width(),
                    self.height() == rows.height(),
                    x <= xx,
                    xx <= right || xx == x,
                    right <= rows.width(),
                    right <= x + w,
                    yy < rows.height(),
                    forall|px: int, py: int|
                        rows.holds(px, py) ==> #[trigger] self.at(px, py) == (if x <= px < xx && py
                            == yy {
                            c
                        } else {
                            rows.at(px, py)
                        }),
                decreases right - xx,
            {
                let ghost step = *self;
                self.set(xx, yy, c);
                proof {
                    assert forall|px: int, py: int| rows.holds(px, py) implies #[trigger] self.at(
                        px,
                        py,
                    ) == (if x <= px < xx + 1 && py == yy {
                        c
                    } else {
                        rows.at(px, py)
                    }) by {
                        assert(step.holds(px, py));
                    }
                }
                xx = xx + 1;
            }
            proof {
                assert forall|px: int, py: int| before.holds(px, py) implies #[trigger] self.at(px, py)
                    == (if x <= px < x + w && y <= py < yy + 1 {
                    c
                } else {
                    before.at(px, py)
                }) by {
                    assert(rows.holds(px, py));
                }
            }
            yy = yy + 1;
        }
    }

    /// Writes text in the 5x7 font, its letters made capital, with characters
    /// six dots apart and dots `scale` pixels wide.
    #[verifier::spinoff_prover]
    pub fn text(&mut self, x: usize, y: usize, s: &str, scale: usize, c: Colour)
        requires
            old(self).wf(),
            x + 6 * s@.len() * scale <= usize::MAX,
            y + 7 * scale <= usize::MAX,
            6 * scale <= usize::MAX,
        ensures
            old(self).repainted(
                *final(self),
                |px: int, py: int| inked(x as int, y as int, s@, scale as int, px, py),
                c,
            ),
    {
        let ghost before = *self;
        let n: usize = s.unicode_len();
        let mut i: usize = 0;
        let mut cx: usize = x;
        proof {
            assert(6 * 0 * scale == 0) by (nonlinear_arith);
        }
        while i < n
            invariant
                n == s@.len(),
                i <= n,
                cx == x + 6 * i * scale,
                x + 6 * n * scale <= usize::MAX,
                y + 7 * scale <= usize::MAX,
                6 * scale <= usize::MAX,
                before.repainted(
                    *self,
                    |px: int, py: int| inked_before(x as int, y as int, s@, scale as int, i as int, 0, 0, px, py),
                    c,
                ),
            decreases n - i,
        {
            proof {
                assert(6 * (i + 1) * scale == 6 * i * scale + 6 * scale) by (nonlinear_arith);
                assert(6 * (i + 1) * scale <= 6 * n * scale) by (nonlinear_arith)
                    requires
                        i + 1 <= n,
                        0 <= scale,
                ;
            }
            let g = glyph(upper(s.get_char(i)));
            let mut col: usize = 0;
            while col < 5
                invariant
                    n == s@.len(),
                    i < n,
                    col <= 5,
                    cx == x + 6 * i * scale,
                    cx + 6 * scale <= usize::MAX,
                    y + 7 * scale <= usize::MAX,
                    g == font(capital(s@[i as int])),
                    before.repainted(
                        *self,
                        |px: int, py: int| inked_before(x as int, y as int, s@, scale as int, i as int, col as int, 0, px, py),
                        c,
                    ),
                decreases 5 - col,
            {
                let bits: u8 = if col == 0 {
                    g.0
                } else if col == 1 {
                    g.1
                } else if col == 2 {
                    g.2
                } else if col == 3 {
                    g.3
                } else {
                    g.4
                };
                let mut row: u8 = 0;
                while row < 7
                    invariant
                        n == s@.len(),
                        i < n,
                        col < 5,
                        row <= 7,
                        cx == x + 6 * i * scale,
                        cx + 6 * scale <= usize::MAX,
                        y + 7 * scale <= usize::MAX,
                        bits == column(font(capital(s@[i as int])), col as int),
                        before.repainted(
                            *self,
                            |px: int, py: int| inked_before(x as int, y as int, s@, scale as int, i as int, col as int, row as int, px, py),
                            c,
                        ),
                    decreases 7 - row,
                {
                    let ghost step = *self;
                    if (bits >> row) & 1u8 == 1u8 {
                        proof {
                            assert(col * scale + scale <= 6 * scale) by (nonlinear_arith)
                                requires
                                    col <= 4,
                                    0 <= scale,
                            ;
                            assert(row * scale + scale <= 7 * scale) by (nonlinear_arith)
                                requires
                                    row <= 6,
                                    0 <= scale,
                            ;
                            assert(x + 6 * i * scale + col * scale == x + (6 * i + col) * scale)
                                by (nonlinear_arith);
                        }
                        self.rect(cx + col * scale, y + row as usize * scale, scale, scale, c);
                    }
                    proof {
                        assert forall|px: int, py: int| before.holds(px, py) implies #[trigger] self.at(
                            px,
                            py,
                        ) == (if inked_before(
                            x as int,
                            y as int,
                            s@,
                            scale as int,
                            i as int,
                            col as int,
                            row + 1,
                            px,
                            py,
                        ) {
                            c
                        } else {
                            before.at(px, py)
                        }) by {
                            assert(step.holds(px, py));
                            assert(step.at(px, py) == step.at(px, py));
                            one_more_dot(
                                x as int,
                                y as int,
                                s@,
                                scale as int,
                                i as int,
                                col as int,
                                row as int,
                                px,
                                py,
                            );
                        }
                    }
                    row = row + 1;
                }
                proof {
                    assert forall|px: int, py: int| before.holds(px, py) implies #[trigger] self.at(
                        px,
                        py,
                    ) == (if inked_before(
                        x as int,
                        y as int,
                        s@,
                        scale as int,
                        i as int,
                        col + 1,
                        0,
                        px,
                        py,
                    ) {
                        c
                    } else {
                        before.at(px, py)
                    }) by {
                        one_more_column(
                            x as int,
                            y as int,
                            s@,
                            scale as int,
                            i as int,
                            col as int,
                            px,
                            py,
                        );
                    }
                }
                col = col + 1;
            }
            proof {
                assert forall|px: int, py: int| before.holds(px, py) implies #[trigger] self.at(px, py)
                    == (if inked_before(
                    x as int,
                    y as int,
                    s@,
                    scale as int,
                    i + 1,
                    0,
                    0,
                    px,
                    py,
                ) {
                    c
                } else {
                    before.at(px, py)
                }) by {
                    one_more_character(x as int, y as int, s@, scale as int, i as int, px, py);
                }
            }
            cx = cx + 6 * scale;
            i = i + 1;
        }
        proof {
            assert forall|px: int, py: int| before.holds(px, py) implies #[trigger] self.at(px, py)
                == (if inked(x as int, y as int, s@, scale as int, px, py) {
                c
            } else {
                before.at(px, py)
            }) by {
                all_dots(x as int, y as int, s@, scale as int, px, py);
            }
        }
    }

    /// Writes text that ends at `x`, or starts at 0 where it is longer.
    pub fn text_right(&mut self, x: usize, y: usize, s: &str, scale: usize, c: Colour)
        requires
            old(self).wf(),
            x + 6 * s@.len() * scale <= usize::MAX,
            y + 7 * scale <= usize::MAX,
            6 * scale <= usize::MAX,
        ensures
            old(self).repainted(
                *final(self),
                |px: int, py: int|
                    inked(right_start(x as int, s@, scale as int), y as int, s@, scale as int, px, py),
                c,
            ),
    {
        let n: usize = s.unicode_len();
        proof {
            assert(6 * n * scale == n * (6 * scale)) by (nonlinear_arith);
        }
        let wide: usize = n * (6 * scale);
        let start: usize = if x >= wide {
            x - wide
        } else {
            0
        };
        self.text(start, y, s, scale, c);
    }

    /// The pixels as bytes: red, green and blue of each, row by row.
    pub fn bytes(&self) -> (r: Vec<u8>)
        requires
            self.wf(),
        ensures
            r@ == stream_of(self.raster()),
    {
        let mut out: Vec<u8> = Vec::new();
        let mut i: usize = 0;
        proof {
            assert(self.px@.take(0) =~= Seq::<Colour>::empty());
        }
        while i < self.px.len()
            invariant
                i <= self.px.len(),
                out@ == stream_of(self.px@.take(i as int)),
            decreases self.px.len() - i,
        {
            let c = self.px[i];
            proof {
                assert(self.px@.take(i + 1).drop_last() =~= self.px@.take(i as int));
                assert(self.px@.take(i + 1).last() == c);
            }
            out.push(c.red);
            out.push(c.green);
            out.push(c.blue);
            i = i + 1;
        }
        proof {
            assert(self.px@.take(i as int) =~= self.px@);
            assert forall|k: int| 0 <= k < self.w * self.h implies self.px@[k] == #[trigger] self.at(
                k % self.width(),
                k / self.width(),
            ) by {
                index_splits(k, self.w as int, self.h as int);
            }
            assert(self.px@ =~= self.raster());
        }
        out
    }

    /// The pixels, row by row from the top.
    pub open spec fn raster(self) -> Seq<Colour> {
        Seq::new(
            (self.width() * self.height()) as nat,
            |i: int| self.at(i % self.width(), i / self.width()),
        )
    }
}

/// Red, green and blue of each colour in turn.
pub open spec fn stream_of(px: Seq<Colour>) -> Seq<u8>
    decreases px.len(),
{
    if px.len() == 0 {
        Seq::empty()
    } else {
        stream_of(px.drop_last()).push(px.last().red).push(px.last().green).push(px.last().blue)
    }
}

/// Where text that ends at `x` starts.
pub open spec fn right_start(x: int, s: Seq<char>, scale: int) -> int {
    if x >= 6 * s.len() * scale {
        x - 6 * s.len() * scale
    } else {
        0
    }
}

/// `ch` with the letters a to z made capital.
pub fn upper(ch: char) -> (r: char)
    ensures
        r == capital(ch),
{
    if 'a' <= ch && ch <= 'z' {
        (ch as u8 - 32) as char
    } else {
        ch
    }
}

/// A dot that comes before dot `row` of column `col` of character `i`.
spec fn drawn(i: int, col: int, row: int, a: int, b: int, e: int) -> bool {
    a < i || (a == i && (b < col || (b == col && e < row)))
}

/// Whether the dots before that one put ink on `px`, `py`.
spec fn inked_before(x: int, y: int, s: Seq<char>, scale: int, i: int, col: int, row: int, px: int, py: int) -> bool {
    exists|a: int, b: int, e: int| #[trigger]
        dot_of(s, a, b, e) && drawn(i, col, row, a, b, e) && in_dot(x, y, scale, a, b, e, px, py)
}

proof fn one_more_dot(x: int, y: int, s: Seq<char>, scale: int, i: int, col: int, row: int, px: int, py: int)
    requires
        0 <= i < s.len(),
        0 <= col < 5,
        0 <= row < 7,
    ensures
        inked_before(x, y, s, scale, i, col, row + 1, px, py) == (inked_before(x, y, s, scale, i, col, row, px, py)
            || (dot_of(s, i, col, row) && in_dot(x, y, scale, i, col, row, px, py))),
{
    if inked_before(x, y, s, scale, i, col, row, px, py) {
        let (a, b, e) = choose|a: int, b: int, e: int| #[trigger]
            dot_of(s, a, b, e) && drawn(i, col, row, a, b, e) && in_dot(x, y, scale, a, b, e, px, py);
        assert(dot_of(s, a, b, e) && drawn(i, col, row + 1, a, b, e));
    }
    if dot_of(s, i, col, row) && in_dot(x, y, scale, i, col, row, px, py) {
        assert(drawn(i, col, row + 1, i, col, row));
    }
}

proof fn one_more_column(x: int, y: int, s: Seq<char>, scale: int, i: int, col: int, px: int, py: int)
    ensures
        inked_before(x, y, s, scale, i, col + 1, 0, px, py) == inked_before(x, y, s, scale, i, col, 7, px, py),
{
    if inked_before(x, y, s, scale, i, col, 7, px, py) {
        let (a, b, e) = choose|a: int, b: int, e: int| #[trigger]
            dot_of(s, a, b, e) && drawn(i, col, 7, a, b, e) && in_dot(x, y, scale, a, b, e, px, py);
        assert(dot_of(s, a, b, e) && drawn(i, col + 1, 0, a, b, e));
    }
    if inked_before(x, y, s, scale, i, col + 1, 0, px, py) {
        let (a, b, e) = choose|a: int, b: int, e: int| #[trigger]
            dot_of(s, a, b, e) && drawn(i, col + 1, 0, a, b, e) && in_dot(x, y, scale, a, b, e, px, py);
        assert(dot_of(s, a, b, e) && drawn(i, col, 7, a, b, e));
    }
}

proof fn one_more_character(x: int, y: int, s: Seq<char>, scale: int, i: int, px: int, py: int)
    ensures
        inked_before(x, y, s, scale, i + 1, 0, 0, px, py) == inked_before(x, y, s, scale, i, 5, 0, px, py),
{
    if inked_before(x, y, s, scale, i, 5, 0, px, py) {
        let (a, b, e) = choose|a: int, b: int, e: int| #[trigger]
            dot_of(s, a, b, e) && drawn(i, 5, 0, a, b, e) && in_dot(x, y, scale, a, b, e, px, py);
        assert(dot_of(s, a, b, e) && drawn(i + 1, 0, 0, a, b, e));
    }
    if inked_before(x, y, s, scale, i + 1, 0, 0, px, py) {
        let (a, b, e) = choose|a: int, b: int, e: int| #[trigger]
            dot_of(s, a, b, e) && drawn(i + 1, 0, 0, a, b, e) && in_dot(x, y, scale, a, b, e, px, py);
        assert(dot_of(s, a, b, e) && drawn(i, 5, 0, a, b, e));
    }
}

proof fn all_dots(x: int, y: int, s: Seq<char>, scale: int, px: int, py: int)
    ensures
        inked(x, y, s, scale, px, py) == inked_before(x, y, s, scale, s.len() as int, 0, 0, px, py),
{
    if inked(x, y, s, scale, px, py) {
        let (a, b, e) = choose|a: int, b: int, e: int| #[trigger]
            dot_of(s, a, b, e) && in_dot(x, y, scale, a, b, e, px, py);
        assert(dot_of(s, a, b, e) && drawn(s.len() as int, 0, 0, a, b, e));
    }
}

proof fn cell_in_range(x: int, y: int, w: int, h: int)
    requires
        0 <= x < w,
        0 <= y < h,
    ensures
        0 <= y * w + x < w * h,
{
    assert(y * w + x < w * h) by (nonlinear_arith)
        requires
            0 <= x < w,
            0 <= y < h,
    ;
    assert(0 <= y * w) by (nonlinear_arith)
        requires
            0 <= y,
            0 <= w,
    ;
}

proof fn row_in_range(y: int, w: int, h: int)
    requires
        0 <= y < h,
        0 <= w,
    ensures
        0 <= y * w <= w * h,
{
    assert(0 <= y * w <= w * h) by (nonlinear_arith)
        requires
            0 <= y < h,
            0 <= w,
    ;
}

proof fn cells_differ(x1: int, y1: int, x2: int, y2: int, w: int)
    requires
        0 <= x1 < w,
        0 <= x2 < w,
        y1 * w + x1 == y2 * w + x2,
    ensures
        x1 == x2,
        y1 == y2,
{
    assert(y1 == y2) by (nonlinear_arith)
        requires
            0 <= x1 < w,
            0 <= x2 < w,
            y1 * w + x1 == y2 * w + x2,
    ;
}

proof fn index_splits(k: int, w: int, h: int)
    requires
        0 <= k < w * h,
        0 <= w,
        0 <= h,
    ensures
        w > 0,
        0 <= k % w < w,
        0 <= k / w < h,
        (k / w) * w + k % w == k,
{
    assert(w > 0) by (nonlinear_arith)
        requires
            0 <= k < w * h,
            0 <= w,
            0 <= h,
    ;
    assert(0 <= k % w < w && 0 <= k / w < h && (k / w) * w + k % w == k) by (nonlinear_arith)
        requires
            0 <= k < w * h,
            0 < w,
    ;
}

/// A sheet that shows some strokes shows one more of them once that stroke's
/// area has been repainted in its colour.
pub proof fn one_more_stroke(
    before: Canvas,
    after: Canvas,
    area: spec_fn(int, int) -> bool,
    paper: Colour,
    strokes: Seq<Stroke>,
    stroke: Stroke,
)
    requires
        before.shows(paper, strokes),
        before.repainted(after, area, stroke.colour()),
        forall|x: int, y: int| area(x, y) == stroke.covers(x, y),
    ensures
        after.shows(paper, strokes.push(stroke)),
{
    assert(strokes.push(stroke).drop_last() =~= strokes);
    assert forall|x: int, y: int| after.holds(x, y) implies #[trigger] after.at(x, y) == shown(
        paper,
        strokes.push(stroke),
        x,
        y,
    ) by {
        assert(before.holds(x, y));
        assert(before.at(x, y) == shown(paper, strokes, x, y));
        assert(area(x, y) == stroke.covers(x, y));
    }
}

/// Ink never lies left of or above where the text starts, nor past the last
/// character's cell or the seventh row.
pub proof fn ink_stays_in_its_box(x: int, y: int, s: Seq<char>, scale: int, px: int, py: int)
    requires
        scale >= 0,
        inked(x, y, s, scale, px, py),
    ensures
        in_box(x, y, 6 * s.len() * scale, 7 * scale, px, py),
{
    let (i, col, row) = choose|i: int, col: int, row: int| #[trigger]
        dot_of(s, i, col, row) && in_dot(x, y, scale, i, col, row, px, py);
    let n = s.len() as int;
    assert(0 <= (6 * i + col) * scale && (6 * i + col) * scale + scale <= 6 * n * scale)
        by (nonlinear_arith)
        requires
            0 <= i < n,
            0 <= col < 5,
            0 <= scale,
    ;
    assert(0 <= row * scale && row * scale + scale <= 7 * scale) by (nonlinear_arith)
        requires
            0 <= row < 7,
            0 <= scale,
    ;
}

} // verus!
