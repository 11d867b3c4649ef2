//! The terminal canvas model: a character grid with per-cell colour
//! indices, resized, filled and block-copied by the pairing collaborator.
//! The connection engine itself never inspects it; it is pure data
//! manipulation.
use vstd::prelude::*;

use vstd::arithmetic::mul::lemma_mul_upper_bound;

verus! {

/// A 24-bit colour.
#[derive(Debug, Copy, Clone, PartialEq, Eq, Structural)]
pub struct Color {
    pub r: u8,
    pub g: u8,
    pub b: u8,
}

impl Default for Color {
    /// Black.
    fn default() -> (c: Color)
        ensures
            c == (Color { r: 0, g: 0, b: 0 }),
    {
        Color { r: 0, g: 0, b: 0 }
    }
}

/// The sixteen palette slots a canvas cell's colour indices point into.
pub type Palette = [Color; 16];

/// A screen size in character cells; each side fits a byte.
#[derive(Debug, Copy, Clone, PartialEq, Eq, Structural)]
pub struct ScreenResolution {
    pub width: u8,
    pub height: u8,
}

impl ScreenResolution {
    /// The number of cells on the screen.
    pub fn area(&self) -> (r: usize)
        ensures
            r == self.width as int * self.height as int,
    {
        proof {
            lemma_mul_upper_bound(self.width as int, 255, self.height as int, 255);
        }
        self.width as usize * self.height as usize
    }
}

/// Whether the remote screen is lit.
#[derive(Debug, Copy, Clone, PartialEq, Eq, Structural)]
pub enum ScreenState {
    On,
    Off,
}

/// Whether the remote screen reports sub-cell pointer positions.
#[derive(Debug, Copy, Clone, PartialEq, Eq, Structural)]
pub enum PreciseMode {
    Precise,
    Imprecise,
}

/// One canvas cell: a character and its foreground and background palette
/// indices.
#[derive(Debug, Copy, Clone, PartialEq, Eq, Structural)]
pub struct Char {
    pub fg_idx: u8,
    pub bg_idx: u8,
    pub char: char,
}

impl Char {
    /// The cell a blank canvas is filled with.
    pub fn empty() -> (r: Char)
        ensures
            r == empty_char(),
    {
        Char { fg_idx: 255, bg_idx: 16, char: ' ' }
    }
}

/// The cell a blank canvas is filled with.
pub open spec fn empty_char() -> Char {
    Char { fg_idx: 255, bg_idx: 16, char: ' ' }
}

/// A row-major cell index is within the grid.
proof fn lemma_rm_bound(x: int, y: int, w: int, h: int)
    by (nonlinear_arith)
    requires
        0 <= x < w,
        0 <= y < h,
    ensures
        0 <= y * w + x < w * h,
{
}

/// Distinct coordinates have distinct row-major indices.
proof fn lemma_rm_inj(x1: int, y1: int, x2: int, y2: int, w: int)
    by (nonlinear_arith)
    requires
        0 <= x1 < w,
        0 <= x2 < w,
        0 <= y1,
        0 <= y2,
        y1 * w + x1 == y2 * w + x2,
    ensures
        x1 == x2 && y1 == y2,
{
}


/// `set` as a function on the raw grid: writes one cell, ignoring
/// coordinates off the `w` by `h` canvas.
pub open spec fn sset_grid(g: Seq<Char>, w: int, h: int, x: int, y: int, ch: Char) -> Seq<Char> {
    if 0 <= x < w && 0 <= y < h {
        g.update(y * w + x, ch)
    } else {
        g
    }
}

/// The blank cells a wide character's extra columns are padded with:
/// columns `x + 1` to `x + k - 1`, written left to right.
pub open spec fn spad_grid(g: Seq<Char>, w: int, h: int, x: int, y: int, k: int, sp: Char) -> Seq<
    Char,
>
    decreases k,
{
    if k <= 1 {
        g
    } else {
        sset_grid(spad_grid(g, w, h, x, y, k - 1, sp), w, h, x + (k - 1), y, sp)
    }
}

/// `set_string` as a function on the raw grid: each character is drawn at
/// the cursor in the given colours, a wide character first pads its extra
/// columns with spaces, and the cursor advances by the character's width
/// (or down one row when drawing vertically).  Meaningful when every
/// character's width is known.
pub open spec fn sset_string_grid(
    g: Seq<Char>,
    w: int,
    h: int,
    x: int,
    y: int,
    chars: Seq<char>,
    vertical: bool,
    fg: u8,
    bg: u8,
) -> Seq<Char>
    decreases chars.len(),
{
    if chars.len() == 0 {
        g
    } else {
        let k = width_of(chars[0]).unwrap() as int;
        let ch = Char { fg_idx: fg, bg_idx: bg, char: chars[0] };
        let sp = Char { fg_idx: fg, bg_idx: bg, char: ' ' };
        let g1 = if k > 1 {
            spad_grid(g, w, h, x, y, k, sp)
        } else {
            g
        };
        let g2 = sset_grid(g1, w, h, x, y, ch);
        if vertical {
            sset_string_grid(g2, w, h, x, y + 1, chars.drop_first(), vertical, fg, bg)
        } else {
            sset_string_grid(g2, w, h, x + k, y, chars.drop_first(), vertical, fg, bg)
        }
    }
}

/// The characters drawn before the first one whose width is unknown: the
/// longest prefix of known-width characters.
pub open spec fn known_width_prefix(chars: Seq<char>) -> int
    decreases chars.len(),
{
    if chars.len() == 0 {
        0
    } else if width_of(chars[0]) is None {
        0
    } else {
        1 + known_width_prefix(chars.drop_first())
    }
}

/// A cursor already off the canvas stays off it, so nothing more is drawn.
proof fn lemma_fold_offscreen(
    g: Seq<Char>,
    w: int,
    h: int,
    x: int,
    y: int,
    chars: Seq<char>,
    vertical: bool,
    fg: u8,
    bg: u8,
)
    requires
        x >= w || y >= h,
        y >= 0,
    ensures
        sset_string_grid(g, w, h, x, y, chars, vertical, fg, bg) == g,
    decreases chars.len(),
{
    if chars.len() > 0 {
        let k = width_of(chars[0]).unwrap() as int;
        let sp = Char { fg_idx: fg, bg_idx: bg, char: ' ' };
        lemma_pad_offscreen(g, w, h, x, y, k, sp);
        if vertical {
            lemma_fold_offscreen(g, w, h, x, y + 1, chars.drop_first(), vertical, fg, bg);
        } else {
            lemma_fold_offscreen(g, w, h, x + k, y, chars.drop_first(), vertical, fg, bg);
        }
    }
}

/// Padding at an off-canvas cursor writes nothing.
proof fn lemma_pad_offscreen(g: Seq<Char>, w: int, h: int, x: int, y: int, k: int, sp: Char)
    requires
        x >= w || y >= h,
        y >= 0,
    ensures
        spad_grid(g, w, h, x, y, k, sp) == g,
    decreases k,
{
    if k > 1 {
        lemma_pad_offscreen(g, w, h, x, y, k - 1, sp);
    }
}


/// The longest known-width prefix is well formed: it is a prefix, every
/// character in it has a known width, and the character after it (if any)
/// has none.
proof fn lemma_known_width_prefix_facts(chars: Seq<char>)
    ensures
        0 <= known_width_prefix(chars) <= chars.len(),
        forall|i: int|
            0 <= i < known_width_prefix(chars) ==> width_of(#[trigger] chars[i]) is Some,
        known_width_prefix(chars) < chars.len() ==> width_of(
            chars[known_width_prefix(chars)],
        ) is None,
    decreases chars.len(),
{
    if chars.len() > 0 && width_of(chars[0]) is Some {
        lemma_known_width_prefix_facts(chars.drop_first());
        assert forall|i: int|
            0 <= i < known_width_prefix(chars) implies width_of(#[trigger] chars[i]) is Some by {
            if i > 0 {
                assert(chars[i] == chars.drop_first()[i - 1]);
            }
        }
    }
}

/// The displayed width of a character, in columns, or `None` for a control
/// character; a fixed function of the character alone.
pub uninterp spec fn width_of(c: char) -> Option<usize>;

/// Relies on `unicode_width::UnicodeWidthChar::width`: the character's
/// displayed width in columns, `None` for a control character; it depends
/// on the character alone.
#[verifier::external_body]
fn char_width(c: char) -> (r: Option<usize>)
    ensures
        r == width_of(c),
{
    unicode_width::UnicodeWidthChar::width(c)
}


/// The character grid, stored row-major, with the current drawing colours.
#[derive(Debug, Clone)]
pub struct Canvas {
    pub canvas: Vec<Char>,
    pub resolution: ScreenResolution,
    pub fg: u8,
    pub bg: u8,
}

impl Canvas {
    /// The grid holds exactly one cell for every coordinate of the
    /// resolution.
    pub open spec fn wf(&self) -> bool {
        self.canvas@.len() == self.resolution.width as int * self.resolution.height as int
    }

    /// The cell at column `x`, row `y`.
    pub open spec fn cell(&self, x: int, y: int) -> Char
        recommends
            self.wf(),
            0 <= x < self.resolution.width,
            0 <= y < self.resolution.height,
    {
        self.canvas@[y * self.resolution.width as int + x]
    }

    /// A blank canvas of the given resolution, drawing white on black
    /// palette indices.
    pub fn new(resolution: ScreenResolution) -> (r: Canvas)
        ensures
            r.wf(),
            r.resolution == resolution,
            r.fg == 255,
            r.bg == 16,
            forall|x: int, y: int|
                0 <= x < resolution.width && 0 <= y < resolution.height ==> r.cell(x, y)
                    == empty_char(),
    {
        let mut canvas = Canvas {
            canvas: Vec::with_capacity(resolution.area()),
            resolution,
            fg: 255,
            bg: 16,
        };
        canvas.initial_chars();
        proof {
            assert forall|x: int, y: int|
                0 <= x < resolution.width && 0 <= y < resolution.height implies canvas.cell(x, y)
                == empty_char() by {
                lemma_rm_bound(x, y, resolution.width as int, resolution.height as int);
            }
        }
        canvas
    }

    /// Fills a still-empty grid with blank cells, one per coordinate.
    fn initial_chars(&mut self)
        ensures
            final(self).resolution == old(self).resolution,
            final(self).fg == old(self).fg,
            final(self).bg == old(self).bg,
            old(self).canvas@.len() == 0 ==> final(self).wf() && (forall|i: int|
                0 <= i < final(self).canvas@.len() ==> final(self).canvas@[i] == empty_char()),
            old(self).canvas@.len() != 0 ==> final(self).canvas@ == old(self).canvas@,
    {
        if self.canvas.len() != 0 {
            return ;
        }
        let n = self.resolution.area();
        let mut i: usize = 0;
        while i < n
            invariant
                i <= n,
                self.canvas@.len() == i,
                self.resolution == old(self).resolution,
                self.fg == old(self).fg,
                self.bg == old(self).bg,
                n == self.resolution.width as int * self.resolution.height as int,
                forall|k: int| 0 <= k < i ==> self.canvas@[k] == empty_char(),
            decreases n - i,
        {
            self.canvas.push(Char::empty());
            i += 1;
        }
    }

    /// The cell at `(x, y)`; the coordinates must be on the canvas.
    pub fn get(&self, x: u8, y: u8) -> (r: &Char)
        requires
            self.wf(),
            x < self.resolution.width,
            y < self.resolution.height,
        ensures
            *r == self.cell(x as int, y as int),
    {
        proof {
            lemma_rm_bound(
                x as int,
                y as int,
                self.resolution.width as int,
                self.resolution.height as int,
            );
            lemma_mul_upper_bound(y as int, 255, self.resolution.width as int, 255);
        }
        &self.canvas[y as usize * self.resolution.width as usize + x as usize]
    }

    /// Writes one cell; coordinates off the canvas are ignored.
    pub fn set(&mut self, x: u8, y: u8, char: Char)
        requires
            old(self).wf(),
        ensures
            final(self).wf(),
            final(self).resolution == old(self).resolution,
            final(self).fg == old(self).fg,
            final(self).bg == old(self).bg,
            x < old(self).resolution.width && y < old(self).resolution.height ==> final(self).cell(
                x as int,
                y as int,
            ) == char,
            forall|a: int, b: int|
                0 <= a < old(self).resolution.width && 0 <= b < old(self).resolution.height && !(a
                    == x as int && b == y as int) ==> final(self).cell(a, b) == old(self).cell(
                    a,
                    b,
                ),
            final(self).canvas@ == sset_grid(
                old(self).canvas@,
                old(self).resolution.width as int,
                old(self).resolution.height as int,
                x as int,
                y as int,
                char,
            ),
    {
        if x < self.resolution.width && y < self.resolution.height {
            proof {
                lemma_rm_bound(
                    x as int,
                    y as int,
                    self.resolution.width as int,
                    self.resolution.height as int,
                );
                lemma_mul_upper_bound(y as int, 255, self.resolution.width as int, 255);
            }
            let idx = y as usize * self.resolution.width as usize + x as usize;
            let slot = &mut self.canvas[idx];
            *slot = char;
            proof {
                assert forall|a: int, b: int|
                    0 <= a < old(self).resolution.width && 0 <= b < old(self).resolution.height
                        && !(a == x as int && b == y as int) implies self.cell(a, b) == old(
                    self,
                ).cell(a, b) by {
                    lemma_rm_bound(
                        a,
                        b,
                        self.resolution.width as int,
                        self.resolution.height as int,
                    );
                    if b * self.resolution.width as int + a == y as int
                        * self.resolution.width as int + x as int {
                        lemma_rm_inj(a, b, x as int, y as int, self.resolution.width as int);
                    }
                }
            }
        }
    }

    /// Fills the rectangle at `(x, y)` of size `w` by `h`, clipped to the
    /// canvas, with the character `c` in the current drawing colours.
    pub fn fill(&mut self, x: u8, y: u8, w: u8, h: u8, c: char)
        requires
            old(self).wf(),
        ensures
            final(self).wf(),
            final(self).resolution == old(self).resolution,
            final(self).fg == old(self).fg,
            final(self).bg == old(self).bg,
            forall|a: int, b: int|
                0 <= a < old(self).resolution.width && 0 <= b < old(self).resolution.height
                    ==> final(self).cell(a, b) == if x <= a < x + w && a
                    < old(self).resolution.width && y <= b < y + h && b
                    < old(self).resolution.height {
                    (Char { fg_idx: old(self).fg, bg_idx: old(self).bg, char: c })
                } else {
                    old(self).cell(a, b)
                },
    {
        if x > self.resolution.width || y > self.resolution.height {
            return ;
        }
        let w2: usize = if x as usize + (w as usize) > self.resolution.width as usize {
            (self.resolution.width - x) as usize
        } else {
            w as usize
        };
        let h2: usize = if y as usize + (h as usize) > self.resolution.height as usize {
            (self.resolution.height - y) as usize
        } else {
            h as usize
        };
        let ch = Char { fg_idx: self.fg, bg_idx: self.bg, char: c };
        let mut j: usize = 0;
        while j < h2
            invariant
                self.wf(),
                self.resolution == old(self).resolution,
                self.fg == old(self).fg,
                self.bg == old(self).bg,
                j <= h2,
                x <= self.resolution.width,
                y <= self.resolution.height,
                x + w2 <= self.resolution.width,
                y + h2 <= self.resolution.height,
                w2 == if x + w > self.resolution.width {
                    self.resolution.width - x
                } else {
                    w as int
                },
                h2 == if y + h > self.resolution.height {
                    self.resolution.height - y
                } else {
                    h as int
                },
                forall|a: int, b: int|
                    0 <= a < self.resolution.width && 0 <= b < self.resolution.height
                        ==> self.cell(a, b) == if x <= a < x + w2 && y <= b < y + j {
                        ch
                    } else {
                        old(self).cell(a, b)
                    },
            decreases h2 - j,
        {
            let mut i: usize = 0;
            while i < w2
                invariant
                    self.wf(),
                    self.resolution == old(self).resolution,
                    self.fg == old(self).fg,
                    self.bg == old(self).bg,
                    i <= w2,
                    j < h2,
                    x <= self.resolution.width,
                    y <= self.resolution.height,
                    x + w2 <= self.resolution.width,
                    y + h2 <= self.resolution.height,
                    forall|a: int, b: int|
                        0 <= a < self.resolution.width && 0 <= b < self.resolution.height
                            ==> self.cell(a, b) == if x <= a < x + w2 && y <= b < y + j {
                            ch
                        } else if y + j == b && x <= a < x + i {
                            ch
                        } else {
                            old(self).cell(a, b)
                        },
                decreases w2 - i,
            {
                let xx = (x as usize + i) as u8;
                let yy = (y as usize + j) as u8;
                self.set(xx, yy, ch);
                i += 1;
            }
            j += 1;
        }
    }


    /// Changes the resolution, keeping every cell both grids share and
    /// blanking the rest.
    pub fn resize(&mut self, resolution: ScreenResolution)
        requires
            old(self).wf(),
        ensures
            final(self).wf(),
            final(self).resolution == resolution,
            final(self).fg == old(self).fg,
            final(self).bg == old(self).bg,
            forall|a: int, b: int|
                0 <= a < resolution.width && 0 <= b < resolution.height ==> final(self).cell(a, b)
                    == if a < old(self).resolution.width && b < old(self).resolution.height {
                    old(self).cell(a, b)
                } else {
                    empty_char()
                },
    {
        let mut fresh = Canvas::new(resolution);
        let w2: usize = if self.resolution.width < resolution.width {
            self.resolution.width as usize
        } else {
            resolution.width as usize
        };
        let h2: usize = if self.resolution.height < resolution.height {
            self.resolution.height as usize
        } else {
            resolution.height as usize
        };
        let mut b: usize = 0;
        while b < h2
            invariant
                old(self).wf(),
                *self == *old(self),
                fresh.wf(),
                fresh.resolution == resolution,
                b <= h2,
                w2 <= self.resolution.width,
                w2 <= resolution.width,
                h2 <= self.resolution.height,
                h2 <= resolution.height,
                w2 == if self.resolution.width < resolution.width {
                    self.resolution.width as int
                } else {
                    resolution.width as int
                },
                h2 == if self.resolution.height < resolution.height {
                    self.resolution.height as int
                } else {
                    resolution.height as int
                },
                forall|p: int, q: int|
                    0 <= p < resolution.width && 0 <= q < resolution.height ==> fresh.cell(p, q)
                        == if p < w2 && q < b {
                        old(self).cell(p, q)
                    } else {
                        empty_char()
                    },
            decreases h2 - b,
        {
            let mut a: usize = 0;
            while a < w2
                invariant
                    old(self).wf(),
                    *self == *old(self),
                    fresh.wf(),
                    fresh.resolution == resolution,
                    a <= w2,
                    b < h2,
                    w2 <= self.resolution.width,
                    w2 <= resolution.width,
                    h2 <= self.resolution.height,
                    h2 <= resolution.height,
                    forall|p: int, q: int|
                        0 <= p < resolution.width && 0 <= q < resolution.height ==> fresh.cell(
                            p,
                            q,
                        ) == if (p < w2 && q < b) || (q == b && p < a) {
                            old(self).cell(p, q)
                        } else {
                            empty_char()
                        },
                decreases w2 - a,
            {
                let c = *self.get(a as u8, b as u8);
                fresh.set(a as u8, b as u8, c);
                a += 1;
            }
            b += 1;
        }
        let ghost fz = fresh;
        self.canvas = fresh.canvas;
        self.resolution = resolution;
        proof {
            assert forall|a: int, b: int|
                0 <= a < resolution.width && 0 <= b < resolution.height implies self.cell(a, b)
                == (if a < old(self).resolution.width && b < old(self).resolution.height {
                old(self).cell(a, b)
            } else {
                empty_char()
            }) by {
                assert(self.cell(a, b) == fz.cell(a, b));
            }
        }
    }

    /// Copies the `w` by `h` block at `(x, y)`, clipped to the canvas, to
    /// the block displaced by `(tx, ty)`; the regions may overlap, and
    /// destination cells off the canvas are dropped.
    pub fn copy(&mut self, x: u8, y: u8, w: u8, h: u8, tx: u8, ty: u8)
        requires
            old(self).wf(),
        ensures
            final(self).wf(),
            final(self).resolution == old(self).resolution,
            final(self).fg == old(self).fg,
            final(self).bg == old(self).bg,
            forall|a: int, b: int|
                0 <= a < old(self).resolution.width && 0 <= b < old(self).resolution.height
                    ==> final(self).cell(a, b) == if x + tx <= a < x + tx + w && a - tx
                    < old(self).resolution.width && y + ty <= b < y + ty + h && b - ty
                    < old(self).resolution.height && x <= a - tx && y <= b - ty {
                    old(self).cell(a - tx, b - ty)
                } else {
                    old(self).cell(a, b)
                },
    {
        if x > self.resolution.width || y > self.resolution.height {
            return ;
        }
        let w2: usize = if x as usize + (w as usize) > self.resolution.width as usize {
            (self.resolution.width - x) as usize
        } else {
            w as usize
        };
        let h2: usize = if y as usize + (h as usize) > self.resolution.height as usize {
            (self.resolution.height - y) as usize
        } else {
            h as usize
        };
        let mut region: Vec<Vec<Char>> = Vec::new();
        let mut j: usize = 0;
        while j < h2
            invariant
                self.wf(),
                j <= h2,
                x + w2 <= self.resolution.width,
                y + h2 <= self.resolution.height,
                region@.len() == j,
                forall|q: int|
                    0 <= q < j ==> (#[trigger] region@[q])@.len() == w2,
                forall|p: int, q: int|
                    #![trigger region@[q]@[p]]
                    0 <= q < j && 0 <= p < w2 ==> region@[q]@[p] == self.cell(x + p, y + q),
            decreases h2 - j,
        {
            let mut row: Vec<Char> = Vec::new();
            let mut i: usize = 0;
            while i < w2
                invariant
                    self.wf(),
                    i <= w2,
                    j < h2,
                    x + w2 <= self.resolution.width,
                    y + h2 <= self.resolution.height,
                    row@.len() == i,
                    forall|p: int| 0 <= p < i ==> row@[p] == self.cell(x + p, y + j),
                decreases w2 - i,
            {
                row.push(*self.get((x as usize + i) as u8, (y as usize + j) as u8));
                i += 1;
            }
            region.push(row);
            j += 1;
        }
        let ghost snap = *self;
        let mut j: usize = 0;
        while j < h2
            invariant
                self.wf(),
                self.resolution == snap.resolution,
                self.fg == snap.fg,
                self.bg == snap.bg,
                j <= h2,
                x + w2 <= self.resolution.width,
                y + h2 <= self.resolution.height,
                w2 == if x + w > self.resolution.width {
                    self.resolution.width - x
                } else {
                    w as int
                },
                h2 == if y + h > self.resolution.height {
                    self.resolution.height - y
                } else {
                    h as int
                },
                region@.len() == h2,
                forall|q: int|
                    0 <= q < h2 ==> (#[trigger] region@[q])@.len() == w2,
                forall|p: int, q: int|
                    #![trigger region@[q]@[p]]
                    0 <= q < h2 && 0 <= p < w2 ==> region@[q]@[p] == snap.cell(x + p, y + q),
                forall|a: int, b: int|
                    0 <= a < self.resolution.width && 0 <= b < self.resolution.height
                        ==> self.cell(a, b) == if x + tx <= a < x + tx + w2 && y + ty <= b < y + ty
                        + j {
                        snap.cell(a - tx, b - ty)
                    } else {
                        snap.cell(a, b)
                    },
            decreases h2 - j,
        {
            let mut i: usize = 0;
            while i < w2
                invariant
                    self.wf(),
                    self.resolution == snap.resolution,
                    self.fg == snap.fg,
                    self.bg == snap.bg,
                    i <= w2,
                    j < h2,
                    x + w2 <= self.resolution.width,
                    y + h2 <= self.resolution.height,
                    region@.len() == h2,
                    forall|q: int|
                        0 <= q < h2 ==> (#[trigger] region@[q])@.len() == w2,
                    forall|p: int, q: int|
                        #![trigger region@[q]@[p]]
                        0 <= q < h2 && 0 <= p < w2 ==> region@[q]@[p] == snap.cell(x + p, y + q),
                    forall|a: int, b: int|
                        0 <= a < self.resolution.width && 0 <= b < self.resolution.height
                            ==> self.cell(a, b) == if (x + tx <= a < x + tx + w2 && y + ty <= b < y
                            + ty + j) || (b == y + ty + j && x + tx <= a < x + tx + i) {
                            snap.cell(a - tx, b - ty)
                        } else {
                            snap.cell(a, b)
                        },
                decreases w2 - i,
            {
                let xx = x as usize + tx as usize + i;
                let yy = y as usize + ty as usize + j;
                let v = region[j][i];
                if xx < self.resolution.width as usize && yy < self.resolution.height as usize {
                    self.set(xx as u8, yy as u8, v);
                }
                i += 1;
            }
            j += 1;
        }
    }


    /// Draws a string starting at `(x, y)` in the current colours, left to
    /// right, or top to bottom when `vertical`; a wide character pads its
    /// extra columns with spaces, cells off the canvas are dropped, and
    /// drawing stops at the first character whose width is unknown (a
    /// control character).
    pub fn set_string(&mut self, x: u8, y: u8, chars: String, vertical: bool)
        requires
            old(self).wf(),
        ensures
            final(self).wf(),
            final(self).resolution == old(self).resolution,
            final(self).fg == old(self).fg,
            final(self).bg == old(self).bg,
            x > old(self).resolution.width || y > old(self).resolution.height
                ==> final(self).canvas@ == old(self).canvas@,
            x <= old(self).resolution.width && y <= old(self).resolution.height
                ==> final(self).canvas@ == sset_string_grid(
                old(self).canvas@,
                old(self).resolution.width as int,
                old(self).resolution.height as int,
                x as int,
                y as int,
                chars@.take(known_width_prefix(chars@)),
                vertical,
                old(self).fg,
                old(self).bg,
            ),
    {
        if x > self.resolution.width || y > self.resolution.height {
            return ;
        }
        let w = self.resolution.width;
        let h = self.resolution.height;
        let fg = self.fg;
        let bg = self.bg;
        proof {
            lemma_known_width_prefix_facts(chars@);
        }
        let ghost kp = known_width_prefix(chars@);
        let ghost pref = chars@.take(kp);
        let ghost goal = sset_string_grid(
            old(self).canvas@,
            w as int,
            h as int,
            x as int,
            y as int,
            pref,
            vertical,
            fg,
            bg,
        );
        let n = chars.as_str().unicode_len();
        let mut cx: usize = x as usize;
        let mut cy: usize = y as usize;
        let mut k: usize = 0;
        proof {
            assert(pref.skip(0) =~= pref);
        }
        loop
            invariant_except_break
                goal == sset_string_grid(
                    self.canvas@,
                    w as int,
                    h as int,
                    cx as int,
                    cy as int,
                    pref.skip(k as int),
                    vertical,
                    fg,
                    bg,
                ),
            invariant
                self.wf(),
                self.resolution == old(self).resolution,
                self.fg == old(self).fg,
                self.bg == old(self).bg,
                w == self.resolution.width,
                h == self.resolution.height,
                fg == self.fg,
                bg == self.bg,
                n == chars@.len(),
                kp == known_width_prefix(chars@),
                pref == chars@.take(kp),
                0 <= kp <= n,
                forall|i: int| 0 <= i < kp ==> width_of(#[trigger] chars@[i]) is Some,
                kp < n ==> width_of(chars@[kp]) is None,
                k <= kp,
                cx < 512,
                cy < 512,
            ensures
                self.wf(),
                self.resolution == old(self).resolution,
                self.fg == old(self).fg,
                self.bg == old(self).bg,
                self.canvas@ == goal,
            decreases kp - k,
        {
            proof {
                assert(pref.skip(k as int).len() == kp - k);
            }
            if k >= n {
                proof {
                    assert(pref.skip(k as int) =~= Seq::<char>::empty());
                }
                break ;
            }
            if cx >= w as usize || cy >= h as usize {
                proof {
                    lemma_fold_offscreen(
                        self.canvas@,
                        w as int,
                        h as int,
                        cx as int,
                        cy as int,
                        pref.skip(k as int),
                        vertical,
                        fg,
                        bg,
                    );
                }
                break ;
            }
            let c = chars.as_str().get_char(k);
            let wd_opt = char_width(c);
            match wd_opt {
                None => {
                    proof {
                        assert(k == kp);
                        assert(pref.skip(k as int) =~= Seq::<char>::empty());
                    }
                    break ;
                },
                Some(wd) => {
                    proof {
                        assert(k < kp);
                        assert(pref.skip(k as int)[0] == chars@[k as int]);
                        assert(pref.skip(k as int).drop_first() =~= pref.skip(k as int + 1));
                    }
                    let ghost g_start = self.canvas@;
                    let ghost sp_g = (Char { fg_idx: fg, bg_idx: bg, char: ' ' });
                    if wd > 1 {
                        let sp = Char { fg_idx: fg, bg_idx: bg, char: ' ' };
                        let mut i: usize = 1;
                        while i < wd
                            invariant
                                self.wf(),
                                self.resolution == old(self).resolution,
                                self.fg == old(self).fg,
                                self.bg == old(self).bg,
                                w == self.resolution.width,
                                h == self.resolution.height,
                                sp == sp_g,
                                1 <= i <= wd,
                                cx < w,
                                cy < h,
                                self.canvas@ == spad_grid(
                                    g_start,
                                    w as int,
                                    h as int,
                                    cx as int,
                                    cy as int,
                                    i as int,
                                    sp,
                                ),
                            decreases wd - i,
                        {
                            if i <= 255 && cx + i < w as usize {
                                self.set((cx + i) as u8, cy as u8, sp);
                            } else {
                                proof {
                                    assert(cx as int + i as int >= w as int);
                                }
                            }
                            i += 1;
                        }
                    }
                    let ch = Char { fg_idx: fg, bg_idx: bg, char: c };
                    self.set(cx as u8, cy as u8, ch);
                    proof {
                        assert(width_of(pref.skip(k as int)[0]).unwrap() == wd);
                    }
                    if vertical {
                        cy += 1;
                    } else {
                        if wd >= 256 {
                            proof {
                                lemma_fold_offscreen(
                                    self.canvas@,
                                    w as int,
                                    h as int,
                                    cx as int + wd as int,
                                    cy as int,
                                    pref.skip(k as int + 1),
                                    vertical,
                                    fg,
                                    bg,
                                );
                            }
                            break ;
                        }
                        cx += wd;
                    }
                    k += 1;
                },
            }
        }
        proof {
            assert(final(self).canvas@ == goal);
        }
    }

}

} // verus!
