//! The character raster behind the ASCII encoding of a canvas: a grid of
//! cells addressed by column and row, with lines, outlines, fills and text
//! drawn in cell coordinates, and its rendering as plain text.
//!
//! Where a canvas point falls on the grid is the encoder's business; the grid
//! works in whole cells, and anything drawn outside it is clipped.
use vstd::prelude::*;

use crate::text::{is_white_space, push_char, white_space};
use crate::view::{Anchor, LineStyle};

verus! {

broadcast use vstd::seq_lib::group_seq_properties;

/// Whether cell `(c, r)` lies on a `cols` x `rows` grid.
pub open spec fn in_grid(cols: int, rows: int, c: int, r: int) -> bool {
    0 <= c < cols && 0 <= r < rows
}

/// Row-major position of cell `(c, r)`.
pub open spec fn cell_index(cols: int, c: int, r: int) -> int {
    r * cols + c
}

/// The cells with `ch` written at `(c, r)` when that cell is on the grid.
pub open spec fn put_cells(cells: Seq<char>, cols: int, rows: int, c: int, r: int, ch: char) -> Seq<char> {
    if in_grid(cols, rows, c, r) {
        cells.update(cell_index(cols, c, r), ch)
    } else {
        cells
    }
}

/// Each on-grid cell has its own position, inside the grid's storage, and
/// every position is the cell of its row and column.
pub proof fn lemma_cell_index(cols: int, rows: int, c: int, r: int)
    requires
        in_grid(cols, rows, c, r),
    ensures
        0 <= cell_index(cols, c, r) < cols * rows,
        cell_index(cols, c, r) / cols == r,
        cell_index(cols, c, r) % cols == c,
{
    assert(0 <= r * cols) by (nonlinear_arith)
        requires
            0 <= r,
            0 < cols,
    ;
    assert(r * cols + c < cols * rows) by (nonlinear_arith)
        requires
            0 <= c < cols,
            0 <= r < rows,
    ;
    vstd::arithmetic::div_mod::lemma_fundamental_div_mod_converse(r * cols + c, cols, r, c);
}

/// A storage position is the cell of its row and column.
pub proof fn lemma_index_cell(cols: int, rows: int, idx: int)
    requires
        0 < cols,
        0 <= rows,
        0 <= idx < cols * rows,
    ensures
        in_grid(cols, rows, idx % cols, idx / cols),
        cell_index(cols, idx % cols, idx / cols) == idx,
{
    vstd::arithmetic::div_mod::lemma_fundamental_div_mod(idx, cols);
    assert(idx / cols < rows) by (nonlinear_arith)
        requires
            0 < cols,
            0 <= idx < cols * rows,
            idx == cols * (idx / cols) + idx % cols,
            0 <= idx % cols,
    ;
    assert(0 <= idx / cols) by (nonlinear_arith)
        requires
            0 < cols,
            0 <= idx,
    ;
    vstd::arithmetic::mul::lemma_mul_is_commutative(cols, idx / cols);
    vstd::arithmetic::div_mod::lemma_mod_bound(idx, cols);
}

/// A grid of characters, `cols` wide and `rows` high, stored row by row.
#[derive(Debug, Clone)]
pub struct CharGrid {
    pub cols: usize,
    pub rows: usize,
    pub cells: Vec<char>,
}

// ----------------------------------------------------------------------
// Lines
// ----------------------------------------------------------------------

/// Distance between `a` and `b` along one axis.
pub open spec fn span(a: int, b: int) -> int {
    if a <= b { b - a } else { a - b }
}

/// Where a walk from `a` towards `b` stands after `n` unit steps.
pub open spec fn toward(a: int, b: int, n: int) -> int {
    if a < b { a + n } else { a - n }
}

/// Bresenham's walk over a `dx` by `dy` span: after `k` steps, the steps
/// taken along x and along y and the error term. Each step moves along x
/// when twice the error exceeds `-dy` and along y when it is below `dx`;
/// the walk stays where it is once it has reached the far corner.
pub open spec fn walk(dx: int, dy: int, k: nat) -> (int, int, int)
    decreases k,
{
    if k == 0 {
        (0, 0, dx - dy)
    } else {
        let prev = walk(dx, dy, (k - 1) as nat);
        if prev.0 == dx && prev.1 == dy {
            prev
        } else {
            let e2 = 2 * prev.2;
            let i = if e2 > -dy { prev.0 + 1 } else { prev.0 };
            let e = if e2 > -dy { prev.2 - dy } else { prev.2 };
            let j = if e2 < dx { prev.1 + 1 } else { prev.1 };
            let e = if e2 < dx { e + dx } else { e };
            (i, j, e)
        }
    }
}

/// Whether the walk has reached the far corner after `k` steps.
pub open spec fn arrived(dx: int, dy: int, k: nat) -> bool {
    walk(dx, dy, k).0 == dx && walk(dx, dy, k).1 == dy
}

/// Whether step `k` of a line in `style` is inked: every step when solid,
/// two in three when dashed, every other one when dotted.
pub open spec fn inked(style: LineStyle, k: nat) -> bool {
    match style {
        LineStyle::Solid => true,
        LineStyle::Dashed => k % 3 != 2,
        LineStyle::Dotted => k % 2 == 0,
    }
}

/// Step `k` of the line from `(x0, y0)` to `(x1, y1)` is inked and stands
/// on cell `(c, r)`.
pub open spec fn inks_at(x0: int, y0: int, x1: int, y1: int, style: LineStyle, k: nat, c: int, r: int) -> bool {
    let w = walk(span(x0, x1), span(y0, y1), k);
    &&& inked(style, k)
    &&& toward(x0, x1, w.0) == c
    &&& toward(y0, y1, w.1) == r
}

/// Some step before the `n`-th inks cell `(c, r)`.
pub open spec fn inked_before(x0: int, y0: int, x1: int, y1: int, style: LineStyle, n: nat, c: int, r: int) -> bool {
    exists|k: nat| k < n && #[trigger] inks_at(x0, y0, x1, y1, style, k, c, r)
}

/// The line inks cell `(c, r)`: some inked step up to the one that reaches
/// the far end stands on it.
pub open spec fn on_line(x0: int, y0: int, x1: int, y1: int, style: LineStyle, c: int, r: int) -> bool {
    exists|k: nat|
        #[trigger] inks_at(x0, y0, x1, y1, style, k, c, r) && (k == 0 || !arrived(
            span(x0, x1),
            span(y0, y1),
            (k - 1) as nat,
        ))
}

/// The cells with `ch` written wherever the first `n` steps of the line ink.
pub open spec fn inked_cells(
    cells: Seq<char>,
    cols: int,
    x0: int,
    y0: int,
    x1: int,
    y1: int,
    style: LineStyle,
    ch: char,
    n: nat,
) -> Seq<char> {
    Seq::new(
        cells.len(),
        |idx: int| if inked_before(x0, y0, x1, y1, style, n, idx % cols, idx / cols) { ch } else { cells[idx] },
    )
}

/// The cells with a line from `(x0, y0)` to `(x1, y1)` drawn in `ch`.
pub open spec fn line_cells(
    cells: Seq<char>,
    cols: int,
    x0: int,
    y0: int,
    x1: int,
    y1: int,
    style: LineStyle,
    ch: char,
) -> Seq<char> {
    Seq::new(
        cells.len(),
        |idx: int| if on_line(x0, y0, x1, y1, style, idx % cols, idx / cols) { ch } else { cells[idx] },
    )
}

/// The character a line is drawn in: the one given, or else one that
/// follows its slope: `-` for shallow, `|` for steep, `\` or `/` between.
pub open spec fn line_char(ch: Option<char>, x0: int, y0: int, x1: int, y1: int) -> char {
    match ch {
        Some(c) => c,
        None => {
            let dx = span(x0, x1);
            let dy = span(y0, y1);
            if dx >= 2 * dy {
                '-'
            } else if dy >= 2 * dx {
                '|'
            } else if (x1 - x0) * (y1 - y0) > 0 {
                '\\'
            } else {
                '/'
            }
        },
    }
}

/// Bresenham's walk keeps its error term tied to the steps taken, never
/// passes the far corner, and moves on every step until it gets there.
pub proof fn lemma_walk(dx: int, dy: int, k: nat)
    requires
        dx >= 0,
        dy >= 0,
    ensures
        0 <= walk(dx, dy, k).0 <= dx,
        0 <= walk(dx, dy, k).1 <= dy,
        walk(dx, dy, k).2 == dx - dy + walk(dx, dy, k).1 * dx - walk(dx, dy, k).0 * dy,
        dx - 3 * dy <= 2 * walk(dx, dy, k).2 <= 3 * dx - dy,
        k > 0 && !arrived(dx, dy, (k - 1) as nat) ==> walk(dx, dy, k).0 + walk(dx, dy, k).1 > walk(
            dx,
            dy,
            (k - 1) as nat,
        ).0 + walk(dx, dy, (k - 1) as nat).1,
    decreases k,
{
    if k > 0 {
        lemma_walk(dx, dy, (k - 1) as nat);
        let (i, j, e) = walk(dx, dy, (k - 1) as nat);
        if !(i == dx && j == dy) {
            if i == dx {
                assert(dx * (1 + j - dy) <= 0) by (nonlinear_arith)
                    requires
                        dx >= 0,
                        j < dy,
                ;
                assert(e == dx * (1 + j - dy) - dy) by (nonlinear_arith)
                    requires
                        e == dx - dy + j * dx - i * dy,
                        i == dx,
                ;
            }
            if j == dy {
                assert(dy * (dx - i - 1) >= 0) by (nonlinear_arith)
                    requires
                        dy >= 0,
                        i < dx,
                ;
                assert(e == dx + dy * (dx - i - 1)) by (nonlinear_arith)
                    requires
                        e == dx - dy + j * dx - i * dy,
                        j == dy,
                ;
            }
            assert((i + 1) * dy == i * dy + dy) by (nonlinear_arith);
            assert((j + 1) * dx == j * dx + dx) by (nonlinear_arith);
        }
    }
}

/// Once the walk has reached the far corner it stays there.
pub proof fn lemma_arrived_stays(dx: int, dy: int, m: nat, n: nat)
    requires
        m <= n,
        arrived(dx, dy, m),
    ensures
        arrived(dx, dy, n),
        walk(dx, dy, n) == walk(dx, dy, m),
    decreases n - m,
{
    if n > m {
        lemma_arrived_stays(dx, dy, m, (n - 1) as nat);
    }
}

proof fn lemma_progress(dx: int, dy: int, k: nat)
    requires
        dx >= 0,
        dy >= 0,
    ensures
        arrived(dx, dy, k) || walk(dx, dy, k).0 + walk(dx, dy, k).1 >= k,
    decreases k,
{
    lemma_walk(dx, dy, k);
    if k > 0 {
        lemma_progress(dx, dy, (k - 1) as nat);
        if arrived(dx, dy, (k - 1) as nat) {
            lemma_arrived_stays(dx, dy, (k - 1) as nat, k);
        }
    }
}

/// The walk over a `dx` by `dy` span reaches its far corner within
/// `dx + dy` steps.
pub proof fn lemma_walk_arrives(dx: int, dy: int)
    requires
        dx >= 0,
        dy >= 0,
    ensures
        arrived(dx, dy, (dx + dy) as nat),
{
    lemma_progress(dx, dy, (dx + dy) as nat);
    lemma_walk(dx, dy, (dx + dy) as nat);
}

proof fn lemma_first_arrival(dx: int, dy: int, n: nat) -> (k: nat)
    requires
        arrived(dx, dy, n),
    ensures
        k <= n,
        arrived(dx, dy, k),
        k == 0 || !arrived(dx, dy, (k - 1) as nat),
    decreases n,
{
    if n == 0 || !arrived(dx, dy, (n - 1) as nat) {
        n
    } else {
        lemma_first_arrival(dx, dy, (n - 1) as nat)
    }
}

/// A solid line covers both of its end cells.
pub proof fn lemma_solid_line_ends(x0: int, y0: int, x1: int, y1: int)
    ensures
        on_line(x0, y0, x1, y1, LineStyle::Solid, x0, y0),
        on_line(x0, y0, x1, y1, LineStyle::Solid, x1, y1),
{
    let dx = span(x0, x1);
    let dy = span(y0, y1);
    assert(inks_at(x0, y0, x1, y1, LineStyle::Solid, 0, x0, y0));
    lemma_walk_arrives(dx, dy);
    let k = lemma_first_arrival(dx, dy, (dx + dy) as nat);
    assert(inks_at(x0, y0, x1, y1, LineStyle::Solid, k, x1, y1));
}

/// Every cell a line inks lies within the box spanned by its end cells.
pub proof fn lemma_line_in_box(x0: int, y0: int, x1: int, y1: int, style: LineStyle, c: int, r: int)
    requires
        on_line(x0, y0, x1, y1, style, c, r),
    ensures
        (x0 <= c <= x1) || (x1 <= c <= x0),
        (y0 <= r <= y1) || (y1 <= r <= y0),
{
    let k = choose|k: nat|
        #[trigger] inks_at(x0, y0, x1, y1, style, k, c, r) && (k == 0 || !arrived(
            span(x0, x1),
            span(y0, y1),
            (k - 1) as nat,
        ));
    lemma_walk(span(x0, x1), span(y0, y1), k);
}

/// Whether an integer fits in an `i64`.
pub open spec fn fits_i64(v: int) -> bool {
    i64::MIN <= v <= i64::MAX
}

/// Step `k` of the walk keeps its error term in an `i64`: twice the error,
/// the error after a step along x, and the error after the whole step.
pub open spec fn step_fits(dx: int, dy: int, k: nat) -> bool {
    let e = walk(dx, dy, k).2;
    &&& fits_i64(2 * e)
    &&& (2 * e > -dy ==> fits_i64(e - dy))
    &&& fits_i64(walk(dx, dy, k + 1).2)
}

/// Every step the walk takes before it reaches its far corner keeps its
/// error term in an `i64`.
pub open spec fn walk_fits(dx: int, dy: int) -> bool {
    forall|k: nat| !arrived(dx, dy, k) ==> #[trigger] step_fits(dx, dy, k)
}

/// Drawing a line from `(x0, y0)` to `(x1, y1)` stays in `i64` arithmetic:
/// its spans, the slope test that picks its character when none is given,
/// and every step of its walk.
pub open spec fn line_fits(x0: int, y0: int, x1: int, y1: int, ch: Option<char>) -> bool {
    let dx = span(x0, x1);
    let dy = span(y0, y1);
    &&& dx <= i64::MAX
    &&& dy <= i64::MAX
    &&& (ch is None ==> 2 * dy <= i64::MAX && (dx < 2 * dy ==> 2 * dx <= i64::MAX && (dy < 2 * dx ==> fits_i64(
        (x1 - x0) * (y1 - y0),
    ))))
    &&& walk_fits(dx, dy)
}

/// A line whose spans are at most a third of `i64::MAX` keeps every step
/// of its walk in `i64` arithmetic (and so fits, given a character or a
/// slope product that fits).
pub proof fn lemma_short_line_fits(x0: int, y0: int, x1: int, y1: int, ch: Option<char>)
    requires
        span(x0, x1) <= 0x2aaa_aaaa_aaaa_aaaa,
        span(y0, y1) <= 0x2aaa_aaaa_aaaa_aaaa,
        ch is None ==> fits_i64((x1 - x0) * (y1 - y0)),
    ensures
        line_fits(x0, y0, x1, y1, ch),
{
    let dx = span(x0, x1);
    let dy = span(y0, y1);
    assert forall|k: nat| !arrived(dx, dy, k) implies #[trigger] step_fits(dx, dy, k) by {
        lemma_walk(dx, dy, k);
        lemma_walk(dx, dy, k + 1);
    }
}

/// Inking step `n` of a line adds its cell to the cells inked before it.
proof fn lemma_ink_step(
    cells: Seq<char>,
    cols: int,
    rows: int,
    x0: int,
    y0: int,
    x1: int,
    y1: int,
    style: LineStyle,
    ch: char,
    n: nat,
)
    requires
        cols >= 1,
        rows >= 0,
        cells.len() == cols * rows,
    ensures
        ({
            let w = walk(span(x0, x1), span(y0, y1), n);
            let before = inked_cells(cells, cols, x0, y0, x1, y1, style, ch, n);
            let after = inked_cells(cells, cols, x0, y0, x1, y1, style, ch, n + 1);
            if inked(style, n) {
                put_cells(before, cols, rows, toward(x0, x1, w.0), toward(y0, y1, w.1), ch) == after
            } else {
                before == after
            }
        }),
{
    let w = walk(span(x0, x1), span(y0, y1), n);
    let (c, r) = (toward(x0, x1, w.0), toward(y0, y1, w.1));
    let before = inked_cells(cells, cols, x0, y0, x1, y1, style, ch, n);
    let after = inked_cells(cells, cols, x0, y0, x1, y1, style, ch, n + 1);
    assert forall|idx: int| 0 <= idx < cells.len() implies #[trigger] after[idx] == (if inked(style, n) {
        put_cells(before, cols, rows, c, r, ch)[idx]
    } else {
        before[idx]
    }) by {
        lemma_index_cell(cols, rows, idx);
        let (ic, ir) = (idx % cols, idx / cols);
        if inked_before(x0, y0, x1, y1, style, n, ic, ir) {
            let k = choose|k: nat| k < n && #[trigger] inks_at(x0, y0, x1, y1, style, k, ic, ir);
            assert(k < n + 1 && inks_at(x0, y0, x1, y1, style, k, ic, ir));
        }
        if inked_before(x0, y0, x1, y1, style, n + 1, ic, ir) {
            let k = choose|k: nat| k < n + 1 && #[trigger] inks_at(x0, y0, x1, y1, style, k, ic, ir);
            if k < n {
                assert(inked_before(x0, y0, x1, y1, style, n, ic, ir));
            }
        }
        if inked(style, n) && ic == c && ir == r {
            assert(inks_at(x0, y0, x1, y1, style, n, ic, ir));
        }
        if in_grid(cols, rows, c, r) {
            lemma_cell_index(cols, rows, c, r);
        }
    }
    if in_grid(cols, rows, c, r) {
        lemma_cell_index(cols, rows, c, r);
    }
    if inked(style, n) {
        let p = put_cells(before, cols, rows, c, r, ch);
        assert(p.len() == after.len());
        assert forall|idx: int| 0 <= idx < after.len() implies after[idx] == p[idx] by {
            assert(after[idx] == (if inked(style, n) { p[idx] } else { before[idx] }));
        }
        assert(after =~= p);
    } else {
        assert forall|idx: int| 0 <= idx < after.len() implies after[idx] == before[idx] by {
            assert(after[idx] == (if inked(style, n) { put_cells(before, cols, rows, c, r, ch)[idx] } else { before[idx] }));
        }
        assert(after =~= before);
    }
}

/// A line inks exactly the steps up to the one that reaches its far end.
proof fn lemma_line_done(
    cells: Seq<char>,
    cols: int,
    x0: int,
    y0: int,
    x1: int,
    y1: int,
    style: LineStyle,
    ch: char,
    s: nat,
)
    requires
        arrived(span(x0, x1), span(y0, y1), s),
        forall|k: nat| k < s ==> !arrived(span(x0, x1), span(y0, y1), k),
    ensures
        inked_cells(cells, cols, x0, y0, x1, y1, style, ch, s + 1) == line_cells(cells, cols, x0, y0, x1, y1, style, ch),
{
    let dx = span(x0, x1);
    let dy = span(y0, y1);
    assert forall|c: int, r: int| #[trigger] on_line(x0, y0, x1, y1, style, c, r) == inked_before(
        x0,
        y0,
        x1,
        y1,
        style,
        s + 1,
        c,
        r,
    ) by {
        if on_line(x0, y0, x1, y1, style, c, r) {
            let k = choose|k: nat|
                #[trigger] inks_at(x0, y0, x1, y1, style, k, c, r) && (k == 0 || !arrived(dx, dy, (k - 1) as nat));
            if k > s {
                lemma_arrived_stays(dx, dy, s, (k - 1) as nat);
            }
            assert(k < s + 1);
        }
        if inked_before(x0, y0, x1, y1, style, s + 1, c, r) {
            let k = choose|k: nat| k < s + 1 && #[trigger] inks_at(x0, y0, x1, y1, style, k, c, r);
            if k > 0 {
                assert(!arrived(dx, dy, (k - 1) as nat));
            }
        }
    }
    assert(inked_cells(cells, cols, x0, y0, x1, y1, style, ch, s + 1) =~= line_cells(
        cells,
        cols,
        x0,
        y0,
        x1,
        y1,
        style,
        ch,
    ));
}

// ----------------------------------------------------------------------
// Outlines, fills and text
// ----------------------------------------------------------------------

/// A box outlined between corner cells `(c0, r0)` and `(c1, r1)`: dashes
/// along the top and bottom, bars down the sides, `+` at the corners; a box
/// with no inside is a single `#` at its first corner.
pub open spec fn rect_cells(cells: Seq<char>, cols: int, rows: int, c0: int, r0: int, c1: int, r1: int, style: LineStyle) -> Seq<
    char,
> {
    if c1 <= c0 || r1 <= r0 {
        put_cells(cells, cols, rows, c0, r0, '#')
    } else {
        let top = line_cells(cells, cols, c0, r0, c1, r0, style, '-');
        let bottom = line_cells(top, cols, c0, r1, c1, r1, style, '-');
        let left = line_cells(bottom, cols, c0, r0, c0, r1, style, '|');
        let right = line_cells(left, cols, c1, r0, c1, r1, style, '|');
        put_cells(
            put_cells(put_cells(put_cells(right, cols, rows, c0, r0, '+'), cols, rows, c1, r0, '+'), cols, rows, c0, r1, '+'),
            cols,
            rows,
            c1,
            r1,
            '+',
        )
    }
}

/// The cells with every cell from `(c0, r0)` to `(c1, r1)` set to `ch`.
pub open spec fn fill_cells(cells: Seq<char>, cols: int, c0: int, r0: int, c1: int, r1: int, ch: char) -> Seq<char> {
    Seq::new(
        cells.len(),
        |idx: int| if c0 <= idx % cols <= c1 && r0 <= idx / cols <= r1 { ch } else { cells[idx] },
    )
}

/// How a character is shown on a terminal: ASCII as it is, dots and dashes
/// as `-`, arrows as `<` or `>`, the degree sign as `o`, anything else `?`.
pub open spec fn ascii_fold(c: char) -> char {
    if (c as u32) < 128 {
        c
    } else if c == '\u{b7}' || c == '\u{2013}' || c == '\u{2014}' || c == '\u{2212}' {
        '-'
    } else if c == '\u{2192}' {
        '>'
    } else if c == '\u{2190}' {
        '<'
    } else if c == '\u{b0}' {
        'o'
    } else {
        '?'
    }
}

pub fn fold_to_ascii(c: char) -> (d: char)
    ensures
        d == ascii_fold(c),
{
    if (c as u32) < 128 {
        c
    } else if c == '\u{b7}' || c == '\u{2013}' || c == '\u{2014}' || c == '\u{2212}' {
        '-'
    } else if c == '\u{2192}' {
        '>'
    } else if c == '\u{2190}' {
        '<'
    } else if c == '\u{b0}' {
        'o'
    } else {
        '?'
    }
}

/// The first column of a text of `len` characters placed at column `c`.
pub open spec fn text_start(c: int, len: int, anchor: Anchor) -> int {
    match anchor {
        Anchor::Start => c,
        Anchor::Middle => c - len / 2,
        Anchor::End => c - len + 1,
    }
}

/// The cells with `text`, folded to ASCII, written along row `r` from
/// column `start`.
pub open spec fn text_cells(cells: Seq<char>, cols: int, start: int, r: int, text: Seq<char>) -> Seq<char> {
    Seq::new(
        cells.len(),
        |idx: int|
            if idx / cols == r && start <= idx % cols < start + text.len() {
                ascii_fold(text[idx % cols - start])
            } else {
                cells[idx]
            },
    )
}

/// The letter that stands for a labelled symbol: the label's first
/// character in upper case when it is an ASCII letter or digit, otherwise
/// `fallback`.
pub open spec fn initial_of(label: Option<Seq<char>>, fallback: char) -> char {
    match label {
        Some(l) => if l.len() > 0 && (('a' <= l[0] <= 'z') || ('A' <= l[0] <= 'Z') || ('0' <= l[0] <= '9')) {
            if 'a' <= l[0] <= 'z' { ((l[0] as u32) - 32) as char } else { l[0] }
        } else {
            fallback
        },
        None => fallback,
    }
}

pub fn initial(label: &Option<String>, fallback: char) -> (c: char)
    ensures
        c == initial_of(
            match label {
                Some(l) => Some(l@),
                None => None,
            },
            fallback,
        ),
{
    match label {
        Some(l) => {
            let chars = crate::text::chars_of(l.as_str());
            if chars.len() > 0 {
                let first = chars[0];
                if 'a' <= first && first <= 'z' {
                    ((first as u8) - 32) as char
                } else if ('A' <= first && first <= 'Z') || ('0' <= first && first <= '9') {
                    first
                } else {
                    fallback
                }
            } else {
                fallback
            }
        },
        None => fallback,
    }
}

// ----------------------------------------------------------------------
// Rendering
// ----------------------------------------------------------------------

/// `s` without its trailing white space (`str::trim_end`).
pub open spec fn trim_end(s: Seq<char>) -> Seq<char>
    decreases s.len(),
{
    if s.len() > 0 && is_white_space(s.last()) {
        trim_end(s.drop_last())
    } else {
        s
    }
}

/// The first `n` rows of a grid `cols` wide as text: each row without its
/// trailing blanks, then a newline.
pub open spec fn rendered_rows(cells: Seq<char>, cols: int, n: nat) -> Seq<char>
    decreases n,
{
    if n == 0 {
        Seq::empty()
    } else {
        rendered_rows(cells, cols, (n - 1) as nat) + trim_end(cells.subrange((n - 1) * cols, n * cols)) + seq!['\n']
    }
}

impl CharGrid {
    /// The storage holds exactly one character per cell.
    pub open spec fn wf(&self) -> bool {
        &&& self.cells@.len() == self.cols * self.rows
        &&& self.cols >= 1
    }

    pub open spec fn width(&self) -> int {
        self.cols as int
    }

    pub open spec fn height(&self) -> int {
        self.rows as int
    }

    /// The characters, row by row.
    pub open spec fn contents(&self) -> Seq<char> {
        self.cells@
    }

    /// The character at an on-grid cell.
    pub open spec fn at(&self, c: int, r: int) -> char {
        self.cells@[cell_index(self.cols as int, c, r)]
    }

    /// A blank grid at least eight columns wide and one row high.
    pub fn new(columns: usize, rows: usize) -> (g: CharGrid)
        requires
            (if columns < 8 { 8 } else { columns }) * (if rows < 1 { 1 } else { rows }) <= usize::MAX,
        ensures
            g.wf(),
            g.width() == (if columns < 8 { 8 } else { columns }),
            g.height() == (if rows < 1 { 1 } else { rows }),
            forall|i: int| 0 <= i < g.contents().len() ==> g.contents()[i] == ' ',
    {
        let cols: usize = if columns < 8 { 8 } else { columns };
        let rows: usize = if rows < 1 { 1 } else { rows };
        let n: usize = cols * rows;
        let mut cells: Vec<char> = Vec::new();
        let mut i: usize = 0;
        while i < n
            invariant
                i <= n,
                cells@.len() == i,
                forall|j: int| 0 <= j < i ==> cells@[j] == ' ',
            decreases n - i,
        {
            cells.push(' ');
            i = i + 1;
        }
        CharGrid { cols, rows, cells }
    }

    pub fn columns(&self) -> (n: usize)
        ensures
            n == self.width(),
    {
        self.cols
    }

    pub fn row_count(&self) -> (n: usize)
        ensures
            n == self.height(),
    {
        self.rows
    }

    /// Writes `ch` at `(col, row)`; a cell off the grid is left alone.
    pub fn put(&mut self, col: i64, row: i64, ch: char)
        requires
            old(self).wf(),
        ensures
            final(self).wf(),
            final(self).width() == old(self).width(),
            final(self).height() == old(self).height(),
            final(self).contents() == put_cells(old(self).contents(), old(self).width(), old(self).height(), col as int, row as int, ch),
    {
        if col < 0 || row < 0 || col as u64 >= self.cols as u64 || row as u64 >= self.rows as u64 {
            return;
        }
        let r: usize = row as usize;
        let c: usize = col as usize;
        assert(r as int == row as int && c as int == col as int);
        proof { lemma_cell_index(self.cols as int, self.rows as int, col as int, row as int); }
        let len: usize = self.cells.len();
        assert(r * self.cols + c < self.cells@.len());
        assert(r * self.cols <= usize::MAX && r * self.cols + c <= usize::MAX) by (nonlinear_arith)
            requires
                r * self.cols + c < self.cells@.len(),
                self.cells@.len() <= usize::MAX,
        ;
        let m: usize = r * self.cols;
        let idx: usize = m + c;
        self.cells.set(idx, ch);
    }

    /// Draws a line of cells from `(x0, y0)` to `(x1, y1)` with Bresenham's
    /// walk, in `ch` or else a character that follows the slope, skipping
    /// the steps the style leaves blank; cells off the grid are clipped.
    pub fn line(&mut self, x0: i64, y0: i64, x1: i64, y1: i64, ch: Option<char>, style: LineStyle)
        requires
            old(self).wf(),
            line_fits(x0 as int, y0 as int, x1 as int, y1 as int, ch),
        ensures
            final(self).wf(),
            final(self).width() == old(self).width(),
            final(self).height() == old(self).height(),
            final(self).contents() == line_cells(
                old(self).contents(),
                old(self).width(),
                x0 as int,
                y0 as int,
                x1 as int,
                y1 as int,
                style,
                line_char(ch, x0 as int, y0 as int, x1 as int, y1 as int),
            ),
    {
        let dx: i64 = if x0 <= x1 { x1 - x0 } else { x0 - x1 };
        let dy: i64 = if y0 <= y1 { y1 - y0 } else { y0 - y1 };
        let auto: char = match ch {
            Some(c) => c,
            None => {
                if dx >= 2 * dy {
                    '-'
                } else if dy >= 2 * dx {
                    '|'
                } else {
                    if (x1 - x0) * (y1 - y0) > 0 {
                        '\\'
                    } else {
                        '/'
                    }
                }
            },
        };
        let sx: i64 = if x0 < x1 { 1 } else { -1 };
        let sy: i64 = if y0 < y1 { 1 } else { -1 };
        let mut err: i64 = dx - dy;
        let mut x: i64 = x0;
        let mut y: i64 = y0;
        let mut step: u64 = 0;
        let mut done = false;
        let ghost cells0 = self.cells@;
        let ghost cols = self.cols as int;
        let ghost rows = self.rows as int;
        proof {
            lemma_walk(dx as int, dy as int, 0);
        }
        while !done
            invariant
                self.wf(),
                self.cols == cols,
                self.rows == rows,
                cells0.len() == cols * rows,
                dx == span(x0 as int, x1 as int),
                dy == span(y0 as int, y1 as int),
                0 <= dx,
                0 <= dy,
                walk_fits(dx as int, dy as int),
                sx == (if x0 < x1 { 1int } else { -1int }),
                sy == (if y0 < y1 { 1int } else { -1int }),
                0 <= walk(dx as int, dy as int, step as nat).0 <= dx,
                0 <= walk(dx as int, dy as int, step as nat).1 <= dy,
                err == walk(dx as int, dy as int, step as nat).2,
                x == toward(x0 as int, x1 as int, walk(dx as int, dy as int, step as nat).0),
                y == toward(y0 as int, y1 as int, walk(dx as int, dy as int, step as nat).1),
                step <= walk(dx as int, dy as int, step as nat).0 + walk(dx as int, dy as int, step as nat).1,
                forall|k: nat| k < step ==> !arrived(dx as int, dy as int, k),
                done ==> arrived(dx as int, dy as int, step as nat),
                self.cells@ == inked_cells(
                    cells0,
                    cols,
                    x0 as int,
                    y0 as int,
                    x1 as int,
                    y1 as int,
                    style,
                    auto,
                    if done { (step + 1) as nat } else { step as nat },
                ),
            decreases (dx - walk(dx as int, dy as int, step as nat).0) + (dy - walk(dx as int, dy as int, step as nat).1) + (
            if done { 0int } else { 1int }),
        {
            proof {
                lemma_ink_step(cells0, cols, rows, x0 as int, y0 as int, x1 as int, y1 as int, style, auto, step as nat);
            }
            let ink = match style {
                LineStyle::Solid => true,
                LineStyle::Dashed => step % 3 != 2,
                LineStyle::Dotted => step % 2 == 0,
            };
            if ink {
                self.put(x, y, auto);
            }
            if x == x1 && y == y1 {
                done = true;
            } else {
                let ghost before = step as nat;
                assert(step_fits(dx as int, dy as int, step as nat));
                proof {
                    lemma_walk(dx as int, dy as int, (step + 1) as nat);
                }
                let e2: i64 = 2 * err;
                if e2 > -dy {
                    err = err - dy;
                    x = x + sx;
                }
                if e2 < dx {
                    err = err + dx;
                    y = y + sy;
                }
                step = step + 1;
                proof {
                    lemma_walk(dx as int, dy as int, step as nat);
                    assert forall|k: nat| k < step implies !arrived(dx as int, dy as int, k) by {
                        if k < before {
                        } else {
                            assert(k == before);
                        }
                    }
                }
            }
        }
        proof {
            lemma_line_done(cells0, cols, x0 as int, y0 as int, x1 as int, y1 as int, style, auto, step as nat);
        }
    }

    /// Outlines the box between corner cells `(c0, r0)` and `(c1, r1)`.
    pub fn rect(&mut self, c0: i64, r0: i64, c1: i64, r1: i64, style: LineStyle)
        requires
            old(self).wf(),
            c1 <= c0 || r1 <= r0 || (line_fits(c0 as int, r0 as int, c1 as int, r0 as int, Some('-')) && line_fits(
                c0 as int,
                r1 as int,
                c1 as int,
                r1 as int,
                Some('-'),
            ) && line_fits(c0 as int, r0 as int, c0 as int, r1 as int, Some('|')) && line_fits(
                c1 as int,
                r0 as int,
                c1 as int,
                r1 as int,
                Some('|'),
            )),
        ensures
            final(self).wf(),
            final(self).width() == old(self).width(),
            final(self).height() == old(self).height(),
            final(self).contents() == rect_cells(
                old(self).contents(),
                old(self).width(),
                old(self).height(),
                c0 as int,
                r0 as int,
                c1 as int,
                r1 as int,
                style,
            ),
    {
        if c1 <= c0 || r1 <= r0 {
            self.put(c0, r0, '#');
            return;
        }
        self.line(c0, r0, c1, r0, Some('-'), style);
        self.line(c0, r1, c1, r1, Some('-'), style);
        self.line(c0, r0, c0, r1, Some('|'), style);
        self.line(c1, r0, c1, r1, Some('|'), style);
        self.put(c0, r0, '+');
        self.put(c1, r0, '+');
        self.put(c0, r1, '+');
        self.put(c1, r1, '+');
    }

    /// Sets every cell from `(c0, r0)` to `(c1, r1)` to `ch`.
    pub fn fill(&mut self, c0: i64, r0: i64, c1: i64, r1: i64, ch: char)
        requires
            old(self).wf(),
        ensures
            final(self).wf(),
            final(self).width() == old(self).width(),
            final(self).height() == old(self).height(),
            final(self).contents() == fill_cells(
                old(self).contents(),
                old(self).width(),
                c0 as int,
                r0 as int,
                c1 as int,
                r1 as int,
                ch,
            ),
    {
        let ghost cells0 = self.cells@;
        let ghost cols = self.cols as int;
        let ghost rows = self.rows as int;
        let mut row: i64 = r0;
        let mut more_rows: bool = r0 <= r1;
        let ghost mut done_row: int = r0 - 1;
        while more_rows
            invariant
                self.wf(),
                self.cols == cols,
                self.rows == rows,
                cells0.len() == cols * rows,
                more_rows ==> r0 <= row <= r1 && done_row == row - 1,
                !more_rows ==> done_row == (if r0 <= r1 { r1 as int } else { r0 - 1 }),
                self.cells@ == fill_cells(cells0, cols, c0 as int, r0 as int, c1 as int, done_row, ch),
            decreases (if more_rows { r1 - row + 1 } else { 0 }),
        {
            let mut col: i64 = c0;
            let mut more_cols: bool = c0 <= c1;
            let ghost mut done_col: int = c0 - 1;
            assert(self.cells@ =~= Seq::new(
                cells0.len(),
                |idx: int|
                    if (c0 <= idx % cols <= c1 && r0 <= idx / cols <= row - 1) || (c0 <= idx % cols <= done_col
                        && idx / cols == row) {
                        ch
                    } else {
                        cells0[idx]
                    },
            ));
            while more_cols
                invariant
                    self.wf(),
                    self.cols == cols,
                    self.rows == rows,
                    cells0.len() == cols * rows,
                    r0 <= row <= r1,
                    more_cols ==> c0 <= col <= c1 && done_col == col - 1,
                    !more_cols ==> done_col == (if c0 <= c1 { c1 as int } else { c0 - 1 }),
                    self.cells@ == Seq::new(
                        cells0.len(),
                        |idx: int|
                            if (c0 <= idx % cols <= c1 && r0 <= idx / cols <= row - 1) || (c0 <= idx % cols
                                <= done_col && idx / cols == row) {
                                ch
                            } else {
                                cells0[idx]
                            },
                    ),
                decreases (if more_cols { c1 - col + 1 } else { 0 }),
            {
                self.put(col, row, ch);
                proof {
                    done_col = col as int;
                    if in_grid(cols, rows, col as int, row as int) {
                        lemma_cell_index(cols, rows, col as int, row as int);
                    }
                    assert forall|idx: int| 0 <= idx < cells0.len() implies #[trigger] self.cells@[idx] == (if (c0
                        <= idx % cols <= c1 && r0 <= idx / cols <= row - 1) || (c0 <= idx % cols <= done_col && idx
                        / cols == row) {
                        ch
                    } else {
                        cells0[idx]
                    }) by {
                        lemma_index_cell(cols, rows, idx);
                    }
                    assert(self.cells@ =~= Seq::new(
                        cells0.len(),
                        |idx: int|
                            if (c0 <= idx % cols <= c1 && r0 <= idx / cols <= row - 1) || (c0 <= idx % cols
                                <= done_col && idx / cols == row) {
                                ch
                            } else {
                                cells0[idx]
                            },
                    ));
                }
                if col == c1 {
                    more_cols = false;
                } else {
                    col = col + 1;
                }
            }
            proof {
                assert(self.cells@ =~= fill_cells(cells0, cols, c0 as int, r0 as int, c1 as int, row as int, ch));
                done_row = row as int;
            }
            if row == r1 {
                more_rows = false;
            } else {
                row = row + 1;
            }
        }
        assert(self.cells@ =~= fill_cells(cells0, cols, c0 as int, r0 as int, c1 as int, r1 as int, ch));
    }

    /// Writes `content`, folded to ASCII, along row `r`, starting at column
    /// `c`, centred on it, or ending on it as `anchor` says.
    pub fn text(&mut self, c: i64, r: i64, content: &str, anchor: Anchor)
        requires
            old(self).wf(),
            content@.len() <= i64::MAX,
            anchor is Middle ==> fits_i64(c - content@.len() / 2),
            anchor is End ==> fits_i64(c - content@.len()) && fits_i64(c - content@.len() + 1),
            content@.len() > 0 ==> text_start(c as int, content@.len() as int, anchor) + content@.len() - 1 <= i64::MAX,
        ensures
            final(self).wf(),
            final(self).width() == old(self).width(),
            final(self).height() == old(self).height(),
            final(self).contents() == text_cells(
                old(self).contents(),
                old(self).width(),
                text_start(c as int, content@.len() as int, anchor),
                r as int,
                content@,
            ),
    {
        let chars = crate::text::chars_of(content);
        let len: i64 = chars.len() as i64;
        let start: i64 = match anchor {
            Anchor::Start => c,
            Anchor::Middle => c - len / 2,
            Anchor::End => c - len + 1,
        };
        let ghost cells0 = self.cells@;
        let ghost cols = self.cols as int;
        let ghost rows = self.rows as int;
        let mut i: usize = 0;
        while i < chars.len()
            invariant
                self.wf(),
                self.cols == cols,
                self.rows == rows,
                cells0.len() == cols * rows,
                chars@ == content@,
                len == chars@.len(),
                len <= i64::MAX,
                start == text_start(c as int, len as int, anchor),
                len > 0 ==> start + len - 1 <= i64::MAX,
                i <= chars.len(),
                self.cells@ == text_cells(cells0, cols, start as int, r as int, chars@.take(i as int)),
            decreases chars.len() - i,
        {
            let ch = fold_to_ascii(chars[i]);
            let col: i64 = start + i as i64;
            self.put(col, r, ch);
            proof {
                if in_grid(cols, rows, col as int, r as int) {
                    lemma_cell_index(cols, rows, col as int, r as int);
                }
                assert forall|idx: int| 0 <= idx < cells0.len() implies #[trigger] self.cells@[idx] == text_cells(
                    cells0,
                    cols,
                    start as int,
                    r as int,
                    chars@.take(i + 1),
                )[idx] by {
                    lemma_index_cell(cols, rows, idx);
                }
            }
            i = i + 1;
            assert(self.cells@ =~= text_cells(cells0, cols, start as int, r as int, chars@.take(i as int)));
        }
        assert(chars@.take(i as int) =~= content@);
    }

    /// The grid as text, one line per row, trailing blanks trimmed.
    pub fn render(&self) -> (out: String)
        requires
            self.wf(),
        ensures
            out@ == rendered_rows(self.contents(), self.width(), self.height() as nat),
    {
        let mut out = String::new();
        let cols = self.cols;
        let len: usize = self.cells.len();
        let mut row: usize = 0;
        while row < self.rows
            invariant
                self.wf(),
                cols == self.cols,
                len == self.cells@.len(),
                row <= self.rows,
                out@ == rendered_rows(self.cells@, cols as int, row as nat),
            decreases self.rows - row,
        {
            assert(row * cols + cols <= len && (row + 1) * cols == row * cols + cols) by (nonlinear_arith)
                requires
                    row < self.rows,
                    len == cols * self.rows,
            ;
            let base: usize = row * cols;
            let ghost line = self.cells@.subrange(base as int, base + cols);
            assert(line.take(cols as int) =~= line);
            let mut end: usize = cols;
            while end > 0 && white_space(self.cells[base + end - 1])
                invariant
                    self.wf(),
                    base + cols <= len,
                    len == self.cells@.len(),
                    line == self.cells@.subrange(base as int, base + cols),
                    end <= cols,
                    trim_end(line) == trim_end(line.take(end as int)),
                decreases end,
            {
                assert(line.take(end as int).drop_last() =~= line.take(end - 1));
                end = end - 1;
            }
            let ghost before = out@;
            let mut k: usize = 0;
            while k < end
                invariant
                    self.wf(),
                    base + cols <= len,
                    len == self.cells@.len(),
                    line == self.cells@.subrange(base as int, base + cols),
                    end <= cols,
                    k <= end,
                    out@ == before + line.take(k as int),
                decreases end - k,
            {
                push_char(&mut out, self.cells[base + k]);
                assert(line.take(k + 1) =~= line.take(k as int).push(line[k as int]));
                k = k + 1;
            }
            push_char(&mut out, '\n');
            assert(trim_end(line.take(end as int)) == line.take(end as int));
            assert(out@ =~= rendered_rows(self.cells@, cols as int, (row + 1) as nat));
            row = row + 1;
        }
        out
    }
}

} // verus!
