//! The geometry mapper: conversions between cursor indices and integer
//! screen coordinates, the greedy nearest-position search under a
//! pointer, and the selection highlight rectangles.
//!
//! Coordinates grow rightwards and downwards. All positions are exact
//! integer functions of the glyph widths and style parameters.

use vstd::prelude::*;
use crate::style::{Align, GlyphWidths, Params};
use crate::layout::{LineInfo, line_shaped, seg_width, spec_height, wf_lines, wrapped_height};
use crate::cursor::{
    CursorIndex, cursor_index_valid, cursor_le, spec_cursor_max, spec_cursor_min,
};

verus! {

/// A point in integer screen coordinates.
#[derive(Clone, Copy, PartialEq, Eq, Structural, Debug)]
pub struct ScreenPoint {
    /// Distance from the left edge.
    pub x: u128,
    /// Distance from the top edge.
    pub y: u128,
}

/// An axis-aligned rectangle in integer screen coordinates.
#[derive(Clone, Copy, PartialEq, Eq, Structural, Debug)]
pub struct ScreenRect {
    /// Left edge.
    pub x: u128,
    /// Top edge.
    pub y: u128,
    /// Width.
    pub w: u128,
    /// Height.
    pub h: u128,
}

/// The larger of two integers.
pub open spec fn imax(a: int, b: int) -> int {
    if a >= b {
        a
    } else {
        b
    }
}

/// Absolute distance between two integers.
pub open spec fn idist(a: int, b: int) -> int {
    if a >= b {
        a - b
    } else {
        b - a
    }
}

/// Widths are never negative and never exceed one glyph's maximum per
/// character.
pub proof fn lemma_seg_width_bounds(text: Seq<char>, gw: GlyphWidths, a: int, b: int)
    requires
        a <= b,
    ensures
        0 <= seg_width(text, gw, a, b) <= (b - a) * 0x1_0000_0000,
    decreases b - a,
{
    if a < b {
        lemma_seg_width_bounds(text, gw, a, b - 1);
    }
}

/// Total advance width of the characters in `[from, to)`.
pub fn advance_width(text: &Vec<char>, gw: &GlyphWidths, from: usize, to: usize) -> (w: u128)
    requires
        from <= to <= text@.len(),
    ensures
        w == seg_width(text@, *gw, from as int, to as int),
        w <= 0x1_0000_0000_0000_0000_0000_0000,
{
    proof {
        lemma_seg_width_bounds(text@, *gw, from as int, to as int);
    }
    let mut j: usize = from;
    let mut w: u128 = 0;
    while j < to
        invariant
            from <= j <= to <= text@.len(),
            w == seg_width(text@, *gw, from as int, j as int),
        decreases to - j,
    {
        proof {
            lemma_seg_width_bounds(text@, *gw, from as int, j as int);
            assert(seg_width(text@, *gw, from as int, j + 1 as int) == seg_width(
                text@,
                *gw,
                from as int,
                j as int,
            ) + gw.width(text@[j as int]));
        }
        let cw: u32 = gw.glyph_width(text[j]);
        w = w + cw as u128;
        j = j + 1;
    }
    w
}

/// Top of the block of `n` wrapped lines, aligned vertically within the
/// area.
pub open spec fn block_top(p: Params, n: int) -> int {
    let bh = spec_height(n, p.font_size, p.line_spacing);
    match p.y_align {
        Align::Start => p.area.y as int,
        Align::Middle => p.area.y + imax(0, p.area.h - bh) / 2,
        Align::End => p.area.y + imax(0, p.area.h - bh),
    }
}

/// Top edge of line `i` in a layout of `n` lines.
pub open spec fn line_top(p: Params, n: int, i: int) -> int {
    block_top(p, n) + i * (p.font_size + p.line_spacing)
}

/// Vertical middle of line `i`.
pub open spec fn line_mid(p: Params, n: int, i: int) -> int {
    line_top(p, n, i) + p.font_size / 2
}

/// Measured width of one line (its displayed characters only).
pub open spec fn line_width(text: Seq<char>, gw: GlyphWidths, li: LineInfo) -> int {
    seg_width(text, gw, li.start as int, li.end as int)
}

/// Left edge of one line, aligned horizontally within the area. A line
/// wider than the area stays flush with the left edge.
pub open spec fn line_left(text: Seq<char>, p: Params, li: LineInfo) -> int {
    let lw = line_width(text, p.glyphs, li);
    match p.x_align {
        Align::Start => p.area.x as int,
        Align::Middle => p.area.x + imax(0, p.area.w - lw) / 2,
        Align::End => p.area.x + imax(0, p.area.w - lw),
    }
}

/// Horizontal position of the caret slot before character `j` of the
/// line (`j` may equal the line's character count: the slot after the
/// last character).
pub open spec fn char_x(text: Seq<char>, p: Params, li: LineInfo, j: int) -> int {
    line_left(text, p, li) + seg_width(text, p.glyphs, li.start as int, li.start + j)
}

/// Compute the top of the block of `n` lines.
pub fn block_top_at(p: &Params, n: usize) -> (t: u128)
    ensures
        t == block_top(*p, n as int),
        t <= 0x2_0000_0000_0000_0000,
{
    let bh: u128 = wrapped_height(n, p.font_size, p.line_spacing);
    let rem: u128 = if bh <= p.area.h as u128 {
        p.area.h as u128 - bh
    } else {
        0
    };
    match p.y_align {
        Align::Start => p.area.y as u128,
        Align::Middle => p.area.y as u128 + rem / 2,
        Align::End => p.area.y as u128 + rem,
    }
}

/// Compute the top edge of line `i` of `n`.
pub fn line_top_at(p: &Params, n: usize, i: usize) -> (t: u128)
    ensures
        t == line_top(*p, n as int, i as int),
        t <= 0x4_0000_0000_0000_0000_0000_0000,
{
    let bt: u128 = block_top_at(p, n);
    let step: u128 = p.font_size as u128 + p.line_spacing as u128;
    assert((i as u128) * step <= 0xFFFF_FFFF_FFFF_FFFF * 0x2_0000_0000) by (nonlinear_arith)
        requires
            i as u128 <= 0xFFFF_FFFF_FFFF_FFFF,
            step <= 0x2_0000_0000,
    ;
    bt + (i as u128) * step
}

/// Compute the left edge of one line.
pub fn line_left_at(text: &Vec<char>, p: &Params, li: LineInfo) -> (l: u128)
    requires
        li.start <= li.end <= text@.len(),
    ensures
        l == line_left(text@, *p, li),
        l <= 0x2_0000_0000,
{
    proof {
        lemma_seg_width_bounds(text@, p.glyphs, li.start as int, li.end as int);
    }
    let lw: u128 = advance_width(text, &p.glyphs, li.start, li.end);
    let rem: u128 = if lw <= p.area.w as u128 {
        p.area.w as u128 - lw
    } else {
        0
    };
    match p.x_align {
        Align::Start => p.area.x as u128,
        Align::Middle => p.area.x as u128 + rem / 2,
        Align::End => p.area.x as u128 + rem,
    }
}

/// Absolute distance between two coordinates.
fn dist_u128(a: u128, b: u128) -> (d: u128)
    ensures
        d == idist(a as int, b as int),
{
    if a >= b {
        a - b
    } else {
        b - a
    }
}

/// Greedy scan for the line nearest the pointer's vertical position:
/// stop at the first line whose vertical span contains it, or at the
/// first increase of vertical distance to the line middles (lines are
/// vertically monotonic, so a single local minimum suffices). Ties keep
/// the line encountered first.
pub open spec fn closest_line_from(p: Params, n: int, y: int, i: int, best: int, bd: int) -> int
    decreases n - i,
{
    if i < 0 || i >= n {
        best
    } else if line_top(p, n, i) <= y <= line_top(p, n, i) + p.font_size {
        i
    } else {
        let d = idist(y, line_mid(p, n, i));
        if d < bd {
            closest_line_from(p, n, y, i + 1, i, d)
        } else {
            best
        }
    }
}

/// The line chosen for a pointer at vertical position `y`.
pub open spec fn spec_closest_line(p: Params, n: int, y: int) -> int {
    closest_line_from(p, n, y, 1, 0, idist(y, line_mid(p, n, 0)))
}

proof fn lemma_closest_line_from_range(p: Params, n: int, y: int, i: int, best: int, bd: int)
    requires
        0 <= best < n,
        1 <= i,
    ensures
        0 <= closest_line_from(p, n, y, i, best, bd) < n,
    decreases n - i,
{
    if i < n && !(line_top(p, n, i) <= y <= line_top(p, n, i) + p.font_size) {
        let d = idist(y, line_mid(p, n, i));
        if d < bd {
            lemma_closest_line_from_range(p, n, y, i + 1, i, d);
        }
    }
}

/// Greedy scan along one line for the caret slot nearest the pointer's
/// horizontal position, stopping at the first increase of distance.
/// Ties keep the slot encountered first (the leftmost).
pub open spec fn closest_char_from(
    text: Seq<char>,
    p: Params,
    li: LineInfo,
    x: int,
    j: int,
    best: int,
    bd: int,
) -> int
    decreases li.char_count() + 1 - j,
{
    if j < 0 || j > li.char_count() {
        best
    } else {
        let d = idist(x, char_x(text, p, li, j));
        if d < bd {
            closest_char_from(text, p, li, x, j + 1, j, d)
        } else {
            best
        }
    }
}

/// The caret slot chosen on one line for a pointer at horizontal
/// position `x`.
pub open spec fn spec_closest_char(text: Seq<char>, p: Params, li: LineInfo, x: int) -> int {
    closest_char_from(text, p, li, x, 1, 0, idist(x, char_x(text, p, li, 0)))
}

proof fn lemma_closest_char_from_range(
    text: Seq<char>,
    p: Params,
    li: LineInfo,
    x: int,
    j: int,
    best: int,
    bd: int,
)
    requires
        0 <= best <= li.char_count(),
        1 <= j,
    ensures
        0 <= closest_char_from(text, p, li, x, j, best, bd) <= li.char_count(),
    decreases li.char_count() + 1 - j,
{
    if 0 <= j <= li.char_count() {
        let d = idist(x, char_x(text, p, li, j));
        if d < bd {
            lemma_closest_char_from_range(text, p, li, x, j + 1, j, d);
        }
    }
}

/// The cursor index and caret point nearest the pointer, or `None`
/// only when the text is empty.
pub open spec fn spec_closest(
    text: Seq<char>,
    lines: Seq<LineInfo>,
    p: Params,
    pt: ScreenPoint,
) -> Option<(CursorIndex, ScreenPoint)> {
    if text.len() == 0 || lines.len() == 0 {
        None
    } else {
        let n = lines.len() as int;
        let l = spec_closest_line(p, n, pt.y as int);
        let li = lines[l];
        let j = spec_closest_char(text, p, li, pt.x as int);
        Some(
            (
                CursorIndex { line: l as usize, char: j as usize },
                ScreenPoint { x: char_x(text, p, li, j) as u128, y: line_mid(p, n, l) as u128 },
            ),
        )
    }
}

/// Find the line nearest the pointer's vertical position.
fn closest_line(p: &Params, n: usize, y: u128) -> (l: usize)
    requires
        n >= 1,
    ensures
        l as int == spec_closest_line(*p, n as int, y as int),
        l < n,
{
    proof {
        lemma_closest_line_from_range(
            *p,
            n as int,
            y as int,
            1,
            0,
            idist(y as int, line_mid(*p, n as int, 0)),
        );
    }
    let bt: u128 = line_top_at(p, n, 0);
    let mid0: u128 = bt + (p.font_size as u128) / 2;
    let mut best: usize = 0;
    let mut bd: u128 = dist_u128(y, mid0);
    let mut i: usize = 1;
    loop
        invariant
            1 <= i,
            best < n,
            bd == idist(y as int, line_mid(*p, n as int, best as int)),
            spec_closest_line(*p, n as int, y as int) == closest_line_from(
                *p,
                n as int,
                y as int,
                i as int,
                best as int,
                bd as int,
            ),
        decreases n - i,
    {
        if i >= n {
            return best;
        }
        let top: u128 = line_top_at(p, n, i);
        let fs: u128 = p.font_size as u128;
        if top <= y && y <= top + fs {
            return i;
        }
        let mid: u128 = top + fs / 2;
        let d: u128 = dist_u128(y, mid);
        if d < bd {
            best = i;
            bd = d;
        } else {
            return best;
        }
        i = i + 1;
    }
}

/// Find the caret slot on one line nearest the pointer's horizontal
/// position.
fn closest_char_on_line(text: &Vec<char>, p: &Params, li: LineInfo, x: u128) -> (j: usize)
    requires
        li.start <= li.end <= text@.len(),
    ensures
        j as int == spec_closest_char(text@, *p, li, x as int),
        j <= li.char_count(),
{
    proof {
        lemma_closest_char_from_range(
            text@,
            *p,
            li,
            x as int,
            1,
            0,
            idist(x as int, char_x(text@, *p, li, 0)),
        );
    }
    let count: usize = li.end - li.start;
    let left: u128 = line_left_at(text, p, li);
    let mut cx: u128 = left;
    assert(cx == char_x(text@, *p, li, 0));
    let mut best: usize = 0;
    let mut bd: u128 = dist_u128(x, cx);
    let mut k: usize = 0;
    loop
        invariant
            k <= count,
            count == li.char_count(),
            li.start <= li.end <= text@.len(),
            best <= count,
            left <= 0x2_0000_0000,
            left == line_left(text@, *p, li),
            cx == char_x(text@, *p, li, k as int),
            bd == idist(x as int, char_x(text@, *p, li, best as int)),
            spec_closest_char(text@, *p, li, x as int) == closest_char_from(
                text@,
                *p,
                li,
                x as int,
                k + 1 as int,
                best as int,
                bd as int,
            ),
        decreases count - k,
    {
        if k >= count {
            return best;
        }
        proof {
            lemma_seg_width_bounds(text@, p.glyphs, li.start as int, li.start + k);
            lemma_seg_width_bounds(text@, p.glyphs, li.start as int, li.start + k + 1);
            assert(seg_width(text@, p.glyphs, li.start as int, li.start + k + 1) == seg_width(
                text@,
                p.glyphs,
                li.start as int,
                li.start + k,
            ) + p.glyphs.width(text@[li.start + k]));
        }
        let cw: u32 = p.glyphs.glyph_width(text[li.start + k]);
        let ncx: u128 = cx + cw as u128;
        assert(ncx == char_x(text@, *p, li, k + 1 as int));
        let d: u128 = dist_u128(x, ncx);
        if d < bd {
            best = k + 1;
            bd = d;
        } else {
            return best;
        }
        cx = ncx;
        k = k + 1;
    }
}

/// Find the cursor index (and its caret point) closest to the pointer.
/// Returns `None` only when the text is empty.
pub fn closest_cursor_index(
    text: &Vec<char>,
    lines: &Vec<LineInfo>,
    p: &Params,
    pt: ScreenPoint,
) -> (r: Option<(CursorIndex, ScreenPoint)>)
    requires
        wf_lines(lines@, text@.len() as int),
    ensures
        r == spec_closest(text@, lines@, *p, pt),
{
    if text.len() == 0 {
        return None;
    }
    let n: usize = lines.len();
    let l: usize = closest_line(p, n, pt.y);
    let li: LineInfo = lines[l];
    proof {
        assert(line_shaped(lines@, text@.len() as int, l as int));
    }
    let j: usize = closest_char_on_line(text, p, li, pt.x);
    proof {
        lemma_seg_width_bounds(text@, p.glyphs, li.start as int, li.start + j);
    }
    let left: u128 = line_left_at(text, p, li);
    let xw: u128 = advance_width(text, &p.glyphs, li.start, li.start + j);
    let top: u128 = line_top_at(p, n, l);
    Some(
        (
            CursorIndex { line: l, char: j },
            ScreenPoint { x: left + xw, y: top + (p.font_size as u128) / 2 },
        ),
    )
}

/// The caret geometry of a resolvable cursor index: its horizontal
/// position and the vertical span of its line.
pub open spec fn spec_cursor_to_screen(
    text: Seq<char>,
    lines: Seq<LineInfo>,
    p: Params,
    idx: CursorIndex,
) -> Option<(u128, u128, u128)> {
    if cursor_index_valid(lines, idx) {
        let li = lines[idx.line as int];
        let x = char_x(text, p, li, idx.char as int);
        let top = line_top(p, lines.len() as int, idx.line as int);
        Some((x as u128, top as u128, (top + p.font_size) as u128))
    } else {
        None
    }
}

/// Map a cursor index to its caret position: the horizontal position
/// and the vertical span `[top, bottom]` of its line, or `None` when
/// the index cannot be resolved against the layout.
pub fn cursor_to_screen(
    text: &Vec<char>,
    lines: &Vec<LineInfo>,
    p: &Params,
    idx: CursorIndex,
) -> (r: Option<(u128, u128, u128)>)
    requires
        wf_lines(lines@, text@.len() as int),
    ensures
        r == spec_cursor_to_screen(text@, lines@, *p, idx),
{
    let n: usize = lines.len();
    if idx.line >= n {
        return None;
    }
    let li: LineInfo = lines[idx.line];
    proof {
        assert(line_shaped(lines@, text@.len() as int, idx.line as int));
        lemma_seg_width_bounds(text@, p.glyphs, li.start as int, li.start + idx.char);
    }
    if idx.char > li.end - li.start {
        return None;
    }
    let left: u128 = line_left_at(text, p, li);
    let xw: u128 = advance_width(text, &p.glyphs, li.start, li.start + idx.char);
    let top: u128 = line_top_at(p, n, idx.line);
    Some((left + xw, top, top + p.font_size as u128))
}

/// The caret geometry with the fallback the caller must substitute for
/// an unresolvable index: the left edge of the area, vertically a
/// line-sized span aligned within the area.
pub open spec fn spec_caret_geometry(
    text: Seq<char>,
    lines: Seq<LineInfo>,
    p: Params,
    idx: CursorIndex,
) -> (u128, u128, u128) {
    match spec_cursor_to_screen(text, lines, p, idx) {
        Some(g) => g,
        None => {
            let top = block_top(p, 1);
            (p.area.x as u128, top as u128, (top + p.font_size) as u128)
        },
    }
}

/// Map a cursor index to caret geometry, substituting the fallback
/// position when the index cannot be resolved.
pub fn caret_geometry(
    text: &Vec<char>,
    lines: &Vec<LineInfo>,
    p: &Params,
    idx: CursorIndex,
) -> (r: (u128, u128, u128))
    requires
        wf_lines(lines@, text@.len() as int),
    ensures
        r == spec_caret_geometry(text@, lines@, *p, idx),
{
    match cursor_to_screen(text, lines, p, idx) {
        Some(g) => g,
        None => {
            let top: u128 = block_top_at(p, 1);
            (p.area.x as u128, top, top + p.font_size as u128)
        },
    }
}

/// The highlight rectangle for line `i` of a selection spanning from
/// `lo` to `hi`: clipped to the selected sub-range on the boundary
/// lines, covering the whole displayed line in between.
pub open spec fn sel_rect(
    text: Seq<char>,
    lines: Seq<LineInfo>,
    p: Params,
    lo: CursorIndex,
    hi: CursorIndex,
    i: int,
) -> ScreenRect {
    let li = lines[i];
    let c0: int = if i == lo.line {
        lo.char as int
    } else {
        0
    };
    let c1: int = if i == hi.line {
        hi.char as int
    } else {
        li.char_count()
    };
    ScreenRect {
        x: char_x(text, p, li, c0) as u128,
        y: line_top(p, lines.len() as int, i) as u128,
        w: seg_width(text, p.glyphs, li.start + c0, li.start + c1) as u128,
        h: p.font_size as u128,
    }
}

/// The highlight rectangles for the lines `i ..= hi.line`.
pub open spec fn sel_rects_from(
    text: Seq<char>,
    lines: Seq<LineInfo>,
    p: Params,
    lo: CursorIndex,
    hi: CursorIndex,
    i: int,
) -> Seq<ScreenRect>
    decreases hi.line + 1 - i,
{
    if i < 0 || i > hi.line {
        Seq::<ScreenRect>::empty()
    } else {
        seq![sel_rect(text, lines, p, lo, hi, i)] + sel_rects_from(text, lines, p, lo, hi, i + 1)
    }
}

/// The selection highlight rectangles: the endpoints are first
/// normalized by position, so the result does not depend on which end
/// is the anchor; one rectangle per line touched; empty when the
/// endpoints coincide.
pub open spec fn spec_selection_rects(
    text: Seq<char>,
    lines: Seq<LineInfo>,
    p: Params,
    a: CursorIndex,
    b: CursorIndex,
) -> Seq<ScreenRect> {
    let lo = spec_cursor_min(a, b);
    let hi = spec_cursor_max(a, b);
    if lo == hi {
        Seq::<ScreenRect>::empty()
    } else {
        sel_rects_from(text, lines, p, lo, hi, lo.line as int)
    }
}

/// Selection normalization: the highlight rectangles are the same
/// whichever endpoint is the anchor.
pub proof fn lemma_selection_rects_symmetric(
    text: Seq<char>,
    lines: Seq<LineInfo>,
    p: Params,
    a: CursorIndex,
    b: CursorIndex,
)
    ensures
        spec_selection_rects(text, lines, p, a, b) == spec_selection_rects(text, lines, p, b, a),
{
    if cursor_le(a, b) && cursor_le(b, a) {
        assert(a == b);
    }
}

/// Compute the selection highlight rectangles between two (valid)
/// cursor indices.
pub fn selection_rectangles(
    text: &Vec<char>,
    lines: &Vec<LineInfo>,
    p: &Params,
    a: CursorIndex,
    b: CursorIndex,
) -> (r: Vec<ScreenRect>)
    requires
        wf_lines(lines@, text@.len() as int),
        cursor_index_valid(lines@, a),
        cursor_index_valid(lines@, b),
    ensures
        r@ == spec_selection_rects(text@, lines@, *p, a, b),
{
    let n: usize = lines.len();
    let lo: CursorIndex = crate::cursor::cursor_min(a, b);
    let hi: CursorIndex = crate::cursor::cursor_max(a, b);
    let mut r: Vec<ScreenRect> = Vec::new();
    if lo.line == hi.line && lo.char == hi.char {
        return r;
    }
    let mut i: usize = lo.line;
    loop
        invariant
            lo == spec_cursor_min(a, b),
            hi == spec_cursor_max(a, b),
            lo != hi,
            cursor_le(lo, hi),
            cursor_index_valid(lines@, lo),
            cursor_index_valid(lines@, hi),
            wf_lines(lines@, text@.len() as int),
            n == lines@.len(),
            lo.line <= i <= hi.line + 1,
            i <= n,
            r@ + sel_rects_from(text@, lines@, *p, lo, hi, i as int) == sel_rects_from(
                text@,
                lines@,
                *p,
                lo,
                hi,
                lo.line as int,
            ),
        decreases hi.line + 1 - i,
    {
        if i > hi.line {
            proof {
                assert(r@ =~= spec_selection_rects(text@, lines@, *p, a, b));
            }
            return r;
        }
        let li: LineInfo = lines[i];
        proof {
            assert(line_shaped(lines@, text@.len() as int, i as int));
        }
        let c0: usize = if i == lo.line {
            lo.char
        } else {
            0
        };
        let c1: usize = if i == hi.line {
            hi.char
        } else {
            li.end - li.start
        };
        proof {
            lemma_seg_width_bounds(text@, p.glyphs, li.start as int, li.start + c0);
        }
        let left: u128 = line_left_at(text, p, li);
        let xw: u128 = advance_width(text, &p.glyphs, li.start, li.start + c0);
        let top: u128 = line_top_at(p, n, i);
        let w: u128 = advance_width(text, &p.glyphs, li.start + c0, li.start + c1);
        let rect: ScreenRect = ScreenRect {
            x: left + xw,
            y: top,
            w,
            h: p.font_size as u128,
        };
        assert(rect == sel_rect(text@, lines@, *p, lo, hi, i as int));
        r.push(rect);
        proof {
            assert(r@ + sel_rects_from(text@, lines@, *p, lo, hi, i + 1 as int) =~= sel_rects_from(
                text@,
                lines@,
                *p,
                lo,
                hi,
                lo.line as int,
            ));
        }
        i = i + 1;
    }
}

} // verus!
