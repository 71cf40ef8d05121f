//! The line layout engine: partitions the text into wrapped lines given
//! a width budget and a wrap policy.
//!
//! The layout is a pure function of `(text, glyph widths, wrap policy,
//! width budget)`: `spec_layout` defines it mathematically and `layout`
//! computes exactly that sequence, so identical inputs always yield a
//! structurally identical sequence of `LineInfo`.

use vstd::prelude::*;
use crate::style::{GlyphWidths, Wrap};

verus! {

/// One wrapped line. The characters displayed on the line are the
/// half-open range `[start, end)` of the buffer; the `break_len`
/// characters that follow (0 or 1) are a break character consumed by
/// the wrap and excluded from the measured width. The next line starts
/// at `end + break_len`, so the ranges tile the buffer exactly once.
#[derive(Clone, Copy, PartialEq, Eq, Structural, Debug)]
pub struct LineInfo {
    /// Character offset of the first character on the line.
    pub start: usize,
    /// Character offset one past the last displayed character.
    pub end: usize,
    /// 1 when a break character (whitespace or newline) follows the
    /// displayed range and is consumed by the wrap, else 0.
    pub break_len: usize,
}

impl LineInfo {
    /// Number of characters displayed on the line.
    pub open spec fn char_count(&self) -> int {
        self.end - self.start
    }
}

/// Whitespace at which the `Whitespace` policy may break a line.
pub open spec fn is_wrap_space(c: char) -> bool {
    c == ' ' || c == '\t'
}

/// A newline always ends the line it follows.
pub open spec fn is_newline(c: char) -> bool {
    c == '\n'
}

/// Total advance width of the characters in `[start, end)`.
pub open spec fn seg_width(text: Seq<char>, gw: GlyphWidths, start: int, end: int) -> int
    decreases end - start,
{
    if start >= end {
        0
    } else {
        seg_width(text, gw, start, end - 1) + gw.width(text[end - 1])
    }
}

/// The first position at or after `e` where the line that began at
/// `start` must stop growing: the end of the text, a newline, or the
/// first character that would push the measured width over the budget
/// (a line always keeps at least one character, so an overwide single
/// glyph still makes progress).
pub open spec fn line_stop_from(
    text: Seq<char>,
    gw: GlyphWidths,
    max_width: u32,
    start: int,
    e: int,
) -> int
    decreases text.len() - e,
{
    if e < 0 || e >= text.len() {
        text.len() as int
    } else if is_newline(text[e]) {
        e
    } else if e > start && seg_width(text, gw, start, e + 1) > max_width {
        e
    } else {
        line_stop_from(text, gw, max_width, start, e + 1)
    }
}

/// The last wrap-whitespace position in `[start, e)`, if any.
pub open spec fn last_space_before(text: Seq<char>, start: int, e: int) -> Option<int>
    decreases e - start,
{
    if e <= start || e > text.len() {
        None
    } else if is_wrap_space(text[e - 1]) {
        Some(e - 1)
    } else {
        last_space_before(text, start, e - 1)
    }
}

/// Extent of the line that begins at `start`: the displayed range is
/// `[start, r.0)` and `r.1` break characters follow it.
pub open spec fn line_at(
    text: Seq<char>,
    gw: GlyphWidths,
    wrap: Wrap,
    max_width: u32,
    start: int,
) -> (int, int) {
    let stop = line_stop_from(text, gw, max_width, start, start);
    if stop >= text.len() {
        (text.len() as int, 0)
    } else if is_newline(text[stop]) {
        (stop, 1)
    } else {
        match wrap {
            Wrap::Character => (stop, 0),
            Wrap::Whitespace => if is_wrap_space(text[stop]) {
                (stop, 1)
            } else {
                match last_space_before(text, start, stop) {
                    Some(pos) => (pos, 1),
                    None => (stop, 0),
                }
            },
        }
    }
}

pub proof fn lemma_line_stop_from_bounds(
    text: Seq<char>,
    gw: GlyphWidths,
    max_width: u32,
    start: int,
    e: int,
)
    requires
        0 <= start <= e <= text.len(),
    ensures
        e <= line_stop_from(text, gw, max_width, start, e) <= text.len(),
        ({
            let stop = line_stop_from(text, gw, max_width, start, e);
            stop < text.len() ==> (is_newline(text[stop]) || (stop > start && seg_width(
                text,
                gw,
                start,
                stop + 1,
            ) > max_width))
        }),
    decreases text.len() - e,
{
    if e < text.len() && !is_newline(text[e]) && !(e > start && seg_width(text, gw, start, e + 1)
        > max_width) {
        lemma_line_stop_from_bounds(text, gw, max_width, start, e + 1);
    }
}

pub proof fn lemma_last_space_bounds(text: Seq<char>, start: int, e: int)
    requires
        0 <= start,
        e <= text.len(),
    ensures
        last_space_before(text, start, e) matches Some(pos) ==> start <= pos < e,
    decreases e - start,
{
    if e <= start || e > text.len() {
    } else if is_wrap_space(text[e - 1]) {
    } else {
        lemma_last_space_bounds(text, start, e - 1);
    }
}

/// Bounds of one line's extent: it stays inside the text, consumes at
/// most one break character, and (unless it is the final line) the next
/// line starts strictly later, so the layout makes progress.
pub proof fn lemma_line_at_bounds(
    text: Seq<char>,
    gw: GlyphWidths,
    wrap: Wrap,
    max_width: u32,
    start: int,
)
    requires
        0 <= start <= text.len(),
    ensures
        ({
            let le = line_at(text, gw, wrap, max_width, start);
            &&& start <= le.0 <= text.len()
            &&& 0 <= le.1 <= 1
            &&& le.0 + le.1 <= text.len()
            &&& (le.0 < text.len() ==> le.0 + le.1 > start)
            &&& (le.0 == text.len() ==> le.1 == 0)
        }),
{
    lemma_line_stop_from_bounds(text, gw, max_width, start, start);
    let stop = line_stop_from(text, gw, max_width, start, start);
    if stop < text.len() && !is_newline(text[stop]) && wrap == Wrap::Whitespace && !is_wrap_space(
        text[stop],
    ) {
        lemma_last_space_bounds(text, start, stop);
    }
}

/// The wrapped lines of the suffix of `text` that begins at `start`.
pub open spec fn layout_from(
    text: Seq<char>,
    gw: GlyphWidths,
    wrap: Wrap,
    max_width: u32,
    start: int,
) -> Seq<LineInfo>
    decreases text.len() - start,
    when 0 <= start <= text.len()
    via layout_from_decreases
{
    let le = line_at(text, gw, wrap, max_width, start);
    if le.0 >= text.len() {
        seq![LineInfo { start: start as usize, end: text.len() as usize, break_len: 0usize }]
    } else {
        seq![
            LineInfo { start: start as usize, end: le.0 as usize, break_len: le.1 as usize },
        ] + layout_from(text, gw, wrap, max_width, le.0 + le.1)
    }
}

#[via_fn]
proof fn layout_from_decreases(
    text: Seq<char>,
    gw: GlyphWidths,
    wrap: Wrap,
    max_width: u32,
    start: int,
) {
    lemma_line_at_bounds(text, gw, wrap, max_width, start);
}

/// The full wrapped layout of `text`: the line layout engine's result,
/// as a mathematical function of its inputs.
pub open spec fn spec_layout(
    text: Seq<char>,
    gw: GlyphWidths,
    wrap: Wrap,
    max_width: u32,
) -> Seq<LineInfo> {
    layout_from(text, gw, wrap, max_width, 0)
}

/// Shape of one line of a well-formed layout for a text of `text_len`
/// characters.
pub open spec fn line_shaped(lines: Seq<LineInfo>, text_len: int, i: int) -> bool {
    &&& lines[i].start <= lines[i].end
    &&& lines[i].break_len <= 1
    &&& lines[i].end + lines[i].break_len <= text_len
}

/// Line `i + 1` begins exactly where line `i`'s range (displayed
/// characters plus consumed break) ends.
pub open spec fn lines_chained(lines: Seq<LineInfo>, i: int) -> bool {
    lines[i + 1].start == lines[i].end + lines[i].break_len
}

/// A well-formed layout, with `start` the offset of its first line:
/// at least one line, contiguous ranges, and the final line ends at the
/// end of the text with no trailing break.
pub open spec fn wf_lines_from(lines: Seq<LineInfo>, start: int, text_len: int) -> bool {
    &&& lines.len() >= 1
    &&& lines[0].start == start
    &&& forall|i: int| 0 <= i < lines.len() ==> #[trigger] line_shaped(lines, text_len, i)
    &&& forall|i: int| 0 <= i < lines.len() - 1 ==> #[trigger] lines_chained(lines, i)
    &&& lines[lines.len() - 1].end == text_len
    &&& lines[lines.len() - 1].break_len == 0
}

/// A well-formed layout of the whole buffer: the ranges tile the buffer
/// exactly once, starting at offset 0.
pub open spec fn wf_lines(lines: Seq<LineInfo>, text_len: int) -> bool {
    wf_lines_from(lines, 0, text_len)
}

pub proof fn lemma_layout_from_wf(
    text: Seq<char>,
    gw: GlyphWidths,
    wrap: Wrap,
    max_width: u32,
    start: int,
)
    requires
        0 <= start <= text.len(),
        text.len() <= usize::MAX,
    ensures
        wf_lines_from(layout_from(text, gw, wrap, max_width, start), start, text.len() as int),
    decreases text.len() - start,
{
    lemma_line_at_bounds(text, gw, wrap, max_width, start);
    let le = line_at(text, gw, wrap, max_width, start);
    let ls = layout_from(text, gw, wrap, max_width, start);
    if le.0 >= text.len() {
        let head = LineInfo { start: start as usize, end: text.len() as usize, break_len: 0usize };
        assert(ls == seq![head]);
        assert(ls[0] == head);
        assert forall|i: int| 0 <= i < ls.len() implies #[trigger] line_shaped(
            ls,
            text.len() as int,
            i,
        ) by {
            assert(i == 0);
        }
    } else {
        lemma_layout_from_wf(text, gw, wrap, max_width, le.0 + le.1);
        let tail = layout_from(text, gw, wrap, max_width, le.0 + le.1);
        let head = LineInfo { start: start as usize, end: le.0 as usize, break_len: le.1 as usize };
        assert(ls == seq![head] + tail);
        assert(ls.len() == 1 + tail.len());
        assert forall|i: int| 1 <= i < ls.len() implies ls[i] == tail[i - 1] by {
            assert(ls[i] == (seq![head] + tail)[i]);
        }
        assert(ls[0] == head);
        assert forall|i: int| 0 <= i < ls.len() implies #[trigger] line_shaped(
            ls,
            text.len() as int,
            i,
        ) by {
            if i >= 1 {
                assert(line_shaped(tail, text.len() as int, i - 1));
                assert(ls[i] == tail[i - 1]);
            }
        }
        assert forall|i: int| 0 <= i < ls.len() - 1 implies #[trigger] lines_chained(ls, i) by {
            if i == 0 {
                assert(ls[1] == tail[0]);
            } else {
                assert(lines_chained(tail, i - 1));
                assert(ls[i] == tail[i - 1]);
                assert(ls[i + 1] == tail[i]);
            }
        }
        assert(ls[ls.len() - 1] == tail[tail.len() - 1]);
    }
}

/// The layout engine always produces a well-formed layout.
pub proof fn lemma_spec_layout_wf(text: Seq<char>, gw: GlyphWidths, wrap: Wrap, max_width: u32)
    requires
        text.len() <= usize::MAX,
    ensures
        wf_lines(spec_layout(text, gw, wrap, max_width), text.len() as int),
{
    lemma_layout_from_wf(text, gw, wrap, max_width, 0);
}

/// Find where the line that begins at `start` must stop growing.
fn find_stop(text: &Vec<char>, gw: &GlyphWidths, max_width: u32, start: usize) -> (stop: usize)
    requires
        start <= text@.len(),
    ensures
        stop == line_stop_from(text@, *gw, max_width, start as int, start as int),
{
    let n: usize = text.len();
    let mut e: usize = start;
    let mut w: u64 = 0;
    loop
        invariant
            start <= e <= n,
            n == text@.len(),
            w == seg_width(text@, *gw, start as int, e as int),
            w <= u32::MAX,
            line_stop_from(text@, *gw, max_width, start as int, start as int) == line_stop_from(
                text@,
                *gw,
                max_width,
                start as int,
                e as int,
            ),
        decreases n - e,
    {
        if e >= n {
            return e;
        }
        let c: char = text[e];
        if c == '\n' {
            return e;
        }
        let cw: u64 = gw.glyph_width(c) as u64;
        assert(seg_width(text@, *gw, start as int, e + 1 as int) == w + cw);
        if e > start && w + cw > max_width as u64 {
            return e;
        }
        w = w + cw;
        e = e + 1;
    }
}

/// Find the last wrap-whitespace position in `[start, e)`, if any.
fn find_last_space(text: &Vec<char>, start: usize, e: usize) -> (r: Option<usize>)
    requires
        start <= e <= text@.len(),
    ensures
        match r {
            Some(p) => last_space_before(text@, start as int, e as int) == Some(p as int) && start
                <= p < e,
            None => last_space_before(text@, start as int, e as int) is None,
        },
{
    let mut j: usize = e;
    loop
        invariant
            start <= j <= e <= text@.len(),
            last_space_before(text@, start as int, e as int) == last_space_before(
                text@,
                start as int,
                j as int,
            ),
        decreases j,
    {
        if j <= start {
            return None;
        }
        let c: char = text[j - 1];
        if c == ' ' || c == '\t' {
            return Some(j - 1);
        }
        j = j - 1;
    }
}

/// Extent of the line that begins at `start`, as `(end, break_len)`.
fn line_extent(text: &Vec<char>, gw: &GlyphWidths, wrap: Wrap, max_width: u32, start: usize) -> (r:
    (usize, usize))
    requires
        start <= text@.len(),
    ensures
        (r.0 as int, r.1 as int) == line_at(text@, *gw, wrap, max_width, start as int),
        start <= r.0 <= text@.len(),
        r.1 <= 1,
        r.0 + r.1 <= text@.len(),
{
    proof {
        lemma_line_at_bounds(text@, *gw, wrap, max_width, start as int);
    }
    let n: usize = text.len();
    let stop: usize = find_stop(text, gw, max_width, start);
    proof {
        lemma_line_stop_from_bounds(text@, *gw, max_width, start as int, start as int);
    }
    if stop >= n {
        (n, 0)
    } else {
        let c: char = text[stop];
        if c == '\n' {
            (stop, 1)
        } else {
            match wrap {
                Wrap::Character => (stop, 0),
                Wrap::Whitespace => {
                    if c == ' ' || c == '\t' {
                        (stop, 1)
                    } else {
                        match find_last_space(text, start, stop) {
                            Some(pos) => (pos, 1),
                            None => (stop, 0),
                        }
                    }
                },
            }
        }
    }
}

/// The line layout engine: partition `text` into wrapped lines.
///
/// The result is exactly `spec_layout(text, glyph widths, wrap policy,
/// width budget)`, so re-running the engine on identical inputs always
/// yields an identical sequence, and the result is well formed: the
/// line ranges are contiguous and cover the whole buffer exactly once.
pub fn layout(text: &Vec<char>, gw: &GlyphWidths, wrap: Wrap, max_width: u32) -> (lines: Vec<
    LineInfo,
>)
    ensures
        lines@ == spec_layout(text@, *gw, wrap, max_width),
        wf_lines(lines@, text@.len() as int),
{
    let n: usize = text.len();
    proof {
        lemma_spec_layout_wf(text@, *gw, wrap, max_width);
    }
    let mut lines: Vec<LineInfo> = Vec::new();
    let mut start: usize = 0;
    loop
        invariant
            start <= n,
            n == text@.len(),
            lines@ + layout_from(text@, *gw, wrap, max_width, start as int) == spec_layout(
                text@,
                *gw,
                wrap,
                max_width,
            ),
        decreases n - start,
    {
        let r: (usize, usize) = line_extent(text, gw, wrap, max_width, start);
        let end: usize = r.0;
        let bl: usize = r.1;
        proof {
            lemma_line_at_bounds(text@, *gw, wrap, max_width, start as int);
        }
        if end >= n {
            lines.push(LineInfo { start, end: n, break_len: 0 });
            proof {
                lemma_spec_layout_wf(text@, *gw, wrap, max_width);
                assert(lines@ =~= spec_layout(text@, *gw, wrap, max_width));
            }
            return lines;
        }
        lines.push(LineInfo { start, end, break_len: bl });
        proof {
            assert(lines@ + layout_from(text@, *gw, wrap, max_width, end + bl) =~= spec_layout(
                text@,
                *gw,
                wrap,
                max_width,
            ));
        }
        start = end + bl;
    }
}

pub proof fn lemma_layout_from_len(
    text: Seq<char>,
    gw: GlyphWidths,
    wrap: Wrap,
    max_width: u32,
    start: int,
)
    requires
        0 <= start <= text.len(),
    ensures
        layout_from(text, gw, wrap, max_width, start).len() <= text.len() - start + 1,
    decreases text.len() - start,
{
    lemma_line_at_bounds(text, gw, wrap, max_width, start);
    let le = line_at(text, gw, wrap, max_width, start);
    if le.0 < text.len() {
        lemma_layout_from_len(text, gw, wrap, max_width, le.0 + le.1);
    }
}

/// A layout never has more lines than characters plus one.
pub proof fn lemma_spec_layout_len(text: Seq<char>, gw: GlyphWidths, wrap: Wrap, max_width: u32)
    ensures
        spec_layout(text, gw, wrap, max_width).len() <= text.len() + 1,
{
    lemma_layout_from_len(text, gw, wrap, max_width, 0);
}

/// Total rendered height of `n` wrapped lines: each line is
/// `font_size` tall with `line_spacing` between consecutive lines.
pub open spec fn spec_height(n: int, font_size: u32, line_spacing: u32) -> int {
    if n <= 0 {
        0
    } else {
        n * font_size + (n - 1) * line_spacing
    }
}

/// Compute the total rendered height of `n` wrapped lines.
pub fn wrapped_height(n: usize, font_size: u32, line_spacing: u32) -> (h: u128)
    ensures
        h == spec_height(n as int, font_size, line_spacing),
{
    if n == 0 {
        0
    } else {
        let nn: u128 = n as u128;
        assert(nn * (font_size as u128) <= 0xFFFF_FFFF_FFFF_FFFF * 0xFFFF_FFFF)
            by (nonlinear_arith)
            requires
                nn <= 0xFFFF_FFFF_FFFF_FFFF,
                font_size <= 0xFFFF_FFFF,
        ;
        assert((nn - 1) * (line_spacing as u128) <= 0xFFFF_FFFF_FFFF_FFFF * 0xFFFF_FFFF)
            by (nonlinear_arith)
            requires
                1 <= nn <= 0xFFFF_FFFF_FFFF_FFFF,
                line_spacing <= 0xFFFF_FFFF,
        ;
        nn * (font_size as u128) + (nn - 1) * (line_spacing as u128)
    }
}

} // verus!
