//! The cursor index algebra: conversions between linear character
//! offsets and two-dimensional (line, char) cursor indices, relative to
//! a line layout, plus successor and predecessor positions.

use vstd::prelude::*;
use crate::layout::{LineInfo, line_shaped, lines_chained, wf_lines};

verus! {

/// A two-dimensional cursor address: a line of the wrapped layout and a
/// character offset within that line (not a byte offset). It is valid
/// only relative to a specific `LineInfo` sequence.
#[derive(Clone, Copy, PartialEq, Eq, Structural, Debug)]
pub struct CursorIndex {
    /// Index of the line within the layout.
    pub line: usize,
    /// Character offset within the line, in `0 ..= char_count`.
    pub char: usize,
}

/// The position of the cursor over the text.
#[derive(Clone, Copy, PartialEq, Eq, Structural, Debug)]
pub enum Cursor {
    /// A caret at the given index, with no selection.
    Idx(CursorIndex),
    /// A selection between two indices. `start` is the anchor: it stays
    /// fixed while a drag extends `end`, so the pair is not pre-sorted.
    Selection {
        /// The anchor endpoint.
        start: CursorIndex,
        /// The movable endpoint; it may lie before or after `start`.
        end: CursorIndex,
    },
}

/// Lexicographic order on cursor indices: by line, then by character.
pub open spec fn cursor_le(a: CursorIndex, b: CursorIndex) -> bool {
    a.line < b.line || (a.line == b.line && a.char <= b.char)
}

/// The earlier of two cursor indices.
pub open spec fn spec_cursor_min(a: CursorIndex, b: CursorIndex) -> CursorIndex {
    if cursor_le(a, b) {
        a
    } else {
        b
    }
}

/// The later of two cursor indices.
pub open spec fn spec_cursor_max(a: CursorIndex, b: CursorIndex) -> CursorIndex {
    if cursor_le(a, b) {
        b
    } else {
        a
    }
}

/// Compute the earlier of two cursor indices.
pub fn cursor_min(a: CursorIndex, b: CursorIndex) -> (r: CursorIndex)
    ensures
        r == spec_cursor_min(a, b),
{
    if a.line < b.line || (a.line == b.line && a.char <= b.char) {
        a
    } else {
        b
    }
}

/// Compute the later of two cursor indices.
pub fn cursor_max(a: CursorIndex, b: CursorIndex) -> (r: CursorIndex)
    ensures
        r == spec_cursor_max(a, b),
{
    if a.line < b.line || (a.line == b.line && a.char <= b.char) {
        b
    } else {
        a
    }
}

/// Whether `idx` addresses a position of the given layout: its line
/// exists and its character offset is at most that line's count (a
/// cursor may stand just past the last character of a line).
pub open spec fn cursor_index_valid(lines: Seq<LineInfo>, idx: CursorIndex) -> bool {
    idx.line < lines.len() && idx.char <= lines[idx.line as int].char_count()
}

/// Linear character offset of the position immediately after `idx`,
/// or `None` when `idx` is out of range for the layout.
pub open spec fn spec_index_after_cursor(lines: Seq<LineInfo>, idx: CursorIndex) -> Option<int> {
    if cursor_index_valid(lines, idx) {
        Some(lines[idx.line as int].start + idx.char)
    } else {
        None
    }
}

/// Scan for the first line, at or after line `i`, whose span of offsets
/// contains `o`; an offset exactly at a line break resolves to the end
/// of the earlier line rather than the start of the next.
pub open spec fn find_line_for_offset(lines: Seq<LineInfo>, o: int, i: int) -> Option<CursorIndex>
    decreases lines.len() - i,
{
    if i < 0 || i >= lines.len() {
        None
    } else if lines[i].start <= o <= lines[i].end {
        Some(CursorIndex { line: i as usize, char: (o - lines[i].start) as usize })
    } else {
        find_line_for_offset(lines, o, i + 1)
    }
}

/// The cursor index addressing linear offset `o`, or `None` when `o`
/// exceeds the layout's total character count.
pub open spec fn spec_index_before_char(lines: Seq<LineInfo>, o: int) -> Option<CursorIndex> {
    find_line_for_offset(lines, o, 0)
}

/// Linear character offset of the position immediately after `idx`.
pub fn index_after_cursor(lines: &Vec<LineInfo>, idx: CursorIndex) -> (r: Option<usize>)
    ensures
        match r {
            Some(o) => spec_index_after_cursor(lines@, idx) == Some(o as int),
            None => spec_index_after_cursor(lines@, idx) is None,
        },
{
    if idx.line < lines.len() {
        let li: LineInfo = lines[idx.line];
        if li.end >= li.start && idx.char <= li.end - li.start {
            Some(li.start + idx.char)
        } else {
            None
        }
    } else {
        None
    }
}

/// The cursor index addressing linear offset `o`.
pub fn index_before_char(lines: &Vec<LineInfo>, o: usize) -> (r: Option<CursorIndex>)
    ensures
        r == spec_index_before_char(lines@, o as int),
{
    let n: usize = lines.len();
    let mut i: usize = 0;
    loop
        invariant
            i <= n,
            n == lines@.len(),
            spec_index_before_char(lines@, o as int) == find_line_for_offset(
                lines@,
                o as int,
                i as int,
            ),
        decreases n - i,
    {
        if i >= n {
            return None;
        }
        let li: LineInfo = lines[i];
        if li.start <= o && o <= li.end {
            return Some(CursorIndex { line: i, char: o - li.start });
        }
        i = i + 1;
    }
}

/// When every line of the layout ends before `o`, no line contains it.
proof fn lemma_find_line_past_end(lines: Seq<LineInfo>, o: int, i: int)
    requires
        o > usize::MAX,
    ensures
        find_line_for_offset(lines, o, i) is None,
    decreases lines.len() - i,
{
    if 0 <= i < lines.len() {
        lemma_find_line_past_end(lines, o, i + 1);
    }
}

/// The adjacent cursor position before `idx`: one linear offset back,
/// or `None` at the very first position (or when `idx` is unresolvable).
pub open spec fn spec_previous(lines: Seq<LineInfo>, idx: CursorIndex) -> Option<CursorIndex> {
    match spec_index_after_cursor(lines, idx) {
        Some(o) => if o > 0 {
            spec_index_before_char(lines, o - 1)
        } else {
            None
        },
        None => None,
    }
}

/// The adjacent cursor position after `idx`: one linear offset forward,
/// or `None` at the very last position (or when `idx` is unresolvable).
pub open spec fn spec_next(lines: Seq<LineInfo>, idx: CursorIndex) -> Option<CursorIndex> {
    match spec_index_after_cursor(lines, idx) {
        Some(o) => spec_index_before_char(lines, o + 1),
        None => None,
    }
}

/// Compute the adjacent cursor position before `idx`.
pub fn previous(lines: &Vec<LineInfo>, idx: CursorIndex) -> (r: Option<CursorIndex>)
    ensures
        r == spec_previous(lines@, idx),
{
    match index_after_cursor(lines, idx) {
        Some(o) => if o > 0 {
            index_before_char(lines, o - 1)
        } else {
            None
        },
        None => None,
    }
}

/// Compute the adjacent cursor position after `idx`.
pub fn next(lines: &Vec<LineInfo>, idx: CursorIndex) -> (r: Option<CursorIndex>)
    ensures
        r == spec_next(lines@, idx),
{
    match index_after_cursor(lines, idx) {
        Some(o) => {
            if o == usize::MAX {
                proof {
                    lemma_find_line_past_end(lines@, o + 1, 0);
                }
                None
            } else {
                index_before_char(lines, o + 1)
            }
        },
        None => None,
    }
}

/// In a well-formed layout, the offset after a valid cursor index never
/// exceeds the total character count.
pub proof fn lemma_after_cursor_le_total(lines: Seq<LineInfo>, text_len: int, idx: CursorIndex)
    requires
        wf_lines(lines, text_len),
        cursor_index_valid(lines, idx),
    ensures
        spec_index_after_cursor(lines, idx) matches Some(o) && 0 <= o <= text_len,
{
    assert(line_shaped(lines, text_len, idx.line as int));
}

proof fn lemma_find_line_some(lines: Seq<LineInfo>, text_len: int, o: int, i: int)
    requires
        wf_lines(lines, text_len),
        lines.len() <= usize::MAX,
        0 <= i < lines.len(),
        lines[i].start <= o <= text_len,
    ensures
        ({
            let r = find_line_for_offset(lines, o, i);
            &&& r is Some
            &&& cursor_index_valid(lines, r.unwrap())
            &&& spec_index_after_cursor(lines, r.unwrap()) == Some(o)
        }),
    decreases lines.len() - i,
{
    assert(line_shaped(lines, text_len, i));
    if o <= lines[i].end {
    } else {
        if i == lines.len() - 1 {
            assert(false);
        } else {
            assert(lines_chained(lines, i));
            lemma_find_line_some(lines, text_len, o, i + 1);
        }
    }
}

/// Round trip: in a well-formed layout, every linear offset up to the
/// total character count resolves to a cursor index, and the offset
/// after that index is the original offset:
/// `index_after_cursor(index_before_char(o)) == o`.
pub proof fn lemma_offset_round_trip(lines: Seq<LineInfo>, text_len: int, o: int)
    requires
        wf_lines(lines, text_len),
        lines.len() <= usize::MAX,
        0 <= o <= text_len,
    ensures
        ({
            let r = spec_index_before_char(lines, o);
            &&& r is Some
            &&& cursor_index_valid(lines, r.unwrap())
            &&& spec_index_after_cursor(lines, r.unwrap()) == Some(o)
        }),
{
    lemma_find_line_some(lines, text_len, o, 0);
}

} // verus!
