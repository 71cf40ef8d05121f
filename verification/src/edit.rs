//! The edit engine: single-shot insertion, backspace, and select-all
//! operations on the buffer and cursor, each re-deriving the line
//! layout from the new text, with insertion subject to the vertical
//! budget.

use vstd::prelude::*;
use crate::style::Params;
use crate::layout::{
    LineInfo, layout, lemma_spec_layout_len, lemma_spec_layout_wf, spec_height, spec_layout,
    wf_lines, wrapped_height,
};
use crate::cursor::{
    Cursor, CursorIndex, cursor_index_valid, index_after_cursor, index_before_char,
    lemma_after_cursor_le_total, lemma_offset_round_trip, spec_index_after_cursor,
    spec_index_before_char,
};

verus! {

/// The buffer with `[a, b)` replaced by `ins`.
pub open spec fn splice(t: Seq<char>, a: int, b: int, ins: Seq<char>) -> Seq<char>
    recommends
        0 <= a <= b <= t.len(),
{
    t.subrange(0, a) + ins + t.subrange(b, t.len() as int)
}

/// An unresolvable offset falls back to the start of the buffer.
pub open spec fn offset_or_zero(o: Option<int>) -> int {
    match o {
        Some(v) => v,
        None => 0,
    }
}

/// The linear-offset span `[a, b)` that an insertion replaces: the
/// caret position twice for a caret, the normalized selection span for
/// a selection.
pub open spec fn insertion_span(lines: Seq<LineInfo>, cursor: Cursor) -> (int, int) {
    match cursor {
        Cursor::Idx(ci) => {
            let o = offset_or_zero(spec_index_after_cursor(lines, ci));
            (o, o)
        },
        Cursor::Selection { start, end } => {
            let oa = offset_or_zero(spec_index_after_cursor(lines, start));
            let ob = offset_or_zero(spec_index_after_cursor(lines, end));
            if oa <= ob {
                (oa, ob)
            } else {
                (ob, oa)
            }
        },
    }
}

pub proof fn lemma_insertion_span_bounds(lines: Seq<LineInfo>, text_len: int, cursor: Cursor)
    requires
        wf_lines(lines, text_len),
        text_len >= 0,
    ensures
        ({
            let span = insertion_span(lines, cursor);
            0 <= span.0 <= span.1 <= text_len
        }),
{
    match cursor {
        Cursor::Idx(ci) => {
            if cursor_index_valid(lines, ci) {
                lemma_after_cursor_le_total(lines, text_len, ci);
            }
        },
        Cursor::Selection { start, end } => {
            if cursor_index_valid(lines, start) {
                lemma_after_cursor_le_total(lines, text_len, start);
            }
            if cursor_index_valid(lines, end) {
                lemma_after_cursor_le_total(lines, text_len, end);
            }
        },
    }
}

/// Build the buffer with `[a, b)` replaced by `ins`.
pub fn splice_text(text: &Vec<char>, a: usize, b: usize, ins: &Vec<char>) -> (r: Vec<char>)
    requires
        a <= b <= text@.len(),
    ensures
        r@ == splice(text@, a as int, b as int, ins@),
{
    let n: usize = text.len();
    let m: usize = ins.len();
    let mut r: Vec<char> = Vec::new();
    let mut i: usize = 0;
    while i < a
        invariant
            i <= a <= b <= n,
            n == text@.len(),
            r@ == text@.subrange(0, i as int),
        decreases a - i,
    {
        r.push(text[i]);
        proof {
            assert(text@.subrange(0, i + 1 as int) =~= text@.subrange(0, i as int).push(
                text@[i as int],
            ));
        }
        i = i + 1;
    }
    let mut j: usize = 0;
    while j < m
        invariant
            j <= m,
            m == ins@.len(),
            a <= b <= n,
            n == text@.len(),
            r@ == text@.subrange(0, a as int) + ins@.subrange(0, j as int),
        decreases m - j,
    {
        r.push(ins[j]);
        proof {
            assert(ins@.subrange(0, j + 1 as int) =~= ins@.subrange(0, j as int).push(
                ins@[j as int],
            ));
            assert(text@.subrange(0, a as int) + ins@.subrange(0, j + 1 as int) =~= (text@.subrange(
                0,
                a as int,
            ) + ins@.subrange(0, j as int)).push(ins@[j as int]));
        }
        j = j + 1;
    }
    proof {
        assert(ins@.subrange(0, m as int) =~= ins@);
    }
    let mut k: usize = b;
    while k < n
        invariant
            b <= k <= n,
            n == text@.len(),
            r@ == text@.subrange(0, a as int) + ins@ + text@.subrange(b as int, k as int),
        decreases n - k,
    {
        r.push(text[k]);
        proof {
            assert(text@.subrange(b as int, k + 1 as int) =~= text@.subrange(
                b as int,
                k as int,
            ).push(text@[k as int]));
            assert(text@.subrange(0, a as int) + ins@ + text@.subrange(b as int, k + 1 as int)
                =~= (text@.subrange(0, a as int) + ins@ + text@.subrange(b as int, k as int)).push(
                text@[k as int],
            ));
        }
        k = k + 1;
    }
    r
}

/// Compute the insertion span of the current cursor.
fn cursor_span(text_len: usize, lines: &Vec<LineInfo>, cursor: &Cursor) -> (r: (usize, usize))
    requires
        wf_lines(lines@, text_len as int),
    ensures
        (r.0 as int, r.1 as int) == insertion_span(lines@, *cursor),
        r.0 <= r.1 <= text_len,
{
    proof {
        lemma_insertion_span_bounds(lines@, text_len as int, *cursor);
    }
    match cursor {
        Cursor::Idx(ci) => {
            let o: usize = match index_after_cursor(lines, *ci) {
                Some(v) => v,
                None => 0,
            };
            (o, o)
        },
        Cursor::Selection { start, end } => {
            let oa: usize = match index_after_cursor(lines, *start) {
                Some(v) => v,
                None => 0,
            };
            let ob: usize = match index_after_cursor(lines, *end) {
                Some(v) => v,
                None => 0,
            };
            if oa <= ob {
                (oa, ob)
            } else {
                (ob, oa)
            }
        },
    }
}

/// What insertion produces: the new buffer, cursor and layout, and
/// whether the edit was applied at all. The edit is applied exactly
/// when the prospective text's wrapped height stays strictly inside
/// the vertical budget; otherwise everything is left unchanged.
pub open spec fn spec_insert(
    text: Seq<char>,
    cursor: Cursor,
    lines: Seq<LineInfo>,
    ins: Seq<char>,
    p: Params,
) -> (Seq<char>, Cursor, Seq<LineInfo>, bool) {
    let span = insertion_span(lines, cursor);
    let nt = splice(text, span.0, span.1, ins);
    let nl = spec_layout(nt, p.glyphs, p.wrap, p.area.w);
    if spec_height(nl.len() as int, p.font_size, p.line_spacing) < p.area.h {
        let caret = match spec_index_before_char(nl, span.0 + ins.len()) {
            Some(ci) => ci,
            None => CursorIndex { line: 0, char: ins.len() as usize },
        };
        (nt, Cursor::Idx(caret), nl, true)
    } else {
        (text, cursor, lines, false)
    }
}

/// Insert `ins` at the cursor: splice the buffer, re-derive the layout
/// from the prospective text, and commit the edit only when the new
/// wrapped height stays strictly inside the vertical budget; a rejected
/// edit leaves buffer, cursor and layout untouched. The new caret lands
/// immediately after the inserted text.
pub fn insert(
    text: &mut Vec<char>,
    cursor: &mut Cursor,
    lines: &mut Vec<LineInfo>,
    ins: &Vec<char>,
    p: &Params,
) -> (applied: bool)
    requires
        wf_lines(old(lines)@, old(text)@.len() as int),
    ensures
        ({
            let r = spec_insert(old(text)@, *old(cursor), old(lines)@, ins@, *p);
            &&& final(text)@ == r.0
            &&& *final(cursor) == r.1
            &&& final(lines)@ == r.2
            &&& applied == r.3
        }),
        wf_lines(final(lines)@, final(text)@.len() as int),
{
    let text_len: usize = text.len();
    let span: (usize, usize) = cursor_span(text_len, lines, cursor);
    let nt: Vec<char> = splice_text(text, span.0, span.1, ins);
    let nl: Vec<LineInfo> = layout(&nt, &p.glyphs, p.wrap, p.area.w);
    let h: u128 = wrapped_height(nl.len(), p.font_size, p.line_spacing);
    if h < p.area.h as u128 {
        assert(span.0 + ins@.len() <= nt@.len());
        let caret_off: usize = span.0 + ins.len();
        let caret: CursorIndex = match index_before_char(&nl, caret_off) {
            Some(ci) => ci,
            None => CursorIndex { line: 0, char: ins.len() },
        };
        *text = nt;
        *lines = nl;
        *cursor = Cursor::Idx(caret);
        true
    } else {
        false
    }
}

/// What backspace produces. With a caret it deletes the single
/// character before the caret (a no-op at the very start); with a
/// selection it deletes the normalized span. The caret lands at the
/// start of the deleted span, addressed in the re-derived layout.
/// There is no height guard: text only shrinks.
pub open spec fn spec_backspace(
    text: Seq<char>,
    cursor: Cursor,
    lines: Seq<LineInfo>,
    p: Params,
) -> (Seq<char>, Cursor, Seq<LineInfo>) {
    match cursor {
        Cursor::Idx(ci) => match spec_index_after_cursor(lines, ci) {
            Some(o) => if o > 0 {
                let nt = splice(text, o - 1, o, Seq::<char>::empty());
                let nl = spec_layout(nt, p.glyphs, p.wrap, p.area.w);
                let caret = match spec_index_before_char(nl, o - 1) {
                    Some(c) => c,
                    None => ci,
                };
                (nt, Cursor::Idx(caret), nl)
            } else {
                (text, cursor, lines)
            },
            None => (text, cursor, lines),
        },
        Cursor::Selection { start, end } => {
            match (
                spec_index_after_cursor(lines, start),
                spec_index_after_cursor(lines, end),
            ) {
                (Some(oa), Some(ob)) => {
                    let a = if oa <= ob {
                        oa
                    } else {
                        ob
                    };
                    let b = if oa <= ob {
                        ob
                    } else {
                        oa
                    };
                    let nt = splice(text, a, b, Seq::<char>::empty());
                    let nl = spec_layout(nt, p.glyphs, p.wrap, p.area.w);
                    let caret = match spec_index_before_char(nl, a) {
                        Some(c) => c,
                        None => start,
                    };
                    (nt, Cursor::Idx(caret), nl)
                },
                _ => (text, cursor, lines),
            }
        },
    }
}

/// Apply one backspace to the buffer and cursor, re-deriving the layout
/// when the buffer changed. Unresolvable cursor positions make the
/// operation a no-op rather than an error.
pub fn backspace(text: &mut Vec<char>, cursor: &mut Cursor, lines: &mut Vec<LineInfo>, p: &Params)
    requires
        wf_lines(old(lines)@, old(text)@.len() as int),
    ensures
        ({
            let r = spec_backspace(old(text)@, *old(cursor), old(lines)@, *p);
            &&& final(text)@ == r.0
            &&& *final(cursor) == r.1
            &&& final(lines)@ == r.2
        }),
        wf_lines(final(lines)@, final(text)@.len() as int),
{
    let text_len: usize = text.len();
    let empty: Vec<char> = Vec::new();
    match *cursor {
        Cursor::Idx(ci) => {
            match index_after_cursor(lines, ci) {
                Some(o) => {
                    if o > 0 {
                        proof {
                            lemma_after_cursor_le_total(lines@, text_len as int, ci);
                        }
                        let nt: Vec<char> = splice_text(text, o - 1, o, &empty);
                        let nl: Vec<LineInfo> = layout(&nt, &p.glyphs, p.wrap, p.area.w);
                        let caret: CursorIndex = match index_before_char(&nl, o - 1) {
                            Some(c) => c,
                            None => ci,
                        };
                        *text = nt;
                        *lines = nl;
                        *cursor = Cursor::Idx(caret);
                    }
                },
                None => {},
            }
        },
        Cursor::Selection { start, end } => {
            let ra: Option<usize> = index_after_cursor(lines, start);
            let rb: Option<usize> = index_after_cursor(lines, end);
            match (ra, rb) {
                (Some(oa), Some(ob)) => {
                    proof {
                        lemma_after_cursor_le_total(lines@, text_len as int, start);
                        lemma_after_cursor_le_total(lines@, text_len as int, end);
                    }
                    let a: usize = if oa <= ob {
                        oa
                    } else {
                        ob
                    };
                    let b: usize = if oa <= ob {
                        ob
                    } else {
                        oa
                    };
                    let nt: Vec<char> = splice_text(text, a, b, &empty);
                    let nl: Vec<LineInfo> = layout(&nt, &p.glyphs, p.wrap, p.area.w);
                    let caret: CursorIndex = match index_before_char(&nl, a) {
                        Some(c) => c,
                        None => start,
                    };
                    *text = nt;
                    *lines = nl;
                    *cursor = Cursor::Idx(caret);
                },
                _ => {},
            }
        },
    }
}

/// The select-all cursor: a selection anchored at the very first
/// position whose end addresses the total character count.
pub open spec fn spec_select_all(text_len: int, lines: Seq<LineInfo>) -> Cursor {
    let end = match spec_index_before_char(lines, text_len) {
        Some(ci) => ci,
        None => CursorIndex { line: 0, char: 0 },
    };
    Cursor::Selection { start: CursorIndex { line: 0, char: 0 }, end }
}

/// Select the whole buffer.
pub fn select_all(text: &Vec<char>, lines: &Vec<LineInfo>) -> (r: Cursor)
    requires
        wf_lines(lines@, text@.len() as int),
    ensures
        r == spec_select_all(text@.len() as int, lines@),
        ({
            match r {
                Cursor::Selection { start, end } => {
                    &&& start == (CursorIndex { line: 0, char: 0 })
                    &&& cursor_index_valid(lines@, end)
                    &&& spec_index_after_cursor(lines@, end) == Some(text@.len() as int)
                },
                Cursor::Idx(_) => false,
            }
        }),
{
    let text_len: usize = text.len();
    let nlines: usize = lines.len();
    proof {
        lemma_offset_round_trip(lines@, text_len as int, text_len as int);
    }
    let end: CursorIndex = match index_before_char(lines, text_len) {
        Some(ci) => ci,
        None => CursorIndex { line: 0, char: 0 },
    };
    Cursor::Selection { start: CursorIndex { line: 0, char: 0 }, end }
}

/// Height guard: when the prospective text's wrapped height would not
/// stay strictly inside the vertical budget, the insertion is rejected
/// as a unit, and buffer, cursor and layout are all left exactly as
/// they were.
pub proof fn lemma_insert_height_guard(
    text: Seq<char>,
    cursor: Cursor,
    lines: Seq<LineInfo>,
    ins: Seq<char>,
    p: Params,
)
    requires
        ({
            let span = insertion_span(lines, cursor);
            let nl = spec_layout(splice(text, span.0, span.1, ins), p.glyphs, p.wrap, p.area.w);
            spec_height(nl.len() as int, p.font_size, p.line_spacing) >= p.area.h
        }),
    ensures
        spec_insert(text, cursor, lines, ins, p) == (text, cursor, lines, false),
{
}

/// Backspace applied `n` times in a row.
pub open spec fn spec_backspace_n(
    text: Seq<char>,
    cursor: Cursor,
    lines: Seq<LineInfo>,
    p: Params,
    n: nat,
) -> (Seq<char>, Cursor, Seq<LineInfo>)
    decreases n,
{
    if n == 0 {
        (text, cursor, lines)
    } else {
        let r = spec_backspace(text, cursor, lines, p);
        spec_backspace_n(r.0, r.1, r.2, p, (n - 1) as nat)
    }
}

proof fn lemma_backspace_unwinds(orig: Seq<char>, o: int, ins: Seq<char>, k: nat, p: Params)
    requires
        0 <= o <= orig.len(),
        orig.len() + ins.len() < usize::MAX,
        k <= ins.len(),
    ensures
        ({
            let tk = splice(orig, o, o, ins.subrange(0, k as int));
            let lk = spec_layout(tk, p.glyphs, p.wrap, p.area.w);
            let ck = spec_index_before_char(lk, o + k);
            &&& ck is Some
            &&& spec_backspace_n(tk, Cursor::Idx(ck.unwrap()), lk, p, k).0 == orig
        }),
    decreases k,
{
    let tk = splice(orig, o, o, ins.subrange(0, k as int));
    let lk = spec_layout(tk, p.glyphs, p.wrap, p.area.w);
    assert(tk.len() == orig.len() + k);
    lemma_spec_layout_wf(tk, p.glyphs, p.wrap, p.area.w);
    lemma_spec_layout_len(tk, p.glyphs, p.wrap, p.area.w);
    lemma_offset_round_trip(lk, tk.len() as int, o + k);
    let ck = spec_index_before_char(lk, o + k).unwrap();
    if k == 0 {
        assert(tk =~= orig);
    } else {
        assert(spec_index_after_cursor(lk, ck) == Some(o + k));
        let nt = splice(tk, o + k - 1, o + k, Seq::<char>::empty());
        let tkm1 = splice(orig, o, o, ins.subrange(0, k - 1));
        assert(nt =~= tkm1);
        let lkm1 = spec_layout(tkm1, p.glyphs, p.wrap, p.area.w);
        lemma_spec_layout_wf(tkm1, p.glyphs, p.wrap, p.area.w);
        lemma_spec_layout_len(tkm1, p.glyphs, p.wrap, p.area.w);
        lemma_offset_round_trip(lkm1, tkm1.len() as int, o + k - 1);
        let r = spec_backspace(tk, Cursor::Idx(ck), lk, p);
        assert(r.0 == tkm1);
        lemma_backspace_unwinds(orig, o, ins, (k - 1) as nat, p);
        assert(spec_backspace_n(r.0, r.1, r.2, p, (k - 1) as nat).0 == orig);
    }
}

/// Insert/backspace inverse: inserting a string of `n` characters at a
/// caret and then backspacing `n` times returns the buffer to its
/// original content, provided the insertion was not rejected by the
/// height guard.
pub proof fn lemma_insert_backspace_inverse(
    text: Seq<char>,
    ci: CursorIndex,
    ins: Seq<char>,
    p: Params,
)
    requires
        text.len() + ins.len() < usize::MAX,
        cursor_index_valid(spec_layout(text, p.glyphs, p.wrap, p.area.w), ci),
        spec_insert(
            text,
            Cursor::Idx(ci),
            spec_layout(text, p.glyphs, p.wrap, p.area.w),
            ins,
            p,
        ).3,
    ensures
        ({
            let lines = spec_layout(text, p.glyphs, p.wrap, p.area.w);
            let r = spec_insert(text, Cursor::Idx(ci), lines, ins, p);
            spec_backspace_n(r.0, r.1, r.2, p, ins.len()).0 == text
        }),
{
    let lines = spec_layout(text, p.glyphs, p.wrap, p.area.w);
    lemma_spec_layout_wf(text, p.glyphs, p.wrap, p.area.w);
    let span = insertion_span(lines, Cursor::Idx(ci));
    lemma_after_cursor_le_total(lines, text.len() as int, ci);
    let o = span.0;
    assert(span.1 == o);
    assert(0 <= o <= text.len());
    assert(ins.subrange(0, ins.len() as int) =~= ins);
    lemma_backspace_unwinds(text, o, ins, ins.len(), p);
    let r = spec_insert(text, Cursor::Idx(ci), lines, ins, p);
    let tn = splice(text, o, o, ins);
    let ln = spec_layout(tn, p.glyphs, p.wrap, p.area.w);
    lemma_spec_layout_wf(tn, p.glyphs, p.wrap, p.area.w);
    lemma_spec_layout_len(tn, p.glyphs, p.wrap, p.area.w);
    lemma_offset_round_trip(ln, tn.len() as int, o + ins.len());
    assert(r.0 == tn);
    assert(r.1 == Cursor::Idx(spec_index_before_char(ln, o + ins.len()).unwrap()));
}

} // verus!
