//! Tests for the line layout engine and the cursor index algebra.

use textbox::style::{Align, GlyphWidths, Params, TextArea, Wrap};
use textbox::layout::{layout, LineInfo};
use textbox::cursor::{index_after_cursor, index_before_char, next, previous, CursorIndex};

fn chars(s: &str) -> Vec<char> {
    s.chars().collect()
}

fn mono(default_width: u32) -> GlyphWidths {
    GlyphWidths { widths: Vec::new(), default_width }
}

fn params(max_width: u32) -> Params {
    Params {
        glyphs: mono(1),
        font_size: 10,
        line_spacing: 2,
        wrap: Wrap::Whitespace,
        x_align: Align::Start,
        y_align: Align::Start,
        area: TextArea { x: 0, y: 0, w: max_width, h: 1_000_000 },
    }
}

#[test]
fn one_line_when_width_fits() {
    let text = chars("hello world");
    let p = params(100);
    let lines = layout(&text, &p.glyphs, p.wrap, p.area.w);
    assert_eq!(lines, vec![LineInfo { start: 0, end: 11, break_len: 0 }]);
}

#[test]
fn whitespace_wrap_consumes_the_space() {
    let text = chars("hello world");
    let p = params(8);
    let lines = layout(&text, &p.glyphs, p.wrap, p.area.w);
    assert_eq!(
        lines,
        vec![
            LineInfo { start: 0, end: 5, break_len: 1 },
            LineInfo { start: 6, end: 11, break_len: 0 },
        ]
    );
}

#[test]
fn whitespace_wrap_falls_back_mid_token() {
    let text = chars("abcdef");
    let p = params(3);
    let lines = layout(&text, &p.glyphs, p.wrap, p.area.w);
    assert_eq!(
        lines,
        vec![
            LineInfo { start: 0, end: 3, break_len: 0 },
            LineInfo { start: 3, end: 6, break_len: 0 },
        ]
    );
}

#[test]
fn character_wrap_breaks_anywhere() {
    let text = chars("ab cd");
    let p = params(3);
    let lines = layout(&text, &p.glyphs, Wrap::Character, p.area.w);
    assert_eq!(
        lines,
        vec![
            LineInfo { start: 0, end: 3, break_len: 0 },
            LineInfo { start: 3, end: 5, break_len: 0 },
        ]
    );
}

#[test]
fn newline_always_breaks() {
    let text = chars("a\nb");
    let p = params(100);
    let lines = layout(&text, &p.glyphs, p.wrap, p.area.w);
    assert_eq!(
        lines,
        vec![
            LineInfo { start: 0, end: 1, break_len: 1 },
            LineInfo { start: 2, end: 3, break_len: 0 },
        ]
    );
}

#[test]
fn trailing_newline_yields_empty_final_line() {
    let text = chars("a\n");
    let p = params(100);
    let lines = layout(&text, &p.glyphs, p.wrap, p.area.w);
    assert_eq!(
        lines,
        vec![
            LineInfo { start: 0, end: 1, break_len: 1 },
            LineInfo { start: 2, end: 2, break_len: 0 },
        ]
    );
}

#[test]
fn empty_text_is_one_empty_line() {
    let text = chars("");
    let p = params(100);
    let lines = layout(&text, &p.glyphs, p.wrap, p.area.w);
    assert_eq!(lines, vec![LineInfo { start: 0, end: 0, break_len: 0 }]);
}

#[test]
fn layout_is_deterministic() {
    let text = chars("the quick brown fox jumps over the lazy dog");
    let p = params(13);
    let a = layout(&text, &p.glyphs, p.wrap, p.area.w);
    let b = layout(&text, &p.glyphs, p.wrap, p.area.w);
    assert_eq!(a, b);
}

#[test]
fn an_overwide_single_glyph_still_makes_a_line() {
    let text = chars("ab");
    let gw = GlyphWidths { widths: Vec::new(), default_width: 50 };
    let lines = layout(&text, &gw, Wrap::Character, 10);
    assert_eq!(
        lines,
        vec![
            LineInfo { start: 0, end: 1, break_len: 0 },
            LineInfo { start: 1, end: 2, break_len: 0 },
        ]
    );
}

#[test]
fn width_table_overrides_the_default() {
    // Give 'a' (code point 97) width 5 through the table; every other
    // character keeps the default width 1.
    let mut widths = vec![1u32; 98];
    widths[97] = 5;
    let gw = GlyphWidths { widths, default_width: 1 };
    let text = chars("aab");
    let lines = layout(&text, &gw, Wrap::Character, 10);
    assert_eq!(
        lines,
        vec![
            LineInfo { start: 0, end: 2, break_len: 0 },
            LineInfo { start: 2, end: 3, break_len: 0 },
        ]
    );
}

#[test]
fn offset_round_trip_on_wrapped_text() {
    let text = chars("hello world");
    let p = params(8);
    let lines = layout(&text, &p.glyphs, p.wrap, p.area.w);
    for o in 0..=11usize {
        let idx = index_before_char(&lines, o).expect("offset within range");
        assert_eq!(index_after_cursor(&lines, idx), Some(o));
    }
}

#[test]
fn boundary_offset_prefers_end_of_earlier_line() {
    let text = chars("abcdef");
    let p = params(3);
    let lines = layout(&text, &p.glyphs, p.wrap, p.area.w);
    // Offset 3 is both the end of line 0 and the start of line 1.
    assert_eq!(index_before_char(&lines, 3), Some(CursorIndex { line: 0, char: 3 }));
}

#[test]
fn offset_past_total_is_unresolvable() {
    let text = chars("hi");
    let p = params(100);
    let lines = layout(&text, &p.glyphs, p.wrap, p.area.w);
    assert_eq!(index_before_char(&lines, 3), None);
    assert_eq!(
        index_after_cursor(&lines, CursorIndex { line: 0, char: 3 }),
        None
    );
    assert_eq!(
        index_after_cursor(&lines, CursorIndex { line: 1, char: 0 }),
        None
    );
}

#[test]
fn next_steps_across_the_line_break() {
    let text = chars("hello world");
    let p = params(8);
    let lines = layout(&text, &p.glyphs, p.wrap, p.area.w);
    assert_eq!(
        next(&lines, CursorIndex { line: 0, char: 5 }),
        Some(CursorIndex { line: 1, char: 0 })
    );
    assert_eq!(
        previous(&lines, CursorIndex { line: 1, char: 0 }),
        Some(CursorIndex { line: 0, char: 5 })
    );
}

#[test]
fn movement_saturates_at_the_ends() {
    let text = chars("hi");
    let p = params(100);
    let lines = layout(&text, &p.glyphs, p.wrap, p.area.w);
    assert_eq!(previous(&lines, CursorIndex { line: 0, char: 0 }), None);
    assert_eq!(next(&lines, CursorIndex { line: 0, char: 2 }), None);
}
