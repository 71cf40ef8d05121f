//! Tests for the geometry mapper.

use textbox::style::{Align, GlyphWidths, Params, TextArea, Wrap};
use textbox::layout::layout;
use textbox::cursor::CursorIndex;
use textbox::geometry::{
    caret_geometry, closest_cursor_index, cursor_to_screen, selection_rectangles, ScreenPoint,
};

fn chars(s: &str) -> Vec<char> {
    s.chars().collect()
}

fn params(glyph_w: u32, max_width: u32) -> Params {
    Params {
        glyphs: GlyphWidths { widths: Vec::new(), default_width: glyph_w },
        font_size: 10,
        line_spacing: 2,
        wrap: Wrap::Whitespace,
        x_align: Align::Start,
        y_align: Align::Start,
        area: TextArea { x: 0, y: 0, w: max_width, h: 1000 },
    }
}

#[test]
fn midpoint_tie_resolves_to_the_left_slot() {
    // Slots sit at x = 0, 2, 4; x = 1 is equidistant from the first two.
    let p = params(2, 100);
    let text = chars("ab");
    let lines = layout(&text, &p.glyphs, p.wrap, p.area.w);
    let hit = closest_cursor_index(&text, &lines, &p, ScreenPoint { x: 1, y: 5 });
    let (idx, pt) = hit.expect("text is not empty");
    assert_eq!(idx, CursorIndex { line: 0, char: 0 });
    assert_eq!((pt.x, pt.y), (0, 5));
    let hit = closest_cursor_index(&text, &lines, &p, ScreenPoint { x: 3, y: 5 });
    let (idx, _) = hit.expect("text is not empty");
    assert_eq!(idx, CursorIndex { line: 0, char: 1 });
}

#[test]
fn empty_text_has_no_closest_index() {
    let p = params(1, 100);
    let text = chars("");
    let lines = layout(&text, &p.glyphs, p.wrap, p.area.w);
    assert_eq!(
        closest_cursor_index(&text, &lines, &p, ScreenPoint { x: 0, y: 0 }),
        None
    );
}

#[test]
fn pointer_picks_the_nearest_line() {
    // Two lines: y spans [0,10] and [12,22].
    let p = params(1, 8);
    let text = chars("hello world");
    let lines = layout(&text, &p.glyphs, p.wrap, p.area.w);
    let (idx, _) = closest_cursor_index(&text, &lines, &p, ScreenPoint { x: 0, y: 20 })
        .expect("text is not empty");
    assert_eq!(idx.line, 1);
    let (idx, _) = closest_cursor_index(&text, &lines, &p, ScreenPoint { x: 0, y: 3 })
        .expect("text is not empty");
    assert_eq!(idx.line, 0);
}

#[test]
fn cursor_to_screen_maps_line_and_column() {
    let p = params(3, 8);
    let text = chars("ab cd");
    let lines = layout(&text, &p.glyphs, p.wrap, p.area.w);
    // "ab" / "cd": caret before 'd' on line 1: x = 3, y spans [12, 22].
    let g = cursor_to_screen(&text, &lines, &p, CursorIndex { line: 1, char: 1 });
    assert_eq!(g, Some((3, 12, 22)));
    // An unresolvable index yields no position.
    assert_eq!(
        cursor_to_screen(&text, &lines, &p, CursorIndex { line: 2, char: 0 }),
        None
    );
}

#[test]
fn caret_geometry_falls_back_to_the_area_edge() {
    let p = params(1, 100);
    let text = chars("hi");
    let lines = layout(&text, &p.glyphs, p.wrap, p.area.w);
    let g = caret_geometry(&text, &lines, &p, CursorIndex { line: 5, char: 0 });
    assert_eq!(g, (0, 0, 10));
}

#[test]
fn selection_rectangles_are_symmetric() {
    let p = params(1, 8);
    let text = chars("hello world");
    let lines = layout(&text, &p.glyphs, p.wrap, p.area.w);
    let a = CursorIndex { line: 0, char: 3 };
    let b = CursorIndex { line: 1, char: 2 };
    let r1 = selection_rectangles(&text, &lines, &p, a, b);
    let r2 = selection_rectangles(&text, &lines, &p, b, a);
    assert_eq!(r1, r2);
    assert_eq!(r1.len(), 2);
    // Line 0: from slot 3 to the line end (width 5), line 1: slots 0..2.
    assert_eq!((r1[0].x, r1[0].y, r1[0].w, r1[0].h), (3, 0, 2, 10));
    assert_eq!((r1[1].x, r1[1].y, r1[1].w, r1[1].h), (0, 12, 2, 10));
}

#[test]
fn coincident_endpoints_yield_no_rectangles() {
    let p = params(1, 100);
    let text = chars("abc");
    let lines = layout(&text, &p.glyphs, p.wrap, p.area.w);
    let a = CursorIndex { line: 0, char: 2 };
    let r = selection_rectangles(&text, &lines, &p, a, a);
    assert_eq!(r.len(), 0);
}

#[test]
fn alignment_offsets_the_line_and_block() {
    let mut p = params(1, 10);
    p.x_align = Align::End;
    p.y_align = Align::End;
    p.area = TextArea { x: 0, y: 0, w: 10, h: 100 };
    let text = chars("abc");
    let lines = layout(&text, &p.glyphs, p.wrap, p.area.w);
    // Line width 3 in a 10-wide area, flush right: left edge at 7.
    // Block height 10 in a 100-tall area, flush bottom: top at 90.
    let g = cursor_to_screen(&text, &lines, &p, CursorIndex { line: 0, char: 0 });
    assert_eq!(g, Some((7, 90, 100)));
    p.x_align = Align::Middle;
    p.y_align = Align::Middle;
    let g = cursor_to_screen(&text, &lines, &p, CursorIndex { line: 0, char: 1 });
    assert_eq!(g, Some((3 + 1, 45, 55)));
}
