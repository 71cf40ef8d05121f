//! Tests for the edit engine and the interaction state machine.

use textbox::style::{Align, GlyphWidths, Params, TextArea, Wrap};
use textbox::layout::layout;
use textbox::cursor::{Cursor, CursorIndex};
use textbox::edit::{backspace, insert, select_all};
use textbox::geometry::ScreenPoint;
use textbox::interact::{Drag, Event, Key, State};

fn chars(s: &str) -> Vec<char> {
    s.chars().collect()
}

fn string(v: &[char]) -> String {
    v.iter().collect()
}

fn params(max_width: u32, h: u64) -> Params {
    Params {
        glyphs: GlyphWidths { widths: Vec::new(), default_width: 1 },
        font_size: 10,
        line_spacing: 2,
        wrap: Wrap::Whitespace,
        x_align: Align::Start,
        y_align: Align::Start,
        area: TextArea { x: 0, y: 0, w: max_width, h },
    }
}

fn caret(line: usize, ch: usize) -> Cursor {
    Cursor::Idx(CursorIndex { line, char: ch })
}

#[test]
fn insert_at_end_of_single_line() {
    let p = params(100, 1000);
    let mut text = chars("hi");
    let mut lines = layout(&text, &p.glyphs, p.wrap, p.area.w);
    let mut cursor = caret(0, 2);
    let applied = insert(&mut text, &mut cursor, &mut lines, &chars("!"), &p);
    assert!(applied);
    assert_eq!(string(&text), "hi!");
    assert_eq!(cursor, caret(0, 3));
}

#[test]
fn insert_replaces_a_selection() {
    let p = params(100, 1000);
    let mut text = chars("hello world");
    let mut lines = layout(&text, &p.glyphs, p.wrap, p.area.w);
    let mut cursor = Cursor::Selection {
        start: CursorIndex { line: 0, char: 8 },
        end: CursorIndex { line: 0, char: 3 },
    };
    let applied = insert(&mut text, &mut cursor, &mut lines, &chars("XY"), &p);
    assert!(applied);
    assert_eq!(string(&text), "helXYrld");
    assert_eq!(cursor, caret(0, 5));
}

#[test]
fn height_guard_rejects_as_a_unit() {
    // One line of font size 10 already fills the height budget exactly.
    let p = params(100, 10);
    let mut text = chars("hi");
    let mut lines = layout(&text, &p.glyphs, p.wrap, p.area.w);
    let lines_before = lines.clone();
    let mut cursor = caret(0, 2);
    let applied = insert(&mut text, &mut cursor, &mut lines, &chars("!"), &p);
    assert!(!applied);
    assert_eq!(string(&text), "hi");
    assert_eq!(cursor, caret(0, 2));
    assert_eq!(lines, lines_before);
}

#[test]
fn height_guard_rejects_an_edit_that_would_wrap_too_far() {
    // Two lines fit (10 + 2 + 10 = 22 < 23), three do not.
    let p = params(4, 23);
    let mut text = chars("ab cd");
    let mut lines = layout(&text, &p.glyphs, p.wrap, p.area.w);
    let mut cursor = caret(1, 2);
    let applied = insert(&mut text, &mut cursor, &mut lines, &chars(" ef"), &p);
    assert!(!applied);
    assert_eq!(string(&text), "ab cd");
}

#[test]
fn backspace_deletes_one_before_the_caret() {
    let p = params(100, 1000);
    let mut text = chars("abc");
    let mut lines = layout(&text, &p.glyphs, p.wrap, p.area.w);
    let mut cursor = caret(0, 2);
    backspace(&mut text, &mut cursor, &mut lines, &p);
    assert_eq!(string(&text), "ac");
    assert_eq!(cursor, caret(0, 1));
}

#[test]
fn backspace_at_the_start_is_a_no_op() {
    let p = params(100, 1000);
    let mut text = chars("abc");
    let mut lines = layout(&text, &p.glyphs, p.wrap, p.area.w);
    let mut cursor = caret(0, 0);
    backspace(&mut text, &mut cursor, &mut lines, &p);
    assert_eq!(string(&text), "abc");
    assert_eq!(cursor, caret(0, 0));
}

#[test]
fn backspace_deletes_the_whole_selection() {
    let p = params(100, 1000);
    let mut text = chars("hello world");
    let mut lines = layout(&text, &p.glyphs, p.wrap, p.area.w);
    let mut cursor = Cursor::Selection {
        start: CursorIndex { line: 0, char: 3 },
        end: CursorIndex { line: 0, char: 8 },
    };
    backspace(&mut text, &mut cursor, &mut lines, &p);
    assert_eq!(string(&text), "helrld");
    assert_eq!(cursor, caret(0, 3));
}

#[test]
fn insert_then_backspace_restores_the_buffer() {
    let p = params(100, 1000);
    let mut text = chars("abcd");
    let mut lines = layout(&text, &p.glyphs, p.wrap, p.area.w);
    let mut cursor = caret(0, 2);
    let applied = insert(&mut text, &mut cursor, &mut lines, &chars("xy"), &p);
    assert!(applied);
    assert_eq!(string(&text), "abxycd");
    backspace(&mut text, &mut cursor, &mut lines, &p);
    backspace(&mut text, &mut cursor, &mut lines, &p);
    assert_eq!(string(&text), "abcd");
    assert_eq!(cursor, caret(0, 2));
}

#[test]
fn insert_then_backspace_restores_a_wrapped_buffer() {
    let p = params(8, 1000);
    let mut text = chars("hello world");
    let mut lines = layout(&text, &p.glyphs, p.wrap, p.area.w);
    let mut cursor = caret(1, 0);
    let applied = insert(&mut text, &mut cursor, &mut lines, &chars("xy"), &p);
    assert!(applied);
    assert_eq!(string(&text), "hello xyworld");
    assert_eq!(cursor, caret(1, 2));
    backspace(&mut text, &mut cursor, &mut lines, &p);
    backspace(&mut text, &mut cursor, &mut lines, &p);
    assert_eq!(string(&text), "hello world");
    assert_eq!(cursor, caret(1, 0));
}

#[test]
fn select_all_spans_the_whole_buffer() {
    let p = params(100, 1000);
    let text = chars("hello world");
    let lines = layout(&text, &p.glyphs, p.wrap, p.area.w);
    let cursor = select_all(&text, &lines);
    assert_eq!(
        cursor,
        Cursor::Selection {
            start: CursorIndex { line: 0, char: 0 },
            end: CursorIndex { line: 0, char: 11 },
        }
    );
}

#[test]
fn ctrl_a_selects_all_through_the_state_machine() {
    let p = params(100, 1000);
    let mut text = chars("hello world");
    let mut state = State::new();
    state.cursor = caret(0, 5);
    let events = vec![Event::KeyPress { key: Key::A, ctrl: true }];
    let out = state.update(&mut text, &events, &p);
    assert!(out.cursor_changed);
    assert_eq!(
        state.cursor,
        Cursor::Selection {
            start: CursorIndex { line: 0, char: 0 },
            end: CursorIndex { line: 0, char: 11 },
        }
    );
}

#[test]
fn backspace_key_runs_the_edit_engine() {
    let p = params(100, 1000);
    let mut text = chars("hello world");
    let mut state = State::new();
    state.cursor = Cursor::Selection {
        start: CursorIndex { line: 0, char: 3 },
        end: CursorIndex { line: 0, char: 8 },
    };
    let events = vec![Event::KeyPress { key: Key::Backspace, ctrl: false }];
    state.update(&mut text, &events, &p);
    assert_eq!(string(&text), "helrld");
    assert_eq!(state.cursor, caret(0, 3));
}

#[test]
fn text_input_inserts_at_the_caret() {
    let p = params(100, 1000);
    let mut text = chars("hi");
    let mut state = State::new();
    state.cursor = caret(0, 2);
    let events = vec![Event::TextInput { input: chars("!"), ctrl: false }];
    state.update(&mut text, &events, &p);
    assert_eq!(string(&text), "hi!");
    assert_eq!(state.cursor, caret(0, 3));
}

#[test]
fn filtered_text_input_is_a_no_op() {
    let p = params(100, 1000);
    let mut text = chars("hi");
    let mut state = State::new();
    state.cursor = caret(0, 2);
    let events = vec![
        Event::TextInput { input: chars(""), ctrl: false },
        Event::TextInput { input: chars("x"), ctrl: true },
        Event::TextInput { input: chars("\u{f700}"), ctrl: false },
        Event::TextInput { input: chars("\u{f701}"), ctrl: false },
        Event::TextInput { input: chars("\u{f702}"), ctrl: false },
        Event::TextInput { input: chars("\u{f703}"), ctrl: false },
    ];
    let out = state.update(&mut text, &events, &p);
    assert_eq!(string(&text), "hi");
    assert!(!out.cursor_changed);
}

#[test]
fn arrow_keys_move_and_collapse() {
    let p = params(100, 1000);
    let mut text = chars("abc");
    let mut state = State::new();
    state.cursor = caret(0, 1);
    let events = vec![Event::KeyPress { key: Key::Right, ctrl: false }];
    state.update(&mut text, &events, &p);
    assert_eq!(state.cursor, caret(0, 2));
    let events = vec![Event::KeyPress { key: Key::Left, ctrl: false }];
    state.update(&mut text, &events, &p);
    assert_eq!(state.cursor, caret(0, 1));
    state.cursor = Cursor::Selection {
        start: CursorIndex { line: 0, char: 2 },
        end: CursorIndex { line: 0, char: 1 },
    };
    let events = vec![Event::KeyPress { key: Key::Left, ctrl: false }];
    state.update(&mut text, &events, &p);
    assert_eq!(state.cursor, caret(0, 1));
    state.cursor = Cursor::Selection {
        start: CursorIndex { line: 0, char: 2 },
        end: CursorIndex { line: 0, char: 1 },
    };
    let events = vec![Event::KeyPress { key: Key::Right, ctrl: false }];
    state.update(&mut text, &events, &p);
    assert_eq!(state.cursor, caret(0, 2));
}

#[test]
fn press_sets_caret_and_starts_selecting() {
    let p = params(100, 1000);
    let mut text = chars("abc");
    let mut state = State::new();
    let events = vec![Event::PointerPress { at: ScreenPoint { x: 2, y: 5 } }];
    state.update(&mut text, &events, &p);
    assert_eq!(state.cursor, caret(0, 2));
    assert_eq!(state.drag, Some(Drag::Selecting));
}

#[test]
fn drag_extends_the_selection_from_its_anchor() {
    let p = params(100, 1000);
    let mut text = chars("abcd");
    let mut state = State::new();
    let events = vec![
        Event::PointerPress { at: ScreenPoint { x: 0, y: 5 } },
        Event::PointerDrag { to: ScreenPoint { x: 3, y: 5 } },
        Event::PointerRelease,
    ];
    state.update(&mut text, &events, &p);
    assert_eq!(
        state.cursor,
        Cursor::Selection {
            start: CursorIndex { line: 0, char: 0 },
            end: CursorIndex { line: 0, char: 3 },
        }
    );
    assert_eq!(state.drag, None);
}

#[test]
fn drag_without_selecting_mode_is_a_no_op() {
    let p = params(100, 1000);
    let mut text = chars("abcd");
    let mut state = State::new();
    state.cursor = caret(0, 1);
    state.drag = Some(Drag::MoveSelection);
    let events = vec![Event::PointerDrag { to: ScreenPoint { x: 3, y: 5 } }];
    let out = state.update(&mut text, &events, &p);
    assert_eq!(state.cursor, caret(0, 1));
    assert!(!out.cursor_changed);
}

#[test]
fn reserved_keys_are_no_ops() {
    let p = params(100, 1000);
    let mut text = chars("abc");
    let mut state = State::new();
    state.cursor = caret(0, 1);
    let events = vec![
        Event::KeyPress { key: Key::Up, ctrl: false },
        Event::KeyPress { key: Key::Down, ctrl: false },
        Event::KeyPress { key: Key::E, ctrl: true },
        Event::KeyPress { key: Key::Return, ctrl: false },
        Event::KeyPress { key: Key::Other, ctrl: false },
    ];
    let out = state.update(&mut text, &events, &p);
    assert_eq!(string(&text), "abc");
    assert_eq!(state.cursor, caret(0, 1));
    assert!(!out.cursor_changed);
    assert!(!out.drag_changed);
}

#[test]
fn cached_layout_is_kept_when_nothing_changed() {
    let p = params(8, 1000);
    let mut text = chars("hello world");
    let mut state = State::new();
    let out = state.update(&mut text, &Vec::new(), &p);
    assert!(out.layout_changed);
    let out = state.update(&mut text, &Vec::new(), &p);
    assert!(!out.layout_changed);
    let events = vec![
        Event::PointerPress { at: ScreenPoint { x: 0, y: 0 } },
        Event::PointerRelease,
    ];
    let out = state.update(&mut text, &events, &p);
    assert!(!out.layout_changed);
}

#[test]
fn events_fold_in_arrival_order() {
    let p = params(100, 1000);
    let mut text = chars("ab");
    let mut state = State::new();
    state.cursor = caret(0, 2);
    let events = vec![
        Event::TextInput { input: chars("c"), ctrl: false },
        Event::KeyPress { key: Key::Backspace, ctrl: false },
        Event::TextInput { input: chars("d"), ctrl: false },
    ];
    state.update(&mut text, &events, &p);
    assert_eq!(string(&text), "abd");
    assert_eq!(state.cursor, caret(0, 3));
}

#[test]
fn highlight_handles_only_grow() {
    let mut state = State::new();
    assert_eq!(state.highlight_handle_count(), 0);
    state.push_highlight_handle(7);
    state.push_highlight_handle(9);
    assert_eq!(state.highlight_handle_count(), 2);
    assert_eq!(state.selected_rectangle_indices, vec![7, 9]);
}
