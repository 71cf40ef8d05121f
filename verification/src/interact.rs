//! The interaction state machine: one update pass consumes an ordered
//! batch of input events and drives the edit engine and geometry mapper
//! to produce the next cursor, selection and drag state.
//!
//! Events are processed strictly in arrival order; each event acts on
//! the state produced by the one before it (a sequential fold, defined
//! exactly by `spec_step` and `spec_run`).

use vstd::prelude::*;
use crate::style::Params;
use crate::layout::{LineInfo, layout, spec_layout, wf_lines};
use crate::cursor::{
    Cursor, CursorIndex, cursor_min, cursor_max, previous, next, spec_cursor_min, spec_cursor_max,
    spec_previous, spec_next,
};
use crate::edit::{
    backspace, insert, select_all, spec_backspace, spec_insert, spec_select_all,
};
use crate::geometry::{ScreenPoint, closest_cursor_index, spec_closest};

verus! {

/// Track whether some sort of dragging is currently occurring.
#[derive(Clone, Copy, PartialEq, Eq, Structural, Debug)]
pub enum Drag {
    /// A drag that extends the selection from its anchor.
    Selecting,
    /// Reserved: dragging the selected text itself (currently a no-op).
    MoveSelection,
}

/// The keys the engine reacts to; every other key is `Other`.
#[derive(Clone, Copy, PartialEq, Eq, Structural, Debug)]
pub enum Key {
    /// Delete backwards.
    Backspace,
    /// Move the caret left / collapse the selection to its start.
    Left,
    /// Move the caret right / collapse the selection to its end.
    Right,
    /// Reserved: currently a no-op.
    Up,
    /// Reserved: currently a no-op.
    Down,
    /// Select all when the control modifier is held.
    A,
    /// Reserved: currently a no-op.
    E,
    /// Reserved for the commit reaction: currently a no-op.
    Return,
    /// Any other key: a no-op.
    Other,
}

/// One input event, already narrowed to the primary pointer button by
/// the host's event dispatch.
pub enum Event {
    /// Primary button pressed at the given position.
    PointerPress {
        /// Pointer position.
        at: ScreenPoint,
    },
    /// Pointer dragged with the primary button held.
    PointerDrag {
        /// Current pointer position.
        to: ScreenPoint,
    },
    /// Primary button released.
    PointerRelease,
    /// A key pressed, with the state of the control modifier.
    KeyPress {
        /// Which key.
        key: Key,
        /// Whether a control modifier is held.
        ctrl: bool,
    },
    /// Literal text input, with the state of the control modifier.
    TextInput {
        /// The characters received.
        input: Vec<char>,
        /// Whether a control modifier is held.
        ctrl: bool,
    },
}

/// The four private-use code points that some input backends emit as
/// text when an arrow key is pressed; such input is filtered out at the
/// event-ingestion boundary, never inserted.
pub open spec fn is_arrow_artifact(s: Seq<char>) -> bool {
    s.len() == 1 && (s[0] == '\u{f700}' || s[0] == '\u{f701}' || s[0] == '\u{f702}' || s[0]
        == '\u{f703}')
}

/// Test whether a text-input payload is an arrow-key artifact.
pub fn arrow_artifact(s: &Vec<char>) -> (r: bool)
    ensures
        r == is_arrow_artifact(s@),
{
    if s.len() == 1 {
        let c: char = s[0];
        c == '\u{f700}' || c == '\u{f701}' || c == '\u{f702}' || c == '\u{f703}'
    } else {
        false
    }
}

/// The effect of one event on `(cursor, drag, lines, text)`.
pub open spec fn spec_step(
    cursor: Cursor,
    drag: Option<Drag>,
    lines: Seq<LineInfo>,
    text: Seq<char>,
    e: Event,
    p: Params,
) -> (Cursor, Option<Drag>, Seq<LineInfo>, Seq<char>) {
    match e {
        Event::PointerPress { at } => {
            let c2 = match spec_closest(text, lines, p, at) {
                Some(hit) => Cursor::Idx(hit.0),
                None => cursor,
            };
            (c2, Some(Drag::Selecting), lines, text)
        },
        Event::PointerDrag { to } => {
            if drag == Some(Drag::Selecting) {
                let anchor = match cursor {
                    Cursor::Idx(ci) => ci,
                    Cursor::Selection { start, .. } => start,
                };
                match spec_closest(text, lines, p, to) {
                    Some(hit) => (
                        Cursor::Selection { start: anchor, end: hit.0 },
                        drag,
                        lines,
                        text,
                    ),
                    None => (cursor, drag, lines, text),
                }
            } else {
                (cursor, drag, lines, text)
            }
        },
        Event::PointerRelease => (cursor, None, lines, text),
        Event::KeyPress { key, ctrl } => match key {
            Key::Backspace => {
                let r = spec_backspace(text, cursor, lines, p);
                (r.1, drag, r.2, r.0)
            },
            Key::Left => if !ctrl {
                match cursor {
                    Cursor::Idx(ci) => {
                        let c2 = match spec_previous(lines, ci) {
                            Some(x) => x,
                            None => ci,
                        };
                        (Cursor::Idx(c2), drag, lines, text)
                    },
                    Cursor::Selection { start, end } => (
                        Cursor::Idx(spec_cursor_min(start, end)),
                        drag,
                        lines,
                        text,
                    ),
                }
            } else {
                (cursor, drag, lines, text)
            },
            Key::Right => if !ctrl {
                match cursor {
                    Cursor::Idx(ci) => {
                        let c2 = match spec_next(lines, ci) {
                            Some(x) => x,
                            None => ci,
                        };
                        (Cursor::Idx(c2), drag, lines, text)
                    },
                    Cursor::Selection { start, end } => (
                        Cursor::Idx(spec_cursor_max(start, end)),
                        drag,
                        lines,
                        text,
                    ),
                }
            } else {
                (cursor, drag, lines, text)
            },
            Key::A => if ctrl {
                (spec_select_all(text.len() as int, lines), drag, lines, text)
            } else {
                (cursor, drag, lines, text)
            },
            _ => (cursor, drag, lines, text),
        },
        Event::TextInput { input, ctrl } => {
            if ctrl || input@.len() == 0 || is_arrow_artifact(input@) {
                (cursor, drag, lines, text)
            } else {
                let r = spec_insert(text, cursor, lines, input@, p);
                (r.1, drag, r.2, r.0)
            }
        },
    }
}

/// The sequential fold of a batch of events over the state.
pub open spec fn spec_run(
    cursor: Cursor,
    drag: Option<Drag>,
    lines: Seq<LineInfo>,
    text: Seq<char>,
    events: Seq<Event>,
    p: Params,
) -> (Cursor, Option<Drag>, Seq<LineInfo>, Seq<char>)
    decreases events.len(),
{
    if events.len() == 0 {
        (cursor, drag, lines, text)
    } else {
        let s1 = spec_step(cursor, drag, lines, text, events[0], p);
        spec_run(s1.0, s1.1, s1.2, s1.3, events.drop_first(), p)
    }
}

proof fn lemma_run_snoc(
    cursor: Cursor,
    drag: Option<Drag>,
    lines: Seq<LineInfo>,
    text: Seq<char>,
    events: Seq<Event>,
    e: Event,
    p: Params,
)
    ensures
        spec_run(cursor, drag, lines, text, events.push(e), p) == ({
            let s = spec_run(cursor, drag, lines, text, events, p);
            spec_step(s.0, s.1, s.2, s.3, e, p)
        }),
    decreases events.len(),
{
    if events.len() == 0 {
        assert(events.push(e)[0] == e);
        let s1 = spec_step(cursor, drag, lines, text, e, p);
        assert(spec_run(cursor, drag, lines, text, events.push(e), p) == spec_run(
            s1.0,
            s1.1,
            s1.2,
            s1.3,
            events.push(e).drop_first(),
            p,
        ));
        assert(events.push(e).drop_first() =~= events);
        assert(spec_run(s1.0, s1.1, s1.2, s1.3, events, p) == s1);
        assert(spec_run(cursor, drag, lines, text, events, p) == (cursor, drag, lines, text));
    } else {
        assert(events.push(e)[0] == events[0]);
        let s1 = spec_step(cursor, drag, lines, text, events[0], p);
        assert(spec_run(cursor, drag, lines, text, events.push(e), p) == spec_run(
            s1.0,
            s1.1,
            s1.2,
            s1.3,
            events.push(e).drop_first(),
            p,
        ));
        assert(events.push(e).drop_first() =~= events.drop_first().push(e));
        lemma_run_snoc(s1.0, s1.1, s1.2, s1.3, events.drop_first(), e, p);
        assert(spec_run(cursor, drag, lines, text, events, p) == spec_run(
            s1.0,
            s1.1,
            s1.2,
            s1.3,
            events.drop_first(),
            p,
        ));
    }
}

/// Whether an event can change the buffer (and hence the layout).
pub open spec fn mutates_buffer(e: Event) -> bool {
    match e {
        Event::KeyPress { key, ctrl } => key == Key::Backspace,
        Event::TextInput { .. } => true,
        _ => false,
    }
}

/// Diff stability: when the cached layout already matches the text and
/// no event of the pass touches the buffer, the fold leaves both the
/// buffer and the cached LineInfo sequence exactly as they were.
pub proof fn lemma_diff_stability(
    cursor: Cursor,
    drag: Option<Drag>,
    lines: Seq<LineInfo>,
    text: Seq<char>,
    events: Seq<Event>,
    p: Params,
)
    requires
        forall|i: int| 0 <= i < events.len() ==> !mutates_buffer(#[trigger] events[i]),
    ensures
        ({
            let r = spec_run(cursor, drag, lines, text, events, p);
            r.2 == lines && r.3 == text
        }),
    decreases events.len(),
{
    if events.len() > 0 {
        assert(!mutates_buffer(events[0]));
        let s1 = spec_step(cursor, drag, lines, text, events[0], p);
        assert(s1.2 == lines && s1.3 == text);
        assert forall|i: int| 0 <= i < events.drop_first().len() implies !mutates_buffer(
            #[trigger] events.drop_first()[i],
        ) by {
            assert(events.drop_first()[i] == events[i + 1]);
        }
        lemma_diff_stability(s1.0, s1.1, lines, text, events.drop_first(), p);
    }
}

/// Which of the externally visible state fields a pass changed.
#[derive(Clone, Copy, PartialEq, Eq, Structural, Debug)]
pub struct UpdateOutcome {
    /// The cached LineInfo sequence was replaced by a different one.
    pub layout_changed: bool,
    /// The cursor differs from its value at pass start.
    pub cursor_changed: bool,
    /// The drag mode differs from its value at pass start.
    pub drag_changed: bool,
}

/// The engine state cached across update passes: cursor, drag mode,
/// the cached line layout, and the grow-only list of selection
/// highlight handles.
pub struct State {
    /// The cursor or selection.
    pub cursor: Cursor,
    /// Whether a pointer drag is in progress.
    pub drag: Option<Drag>,
    /// The cached line layout of the buffer.
    pub line_infos: Vec<LineInfo>,
    /// Host-supplied identifiers of the selection highlight
    /// rectangles, grown lazily and never shrunk.
    pub selected_rectangle_indices: Vec<u64>,
}

/// Compare two layouts structurally.
fn lines_equal(a: &Vec<LineInfo>, b: &Vec<LineInfo>) -> (r: bool)
    ensures
        r == (a@ == b@),
{
    if a.len() != b.len() {
        assert(a@ != b@);
        return false;
    }
    let n: usize = a.len();
    let mut i: usize = 0;
    while i < n
        invariant
            i <= n,
            n == a@.len() == b@.len(),
            forall|k: int| 0 <= k < i ==> a@[k] == b@[k],
        decreases n - i,
    {
        let x: LineInfo = a[i];
        let y: LineInfo = b[i];
        if x.start != y.start || x.end != y.end || x.break_len != y.break_len {
            assert(a@[i as int] != b@[i as int]);
            return false;
        }
        i = i + 1;
    }
    proof {
        assert(a@ =~= b@);
    }
    true
}

/// Compare two drag modes.
fn drag_equal(a: Option<Drag>, b: Option<Drag>) -> (r: bool)
    ensures
        r == (a == b),
{
    match (a, b) {
        (Option::None, Option::None) => true,
        (Option::Some(x), Option::Some(y)) => x == y,
        _ => false,
    }
}

impl State {
    /// The initial state of a fresh text box: a caret at the very first
    /// position, no drag, no cached layout, no highlight handles.
    pub fn new() -> (s: State)
        ensures
            s.cursor == Cursor::Idx(CursorIndex { line: 0, char: 0 }),
            s.drag is None,
            s.line_infos@ == Seq::<LineInfo>::empty(),
            s.selected_rectangle_indices@ == Seq::<u64>::empty(),
    {
        State {
            cursor: Cursor::Idx(CursorIndex { line: 0, char: 0 }),
            drag: None,
            line_infos: Vec::new(),
            selected_rectangle_indices: Vec::new(),
        }
    }

    /// Record one more selection highlight handle; the list only grows.
    pub fn push_highlight_handle(&mut self, id: u64)
        ensures
            final(self).selected_rectangle_indices@ == old(
                self,
            ).selected_rectangle_indices@.push(id),
            final(self).cursor == old(self).cursor,
            final(self).drag == old(self).drag,
            final(self).line_infos == old(self).line_infos,
    {
        self.selected_rectangle_indices.push(id);
    }

    /// How many selection highlight handles exist so far.
    pub fn highlight_handle_count(&self) -> (n: usize)
        ensures
            n == self.selected_rectangle_indices@.len(),
    {
        self.selected_rectangle_indices.len()
    }

    /// One update pass: re-derive the layout of the (possibly
    /// externally modified) buffer, replacing the cached sequence only
    /// when it differs, then fold the event batch over the state in
    /// arrival order. The returned outcome says which state fields
    /// differ from their values at pass start, so the host notifies at
    /// most once per field per pass.
    pub fn update(&mut self, text: &mut Vec<char>, events: &Vec<Event>, p: &Params) -> (out:
        UpdateOutcome)
        ensures
            ({
                let l0 = spec_layout(old(text)@, p.glyphs, p.wrap, p.area.w);
                let r = spec_run(old(self).cursor, old(self).drag, l0, old(text)@, events@, *p);
                &&& final(self).cursor == r.0
                &&& final(self).drag == r.1
                &&& final(self).line_infos@ == r.2
                &&& final(text)@ == r.3
                &&& out.layout_changed == (old(self).line_infos@ != r.2)
                &&& out.cursor_changed == (old(self).cursor != r.0)
                &&& out.drag_changed == (old(self).drag != r.1)
                &&& final(self).selected_rectangle_indices == old(self).selected_rectangle_indices
            }),
            wf_lines(final(self).line_infos@, final(text)@.len() as int),
    {
        let ghost l0: Seq<LineInfo> = spec_layout(old(text)@, p.glyphs, p.wrap, p.area.w);
        let ghost text0: Seq<char> = old(text)@;
        let ghost cursor0: Cursor = self.cursor;
        let ghost drag0: Option<Drag> = self.drag;
        let mut lines_v: Vec<LineInfo> = layout(text, &p.glyphs, p.wrap, p.area.w);
        let mut cur: Cursor = self.cursor;
        let mut drg: Option<Drag> = self.drag;
        let n: usize = events.len();
        let mut i: usize = 0;
        while i < n
            invariant
                i <= n,
                n == events@.len(),
                (cur, drg, lines_v@, text@) == spec_run(
                    cursor0,
                    drag0,
                    l0,
                    text0,
                    events@.take(i as int),
                    *p,
                ),
                wf_lines(lines_v@, text@.len() as int),
            decreases n - i,
        {
            proof {
                let s = spec_run(cursor0, drag0, l0, text0, events@.take(i as int), *p);
                lemma_run_snoc(cursor0, drag0, l0, text0, events@.take(i as int), events@[i as int], *p);
                assert(events@.take(i + 1 as int) =~= events@.take(i as int).push(
                    events@[i as int],
                ));
            }
            let e: &Event = &events[i];
            match e {
                Event::PointerPress { at } => {
                    match closest_cursor_index(text, &lines_v, p, *at) {
                        Some(hit) => {
                            cur = Cursor::Idx(hit.0);
                        },
                        None => {},
                    }
                    drg = Some(Drag::Selecting);
                },
                Event::PointerDrag { to } => {
                    let selecting: bool = match drg {
                        Some(Drag::Selecting) => true,
                        _ => false,
                    };
                    if selecting {
                        let anchor: CursorIndex = match cur {
                            Cursor::Idx(ci) => ci,
                            Cursor::Selection { start, .. } => start,
                        };
                        match closest_cursor_index(text, &lines_v, p, *to) {
                            Some(hit) => {
                                cur = Cursor::Selection { start: anchor, end: hit.0 };
                            },
                            None => {},
                        }
                    }
                },
                Event::PointerRelease => {
                    drg = None;
                },
                Event::KeyPress { key, ctrl } => {
                    match *key {
                        Key::Backspace => {
                            backspace(text, &mut cur, &mut lines_v, p);
                        },
                        Key::Left => {
                            if !*ctrl {
                                match cur {
                                    Cursor::Idx(ci) => {
                                        cur = Cursor::Idx(
                                            match previous(&lines_v, ci) {
                                                Some(x) => x,
                                                None => ci,
                                            },
                                        );
                                    },
                                    Cursor::Selection { start, end } => {
                                        cur = Cursor::Idx(cursor_min(start, end));
                                    },
                                }
                            }
                        },
                        Key::Right => {
                            if !*ctrl {
                                match cur {
                                    Cursor::Idx(ci) => {
                                        cur = Cursor::Idx(
                                            match next(&lines_v, ci) {
                                                Some(x) => x,
                                                None => ci,
                                            },
                                        );
                                    },
                                    Cursor::Selection { start, end } => {
                                        cur = Cursor::Idx(cursor_max(start, end));
                                    },
                                }
                            }
                        },
                        Key::A => {
                            if *ctrl {
                                cur = select_all(text, &lines_v);
                            }
                        },
                        _ => {},
                    }
                },
                Event::TextInput { input, ctrl } => {
                    if !*ctrl && input.len() > 0 && !arrow_artifact(input) {
                        insert(text, &mut cur, &mut lines_v, input, p);
                    }
                },
            }
            i = i + 1;
        }
        proof {
            assert(events@.take(n as int) =~= events@);
        }
        let layout_changed: bool = !lines_equal(&self.line_infos, &lines_v);
        let cursor_changed: bool = !(self.cursor == cur);
        let drag_changed: bool = !drag_equal(self.drag, drg);
        self.cursor = cur;
        self.drag = drg;
        self.line_infos = lines_v;
        UpdateOutcome { layout_changed, cursor_changed, drag_changed }
    }
}

} // verus!
