//! A text-editing and cursor-addressing engine for a single text box.
//!
//! The engine keeps a run of text together with a cursor or selection,
//! re-derives a line-wrapped layout whenever the text or the available
//! width changes, and translates between linear character offsets,
//! two-dimensional (line, char) cursor indices, and screen points.
//!
//! Geometry is carried out over exact integer coordinates: the host
//! supplies glyph advance widths as plain integers (one per character),
//! and every screen position the engine reports is a pure integer
//! function of those widths and the style parameters.
//!
//! - [`layout`] wraps the text into lines (`spec_layout` defines the
//!   result exactly, so the layout is deterministic and well formed);
//! - [`cursor`] converts between linear offsets and (line, char)
//!   indices, with the round trip proved in `lemma_offset_round_trip`;
//! - [`geometry`] maps indices to screen positions, finds the index
//!   under a pointer, and computes selection rectangles (symmetric in
//!   their endpoints, `lemma_selection_rects_symmetric`);
//! - [`edit`] applies insert, backspace and select-all, with the
//!   height guard (`lemma_insert_height_guard`) and the insert /
//!   backspace inverse (`lemma_insert_backspace_inverse`);
//! - [`interact`] folds a batch of input events over the state, one
//!   pass at a time (`spec_run`), keeping the cached layout stable
//!   when nothing changed (`lemma_diff_stability`).

pub mod style;
pub mod layout;
pub mod cursor;
pub mod geometry;
pub mod edit;
pub mod interact;
