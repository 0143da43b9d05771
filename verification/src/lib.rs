//! Review-engine logic of `next-hunk`, the terminal tool for reading large
//! diffs: what keys and clicks do, the remappable keymap, the layout of the
//! screen's lines (file rail, status bar, file headers, split and stacked
//! layouts, inline notes, search-match and attention-mark painting), theme
//! and palette selection, search and note navigation, per-hunk decisions
//! and their reports, persisted state, hot-reload carry-over, and the
//! serve-mode comment bookkeeping. The terminal, the files and the socket
//! are left to the front end.

pub mod text;
pub mod theme;
pub mod app;
pub mod paths;
pub mod persist;
pub mod export;
pub mod keymap;
pub mod view;
pub mod server;
pub mod match_line;
pub mod status;
pub mod split_side;
pub mod inline_notes;
pub mod file_header;
pub mod stack_plan;
pub mod keys;
pub mod session;
pub mod watch;
pub mod marks;
pub mod reload;
pub mod serve;
pub mod normal;
pub mod review_start;

use vstd::prelude::*;

verus! {

} // verus!
