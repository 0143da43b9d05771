//! What a normal-mode command does to the review session: cursor moves,
//! file jumps, the view toggles with their status messages, layout, theme
//! and palette cycling, the search and filter prompts, the help overlay,
//! quitting, and the `--select` decisions.
//!
//! The rows of the stream, as shown (a collapsed run is one row), are given
//! as plain values: the file owning each row, the row each file starts on,
//! the row and identity of each hunk header, and the rows that carry notes.
//! Hunk, note, file and search-match jumps are carried out on them. What
//! needs the diff's lines themselves is handed back as an action: the note
//! prompt's anchor, the editor target, and re-deriving the rows after the
//! whitespace view, the layout, a fold or the context collapse changed.

use vstd::prelude::*;
use crate::app::{Decision, HunkId, InputMode, Search, ToastKind, Viewport, max_int};
use crate::keys::{NormalCommand, Step};
use crate::serve::status_view;
use crate::app::stepped_match;
use crate::session::{jump_anchor, jump_anchor_spec, note_jump, note_jump_spec};
use crate::text::{debug_str, decimal, owned, str_debug, string_views, u64_to_string};
use crate::theme::{mode_cycle, mode_is_light, mode_name, palette_cycle, preset_name_spec, Palette, ThemeMode};

verus! {

/// How the stream is laid out (the `layout` setting).
#[derive(Debug, Clone, Copy, PartialEq, Eq, Structural)]
pub enum LayoutMode {
    /// One column, old and new lines interleaved.
    Unified,
    /// Old and new side by side.
    Split,
    /// Old block, then new block, per hunk.
    Stack,
    /// Chosen from the terminal width.
    Auto,
}

pub open spec fn layout_name(l: LayoutMode) -> Seq<char> {
    match l {
        LayoutMode::Unified => "unified"@,
        LayoutMode::Split => "split"@,
        LayoutMode::Stack => "stack"@,
        LayoutMode::Auto => "auto"@,
    }
}

/// The `L` cycle: unified → split → stack → unified (auto goes to unified).
pub open spec fn layout_cycle(l: LayoutMode) -> LayoutMode {
    match l {
        LayoutMode::Unified => LayoutMode::Split,
        LayoutMode::Split => LayoutMode::Stack,
        LayoutMode::Stack | LayoutMode::Auto => LayoutMode::Unified,
    }
}

impl LayoutMode {
    /// The setting's name, as shown in the status line.
    pub fn as_str(self) -> (s: &'static str)
        ensures
            s@ == layout_name(self),
    {
        match self {
            LayoutMode::Unified => "unified",
            LayoutMode::Split => "split",
            LayoutMode::Stack => "stack",
            LayoutMode::Auto => "auto",
        }
    }

    /// The next layout of the cycle.
    pub fn cycle(self) -> (l: Self)
        ensures
            l == layout_cycle(self),
    {
        match self {
            LayoutMode::Unified => LayoutMode::Split,
            LayoutMode::Split => LayoutMode::Stack,
            LayoutMode::Stack | LayoutMode::Auto => LayoutMode::Unified,
        }
    }
}

/// What the front end still has to do after a normal-mode command.
#[derive(Debug, Clone, Copy, PartialEq, Eq, Structural)]
pub enum NormalAction {
    Nothing,
    /// Open the note prompt on the cursor row's line or hunk.
    BeginNote,
    /// Open the cursor row's line in the editor.
    OpenEditor,
    /// Drop the cached syntax highlighting.
    DropHighlightCache,
    /// Re-derive the rows (the whitespace view, the layout, the folds or
    /// the context collapse changed).
    RebuildRows,
    /// Load the theme of the new mode or palette.
    ApplyTheme,
}

/// The review session as far as normal-mode commands touch it.
pub struct ReviewState {
    pub viewport: Viewport,
    /// The file owning each row of the stream (`None`: no file's).
    pub row_files: Vec<Option<usize>>,
    /// The row each file's header is on.
    pub file_starts: Vec<usize>,
    /// Each file's display path.
    pub paths: Vec<String>,
    /// The row and identity of each hunk header, in stream order.
    pub hunk_rows: Vec<(usize, HunkId)>,
    /// The rows that carry notes, in increasing order.
    pub note_rows: Vec<usize>,
    /// The row of the last hunk jump and of the last note jump.
    pub last_hunk_jump: Option<usize>,
    pub last_note_jump: Option<usize>,
    /// The folded files.
    pub folded: Vec<usize>,
    /// Whether long unchanged runs are collapsed.
    pub collapse_on: bool,
    pub selected_file: usize,
    pub search: Search,
    pub path_filter: String,
    pub highlight_on: bool,
    pub line_numbers_on: bool,
    pub word_diff_on: bool,
    pub ignore_ws: bool,
    pub show_rail: bool,
    pub layout: LayoutMode,
    pub theme_mode: ThemeMode,
    pub palette: Palette,
    /// Whether the terminal's background is light (for `auto`).
    pub background_light: bool,
    pub decisions: Vec<(HunkId, Decision)>,
    pub select_mode: bool,
    pub show_help: bool,
    pub should_quit: bool,
    pub mode: InputMode,
    /// The status-line message (severity, text).
    pub status: Option<(ToastKind, String)>,
}

/// The session as plain values.
pub struct ReviewModel {
    pub viewport: Viewport,
    pub row_files: Seq<Option<usize>>,
    pub file_starts: Seq<usize>,
    pub paths: Seq<Seq<char>>,
    pub hunk_rows: Seq<(usize, HunkId)>,
    pub note_rows: Seq<usize>,
    pub last_hunk_jump: Option<usize>,
    pub last_note_jump: Option<usize>,
    pub folded: Seq<usize>,
    pub collapse_on: bool,
    pub selected_file: usize,
    /// Query, matches, current match, active.
    pub search: (Seq<char>, Seq<usize>, usize, bool),
    pub path_filter: Seq<char>,
    pub highlight_on: bool,
    pub line_numbers_on: bool,
    pub word_diff_on: bool,
    pub ignore_ws: bool,
    pub show_rail: bool,
    pub layout: LayoutMode,
    pub theme_mode: ThemeMode,
    pub palette: Palette,
    pub background_light: bool,
    pub decisions: Seq<(HunkId, Decision)>,
    pub select_mode: bool,
    pub show_help: bool,
    pub should_quit: bool,
    pub mode: InputMode,
    pub status: Option<(ToastKind, Seq<char>)>,
}

pub open spec fn review_model(s: ReviewState) -> ReviewModel {
    ReviewModel {
        viewport: s.viewport,
        row_files: s.row_files@,
        file_starts: s.file_starts@,
        paths: string_views(s.paths@),
        hunk_rows: s.hunk_rows@,
        note_rows: s.note_rows@,
        last_hunk_jump: s.last_hunk_jump,
        last_note_jump: s.last_note_jump,
        folded: s.folded@,
        collapse_on: s.collapse_on,
        selected_file: s.selected_file,
        search: (s.search.query@, s.search.matches@, s.search.current, s.search.active),
        path_filter: s.path_filter@,
        highlight_on: s.highlight_on,
        line_numbers_on: s.line_numbers_on,
        word_diff_on: s.word_diff_on,
        ignore_ws: s.ignore_ws,
        show_rail: s.show_rail,
        layout: s.layout,
        theme_mode: s.theme_mode,
        palette: s.palette,
        background_light: s.background_light,
        decisions: s.decisions@,
        select_mode: s.select_mode,
        show_help: s.show_help,
        should_quit: s.should_quit,
        mode: s.mode,
        status: status_view(s.status),
    }
}

/// The file owning a row, else the current selection.
pub open spec fn file_at(rows: Seq<Option<usize>>, r: int, current: usize) -> usize {
    if 0 <= r < rows.len() && rows[r] is Some {
        rows[r]->0
    } else {
        current
    }
}

/// The rows a cursor step moves by: one, half a page or a page.
pub open spec fn step_delta(step: Step, height: usize) -> int {
    let page = max_int(height as int, 1);
    match step {
        Step::Down => 1,
        Step::Up => -1,
        Step::HalfDown => page / 2,
        Step::HalfUp => -(page / 2),
        Step::PageDown => page,
        Step::PageUp => -page,
    }
}

/// The first hunk header on a row in `[lo, hi)`.
pub open spec fn first_hunk_in(rows: Seq<(usize, HunkId)>, lo: int, hi: int) -> Option<HunkId>
    decreases rows.len(),
{
    if rows.len() == 0 {
        None
    } else {
        match first_hunk_in(rows.drop_last(), lo, hi) {
            Some(h) => Some(h),
            None => if lo <= rows.last().0 < hi {
                Some(rows.last().1)
            } else {
                None
            },
        }
    }
}

/// The decisions with `id` ruled `d`: an existing entry is updated, else
/// one is added.
#[verifier::opaque]
pub open spec fn set_decision(ds: Seq<(HunkId, Decision)>, id: HunkId, d: Decision) -> Seq<
    (HunkId, Decision),
> {
    if exists|i: int| 0 <= i < ds.len() && ds[i].0 == id {
        ds.map_values(|p: (HunkId, Decision)| if p.0 == id { (id, d) } else { p })
    } else {
        ds.push((id, d))
    }
}

/// How a decision prints in the status line.
pub open spec fn decision_name(d: Decision) -> Seq<char> {
    match d {
        Decision::Undecided => "Undecided"@,
        Decision::Accept => "Accept"@,
        Decision::Reject => "Reject"@,
    }
}

/// The theme message: `theme: <preset> (<mode>)`.
pub open spec fn theme_message(p: Palette, mode: ThemeMode, light_bg: bool) -> Seq<char> {
    "theme: "@ + preset_name_spec(p, mode_is_light(mode, light_bg)) + " ("@ + mode_name(mode) + ")"@
}

/// A toggle's message: success when it turns on, info when off.
pub open spec fn toggle_status(on: bool, on_text: Seq<char>, off_text: Seq<char>) -> Option<
    (ToastKind, Seq<char>),
> {
    if on {
        Some((ToastKind::Success, on_text))
    } else {
        Some((ToastKind::Info, off_text))
    }
}

/// The session after jumping to `row`: the row goes to the top of the view
/// (as far as the view can scroll), the cursor onto it, and the row's file
/// is selected (else `selected`).
#[verifier::opaque]
pub open spec fn jump_spec(m: ReviewModel, row: usize, selected: usize) -> ReviewModel {
    ReviewModel {
        viewport: Viewport {
            scroll_y: min_usize(row as int, m.viewport.max_scroll_spec()) as usize,
            cursor_v: min_usize(row as int, m.viewport.last_row()) as usize,
            ..m.viewport
        },
        selected_file: file_at(m.row_files, row as int, selected),
        ..m
    }
}

/// Where a hunk or note jump searches from: the last jump's row while it is
/// on screen, else the top row.
pub open spec fn anchor_of(last: Option<usize>, vp: Viewport) -> usize {
    jump_anchor_spec(
        match last {
            Some(r) => Some((r, r)),
            None => None,
        },
        vp.scroll_y,
        vp.scroll_y,
        vp.viewport_height,
    )
}

/// How a hunk header row is named in the status line: `path:hN` (1-based),
/// else the row number.
pub open spec fn hunk_label(m: ReviewModel, row: usize) -> Seq<char> {
    match first_hunk_in(m.hunk_rows, row as int, row + 1) {
        Some(id) => if id.file_idx < m.paths.len() {
            m.paths[id.file_idx as int] + ":h"@ + decimal((id.hunk_idx + 1) as nat)
        } else {
            decimal(row as nat)
        },
        None => decimal(row as nat),
    }
}

pub open spec fn hunk_row_list(rows: Seq<(usize, HunkId)>) -> Seq<usize> {
    rows.map_values(|p: (usize, HunkId)| p.0)
}

/// `]h` / `[h` (and space): the next hunk header after the anchor, wrapping
/// to the first; or the previous, wrapping to the last.
#[verifier::opaque]
pub open spec fn hunk_jump_spec(m: ReviewModel, forward: bool) -> ReviewModel {
    match note_jump_spec(hunk_row_list(m.hunk_rows), anchor_of(m.last_hunk_jump, m.viewport), forward) {
        Some((row, _)) => ReviewModel {
            last_hunk_jump: Some(row),
            status: Some(
                (ToastKind::Info, (if forward { "→"@ } else { "←"@ }) + " hunk @ "@ + hunk_label(m, row)),
            ),
            ..jump_spec(m, row, m.selected_file)
        },
        None => ReviewModel { status: Some((ToastKind::Error, "no hunks to jump to"@)), ..m },
    }
}

/// `}` / `{`: the next annotated row after the anchor, wrapping; or the
/// previous one.
#[verifier::opaque]
pub open spec fn note_step_spec(m: ReviewModel, next: bool) -> ReviewModel {
    match note_jump_spec(m.note_rows, anchor_of(m.last_note_jump, m.viewport), next) {
        Some((row, ordinal)) => ReviewModel {
            last_note_jump: Some(row),
            status: Some(
                (
                    ToastKind::Info,
                    "💬 note "@ + decimal(ordinal as nat) + "/"@ + decimal(m.note_rows.len()),
                ),
            ),
            ..jump_spec(m, row, m.selected_file)
        },
        None => ReviewModel { status: Some((ToastKind::Info, "no notes in this diff"@)), ..m },
    }
}

/// `n` / `N`: step to the next or previous search match, wrapping.
#[verifier::opaque]
pub open spec fn match_step_spec(m: ReviewModel, forward: bool) -> ReviewModel {
    if m.search.1.len() == 0 {
        ReviewModel {
            status: Some(
                (
                    ToastKind::Error,
                    if m.search.3 {
                        "no matches for "@ + debug_str(m.search.0)
                    } else {
                        "no search active (press / to search)"@
                    },
                ),
            ),
            ..m
        }
    } else {
        match_moved_spec(m, stepped_match(m.search.2 as nat, m.search.1.len(), forward))
    }
}

/// The session once the current match is the `c`-th: jumped to it, and
/// the status names it (`match c+1/n: "query"`).
pub open spec fn match_moved_spec(m: ReviewModel, c: nat) -> ReviewModel {
    ReviewModel {
        search: (m.search.0, m.search.1, c as usize, m.search.3),
        status: Some((ToastKind::Info, match_message(m.search.0, c, m.search.1.len()))),
        ..jump_spec(m, m.search.1[c as int], m.selected_file)
    }
}

pub open spec fn match_message(q: Seq<char>, c: nat, n: nat) -> Seq<char> {
    "match "@ + decimal(c + 1) + "/"@ + decimal(n) + ": "@ + debug_str(q)
}

/// Tab / Shift-Tab: the next file, wrapping to the first; or the previous,
/// wrapping to the last.
#[verifier::opaque]
pub open spec fn file_jump_spec(m: ReviewModel, forward: bool) -> ReviewModel {
    if m.paths.len() == 0 {
        m
    } else {
        file_jump_to_spec(m, next_file_index(m, forward), forward)
    }
}

/// The file Tab / Shift-Tab selects among `n` files.
pub open spec fn next_file_index(m: ReviewModel, forward: bool) -> int {
    let n = m.paths.len();
    if forward {
        if m.selected_file + 1 < n { m.selected_file + 1 } else { 0 }
    } else {
        if m.selected_file == 0 { n - 1 } else { m.selected_file - 1 }
    }
}

/// Jump to file `idx`, with the arrow of the direction in the status.
pub open spec fn file_jump_to_spec(m: ReviewModel, idx: int, forward: bool) -> ReviewModel {
    ReviewModel {
        status: Some((ToastKind::Info, (if forward { "→ "@ } else { "← "@ }) + m.paths[idx])),
        ..jump_spec(m, m.file_starts[idx], idx as usize)
    }
}

/// The selected file's display path.
pub open spec fn current_path(m: ReviewModel) -> Seq<char> {
    if m.selected_file < m.paths.len() {
        m.paths[m.selected_file as int]
    } else {
        Seq::empty()
    }
}

/// The folded files without `f`.
pub open spec fn drop_value(v: Seq<usize>, f: usize) -> Seq<usize>
    decreases v.len(),
{
    if v.len() == 0 {
        v
    } else {
        let before = drop_value(v.drop_last(), f);
        if v.last() == f {
            before
        } else {
            before.push(v.last())
        }
    }
}

/// What a normal-mode command does to the session, and what is left for
/// the front end.
pub open spec fn normal_step_spec(s: ReviewState, cmd: NormalCommand) -> (ReviewModel, NormalAction) {
    let m = review_model(s);
    let vp = s.viewport;
    match cmd {
        NormalCommand::Move(step) => {
            let v = vp.set_cursor_spec(vp.moved_cursor(step_delta(step, vp.viewport_height) as i64) as usize);
            (ReviewModel {
                viewport: v,
                selected_file: file_at(m.row_files, v.cursor_v as int, m.selected_file),
                ..m
            }, NormalAction::Nothing)
        },
        NormalCommand::Top => {
            let v = Viewport { scroll_y: 0, ..vp.set_cursor_spec(0) };
            (ReviewModel {
                viewport: v,
                selected_file: file_at(m.row_files, 0, m.selected_file),
                ..m
            }, NormalAction::Nothing)
        },
        NormalCommand::Bottom => {
            let v = Viewport { scroll_y: vp.max_scroll_spec() as usize, ..vp }.set_cursor_spec(
                vp.last_row() as usize,
            );
            (ReviewModel {
                viewport: v,
                selected_file: file_at(m.row_files, v.cursor_v as int, m.selected_file),
                ..m
            }, NormalAction::Nothing)
        },
        NormalCommand::QuitOrClearSearch => if s.search.active {
            (ReviewModel {
                search: (Seq::empty(), Seq::empty(), 0, false),
                status: Some((ToastKind::Success, "search cleared"@)),
                ..m
            }, NormalAction::Nothing)
        } else {
            (ReviewModel { should_quit: true, ..m }, NormalAction::Nothing)
        },
        NormalCommand::NextFile => (file_jump_spec(m, true), NormalAction::Nothing),
        NormalCommand::PrevFile => (file_jump_spec(m, false), NormalAction::Nothing),
        NormalCommand::NthFile(n) => if n <= m.paths.len() {
            let idx = (n - 1) as int;
            let row = m.file_starts[idx];
            (ReviewModel {
                status: Some((ToastKind::Info, "→ "@ + m.paths[idx])),
                ..jump_spec(m, row, idx as usize)
            }, NormalAction::Nothing)
        } else {
            (m, NormalAction::Nothing)
        },
        NormalCommand::Arm(c) => (ReviewModel {
            status: Some((ToastKind::Info, seq![c])),
            ..m
        }, NormalAction::Nothing),
        NormalCommand::NextHunk => (hunk_jump_spec(m, true), NormalAction::Nothing),
        NormalCommand::PrevHunk => (hunk_jump_spec(m, false), NormalAction::Nothing),
        NormalCommand::FoldCurrent => if m.folded.contains(m.selected_file) {
            (ReviewModel {
                status: Some((ToastKind::Error, "already folded: "@ + current_path(m))),
                ..m
            }, NormalAction::Nothing)
        } else {
            (ReviewModel {
                folded: m.folded.push(m.selected_file),
                status: Some((ToastKind::Info, "▼ "@ + current_path(m) + " (folded)"@)),
                ..m
            }, NormalAction::RebuildRows)
        },
        NormalCommand::UnfoldCurrent => if m.folded.contains(m.selected_file) {
            (ReviewModel {
                folded: drop_value(m.folded, m.selected_file),
                status: Some((ToastKind::Success, "▶ "@ + current_path(m) + " (unfolded)"@)),
                ..m
            }, NormalAction::RebuildRows)
        } else {
            (ReviewModel {
                status: Some((ToastKind::Error, "not folded: "@ + current_path(m))),
                ..m
            }, NormalAction::Nothing)
        },
        NormalCommand::ToggleCollapse => (ReviewModel {
            collapse_on: !m.collapse_on,
            status: toggle_status(!m.collapse_on, "context collapse on"@, "context collapse off"@),
            ..m
        }, NormalAction::RebuildRows),
        NormalCommand::NextNote => (note_step_spec(m, true), NormalAction::Nothing),
        NormalCommand::PrevNote => (note_step_spec(m, false), NormalAction::Nothing),
        NormalCommand::ToggleHighlight => (ReviewModel {
            highlight_on: !m.highlight_on,
            status: toggle_status(!m.highlight_on, "highlight on"@, "highlight off"@),
            ..m
        }, if m.highlight_on { NormalAction::DropHighlightCache } else { NormalAction::Nothing }),
        NormalCommand::ToggleLineNumbers => (ReviewModel {
            line_numbers_on: !m.line_numbers_on,
            status: toggle_status(!m.line_numbers_on, "line numbers on"@, "line numbers off"@),
            ..m
        }, NormalAction::Nothing),
        NormalCommand::ToggleWordDiff => (ReviewModel {
            word_diff_on: !m.word_diff_on,
            status: toggle_status(!m.word_diff_on, "word diff on"@, "word diff off"@),
            ..m
        }, NormalAction::Nothing),
        NormalCommand::ToggleIgnoreWs => (ReviewModel {
            ignore_ws: !m.ignore_ws,
            status: toggle_status(!m.ignore_ws, "ignore-whitespace on"@, "ignore-whitespace off"@),
            ..m
        }, NormalAction::RebuildRows),
        NormalCommand::ToggleRail => (ReviewModel {
            show_rail: !m.show_rail,
            status: toggle_status(!m.show_rail, "rail shown"@, "rail hidden"@),
            ..m
        }, NormalAction::Nothing),
        NormalCommand::CycleLayout => (ReviewModel {
            layout: layout_cycle(m.layout),
            status: Some((ToastKind::Success, "layout: "@ + layout_name(layout_cycle(m.layout)))),
            ..m
        }, NormalAction::RebuildRows),
        NormalCommand::CycleThemeMode => (ReviewModel {
            theme_mode: mode_cycle(m.theme_mode),
            status: Some(
                (ToastKind::Info, theme_message(m.palette, mode_cycle(m.theme_mode), m.background_light)),
            ),
            ..m
        }, NormalAction::ApplyTheme),
        NormalCommand::CyclePalette => (ReviewModel {
            palette: palette_cycle(m.palette),
            status: Some(
                (ToastKind::Info, theme_message(palette_cycle(m.palette), m.theme_mode, m.background_light)),
            ),
            ..m
        }, NormalAction::ApplyTheme),
        NormalCommand::BeginSearch => (ReviewModel {
            mode: InputMode::Search,
            search: (Seq::empty(), m.search.1, m.search.2, m.search.3),
            status: Some((ToastKind::Info, "search: "@)),
            ..m
        }, NormalAction::Nothing),
        NormalCommand::BeginFilter => (ReviewModel {
            mode: InputMode::Filter,
            path_filter: Seq::empty(),
            status: Some((ToastKind::Info, "filter: "@)),
            ..m
        }, NormalAction::Nothing),
        NormalCommand::BeginNote => (m, NormalAction::BeginNote),
        NormalCommand::OpenEditor => (m, NormalAction::OpenEditor),
        NormalCommand::NextMatch => (match_step_spec(m, true), NormalAction::Nothing),
        NormalCommand::PrevMatch => (match_step_spec(m, false), NormalAction::Nothing),
        NormalCommand::ToggleHelp => (ReviewModel { show_help: !m.show_help, ..m }, NormalAction::Nothing),
        NormalCommand::Decide(d) => match first_hunk_in(
            m.hunk_rows,
            vp.scroll_y as int,
            vp.scroll_y + vp.pane_rows(),
        ) {
            Some(id) => (ReviewModel {
                status: Some((ToastKind::Info, decision_message(m, id, d))),
                ..hunk_jump_spec(ReviewModel { decisions: set_decision(m.decisions, id, d), ..m }, true)
            }, NormalAction::Nothing),
            None => (ReviewModel {
                status: Some((ToastKind::Error, "no hunk in view"@)),
                ..m
            }, NormalAction::Nothing),
        },
        NormalCommand::Nothing => (m, NormalAction::Nothing),
    }
}

pub open spec fn min_usize(a: int, b: int) -> int {
    if a <= b {
        a
    } else {
        b
    }
}

/// Whether the session's parts agree: one start row per file.
pub open spec fn review_wf(s: ReviewState) -> bool {
    &&& s.file_starts@.len() == s.paths@.len()
    &&& s.viewport.scroll_y + s.viewport.pane_rows() <= usize::MAX
    &&& s.viewport.virtual_len < usize::MAX
    &&& s.viewport.viewport_height < i64::MAX
    &&& (s.paths@.len() == 0 || s.selected_file < s.paths@.len())
    &&& s.search.current <= s.search.matches@.len()
    &&& s.search.current < usize::MAX
    &&& hunk_ordinals_fit(s.hunk_rows@)
}

/// Every hunk's 1-based ordinal fits in a `usize`.
#[verifier::opaque]
pub open spec fn hunk_ordinals_fit(rows: Seq<(usize, HunkId)>) -> bool {
    forall|k: int| 0 <= k < rows.len() ==> (#[trigger] rows[k]).1.hunk_idx < usize::MAX
}

/// The selection after looking at a row: the row's file, if it has one.
fn file_at_row(rows: &Vec<Option<usize>>, r: usize, current: usize) -> (f: usize)
    ensures
        f == file_at(rows@, r as int, current),
{
    if r < rows.len() {
        if let Some(f) = rows[r] {
            return f;
        }
    }
    current
}

fn set_decision_exec(ds: &mut Vec<(HunkId, Decision)>, id: HunkId, d: Decision)
    ensures
        final(ds)@ == set_decision(old(ds)@, id, d),
{
    reveal(set_decision);
    let ghost old_ds = ds@;
    let ghost f = |p: (HunkId, Decision)| if p.0 == id { (id, d) } else { p };
    let mut out: Vec<(HunkId, Decision)> = Vec::new();
    let mut found = false;
    let mut i: usize = 0;
    while i < ds.len()
        invariant
            i <= ds.len(),
            old_ds == ds@,
            f == (|p: (HunkId, Decision)| if p.0 == id { (id, d) } else { p }),
            out@ == old_ds.subrange(0, i as int).map_values(f),
            found == (exists|j: int| 0 <= j < i && old_ds[j].0 == id),
        decreases ds.len() - i,
    {
        let p = ds[i];
        if p.0 == id {
            out.push((id, d));
            found = true;
        } else {
            out.push(p);
        }
        proof {
            assert(out@ =~= old_ds.subrange(0, i + 1).map_values(f));
        }
        i = i + 1;
    }
    proof {
        assert(old_ds.subrange(0, old_ds.len() as int) =~= old_ds);
    }
    if found {
        *ds = out;
    } else {
        ds.push((id, d));
    }
}

fn first_hunk_exec(rows: &Vec<(usize, HunkId)>, lo: usize, hi: usize) -> (r: Option<HunkId>)
    ensures
        r == first_hunk_in(rows@, lo as int, hi as int),
{
    let mut found: Option<HunkId> = None;
    let mut i: usize = 0;
    while i < rows.len()
        invariant
            i <= rows.len(),
            found == first_hunk_in(rows@.subrange(0, i as int), lo as int, hi as int),
        decreases rows.len() - i,
    {
        proof {
            assert(rows@.subrange(0, i + 1).drop_last() =~= rows@.subrange(0, i as int));
        }
        if found.is_none() && lo <= rows[i].0 && rows[i].0 < hi {
            found = Some(rows[i].1);
        }
        i = i + 1;
    }
    proof {
        assert(rows@.subrange(0, rows@.len() as int) =~= rows@);
    }
    found
}

fn theme_text(p: Palette, mode: ThemeMode, light_bg: bool) -> (r: String)
    ensures
        r@ == theme_message(p, mode, light_bg),
{
    let mut t = owned("theme: ");
    t.append(p.preset_name(mode, light_bg).as_str());
    t.append(" (");
    t.append(mode.name());
    t.append(")");
    t
}

fn set_toggle_status(s: &mut ReviewState, on: bool, on_text: &str, off_text: &str)
    ensures
        review_model(*final(s)) == (ReviewModel {
            status: toggle_status(on, on_text@, off_text@),
            ..review_model(*old(s))
        }),
{
    if on {
        s.status = Some((ToastKind::Success, owned(on_text)));
    } else {
        s.status = Some((ToastKind::Info, owned(off_text)));
    }
}

fn decision_text(d: Decision) -> (r: &'static str)
    ensures
        r@ == decision_name(d),
{
    match d {
        Decision::Undecided => "Undecided",
        Decision::Accept => "Accept",
        Decision::Reject => "Reject",
    }
}

/// Jump to `row` (see [`jump_spec`]).
pub(crate) fn jump_to_row(s: &mut ReviewState, row: usize, selected: usize)
    ensures
        review_model(*final(s)) == jump_spec(review_model(*old(s)), row, selected),
{
    reveal(jump_spec);
    let top = s.viewport.max_scroll();
    let last: usize = if s.viewport.virtual_len >= 1 { s.viewport.virtual_len - 1 } else { 0 };
    s.viewport.scroll_y = if row < top { row } else { top };
    s.viewport.cursor_v = if row < last { row } else { last };
    s.selected_file = file_at_row(&s.row_files, row, selected);
}

fn anchor_exec(last: Option<usize>, vp: Viewport) -> (r: usize)
    ensures
        r == anchor_of(last, vp),
{
    let l = match last {
        Some(r) => Some((r, r)),
        None => None,
    };
    jump_anchor(l, vp.scroll_y, vp.scroll_y, vp.viewport_height)
}

fn hunk_rows_exec(rows: &Vec<(usize, HunkId)>) -> (r: Vec<usize>)
    ensures
        r@ == hunk_row_list(rows@),
{
    let mut out: Vec<usize> = Vec::new();
    let mut i: usize = 0;
    while i < rows.len()
        invariant
            i <= rows.len(),
            out@ == hunk_row_list(rows@.subrange(0, i as int)),
        decreases rows.len() - i,
    {
        out.push(rows[i].0);
        proof {
            assert(hunk_row_list(rows@.subrange(0, i + 1)) =~= hunk_row_list(rows@.subrange(0, i as int)).push(
                rows@[i as int].0,
            ));
        }
        i = i + 1;
    }
    proof {
        assert(rows@.subrange(0, rows@.len() as int) =~= rows@);
    }
    out
}

proof fn lemma_first_hunk_in_found(rows: Seq<(usize, HunkId)>, lo: int, hi: int)
    ensures
        first_hunk_in(rows, lo, hi) matches Some(id) ==> exists|k: int|
            0 <= k < rows.len() && (#[trigger] rows[k]).1 == id,
    decreases rows.len(),
{
    if rows.len() > 0 {
        lemma_first_hunk_in_found(rows.drop_last(), lo, hi);
        if let Some(id) = first_hunk_in(rows.drop_last(), lo, hi) {
            let k = choose|k: int| 0 <= k < rows.drop_last().len() && (#[trigger] rows.drop_last()[k]).1 == id;
            assert(rows[k] == rows.drop_last()[k]);
        } else if lo <= rows.last().0 < hi {
            assert(rows[rows.len() - 1] == rows.last());
        }
    }
}

fn hunk_at_row(rows: &Vec<(usize, HunkId)>, row: usize) -> (r: Option<HunkId>)
    ensures
        r == first_hunk_in(rows@, row as int, row + 1),
{
    let mut found: Option<HunkId> = None;
    let mut i: usize = 0;
    while i < rows.len()
        invariant
            i <= rows.len(),
            found == first_hunk_in(rows@.subrange(0, i as int), row as int, row + 1),
        decreases rows.len() - i,
    {
        proof {
            assert(rows@.subrange(0, i + 1).drop_last() =~= rows@.subrange(0, i as int));
        }
        if found.is_none() && rows[i].0 == row {
            found = Some(rows[i].1);
        }
        i = i + 1;
    }
    proof {
        assert(rows@.subrange(0, rows@.len() as int) =~= rows@);
    }
    found
}

fn hunk_label_exec(s: &ReviewState, row: usize) -> (r: String)
    requires
        review_wf(*s),
    ensures
        r@ == hunk_label(review_model(*s), row),
{
    proof {
        lemma_first_hunk_in_found(s.hunk_rows@, row as int, row + 1);
        reveal(hunk_ordinals_fit);
    }
    match hunk_at_row(&s.hunk_rows, row) {
        Some(id) => {
            if id.file_idx < s.paths.len() {
                let mut t = owned(s.paths[id.file_idx].as_str());
                t.append(":h");
                t.append(u64_to_string((id.hunk_idx + 1) as u64).as_str());
                t
            } else {
                u64_to_string(row as u64)
            }
        },
        None => u64_to_string(row as u64),
    }
}

fn hunk_jump(s: &mut ReviewState, forward: bool)
    requires
        review_wf(*old(s)),
    ensures
        review_model(*final(s)) == hunk_jump_spec(review_model(*old(s)), forward),
{
    reveal(hunk_jump_spec);
    let rows = hunk_rows_exec(&s.hunk_rows);
    let anchor = anchor_exec(s.last_hunk_jump, s.viewport);
    match note_jump(&rows, anchor, forward) {
        Some((row, _)) => {
            let label = hunk_label_exec(s, row);
            let sel = s.selected_file;
            let mut msg = owned(if forward { "→" } else { "←" });
            msg.append(" hunk @ ");
            msg.append(label.as_str());
            jump_to_row(s, row, sel);
            let ghost mj = review_model(*s);
            s.last_hunk_jump = Some(row);
            s.status = Some((ToastKind::Info, msg));
            assert(review_model(*s) == (ReviewModel {
                last_hunk_jump: Some(row),
                status: Some((ToastKind::Info, msg@)),
                ..mj
            }));
        },
        None => {
            s.status = Some((ToastKind::Error, owned("no hunks to jump to")));
        },
    }
}

fn note_step(s: &mut ReviewState, next: bool)
    ensures
        review_model(*final(s)) == note_step_spec(review_model(*old(s)), next),
{
    reveal(note_step_spec);
    let anchor = anchor_exec(s.last_note_jump, s.viewport);
    match note_jump(&s.note_rows, anchor, next) {
        Some((row, ordinal)) => {
            let ghost m0 = review_model(*s);
            let sel = s.selected_file;
            let mut msg = owned("💬 note ");
            msg.append(u64_to_string(ordinal as u64).as_str());
            msg.append("/");
            msg.append(u64_to_string(s.note_rows.len() as u64).as_str());
            jump_to_row(s, row, sel);
            let ghost mj = review_model(*s);
            s.last_note_jump = Some(row);
            s.status = Some((ToastKind::Info, msg));
            assert(review_model(*s) == (ReviewModel {
                last_note_jump: Some(row),
                status: Some((ToastKind::Info, msg@)),
                ..mj
            }));
            assert(mj == jump_spec(m0, row, m0.selected_file));
        },
        None => {
            s.status = Some((ToastKind::Info, owned("no notes in this diff")));
        },
    }
}

proof fn lemma_stepped_in_range(cur: nat, len: nat, forward: bool)
    requires
        len > 0,
        cur <= len,
    ensures
        stepped_match(cur, len, forward) < len,
{
    if forward {
        assert((cur + 1) % len < len) by (nonlinear_arith)
            requires
                len > 0,
        ;
    }
}

pub(crate) proof fn lemma_jump_keeps(m: ReviewModel, row: usize, selected: usize)
    ensures
        jump_spec(m, row, selected) == (ReviewModel {
            viewport: jump_spec(m, row, selected).viewport,
            selected_file: jump_spec(m, row, selected).selected_file,
            ..m
        }),
{
    reveal(jump_spec);
}

fn match_move(s: &mut ReviewState, c: usize)
    requires
        c < old(s).search.matches@.len(),
    ensures
        review_model(*final(s)) == match_moved_spec(review_model(*old(s)), c as nat),
{
    let ghost m0 = review_model(*s);
    let n = s.search.matches.len();
    let row = s.search.matches[c];
    let sel = s.selected_file;
    let mut msg = owned("match ");
    msg.append(u64_to_string((c + 1) as u64).as_str());
    msg.append("/");
    msg.append(u64_to_string(n as u64).as_str());
    msg.append(": ");
    msg.append(str_debug(s.search.query.as_str()).as_str());
    assert(msg@ == match_message(m0.search.0, c as nat, n as nat));
    proof {
        lemma_jump_keeps(m0, row, sel);
    }
    jump_to_row(s, row, sel);
    s.search.current = c;
    s.status = Some((ToastKind::Info, msg));
}

fn match_step(s: &mut ReviewState, forward: bool)
    requires
        review_wf(*old(s)),
    ensures
        review_model(*final(s)) == match_step_spec(review_model(*old(s)), forward),
{
    let ghost m0 = review_model(*s);
    if s.search.matches.len() == 0 {
        if s.search.active {
            let mut msg = owned("no matches for ");
            msg.append(str_debug(s.search.query.as_str()).as_str());
            s.status = Some((ToastKind::Error, msg));
        } else {
            s.status = Some((ToastKind::Error, owned("no search active (press / to search)")));
        }
        assert(review_model(*s) == match_step_spec(m0, forward)) by {
            reveal(match_step_spec);
        }
        return;
    }
    let n = s.search.matches.len();
    let cur = s.search.current;
    let c: usize = if forward {
        (cur + 1) % n
    } else if cur == 0 {
        n - 1
    } else {
        cur - 1
    };
    proof {
        lemma_stepped_in_range(cur as nat, n as nat, forward);
    }
    assert(c == stepped_match(cur as nat, n as nat, forward));
    match_move(s, c);
    assert(review_model(*s) == match_step_spec(m0, forward)) by {
        reveal(match_step_spec);
    }
}

fn file_jump_to(s: &mut ReviewState, idx: usize, forward: bool)
    requires
        idx < old(s).paths@.len(),
        old(s).file_starts@.len() == old(s).paths@.len(),
    ensures
        review_model(*final(s)) == file_jump_to_spec(review_model(*old(s)), idx as int, forward),
{
    let ghost m0 = review_model(*s);
    let row = s.file_starts[idx];
    let arrow = if forward { "→ " } else { "← " };
    let mut msg = owned(arrow);
    msg.append(s.paths[idx].as_str());
    assert(m0.paths[idx as int] == s.paths@[idx as int]@);
    jump_to_row(s, row, idx);
    let ghost mj = review_model(*s);
    s.status = Some((ToastKind::Info, msg));
    assert(review_model(*s) == (ReviewModel { status: Some((ToastKind::Info, msg@)), ..mj }));
}

fn file_jump(s: &mut ReviewState, forward: bool)
    requires
        review_wf(*old(s)),
    ensures
        review_model(*final(s)) == file_jump_spec(review_model(*old(s)), forward),
{
    let ghost m0 = review_model(*s);
    let n = s.paths.len();
    if n == 0 {
        assert(review_model(*s) == file_jump_spec(m0, forward)) by {
            reveal(file_jump_spec);
        }
        return;
    }
    let idx: usize = if forward {
        if s.selected_file + 1 < n { s.selected_file + 1 } else { 0 }
    } else {
        if s.selected_file == 0 { n - 1 } else { s.selected_file - 1 }
    };
    assert(idx as int == next_file_index(m0, forward));
    file_jump_to(s, idx, forward);
    assert(review_model(*s) == file_jump_spec(m0, forward)) by {
        reveal(file_jump_spec);
    }
}

fn current_path_exec(s: &ReviewState) -> (r: String)
    ensures
        r@ == current_path(review_model(*s)),
{
    if s.selected_file < s.paths.len() {
        owned(s.paths[s.selected_file].as_str())
    } else {
        String::new()
    }
}

fn folded_contains(v: &Vec<usize>, f: usize) -> (b: bool)
    ensures
        b == v@.contains(f),
{
    let mut i: usize = 0;
    while i < v.len()
        invariant
            i <= v.len(),
            forall|j: int| 0 <= j < i ==> v@[j] != f,
        decreases v.len() - i,
    {
        if v[i] == f {
            return true;
        }
        i = i + 1;
    }
    false
}

fn drop_value_exec(v: &mut Vec<usize>, f: usize)
    ensures
        final(v)@ == drop_value(old(v)@, f),
{
    let mut out: Vec<usize> = Vec::new();
    let mut i: usize = 0;
    while i < v.len()
        invariant
            i <= v.len(),
            out@ == drop_value(v@.subrange(0, i as int), f),
        decreases v.len() - i,
    {
        proof {
            assert(v@.subrange(0, i + 1).drop_last() =~= v@.subrange(0, i as int));
        }
        if v[i] != f {
            out.push(v[i]);
        }
        i = i + 1;
    }
    proof {
        assert(v@.subrange(0, v@.len() as int) =~= v@);
    }
    *v = out;
}

#[verifier::rlimit(20)]
fn normal_move(s: &mut ReviewState, step: Step) -> (action: NormalAction)
    requires
        review_wf(*old(s)),
    ensures
        review_model(*final(s)) == normal_step_spec(*old(s), NormalCommand::Move(step)).0,
        action == normal_step_spec(*old(s), NormalCommand::Move(step)).1,
{
    let page: usize = if s.viewport.viewport_height >= 1 { s.viewport.viewport_height } else { 1 };
    let delta: i64 = match step {
        Step::Down => 1,
        Step::Up => -1,
        Step::HalfDown => (page / 2) as i64,
        Step::HalfUp => -((page / 2) as i64),
        Step::PageDown => page as i64,
        Step::PageUp => -(page as i64),
    };
    s.viewport.move_cursor(delta);
    s.selected_file = file_at_row(&s.row_files, s.viewport.cursor_v, s.selected_file);
    NormalAction::Nothing
}

fn normal_top(s: &mut ReviewState) -> (action: NormalAction)
    requires
        review_wf(*old(s)),
    ensures
        review_model(*final(s)) == normal_step_spec(*old(s), NormalCommand::Top).0,
        action == normal_step_spec(*old(s), NormalCommand::Top).1,
{
    s.viewport.set_cursor(0);
    s.viewport.scroll_y = 0;
    s.selected_file = file_at_row(&s.row_files, 0, s.selected_file);
    NormalAction::Nothing
}

fn normal_bottom(s: &mut ReviewState) -> (action: NormalAction)
    requires
        review_wf(*old(s)),
    ensures
        review_model(*final(s)) == normal_step_spec(*old(s), NormalCommand::Bottom).0,
        action == normal_step_spec(*old(s), NormalCommand::Bottom).1,
{
    let last: usize = if s.viewport.virtual_len >= 1 { s.viewport.virtual_len - 1 } else { 0 };
    s.viewport.scroll_y = s.viewport.max_scroll();
    s.viewport.set_cursor(last);
    s.selected_file = file_at_row(&s.row_files, s.viewport.cursor_v, s.selected_file);
    NormalAction::Nothing
}

fn normal_quit_or_clear(s: &mut ReviewState) -> (action: NormalAction)
    requires
        review_wf(*old(s)),
    ensures
        review_model(*final(s)) == normal_step_spec(*old(s), NormalCommand::QuitOrClearSearch).0,
        action == normal_step_spec(*old(s), NormalCommand::QuitOrClearSearch).1,
{
    if s.search.active {
        s.search.clear();
        s.status = Some((ToastKind::Success, owned("search cleared")));
    } else {
        s.should_quit = true;
    }
    NormalAction::Nothing
}

fn normal_nth_file(s: &mut ReviewState, n: usize) -> (action: NormalAction)
    requires
        review_wf(*old(s)),
        n >= 1,
    ensures
        review_model(*final(s)) == normal_step_spec(*old(s), NormalCommand::NthFile(n)).0,
        action == normal_step_spec(*old(s), NormalCommand::NthFile(n)).1,
{
    if n <= s.paths.len() {
        let idx = n - 1;
        let row = s.file_starts[idx];
        let mut msg = owned("→ ");
        msg.append(s.paths[idx].as_str());
        jump_to_row(s, row, idx);
        let ghost mj = review_model(*s);
        s.status = Some((ToastKind::Info, msg));
        assert(review_model(*s) == (ReviewModel { status: Some((ToastKind::Info, msg@)), ..mj }));
    }
    NormalAction::Nothing
}

fn normal_arm(s: &mut ReviewState, c: char) -> (action: NormalAction)
    requires
        review_wf(*old(s)),
    ensures
        review_model(*final(s)) == normal_step_spec(*old(s), NormalCommand::Arm(c)).0,
        action == normal_step_spec(*old(s), NormalCommand::Arm(c)).1,
{
    let mut t = String::new();
    t.push(c);
    s.status = Some((ToastKind::Info, t));
    NormalAction::Nothing
}

fn normal_toggle_highlight(s: &mut ReviewState) -> (action: NormalAction)
    requires
        review_wf(*old(s)),
    ensures
        review_model(*final(s)) == normal_step_spec(*old(s), NormalCommand::ToggleHighlight).0,
        action == normal_step_spec(*old(s), NormalCommand::ToggleHighlight).1,
{
    s.highlight_on = !s.highlight_on;
    let on = s.highlight_on;
    set_toggle_status(s, on, "highlight on", "highlight off");
    if on { NormalAction::Nothing } else { NormalAction::DropHighlightCache }
}

fn normal_toggle_line_numbers(s: &mut ReviewState) -> (action: NormalAction)
    requires
        review_wf(*old(s)),
    ensures
        review_model(*final(s)) == normal_step_spec(*old(s), NormalCommand::ToggleLineNumbers).0,
        action == normal_step_spec(*old(s), NormalCommand::ToggleLineNumbers).1,
{
    s.line_numbers_on = !s.line_numbers_on;
    let on = s.line_numbers_on;
    set_toggle_status(s, on, "line numbers on", "line numbers off");
    NormalAction::Nothing
}

fn normal_toggle_word_diff(s: &mut ReviewState) -> (action: NormalAction)
    requires
        review_wf(*old(s)),
    ensures
        review_model(*final(s)) == normal_step_spec(*old(s), NormalCommand::ToggleWordDiff).0,
        action == normal_step_spec(*old(s), NormalCommand::ToggleWordDiff).1,
{
    s.word_diff_on = !s.word_diff_on;
    let on = s.word_diff_on;
    set_toggle_status(s, on, "word diff on", "word diff off");
    NormalAction::Nothing
}

fn normal_toggle_ignore_ws(s: &mut ReviewState) -> (action: NormalAction)
    requires
        review_wf(*old(s)),
    ensures
        review_model(*final(s)) == normal_step_spec(*old(s), NormalCommand::ToggleIgnoreWs).0,
        action == normal_step_spec(*old(s), NormalCommand::ToggleIgnoreWs).1,
{
    s.ignore_ws = !s.ignore_ws;
    let on = s.ignore_ws;
    set_toggle_status(s, on, "ignore-whitespace on", "ignore-whitespace off");
    NormalAction::RebuildRows
}

fn normal_toggle_rail(s: &mut ReviewState) -> (action: NormalAction)
    requires
        review_wf(*old(s)),
    ensures
        review_model(*final(s)) == normal_step_spec(*old(s), NormalCommand::ToggleRail).0,
        action == normal_step_spec(*old(s), NormalCommand::ToggleRail).1,
{
    s.show_rail = !s.show_rail;
    let on = s.show_rail;
    set_toggle_status(s, on, "rail shown", "rail hidden");
    NormalAction::Nothing
}

fn normal_cycle_layout(s: &mut ReviewState) -> (action: NormalAction)
    requires
        review_wf(*old(s)),
    ensures
        review_model(*final(s)) == normal_step_spec(*old(s), NormalCommand::CycleLayout).0,
        action == normal_step_spec(*old(s), NormalCommand::CycleLayout).1,
{
    s.layout = s.layout.cycle();
    let mut msg = owned("layout: ");
    msg.append(s.layout.as_str());
    s.status = Some((ToastKind::Success, msg));
    NormalAction::RebuildRows
}

fn normal_cycle_theme_mode(s: &mut ReviewState) -> (action: NormalAction)
    requires
        review_wf(*old(s)),
    ensures
        review_model(*final(s)) == normal_step_spec(*old(s), NormalCommand::CycleThemeMode).0,
        action == normal_step_spec(*old(s), NormalCommand::CycleThemeMode).1,
{
    s.theme_mode = s.theme_mode.cycle();
    s.status = Some((ToastKind::Info, theme_text(s.palette, s.theme_mode, s.background_light)));
    NormalAction::ApplyTheme
}

fn normal_cycle_palette(s: &mut ReviewState) -> (action: NormalAction)
    requires
        review_wf(*old(s)),
    ensures
        review_model(*final(s)) == normal_step_spec(*old(s), NormalCommand::CyclePalette).0,
        action == normal_step_spec(*old(s), NormalCommand::CyclePalette).1,
{
    s.palette = s.palette.cycle();
    s.status = Some((ToastKind::Info, theme_text(s.palette, s.theme_mode, s.background_light)));
    NormalAction::ApplyTheme
}

fn normal_begin_search(s: &mut ReviewState) -> (action: NormalAction)
    requires
        review_wf(*old(s)),
    ensures
        review_model(*final(s)) == normal_step_spec(*old(s), NormalCommand::BeginSearch).0,
        action == normal_step_spec(*old(s), NormalCommand::BeginSearch).1,
{
    s.mode = InputMode::Search;
    s.search.query = String::new();
    s.status = Some((ToastKind::Info, owned("search: ")));
    NormalAction::Nothing
}

fn normal_begin_filter(s: &mut ReviewState) -> (action: NormalAction)
    requires
        review_wf(*old(s)),
    ensures
        review_model(*final(s)) == normal_step_spec(*old(s), NormalCommand::BeginFilter).0,
        action == normal_step_spec(*old(s), NormalCommand::BeginFilter).1,
{
    s.mode = InputMode::Filter;
    s.path_filter = String::new();
    s.status = Some((ToastKind::Info, owned("filter: ")));
    NormalAction::Nothing
}

fn normal_toggle_help(s: &mut ReviewState) -> (action: NormalAction)
    requires
        review_wf(*old(s)),
    ensures
        review_model(*final(s)) == normal_step_spec(*old(s), NormalCommand::ToggleHelp).0,
        action == normal_step_spec(*old(s), NormalCommand::ToggleHelp).1,
{
    s.show_help = !s.show_help;
    NormalAction::Nothing
}

pub open spec fn decision_message(m: ReviewModel, id: HunkId, d: Decision) -> Seq<char> {
    decision_name(d) + " — "@ + if id.file_idx < m.paths.len() {
        m.paths[id.file_idx as int]
    } else {
        "?"@
    }
}

/// The hunk jump forward, with `msg` in the status line afterwards.
fn hunk_jump_saying(s: &mut ReviewState, msg: String)
    requires
        review_wf(*old(s)),
    ensures
        review_model(*final(s)) == (ReviewModel {
            status: Some((ToastKind::Info, msg@)),
            ..hunk_jump_spec(review_model(*old(s)), true)
        }),
{
    hunk_jump(s, true);
    s.status = Some((ToastKind::Info, msg));
}

fn decide_found(s: &mut ReviewState, id: HunkId, d: Decision)
    requires
        review_wf(*old(s)),
    ensures
        review_model(*final(s)) == (ReviewModel {
            status: Some((ToastKind::Info, decision_message(review_model(*old(s)), id, d))),
            ..hunk_jump_spec(
                ReviewModel {
                    decisions: set_decision(review_model(*old(s)).decisions, id, d),
                    ..review_model(*old(s))
                },
                true,
            )
        }),
{
    let ghost m0 = review_model(*s);
    let mut msg = owned(decision_text(d));
    msg.append(" — ");
    if id.file_idx < s.paths.len() {
        msg.append(s.paths[id.file_idx].as_str());
    } else {
        msg.append("?");
    }
    assert(msg@ == decision_message(m0, id, d));
    set_decision_exec(&mut s.decisions, id, d);
    assert(review_model(*s) == (ReviewModel { decisions: set_decision(m0.decisions, id, d), ..m0 }));
    hunk_jump_saying(s, msg);
}

fn normal_decide(s: &mut ReviewState, d: Decision) -> (action: NormalAction)
    requires
        review_wf(*old(s)),
    ensures
        review_model(*final(s)) == normal_step_spec(*old(s), NormalCommand::Decide(d)).0,
        action == normal_step_spec(*old(s), NormalCommand::Decide(d)).1,
{
    let page: usize = if s.viewport.viewport_height >= 1 { s.viewport.viewport_height } else { 1 };
    let top = s.viewport.scroll_y;
    match first_hunk_exec(&s.hunk_rows, top, top + page) {
        Some(id) => {
            decide_found(s, id, d);
            NormalAction::Nothing
        },
        None => {
            s.status = Some((ToastKind::Error, owned("no hunk in view")));
            NormalAction::Nothing
        },
    }
}

fn normal_fold(s: &mut ReviewState) -> (action: NormalAction)
    requires
        review_wf(*old(s)),
    ensures
        review_model(*final(s)) == normal_step_spec(*old(s), NormalCommand::FoldCurrent).0,
        action == normal_step_spec(*old(s), NormalCommand::FoldCurrent).1,
{
    let path = current_path_exec(s);
    if folded_contains(&s.folded, s.selected_file) {
        let mut msg = owned("already folded: ");
        msg.append(path.as_str());
        s.status = Some((ToastKind::Error, msg));
        NormalAction::Nothing
    } else {
        s.folded.push(s.selected_file);
        let mut msg = owned("▼ ");
        msg.append(path.as_str());
        msg.append(" (folded)");
        s.status = Some((ToastKind::Info, msg));
        NormalAction::RebuildRows
    }
}

fn normal_unfold(s: &mut ReviewState) -> (action: NormalAction)
    requires
        review_wf(*old(s)),
    ensures
        review_model(*final(s)) == normal_step_spec(*old(s), NormalCommand::UnfoldCurrent).0,
        action == normal_step_spec(*old(s), NormalCommand::UnfoldCurrent).1,
{
    let path = current_path_exec(s);
    if folded_contains(&s.folded, s.selected_file) {
        let f = s.selected_file;
        drop_value_exec(&mut s.folded, f);
        let mut msg = owned("▶ ");
        msg.append(path.as_str());
        msg.append(" (unfolded)");
        s.status = Some((ToastKind::Success, msg));
        NormalAction::RebuildRows
    } else {
        let mut msg = owned("not folded: ");
        msg.append(path.as_str());
        s.status = Some((ToastKind::Error, msg));
        NormalAction::Nothing
    }
}

fn normal_toggle_collapse(s: &mut ReviewState) -> (action: NormalAction)
    requires
        review_wf(*old(s)),
    ensures
        review_model(*final(s)) == normal_step_spec(*old(s), NormalCommand::ToggleCollapse).0,
        action == normal_step_spec(*old(s), NormalCommand::ToggleCollapse).1,
{
    s.collapse_on = !s.collapse_on;
    let on = s.collapse_on;
    set_toggle_status(s, on, "context collapse on", "context collapse off");
    NormalAction::RebuildRows
}

fn normal_jumps(s: &mut ReviewState, cmd: NormalCommand) -> (action: NormalAction)
    requires
        review_wf(*old(s)),
        cmd is NextFile || cmd is PrevFile || cmd is NextHunk || cmd is PrevHunk || cmd is NextNote
            || cmd is PrevNote || cmd is NextMatch || cmd is PrevMatch,
    ensures
        review_model(*final(s)) == normal_step_spec(*old(s), cmd).0,
        action == normal_step_spec(*old(s), cmd).1,
{
    match cmd {
        NormalCommand::NextFile => file_jump(s, true),
        NormalCommand::PrevFile => file_jump(s, false),
        NormalCommand::NextHunk => hunk_jump(s, true),
        NormalCommand::PrevHunk => hunk_jump(s, false),
        NormalCommand::NextNote => note_step(s, true),
        NormalCommand::PrevNote => note_step(s, false),
        NormalCommand::NextMatch => match_step(s, true),
        _ => match_step(s, false),
    }
    NormalAction::Nothing
}

/// Carry out a normal-mode command on the session; what the front end
/// still has to do.
#[verifier::rlimit(20)]
pub fn apply_normal_command(s: &mut ReviewState, cmd: NormalCommand) -> (action: NormalAction)
    requires
        review_wf(*old(s)),
        cmd matches NormalCommand::NthFile(n) ==> n >= 1,
    ensures
        review_model(*final(s)) == normal_step_spec(*old(s), cmd).0,
        action == normal_step_spec(*old(s), cmd).1,
{
    match cmd {
        NormalCommand::Move(step) => normal_move(s, step),
        NormalCommand::Top => normal_top(s),
        NormalCommand::Bottom => normal_bottom(s),
        NormalCommand::QuitOrClearSearch => normal_quit_or_clear(s),
        NormalCommand::NextFile => normal_jumps(s, cmd),
        NormalCommand::PrevFile => normal_jumps(s, cmd),
        NormalCommand::NthFile(n) => normal_nth_file(s, n),
        NormalCommand::Arm(c) => normal_arm(s, c),
        NormalCommand::NextHunk => normal_jumps(s, cmd),
        NormalCommand::PrevHunk => normal_jumps(s, cmd),
        NormalCommand::FoldCurrent => normal_fold(s),
        NormalCommand::UnfoldCurrent => normal_unfold(s),
        NormalCommand::ToggleCollapse => normal_toggle_collapse(s),
        NormalCommand::NextNote => normal_jumps(s, cmd),
        NormalCommand::PrevNote => normal_jumps(s, cmd),
        NormalCommand::ToggleHighlight => normal_toggle_highlight(s),
        NormalCommand::ToggleLineNumbers => normal_toggle_line_numbers(s),
        NormalCommand::ToggleWordDiff => normal_toggle_word_diff(s),
        NormalCommand::ToggleIgnoreWs => normal_toggle_ignore_ws(s),
        NormalCommand::ToggleRail => normal_toggle_rail(s),
        NormalCommand::CycleLayout => normal_cycle_layout(s),
        NormalCommand::CycleThemeMode => normal_cycle_theme_mode(s),
        NormalCommand::CyclePalette => normal_cycle_palette(s),
        NormalCommand::BeginSearch => normal_begin_search(s),
        NormalCommand::BeginFilter => normal_begin_filter(s),
        NormalCommand::BeginNote => NormalAction::BeginNote,
        NormalCommand::OpenEditor => NormalAction::OpenEditor,
        NormalCommand::NextMatch => normal_jumps(s, cmd),
        NormalCommand::PrevMatch => normal_jumps(s, cmd),
        NormalCommand::ToggleHelp => normal_toggle_help(s),
        NormalCommand::Decide(d) => normal_decide(s, d),
        NormalCommand::Nothing => NormalAction::Nothing,
    }
}

/// The view toggles: highlight, line numbers, word diff, ignore-whitespace,
/// rail.
pub open spec fn toggles(m: ReviewModel) -> (bool, bool, bool, bool, bool) {
    (m.highlight_on, m.line_numbers_on, m.word_diff_on, m.ignore_ws, m.show_rail)
}

pub open spec fn is_toggle(cmd: NormalCommand) -> bool {
    cmd is ToggleHighlight || cmd is ToggleLineNumbers || cmd is ToggleWordDiff || cmd is ToggleIgnoreWs
        || cmd is ToggleRail
}

/// Pressing a view toggle twice leaves every toggle as it was.
pub proof fn law_toggle_twice(s1: ReviewState, s2: ReviewState, cmd: NormalCommand)
    requires
        is_toggle(cmd),
        review_model(s2) == normal_step_spec(s1, cmd).0,
    ensures
        toggles(normal_step_spec(s2, cmd).0) == toggles(review_model(s1)),
{
}

/// Three presses of the layout key come back to the layout they started
/// from (auto, once left, is not returned to).
pub proof fn law_layout_cycle_returns(l: LayoutMode)
    requires
        l != LayoutMode::Auto,
    ensures
        layout_cycle(layout_cycle(layout_cycle(l))) == l,
{
}

} // verus!
