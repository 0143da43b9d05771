//! Opening a review session and keeping its place: the session's starting
//! state and status hint, the `--focus` target resolved to a row, running
//! a `/` search over the rows of the stream, the rule that a hunk holds at
//! most one decision, and a hot reload onto a freshly parsed review.

use vstd::prelude::*;
use crate::app::{
    focus_display, focus_display_spec, opt_string_views, search_rows, search_rows_spec, FocusTarget,
    InputMode, NoteTarget, Search, ToastKind, Viewport,
};
use crate::normal::{current_path, min_usize, set_decision, jump_spec, jump_to_row, lemma_jump_keeps, match_message, review_model, LayoutMode, ReviewModel, ReviewState};
use crate::reload::{carry_over, first_with_path, new_files_view, remapped_decisions, remapped_folds};
use crate::session::{find_path, lemma_path_index_bound, note_row_spec, note_stream_row, path_index, FileRows};
use crate::text::{debug_str, decimal, owned, str_debug, string_views, u64_to_string};
use crate::theme::{Palette, ThemeMode};

verus! {

/// The sticky hint a new session shows: `empty diff`, or the file count and
/// the main keys.
pub open spec fn startup_message(files: nat) -> Seq<char> {
    if files == 0 {
        "empty diff"@
    } else {
        decimal(files)
            + " file(s) — j/k scroll · ]h/[h hunk · zc/zo fold · zx context · / search · f filter · H highlight · q quit"@
    }
}

/// A new session on the given rows: cursor and view at the top of a
/// 24-row pane, the first file selected, highlighting, line numbers, word
/// diff, the rail and context collapse on, whitespace shown, unified
/// layout, the Flexoki palette in the given mode, no search, filter,
/// decisions, folds or jumps, and the startup hint.
pub open spec fn new_review_spec(
    row_files: Seq<Option<usize>>,
    file_starts: Seq<usize>,
    paths: Seq<Seq<char>>,
    hunk_rows: Seq<(usize, crate::app::HunkId)>,
    note_rows: Seq<usize>,
    theme_mode: ThemeMode,
    background_light: bool,
) -> ReviewModel {
    ReviewModel {
        viewport: Viewport { scroll_y: 0, cursor_v: 0, viewport_height: 24, virtual_len: row_files.len() as usize },
        row_files,
        file_starts,
        paths,
        hunk_rows,
        note_rows,
        last_hunk_jump: None,
        last_note_jump: None,
        folded: Seq::empty(),
        collapse_on: true,
        selected_file: 0,
        search: (Seq::empty(), Seq::empty(), 0, false),
        path_filter: Seq::empty(),
        highlight_on: true,
        line_numbers_on: true,
        word_diff_on: true,
        ignore_ws: false,
        show_rail: true,
        layout: LayoutMode::Unified,
        theme_mode,
        palette: Palette::Flexoki,
        background_light,
        decisions: Seq::empty(),
        select_mode: false,
        show_help: false,
        should_quit: false,
        mode: InputMode::Normal,
        status: Some((ToastKind::Info, startup_message(paths.len()))),
    }
}

/// Open a session on the stream's rows (see [`new_review_spec`]); the
/// theme mode is the configured one ([`ThemeMode::default`] is light).
pub fn new_review(
    row_files: Vec<Option<usize>>,
    file_starts: Vec<usize>,
    paths: Vec<String>,
    hunk_rows: Vec<(usize, crate::app::HunkId)>,
    note_rows: Vec<usize>,
    theme_mode: ThemeMode,
    background_light: bool,
) -> (r: ReviewState)
    ensures
        review_model(r) == new_review_spec(
            row_files@,
            file_starts@,
            string_views(paths@),
            hunk_rows@,
            note_rows@,
            theme_mode,
            background_light,
        ),
{
    let n = paths.len();
    let msg = if n == 0 {
        owned("empty diff")
    } else {
        let mut m = u64_to_string(n as u64);
        m.append(" file(s) — j/k scroll · ]h/[h hunk · zc/zo fold · zx context · / search · f filter · H highlight · q quit");
        m
    };
    let vlen = row_files.len();
    ReviewState {
        viewport: Viewport { scroll_y: 0, cursor_v: 0, viewport_height: 24, virtual_len: vlen },
        row_files,
        file_starts,
        paths,
        hunk_rows,
        note_rows,
        last_hunk_jump: None,
        last_note_jump: None,
        folded: Vec::new(),
        collapse_on: true,
        selected_file: 0,
        search: Search { query: String::new(), matches: Vec::new(), current: 0, active: false },
        path_filter: String::new(),
        highlight_on: true,
        line_numbers_on: true,
        word_diff_on: true,
        ignore_ws: false,
        show_rail: true,
        layout: LayoutMode::Unified,
        theme_mode,
        palette: Palette::Flexoki,
        background_light,
        decisions: Vec::new(),
        select_mode: false,
        show_help: false,
        should_quit: false,
        mode: InputMode::Normal,
        status: Some((ToastKind::Info, msg)),
    }
}

/// The row a `--focus` target names: a file's header row, the row of a
/// file's new-side line, or the header of a file's (1-based) hunk; `None`
/// when the review has no such file, line or hunk.
pub open spec fn focus_row_spec(files: Seq<FileRows>, starts: Seq<usize>, t: FocusTarget) -> Option<usize> {
    match t {
        FocusTarget::File(p) => match path_index(files, p@) {
            Some(i) => Some(starts[i as int]),
            None => None,
        },
        FocusTarget::FileLine(p, l) => note_row_spec(files, NoteTarget::Line { path: p, line: l }),
        FocusTarget::FileHunk(p, h) => note_row_spec(files, NoteTarget::Hunk { path: p, hunk: h }),
    }
}

/// Resolve a `--focus` target to its row; `starts` holds each file's
/// header row.
pub fn focus_row(files: &Vec<FileRows>, starts: &Vec<usize>, target: &FocusTarget) -> (r: Option<usize>)
    requires
        starts@.len() == files@.len(),
    ensures
        r == focus_row_spec(files@, starts@, *target),
{
    match target {
        FocusTarget::File(p) => {
            match find_path(files, p.as_str()) {
                Some(i) => {
                    proof {
                        lemma_path_index_bound(files@, p@);
                    }
                    Some(starts[i])
                },
                None => None,
            }
        },
        FocusTarget::FileLine(p, l) => note_stream_row(files, &NoteTarget::Line { path: p.clone(), line: *l }),
        FocusTarget::FileHunk(p, h) => note_stream_row(files, &NoteTarget::Hunk { path: p.clone(), hunk: *h }),
    }
}

/// Placing the view on a focus target: a found row is jumped to, with
/// `📍 focus: <target>`; else the view stays and the status says the target
/// was not found.
pub open spec fn apply_focus_spec(m: ReviewModel, row: Option<usize>, t: FocusTarget) -> ReviewModel {
    match row {
        Some(r) => ReviewModel {
            status: Some((ToastKind::Info, "📍 focus: "@ + focus_display_spec(t))),
            ..jump_spec(m, r, m.selected_file)
        },
        None => ReviewModel {
            status: Some((ToastKind::Error, "focus not found: "@ + focus_display_spec(t))),
            ..m
        },
    }
}

/// Place the view on a focus target resolved by [`focus_row`].
pub fn apply_focus(s: &mut ReviewState, row: Option<usize>, target: &FocusTarget)
    ensures
        review_model(*final(s)) == apply_focus_spec(review_model(*old(s)), row, *target),
{
    let shown = focus_display(target);
    match row {
        Some(r) => {
            let mut msg = owned("📍 focus: ");
            msg.append(shown.as_str());
            let sel = s.selected_file;
            jump_to_row(s, r, sel);
            let ghost mj = review_model(*s);
            s.status = Some((ToastKind::Info, msg));
            assert(review_model(*s) == (ReviewModel { status: Some((ToastKind::Info, msg@)), ..mj }));
        },
        None => {
            let mut msg = owned("focus not found: ");
            msg.append(shown.as_str());
            s.status = Some((ToastKind::Error, msg));
        },
    }
}

/// Running the `/` search over the stream's rows (their text; `None` for
/// a row without any): a blank query clears the search with `search empty`;
/// otherwise the matching rows become the matches, the first is current and
/// jumped to (`match 1/n: "query"`), or the status says there are none.
pub open spec fn finalize_search_spec(m: ReviewModel, rows: Seq<Option<Seq<char>>>) -> ReviewModel {
    let q = m.search.0;
    match search_rows_spec(rows, q) {
        None => ReviewModel {
            search: (Seq::empty(), Seq::empty(), 0, false),
            status: Some((ToastKind::Error, "search empty"@)),
            ..m
        },
        Some(ms) => if ms.len() == 0 {
            ReviewModel {
                search: (q, ms, 0, true),
                status: Some((ToastKind::Error, "no matches for "@ + debug_str(q))),
                ..m
            }
        } else {
            ReviewModel {
                search: (q, ms, 0, true),
                status: Some((ToastKind::Info, match_message(q, 0, ms.len()))),
                ..jump_spec(m, ms[0], m.selected_file)
            }
        },
    }
}

fn search_found(s: &mut ReviewState, ms: Vec<usize>)
    requires
        ms@.len() > 0,
    ensures
        review_model(*final(s)) == (ReviewModel {
            search: (review_model(*old(s)).search.0, ms@, 0, true),
            status: Some(
                (ToastKind::Info, match_message(review_model(*old(s)).search.0, 0, ms@.len())),
            ),
            ..jump_spec(review_model(*old(s)), ms@[0], old(s).selected_file)
        }),
{
    let ghost m0 = review_model(*s);
    let n = ms.len();
    let mut msg = owned("match 1/");
    msg.append(u64_to_string(n as u64).as_str());
    msg.append(": ");
    msg.append(str_debug(s.search.query.as_str()).as_str());
    assert(msg@ == match_message(m0.search.0, 0, n as nat)) by {
        assert(decimal(1) == seq!['1']);
        reveal_strlit("match 1/");
        reveal_strlit("match ");
        reveal_strlit("/");
    }
    let row = ms[0];
    let sel = s.selected_file;
    proof {
        lemma_jump_keeps(m0, row, sel);
    }
    jump_to_row(s, row, sel);
    s.search.matches = ms;
    s.search.current = 0;
    s.search.active = true;
    s.status = Some((ToastKind::Info, msg));
}

fn search_none(s: &mut ReviewState, ms: Vec<usize>)
    ensures
        review_model(*final(s)) == (ReviewModel {
            search: (review_model(*old(s)).search.0, ms@, 0, true),
            status: Some((ToastKind::Error, "no matches for "@ + debug_str(review_model(*old(s)).search.0))),
            ..review_model(*old(s))
        }),
{
    let mut msg = owned("no matches for ");
    msg.append(str_debug(s.search.query.as_str()).as_str());
    s.search.matches = ms;
    s.search.current = 0;
    s.search.active = true;
    s.status = Some((ToastKind::Error, msg));
}

/// Run the search typed at the `/` prompt over the stream's rows.
pub fn finalize_search(s: &mut ReviewState, rows: &Vec<Option<String>>)
    ensures
        review_model(*final(s)) == finalize_search_spec(review_model(*old(s)), opt_string_views(rows@)),
{
    match search_rows(rows, s.search.query.as_str()) {
        None => {
            s.search.clear();
            s.status = Some((ToastKind::Error, owned("search empty")));
        },
        Some(ms) => {
            if ms.len() == 0 {
                search_none(s, ms);
            } else {
                search_found(s, ms);
            }
        },
    }
}

/// Whether no hunk has two decisions.
pub open spec fn decided_once(ds: Seq<(crate::app::HunkId, crate::app::Decision)>) -> bool {
    forall|i: int, j: int| 0 <= i < j < ds.len() ==> (#[trigger] ds[i]).0 != (#[trigger] ds[j]).0
}

/// Ruling on a hunk keeps every hunk decided at most once, and the hunk
/// ends up with the new ruling.
pub proof fn law_one_decision_per_hunk(
    ds: Seq<(crate::app::HunkId, crate::app::Decision)>,
    id: crate::app::HunkId,
    d: crate::app::Decision,
)
    requires
        decided_once(ds),
    ensures
        decided_once(set_decision(ds, id, d)),
        exists|k: int| 0 <= k < set_decision(ds, id, d).len() && (#[trigger] set_decision(ds, id, d)[k]) == (id, d),
{
    reveal(set_decision);
    let r = set_decision(ds, id, d);
    if exists|i: int| 0 <= i < ds.len() && ds[i].0 == id {
        let i = choose|i: int| 0 <= i < ds.len() && ds[i].0 == id;
        assert(r[i] == (id, d));
        assert forall|a: int, b: int| 0 <= a < b < r.len() implies (#[trigger] r[a]).0 != (#[trigger] r[b]).0 by {
            assert(r[a].0 == ds[a].0);
            assert(r[b].0 == ds[b].0);
        }
    } else {
        assert(r[ds.len() as int] == (id, d));
        assert forall|a: int, b: int| 0 <= a < b < r.len() implies (#[trigger] r[a]).0 != (#[trigger] r[b]).0 by {
            if b == ds.len() {
                assert(r[a] == ds[a]);
            } else {
                assert(r[a] == ds[a]);
                assert(r[b] == ds[b]);
            }
        }
    }
}

/// A freshly parsed review, as the rows of its stream: the file owning each
/// row, each file's header row, each file's display path and hunk count,
/// each hunk header's row and identity, the rows carrying notes, and each
/// row's text (for the search).
pub struct Reparsed {
    pub row_files: Vec<Option<usize>>,
    pub file_starts: Vec<usize>,
    pub files: Vec<(String, usize)>,
    pub hunk_rows: Vec<(usize, crate::app::HunkId)>,
    pub note_rows: Vec<usize>,
    pub row_texts: Vec<Option<String>>,
}

pub open spec fn reparsed_paths(r: Reparsed) -> Seq<Seq<char>> {
    new_files_view(r.files@).map_values(|f: (Seq<char>, usize)| f.0)
}

/// The session on the new review's rows, keeping the user's place: the
/// selection follows its path (else the first file), decisions and folds
/// follow their files, the view and cursor stay where they were as far as
/// the new rows reach, and the jump anchors are dropped.
#[verifier::opaque]
pub open spec fn swapped_spec(m: ReviewModel, r: Reparsed) -> ReviewModel {
    let np = reparsed_paths(r);
    let vp = Viewport { virtual_len: r.row_files@.len() as usize, ..m.viewport };
    ReviewModel {
        viewport: Viewport {
            scroll_y: min_usize(m.viewport.scroll_y as int, vp.max_scroll_spec()) as usize,
            cursor_v: min_usize(m.viewport.cursor_v as int, vp.last_row()) as usize,
            ..vp
        },
        row_files: r.row_files@,
        file_starts: r.file_starts@,
        paths: np,
        hunk_rows: r.hunk_rows@,
        note_rows: r.note_rows@,
        last_hunk_jump: None,
        last_note_jump: None,
        selected_file: match first_with_path(np, current_path(m), 0) {
            Some(i) => i as usize,
            None => 0usize,
        },
        decisions: remapped_decisions(m.paths, new_files_view(r.files@), m.decisions),
        folded: remapped_folds(m.paths, np, m.folded),
        ..m
    }
}

/// An active search run again over the new rows, quietly: a blank query
/// just goes inactive; else the matches are found afresh and the first is
/// jumped to.
pub open spec fn rerun_spec(m: ReviewModel, rows: Seq<Option<Seq<char>>>) -> ReviewModel {
    if !m.search.3 {
        m
    } else {
        match search_rows_spec(rows, m.search.0) {
            None => ReviewModel { search: (m.search.0, Seq::empty(), 0, false), ..m },
            Some(ms) => if ms.len() == 0 {
                ReviewModel { search: (m.search.0, ms, 0, true), ..m }
            } else {
                ReviewModel { search: (m.search.0, ms, 0, true), ..jump_spec(m, ms[0], m.selected_file) }
            },
        }
    }
}

/// A hot reload: blank diff text keeps the review (`reloaded (empty
/// diff)`); a parse failure keeps it too and reports the error; a new
/// review takes over with the user's place carried, the active search run
/// again, and `reloaded (N files)`.
pub open spec fn reload_spec(m: ReviewModel, blank: bool, parsed: Result<Reparsed, String>) -> ReviewModel {
    if blank {
        ReviewModel { status: Some((ToastKind::Info, "reloaded (empty diff)"@)), ..m }
    } else {
        match parsed {
            Err(e) => ReviewModel { status: Some((ToastKind::Error, "reload failed: "@ + e@)), ..m },
            Ok(r) => ReviewModel {
                status: Some(
                    (ToastKind::Success, "reloaded ("@ + decimal(r.files@.len()) + " files)"@),
                ),
                ..rerun_spec(swapped_spec(m, r), opt_string_views(r.row_texts@))
            },
        }
    }
}

fn paths_of(files: &Vec<(String, usize)>) -> (r: Vec<String>)
    ensures
        string_views(r@) == new_files_view(files@).map_values(|f: (Seq<char>, usize)| f.0),
{
    let ghost want = new_files_view(files@).map_values(|f: (Seq<char>, usize)| f.0);
    let mut out: Vec<String> = Vec::new();
    let mut i: usize = 0;
    while i < files.len()
        invariant
            i <= files.len(),
            want == new_files_view(files@).map_values(|f: (Seq<char>, usize)| f.0),
            string_views(out@) == want.subrange(0, i as int),
        decreases files.len() - i,
    {
        let ghost before = string_views(out@);
        out.push(files[i].0.clone());
        proof {
            assert(string_views(out@) =~= before.push(files@[i as int].0@));
            assert(want.subrange(0, i + 1) =~= want.subrange(0, i as int).push(want[i as int]));
        }
        i = i + 1;
    }
    proof {
        assert(want.subrange(0, want.len() as int) =~= want);
    }
    out
}

#[verifier::spinoff_prover]
#[verifier::rlimit(40)]
fn swap_in(s: &mut ReviewState, r: Reparsed) -> (texts: Vec<Option<String>>)
    ensures
        review_model(*final(s)) == swapped_spec(review_model(*old(s)), r),
        texts@ == r.row_texts@,
{
    let ghost m0 = review_model(*s);
    let cur = if s.selected_file < s.paths.len() { owned(s.paths[s.selected_file].as_str()) } else { String::new() };
    assert(cur@ == current_path(m0));
    let carried = carry_over(&s.paths, cur.as_str(), &r.files, &s.decisions, &s.folded);
    let paths = paths_of(&r.files);
    let n = r.row_files.len();
    let top = s.viewport.scroll_y;
    let cursor = s.viewport.cursor_v;
    s.viewport.virtual_len = n;
    let max = s.viewport.max_scroll();
    let last: usize = if n >= 1 { n - 1 } else { 0 };
    s.viewport.scroll_y = if top < max { top } else { max };
    s.viewport.cursor_v = if cursor < last { cursor } else { last };
    s.row_files = r.row_files;
    s.file_starts = r.file_starts;
    s.paths = paths;
    s.hunk_rows = r.hunk_rows;
    s.note_rows = r.note_rows;
    s.last_hunk_jump = None;
    s.last_note_jump = None;
    s.selected_file = carried.selected;
    s.decisions = carried.decisions;
    s.folded = carried.folded;
    assert(review_model(*s) == swapped_spec(m0, r)) by {
        reveal(swapped_spec);
    }
    r.row_texts
}

fn rerun_found(s: &mut ReviewState, ms: Vec<usize>)
    requires
        ms@.len() > 0,
    ensures
        review_model(*final(s)) == (ReviewModel {
            search: (review_model(*old(s)).search.0, ms@, 0, true),
            ..jump_spec(review_model(*old(s)), ms@[0], old(s).selected_file)
        }),
{
    let ghost m0 = review_model(*s);
    let row = ms[0];
    let sel = s.selected_file;
    proof {
        lemma_jump_keeps(m0, row, sel);
    }
    jump_to_row(s, row, sel);
    s.search.matches = ms;
    s.search.current = 0;
    s.search.active = true;
}

fn rerun_set(s: &mut ReviewState, ms: Vec<usize>, active: bool)
    ensures
        review_model(*final(s)) == (ReviewModel {
            search: (review_model(*old(s)).search.0, ms@, 0, active),
            ..review_model(*old(s))
        }),
{
    s.search.matches = ms;
    s.search.current = 0;
    s.search.active = active;
}

fn rerun_search(s: &mut ReviewState, rows: &Vec<Option<String>>)
    ensures
        review_model(*final(s)) == rerun_spec(review_model(*old(s)), opt_string_views(rows@)),
{
    if !s.search.active {
        return;
    }
    match search_rows(rows, s.search.query.as_str()) {
        None => rerun_set(s, Vec::new(), false),
        Some(ms) => {
            if ms.len() == 0 {
                rerun_set(s, ms, true);
            } else {
                rerun_found(s, ms);
            }
        },
    }
}

fn swap_and_rerun(s: &mut ReviewState, r: Reparsed)
    ensures
        review_model(*final(s)) == rerun_spec(swapped_spec(review_model(*old(s)), r), opt_string_views(r.row_texts@)),
{
    let texts = swap_in(s, r);
    rerun_search(s, &texts);
}

fn reload_parsed(s: &mut ReviewState, r: Reparsed)
    ensures
        review_model(*final(s)) == (ReviewModel {
            status: Some((ToastKind::Success, "reloaded ("@ + decimal(r.files@.len()) + " files)"@)),
            ..rerun_spec(swapped_spec(review_model(*old(s)), r), opt_string_views(r.row_texts@))
        }),
{
    let count = r.files.len();
    let mut msg = owned("reloaded (");
    msg.append(u64_to_string(count as u64).as_str());
    msg.append(" files)");
    swap_and_rerun(s, r);
    let ghost mr = review_model(*s);
    s.status = Some((ToastKind::Success, msg));
    assert(review_model(*s) == (ReviewModel { status: Some((ToastKind::Success, msg@)), ..mr }));
}

/// Hot-reload the session (see [`reload_spec`]): `blank` is whether the
/// new diff text is blank, `parsed` what parsing it gave.
pub fn reload_review(s: &mut ReviewState, blank: bool, parsed: Result<Reparsed, String>)
    ensures
        review_model(*final(s)) == reload_spec(review_model(*old(s)), blank, parsed),
{
    if blank {
        s.status = Some((ToastKind::Info, owned("reloaded (empty diff)")));
        return;
    }
    match parsed {
        Err(e) => {
            let mut msg = owned("reload failed: ");
            msg.append(e.as_str());
            s.status = Some((ToastKind::Error, msg));
        },
        Ok(r) => reload_parsed(s, r),
    }
}

} // verus!
