//! Review-session state that carries no terminal or diff-model dependency:
//! input modes, search state, status toasts, agent focus / note targets,
//! comments, hunk decisions and the line-editing helper.

use std::time::Instant;

use vstd::prelude::*;
use crate::text::{
    contains_seq, decimal, opt_str_view, owned, split_whitespace, str_contains,
    str_chars, str_to_lowercase, str_trim, string_from_chars, string_views, trim_end_seq,
    trim_end_word, trim_seq, u64_to_string, unicode_lowercase, words,
};

verus! {

#[verifier::external_type_specification]
#[verifier::external_body]
pub struct ExInstant(std::time::Instant);

/// `Instant::now`: the current monotonic time. Nothing is claimed of it.
#[verifier::external_body]
pub(crate) fn instant_now() -> (t: Instant) {
    Instant::now()
}

/// Whole seconds elapsed since `t` (`Instant::elapsed().as_secs()`). The
/// value depends on the clock, so nothing is claimed of it.
#[verifier::external_body]
pub(crate) fn elapsed_secs(t: &Instant) -> (s: u64) {
    t.elapsed().as_secs()
}

/// Which input mode the TUI is in. Determines how keys are routed.
#[derive(Debug, Clone, Copy, PartialEq, Eq, Structural)]
pub enum InputMode {
    /// Normal navigation.
    Normal,
    /// Editing an in-stream `/` content search query.
    Search,
    /// Editing a file-rail path filter.
    Filter,
    /// Composing a note anchored to the cursor row (`c`).
    Note,
}

impl Default for InputMode {
    fn default() -> (m: Self)
        ensures
            m == InputMode::Normal,
    {
        InputMode::Normal
    }
}

/// In-stream content search state.
#[derive(Debug, Clone)]
pub struct Search {
    /// Current query string (also while typing).
    pub query: String,
    /// Sorted stream rows that contain a (case-insensitive) match.
    pub matches: Vec<usize>,
    /// Index into `matches` of the current focus.
    pub current: usize,
    /// True once a search has been finalized (Enter) and is active.
    pub active: bool,
}

impl Default for Search {
    fn default() -> (s: Self)
        ensures
            s.query@ == Seq::<char>::empty(),
            s.matches@ == Seq::<usize>::empty(),
            s.current == 0,
            !s.active,
    {
        Search { query: String::new(), matches: Vec::new(), current: 0, active: false }
    }
}

impl Search {
    /// Reset to the inactive, empty search.
    pub fn clear(&mut self)
        ensures
            final(self).query@ == Seq::<char>::empty(),
            final(self).matches@ == Seq::<usize>::empty(),
            final(self).current == 0,
            !final(self).active,
    {
        self.query = String::new();
        self.matches.clear();
        self.current = 0;
        self.active = false;
    }
}

/// The match index `n`/`N` moves to among `len` matches: the next one,
/// wrapping past the last to the first; or the previous one, wrapping
/// before the first to the last.
pub open spec fn stepped_match(current: nat, len: nat, forward: bool) -> nat {
    if forward {
        (current + 1) % len
    } else if current == 0 {
        (len - 1) as nat
    } else {
        (current - 1) as nat
    }
}

/// The rows of the stream (given by their text; `None` for a row without
/// one) that contain the query, compared in lower case. `None` for a query
/// that is blank.
pub open spec fn search_rows_spec(rows: Seq<Option<Seq<char>>>, query: Seq<char>) -> Option<Seq<usize>> {
    if trim_seq(query).len() == 0 {
        None
    } else {
        Some(matching_rows(rows, unicode_lowercase(query), rows.len()))
    }
}

/// The indices below `n` of the rows whose lower-cased text contains `needle`.
pub open spec fn matching_rows(rows: Seq<Option<Seq<char>>>, needle: Seq<char>, n: nat) -> Seq<usize>
    decreases n,
{
    if n == 0 || n > rows.len() {
        Seq::empty()
    } else {
        let before = matching_rows(rows, needle, (n - 1) as nat);
        match rows[n - 1] {
            Some(t) => if contains_seq(unicode_lowercase(t), needle) {
                before.push((n - 1) as usize)
            } else {
                before
            },
            None => before,
        }
    }
}

impl Search {
    /// Move to the next (or previous) match, wrapping around; the stream
    /// row of the new current match, or `None` when there are no matches.
    pub fn advance(&mut self, forward: bool) -> (row: Option<usize>)
        requires
            forward ==> old(self).current < usize::MAX,
            !forward ==> old(self).current <= old(self).matches@.len(),
        ensures
            final(self).query == old(self).query,
            final(self).matches == old(self).matches,
            final(self).active == old(self).active,
            old(self).matches@.len() == 0 ==> row is None && final(self).current == old(self).current,
            old(self).matches@.len() > 0 ==> final(self).current == stepped_match(
                old(self).current as nat,
                old(self).matches@.len(),
                forward,
            ) && row == Some(final(self).matches@[final(self).current as int]),
    {
        let n = self.matches.len();
        if n == 0 {
            return None;
        }
        self.current = if forward {
            (self.current + 1) % n
        } else if self.current == 0 {
            n - 1
        } else {
            self.current - 1
        };
        Some(self.matches[self.current])
    }
}

/// Stepping to the next match and back again returns to the same match,
/// and so does stepping back and then forward.
pub proof fn law_match_steps_undo_each_other(current: nat, len: nat)
    requires
        current < len,
    ensures
        stepped_match(stepped_match(current, len, true), len, false) == current,
        stepped_match(stepped_match(current, len, false), len, true) == current,
{
    if current + 1 < len {
        assert((current + 1) % len == current + 1) by (nonlinear_arith)
            requires
                current + 1 < len,
                current >= 0,
        ;
    } else {
        assert((current + 1) % len == 0) by (nonlinear_arith)
            requires
                current + 1 == len,
        ;
    }
    if current == 0 {
        assert(((len - 1) + 1) % (len as int) == 0) by (nonlinear_arith)
            requires
                len > 0,
        ;
    } else {
        assert(current % len == current) by (nonlinear_arith)
            requires
                current < len,
                current > 0,
        ;
    }
}

/// Scan the rows of the stream for the query, case-insensitively: the
/// indices of the rows whose text contains it, in order; `None` for a
/// blank query.
pub fn search_rows(rows: &Vec<Option<String>>, query: &str) -> (r: Option<Vec<usize>>)
    ensures
        match r {
            None => search_rows_spec(opt_string_views(rows@), query@) is None,
            Some(m) => search_rows_spec(opt_string_views(rows@), query@) == Some(m@),
        },
{
    if str_trim(query).is_empty() {
        return None;
    }
    let needle = str_to_lowercase(query);
    let ghost rv = opt_string_views(rows@);
    let mut out: Vec<usize> = Vec::new();
    let mut i: usize = 0;
    while i < rows.len()
        invariant
            i <= rows.len(),
            rv == opt_string_views(rows@),
            needle@ == unicode_lowercase(query@),
            out@ == matching_rows(rv, needle@, i as nat),
        decreases rows.len() - i,
    {
        proof {
            assert(rv[(i + 1) - 1] == match rows@[i as int] {
                Some(t) => Some(t@),
                None => None,
            });
        }
        match &rows[i] {
            Some(text) => {
                let lower = str_to_lowercase(text.as_str());
                if str_contains(lower.as_str(), needle.as_str()) {
                    out.push(i);
                }
            },
            None => {},
        }
        i = i + 1;
    }
    Some(out)
}

pub open spec fn opt_string_views(v: Seq<Option<String>>) -> Seq<Option<Seq<char>>> {
    v.map_values(
        |o: Option<String>|
            match o {
                Some(s) => Some(s@),
                None => None,
            },
    )
}

/// Severity of a status-line message: colors it and picks its lifetime.
#[derive(Debug, Clone, Copy, PartialEq, Eq, Structural)]
pub enum ToastKind {
    /// Neutral navigation/toggle feedback.
    Info,
    /// A positive confirmation.
    Success,
    /// Something went wrong.
    Error,
}

impl Default for ToastKind {
    fn default() -> (k: Self)
        ensures
            k == ToastKind::Info,
    {
        ToastKind::Info
    }
}

pub open spec fn ttl_spec(k: ToastKind) -> u64 {
    match k {
        ToastKind::Error => 8,
        ToastKind::Info | ToastKind::Success => 4,
    }
}

impl ToastKind {
    /// How long (in seconds) a toast of this kind stays on screen before the
    /// run loop clears it during idle: errors 8 s, everything else 4 s.
    pub fn ttl_secs(self) -> (s: u64)
        ensures
            s == ttl_spec(self),
    {
        match self {
            ToastKind::Error => 8,
            ToastKind::Info | ToastKind::Success => 4,
        }
    }
}

/// A status-line message with a severity and a timestamp so the run loop
/// can auto-expire it and the view can color it.
#[derive(Debug, Clone)]
pub struct Toast {
    /// The message text.
    pub message: String,
    /// Severity — drives color and expire timeout.
    pub kind: ToastKind,
    /// When the toast was set; `None` = sticky (never auto-expires).
    pub set_at: Option<Instant>,
}

impl Default for Toast {
    fn default() -> (t: Self)
        ensures
            t.message@ == Seq::<char>::empty(),
            t.kind == ToastKind::Info,
            t.set_at.is_none(),
    {
        Toast { message: String::new(), kind: ToastKind::Info, set_at: None }
    }
}

impl Toast {
    /// A sticky (non-expiring) info toast — used for the initial hint.
    pub fn sticky(message: String) -> (t: Self)
        ensures
            t.message == message,
            t.kind == ToastKind::Info,
            t.set_at.is_none(),
    {
        Toast { message, kind: ToastKind::Info, set_at: None }
    }

    /// An info toast stamped now.
    pub fn stamped(message: String) -> (t: Self)
        ensures
            t.message == message,
            t.kind == ToastKind::Info,
            t.set_at.is_some(),
    {
        Toast { message, kind: ToastKind::Info, set_at: Some(instant_now()) }
    }

    /// True if the message contains `needle`.
    pub fn contains(&self, needle: &str) -> (b: bool)
        ensures
            b == contains_seq(self.message@, needle@),
    {
        str_contains(self.message.as_str(), needle)
    }

    /// True when the message is empty.
    pub fn is_empty(&self) -> (b: bool)
        ensures
            b == (self.message@.len() == 0),
    {
        self.message.as_str().is_empty()
    }

    /// Whether this toast has outlived its kind's lifetime once
    /// `elapsed_secs` seconds have passed since it was set. Sticky toasts
    /// never expire.
    pub fn expired_after(&self, elapsed_secs: u64) -> (b: bool)
        ensures
            b == (self.set_at.is_some() && elapsed_secs >= ttl_spec(self.kind)),
    {
        match self.set_at {
            None => false,
            Some(_) => elapsed_secs >= self.kind.ttl_secs(),
        }
    }

    /// True if this toast has outlived its kind's lifetime. Sticky toasts
    /// never do; for stamped ones the answer depends on the clock.
    pub fn expired(&self) -> (b: bool)
        ensures
            self.set_at.is_none() ==> !b,
    {
        match &self.set_at {
            None => false,
            Some(t) => self.expired_after(elapsed_secs(t)),
        }
    }
}

impl From<&str> for Toast {
    fn from(s: &str) -> (t: Self)
        ensures
            t.message@ == s@,
            t.kind == ToastKind::Info,
            t.set_at.is_some(),
    {
        Toast::stamped(owned(s))
    }
}

impl vstd::std_specs::convert::FromSpecImpl<&str> for Toast {
    /// A stamped toast depends on the clock, so no single value describes it.
    open spec fn obeys_from_spec() -> bool {
        false
    }

    open spec fn from_spec(v: &str) -> Self {
        vstd::pervasive::arbitrary()
    }
}

impl From<String> for Toast {
    fn from(s: String) -> (t: Self)
        ensures
            t.message == s,
            t.kind == ToastKind::Info,
            t.set_at.is_some(),
    {
        Toast::stamped(s)
    }
}

impl vstd::std_specs::convert::FromSpecImpl<String> for Toast {
    /// A stamped toast depends on the clock, so no single value describes it.
    open spec fn obeys_from_spec() -> bool {
        false
    }

    open spec fn from_spec(v: String) -> Self {
        vstd::pervasive::arbitrary()
    }
}

/// A request to open a file in an external editor at a line.
#[derive(Debug, Clone, PartialEq, Eq)]
pub struct OpenTarget {
    /// Repo-relative path of the file to open.
    pub path: String,
    /// 1-based line number to jump to.
    pub line: u32,
}

/// `--focus` target: where the TUI scrolls to on startup.
#[derive(Debug, Clone, PartialEq, Eq)]
pub enum FocusTarget {
    /// Scroll to the first hunk of this file.
    File(String),
    /// Scroll to the code line with this new-side source line number.
    FileLine(String, u32),
    /// Scroll to the `n`-th hunk (1-based) within this file.
    FileHunk(String, usize),
}

/// The compact, human-readable form of a focus target: `path`,
/// `path:line` or `path:hN`.
pub open spec fn focus_display_spec(target: FocusTarget) -> Seq<char> {
    match target {
        FocusTarget::File(p) => p@,
        FocusTarget::FileLine(p, l) => p@ + ":"@ + decimal(l as nat),
        FocusTarget::FileHunk(p, h) => p@ + ":h"@ + decimal(h as nat),
    }
}

/// Format a [`FocusTarget`] for status messages.
pub fn focus_display(target: &FocusTarget) -> (s: String)
    ensures
        s@ == focus_display_spec(*target),
{
    match target {
        FocusTarget::File(p) => p.clone(),
        FocusTarget::FileLine(p, l) => {
            let mut out = p.clone();
            out.append(":");
            let n = u64_to_string(*l as u64);
            out.append(n.as_str());
            out
        },
        FocusTarget::FileHunk(p, h) => {
            let mut out = p.clone();
            out.append(":h");
            let n = u64_to_string(*h as u64);
            out.append(n.as_str());
            out
        },
    }
}

/// `--note` target: where an agent annotation attaches.
#[derive(Debug, Clone, PartialEq, Eq)]
pub enum NoteTarget {
    /// Show under the code line with this new-side source line number.
    Line { path: String, line: u32 },
    /// Show under the `n`-th (1-based) hunk header of this file.
    Hunk { path: String, hunk: usize },
    /// Show as a transient banner in the status bar.
    Banner,
}

/// One agent annotation (`--note path:line=text`).
#[derive(Debug, Clone, PartialEq, Eq)]
pub struct Note {
    pub target: NoteTarget,
    pub text: String,
}

/// A comment entry in the session.
#[derive(Debug, Clone, PartialEq, Eq)]
pub struct CommentEntry {
    pub id: String,
    pub file: String,
    pub text: String,
    pub line: Option<u32>,
    pub hunk: Option<usize>,
}

/// Stable identity of a hunk: file index + hunk index within that file.
#[derive(Debug, Clone, Copy, PartialEq, Eq, Hash, Structural)]
pub struct HunkId {
    pub file_idx: usize,
    /// 0-based index within the file's hunk list.
    pub hunk_idx: usize,
}

/// A per-hunk review decision set by the human in `--select` mode.
#[derive(Debug, Clone, Copy, PartialEq, Eq, Hash, Structural)]
pub enum Decision {
    /// Not yet reviewed (the default).
    Undecided,
    Accept,
    Reject,
}

impl Default for Decision {
    fn default() -> (d: Self)
        ensures
            d == Decision::Undecided,
    {
        Decision::Undecided
    }
}

/// `--select` output: the human's per-hunk decisions, grouped for the agent.
/// Hunk keys are `"{display_path}:h{n}"` (1-based).
#[derive(Debug, Clone, PartialEq, Eq)]
pub struct Selections {
    pub accepted: Vec<String>,
    pub rejected: Vec<String>,
    pub undecided: Vec<String>,
}

/// What the readline backward-kill-word gesture (Ctrl-W) leaves of a line:
/// trailing whitespace, then the word, then the whitespace before it go.
pub open spec fn drop_last_word_spec(s: Seq<char>) -> Seq<char> {
    trim_end_seq(trim_end_word(trim_end_seq(s)))
}

/// Remove the trailing whitespace-separated word from `s`, plus any
/// whitespace immediately before it (readline backward-kill-word).
/// Operates on characters, so it is correct for non-ASCII text.
pub fn drop_last_word(s: &mut String)
    ensures
        final(s)@ == drop_last_word_spec(old(s)@),
{
    let mut chars = str_chars(s.as_str());
    let ghost orig = chars@;
    // trailing whitespace
    while chars.len() > 0 && crate::text::char_is_whitespace(chars[chars.len() - 1])
        invariant
            trim_end_seq(orig) == trim_end_seq(chars@),
        decreases chars.len(),
    {
        chars.pop();
    }
    let ghost after_ws = chars@;
    proof {
        assert(trim_end_seq(orig) == after_ws);
    }
    while chars.len() > 0 && !crate::text::char_is_whitespace(chars[chars.len() - 1])
        invariant
            trim_end_word(after_ws) == trim_end_word(chars@),
        decreases chars.len(),
    {
        chars.pop();
    }
    let ghost after_word = chars@;
    while chars.len() > 0 && crate::text::char_is_whitespace(chars[chars.len() - 1])
        invariant
            trim_end_seq(after_word) == trim_end_seq(chars@),
        decreases chars.len(),
    {
        chars.pop();
    }
    *s = string_from_chars(&chars);
}

/// Agent-bridge and run options threaded from the command line into the
/// review. Every field is empty by default, so callers that do not use the
/// agent features take `ReviewOptions::default()`.
#[derive(Debug, Clone)]
pub struct ReviewOptions {
    /// `--focus`: scroll here on startup.
    pub focus: Option<FocusTarget>,
    /// `--note`: agent annotations to render.
    pub notes: Vec<Note>,
    /// `--select`: enable the per-hunk accept/reject gate; emit JSON on quit.
    pub select_mode: bool,
    /// How this review was launched (`"diff"` / `"show"` / `"serve"`);
    /// empty when no session is attached.
    pub session_mode: String,
    /// Short human-readable session title.
    pub session_title: String,
    /// `--watch`: start the filesystem watcher (live reload).
    pub watch: bool,
}

impl Default for ReviewOptions {
    fn default() -> (o: Self)
        ensures
            o.focus is None,
            o.notes@.len() == 0,
            !o.select_mode,
            o.session_mode@.len() == 0,
            o.session_title@.len() == 0,
            !o.watch,
    {
        ReviewOptions {
            focus: None,
            notes: Vec::new(),
            select_mode: false,
            session_mode: String::new(),
            session_title: String::new(),
            watch: false,
        }
    }
}

/// An editor setting that is set and not blank.
pub open spec fn nonblank(v: Option<Seq<char>>) -> Option<Seq<char>> {
    match v {
        Some(s) => if trim_seq(s).len() > 0 {
            Some(s)
        } else {
            None
        },
        None => None,
    }
}

/// The editor command: `$EDITOR`, else `$VISUAL`, else `vi`.
pub open spec fn editor_choice(editor: Option<Seq<char>>, visual: Option<Seq<char>>) -> Seq<char> {
    match nonblank(editor) {
        Some(e) => e,
        None => match nonblank(visual) {
            Some(v) => v,
            None => "vi"@,
        },
    }
}

/// The editor's program and arguments before the file: the words of the
/// editor command (so `code -w` works; no shell, no quoting), then `+<line>`.
pub open spec fn editor_argv_spec(editor: Option<Seq<char>>, visual: Option<Seq<char>>, line: u32) -> Seq<Seq<char>> {
    words(editor_choice(editor, visual)).push("+"@ + decimal(line as nat))
}

fn nonblank_setting(v: Option<&str>) -> (r: Option<&str>)
    ensures
        opt_str_view(r) == nonblank(opt_str_view(v)),
{
    match v {
        Some(s) => if !str_trim(s).is_empty() {
            Some(s)
        } else {
            None
        },
        None => None,
    }
}

/// The command line that opens an editor at `line`, from the values of
/// `$EDITOR` and `$VISUAL`: the program first, then its arguments, then
/// `+<line>` (the caller appends the file).
pub fn editor_argv(editor: Option<&str>, visual: Option<&str>, line: u32) -> (r: Vec<String>)
    ensures
        string_views(r@) == editor_argv_spec(opt_str_view(editor), opt_str_view(visual), line),
{
    let cmd = match nonblank_setting(editor) {
        Some(e) => e,
        None => match nonblank_setting(visual) {
            Some(v) => v,
            None => "vi",
        },
    };
    let mut argv = split_whitespace(cmd);
    let mut arg = owned("+");
    let n = u64_to_string(line as u64);
    arg.append(n.as_str());
    let ghost before = string_views(argv@);
    argv.push(arg);
    proof {
        assert(string_views(argv@) =~= before.push(arg@));
    }
    argv
}

/// The scroll and cursor state of the review stream, in virtual rows
/// (collapsed runs count as one row).
#[derive(Debug, Clone, Copy, PartialEq, Eq, Structural)]
pub struct Viewport {
    /// The top row shown.
    pub scroll_y: usize,
    /// The row under the review cursor.
    pub cursor_v: usize,
    /// How many rows the stream pane shows.
    pub viewport_height: usize,
    /// How many rows the stream has.
    pub virtual_len: usize,
}

pub open spec fn sat_sub(a: int, b: int) -> int {
    if a >= b {
        a - b
    } else {
        0
    }
}

pub open spec fn min_int(a: int, b: int) -> int {
    if a <= b {
        a
    } else {
        b
    }
}

pub open spec fn max_int(a: int, b: int) -> int {
    if a >= b {
        a
    } else {
        b
    }
}

impl Viewport {
    /// The largest top row that still shows the last row.
    pub open spec fn max_scroll_spec(self) -> int {
        sat_sub(self.virtual_len as int, self.viewport_height as int)
    }

    /// The last row (0 for an empty stream).
    pub open spec fn last_row(self) -> int {
        sat_sub(self.virtual_len as int, 1)
    }

    /// The rows the pane shows, at least one.
    pub open spec fn pane_rows(self) -> int {
        max_int(self.viewport_height as int, 1)
    }

    /// The cursor after clamping it into the rows on screen: a cursor above
    /// the top row moves to it, one below the bottom row moves to that row.
    pub open spec fn clamped_cursor(self) -> int {
        let c = if self.cursor_v < self.scroll_y {
            min_int(self.scroll_y as int, self.last_row())
        } else {
            self.cursor_v as int
        };
        let bottom = min_int(
            min_int(self.scroll_y + self.pane_rows() - 1, usize::MAX as int),
            self.last_row(),
        );
        if c > bottom {
            bottom
        } else {
            c
        }
    }

    /// The state after [`Viewport::clamp_cursor_to_view`].
    pub open spec fn clamp_spec(self) -> Viewport {
        Viewport { cursor_v: self.clamped_cursor() as usize, ..self }
    }

    /// The top row after scrolling by `delta`, clamped to `[0, max_scroll]`.
    pub open spec fn scrolled_top(self, delta: i64) -> int {
        if delta >= 0 {
            min_int(
                min_int(self.scroll_y + (delta as usize), usize::MAX as int),
                self.max_scroll_spec(),
            )
        } else {
            sat_sub(self.scroll_y as int, (-delta) as usize as int)
        }
    }

    /// The state after [`Viewport::scroll_by`].
    pub open spec fn scroll_spec(self, delta: i64) -> Viewport {
        (Viewport { scroll_y: self.scrolled_top(delta) as usize, ..self }).clamp_spec()
    }

    /// The top row after placing the cursor on `v`: moved just enough to
    /// show `v`, never past the largest valid top row.
    pub open spec fn top_for_cursor(self, v: usize) -> int {
        min_int(
            if v < self.scroll_y {
                v as int
            } else if v >= self.scroll_y + self.pane_rows() {
                v + 1 - self.pane_rows()
            } else {
                self.scroll_y as int
            },
            self.max_scroll_spec(),
        )
    }

    /// The state after [`Viewport::set_cursor`].
    pub open spec fn set_cursor_spec(self, v: usize) -> Viewport {
        Viewport { cursor_v: v, scroll_y: self.top_for_cursor(v) as usize, ..self }
    }

    /// The cursor after moving it by `delta` within `[0, last row]`.
    pub open spec fn moved_cursor(self, delta: i64) -> int {
        if delta >= 0 {
            min_int(
                min_int(self.cursor_v + (delta as usize), usize::MAX as int),
                self.last_row(),
            )
        } else {
            sat_sub(self.cursor_v as int, (-delta) as usize as int)
        }
    }

    /// Maximum valid top row so the last row remains visible.
    pub fn max_scroll(&self) -> (r: usize)
        ensures
            r == self.max_scroll_spec(),
    {
        if self.virtual_len >= self.viewport_height {
            self.virtual_len - self.viewport_height
        } else {
            0
        }
    }

    /// Keep the cursor inside the viewport after a viewport-only scroll: it
    /// sticks to the edge it left through.
    pub fn clamp_cursor_to_view(&mut self)
        ensures
            *final(self) == old(self).clamp_spec(),
    {
        let last_v: usize = if self.virtual_len >= 1 { self.virtual_len - 1 } else { 0 };
        if self.cursor_v < self.scroll_y {
            self.cursor_v = if self.scroll_y < last_v { self.scroll_y } else { last_v };
        }
        let vh: usize = if self.viewport_height >= 1 { self.viewport_height } else { 1 };
        let reach: usize = if self.scroll_y <= usize::MAX - (vh - 1) {
            self.scroll_y + (vh - 1)
        } else {
            usize::MAX
        };
        let bottom = if reach < last_v { reach } else { last_v };
        if self.cursor_v > bottom {
            self.cursor_v = bottom;
        }
    }

    /// Move the top row by `delta` rows, clamped to `[0, max_scroll]`
    /// (positive scrolls down). A pure scroll does not move the cursor
    /// unless it would leave the screen; then it clamps back into view.
    pub fn scroll_by(&mut self, delta: i64)
        requires
            delta > i64::MIN,
        ensures
            *final(self) == old(self).scroll_spec(delta),
    {
        let next = if delta >= 0 {
            let step = delta as usize;
            let s = if self.scroll_y <= usize::MAX - step { self.scroll_y + step } else { usize::MAX };
            let m = self.max_scroll();
            if s < m { s } else { m }
        } else {
            let step = (-delta) as usize;
            if self.scroll_y >= step { self.scroll_y - step } else { 0 }
        };
        self.scroll_y = next;
        self.clamp_cursor_to_view();
    }

    /// Place the cursor on a row, scrolling the viewport minimally so the row
    /// stays visible (the top row never passes the largest valid one).
    pub fn set_cursor(&mut self, v: usize)
        requires
            old(self).scroll_y + old(self).pane_rows() <= usize::MAX,
        ensures
            *final(self) == old(self).set_cursor_spec(v),
    {
        let vh: usize = if self.viewport_height >= 1 { self.viewport_height } else { 1 };
        self.cursor_v = v;
        if self.cursor_v < self.scroll_y {
            self.scroll_y = self.cursor_v;
        } else if self.cursor_v >= self.scroll_y + vh {
            self.scroll_y = self.cursor_v - (vh - 1);
        }
        let m = self.max_scroll();
        if m < self.scroll_y {
            self.scroll_y = m;
        }
    }

    /// Move the cursor by `delta` rows within `[0, last row]`; the viewport
    /// follows only when the cursor would leave it.
    pub fn move_cursor(&mut self, delta: i64)
        requires
            delta > i64::MIN,
            old(self).scroll_y + old(self).pane_rows() <= usize::MAX,
        ensures
            *final(self) == old(self).set_cursor_spec(old(self).moved_cursor(delta) as usize),
    {
        let last_v: usize = if self.virtual_len >= 1 { self.virtual_len - 1 } else { 0 };
        let next = if delta >= 0 {
            let step = delta as usize;
            let c = if self.cursor_v <= usize::MAX - step { self.cursor_v + step } else { usize::MAX };
            if c < last_v { c } else { last_v }
        } else {
            let step = (-delta) as usize;
            if self.cursor_v >= step { self.cursor_v - step } else { 0 }
        };
        self.set_cursor(next);
    }
}

/// Whether the cursor row is on screen.
pub open spec fn cursor_visible(vp: Viewport) -> bool {
    vp.scroll_y <= vp.cursor_v < vp.scroll_y + vp.pane_rows()
}

/// Placing the cursor on any row of the stream leaves it on screen, with
/// the top row within its valid range.
pub proof fn law_set_cursor_keeps_it_visible(vp: Viewport, v: usize)
    requires
        v < vp.virtual_len,
    ensures
        cursor_visible(vp.set_cursor_spec(v)),
        vp.set_cursor_spec(v).scroll_y <= vp.set_cursor_spec(v).max_scroll_spec(),
{
}

/// After a scroll the cursor is on screen and the top row is within its
/// valid range, for a non-empty stream and a pane with rows, when the top
/// row was valid before.
pub proof fn law_scroll_keeps_cursor_in_view(vp: Viewport, delta: i64)
    requires
        delta > i64::MIN,
        vp.virtual_len > 0,
        vp.viewport_height > 0,
        vp.scroll_y <= vp.max_scroll_spec(),
    ensures
        cursor_visible(vp.scroll_spec(delta)),
        vp.scroll_spec(delta).cursor_v < vp.virtual_len,
        vp.scroll_spec(delta).scroll_y <= vp.scroll_spec(delta).max_scroll_spec(),
{
}

/// Clamping leaves a cursor that is already on screen where it is.
pub proof fn law_clamp_keeps_visible_cursor(vp: Viewport)
    requires
        cursor_visible(vp),
        vp.cursor_v < vp.virtual_len,
    ensures
        vp.clamp_spec() == vp,
{
}

} // verus!
