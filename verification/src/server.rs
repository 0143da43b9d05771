//! Messages of the serve-mode protocol (`next-hunk serve` and the `push` /
//! `decision` / `get` clients), and how an agent comment becomes a note and a
//! focus target in the running review.

use vstd::prelude::*;
use crate::app::{CommentEntry, FocusTarget, Note, NoteTarget, Selections};
use crate::marks::HighlightMark;
use crate::text::{decimal, has_prefix, owned, str_chars, str_eq, string_views, u64_to_string};

verus! {

/// Client → server message.
#[derive(Debug, Clone, PartialEq, Eq)]
#[allow(inconsistent_fields)]
pub enum ServerCommand {
    /// `next-hunk push`: append notes, replace the focus target.
    Push { focus: Option<FocusTarget>, notes: Vec<Note> },
    /// `next-hunk decision`: request the human's accumulated decisions.
    Decision,
    /// `next-hunk get` / `next-hunk list`: request session metadata.
    Info,
    /// Move the focus to a target (same path as `--focus`).
    Navigate { target: FocusTarget },
    /// `comment add`: a comment on a file, its line or its hunk, rendered
    /// at once as a note; optionally focused.
    CommentAdd { file: String, text: String, line: Option<u32>, hunk: Option<usize>, focus: bool },
    /// `comment list`.
    CommentList,
    /// `comment rm <id>`.
    CommentRm { id: String },
    /// Render the comments not yet rendered.
    CommentApply,
    /// Apply a batch of comments at once, all or none.
    CommentApplyBatch { comments: Vec<BatchComment>, focus: bool },
    /// `comment clear [--file F] [--all]`.
    CommentClear { file: Option<String>, all: bool },
    /// `highlight add`: an attention mark on a line's character range.
    HighlightAdd { file: String, line: u32, start: usize, end: usize, tone: String, focus: bool },
    /// `highlight list`.
    HighlightList,
    /// `highlight clear [--file F]`.
    HighlightClear { file: Option<String> },
}

/// One comment of a batch.
#[derive(Debug, Clone, PartialEq, Eq)]
pub struct BatchComment {
    pub file: String,
    pub text: String,
    pub line: Option<u32>,
    pub hunk: Option<usize>,
}

/// Server → client reply.
#[derive(Debug, Clone, PartialEq, Eq)]
pub enum ServerReply {
    /// Command applied successfully (`Ok` on the wire).
    Ack,
    /// Response to `Decision`: the current per-hunk decisions.
    Decisions(Selections),
    /// Response to `Info`: session metadata.
    Info {
        /// Repo root path (as reported by the server).
        repo_path: String,
        /// Number of files in the current review.
        file_count: usize,
    },
    /// Server-side error (e.g. malformed command).
    Error(String),
    /// Response to `CommentAdd`: the new comment's id.
    CommentAdded { id: String },
    /// Response to `CommentList`.
    CommentList { comments: Vec<CommentEntry> },
    /// Response to `CommentClear`: how many comments went.
    CommentCleared { removed: usize },
    /// Response to `HighlightList`.
    HighlightList { marks: Vec<HighlightMark> },
    /// Response to `HighlightClear`: how many marks went.
    HighlightCleared { removed: usize },
}

/// The sending half of a standard-library channel, carried through as is.
#[verifier::external_type_specification]
#[verifier::external_body]
#[verifier::reject_recursive_types(T)]
pub struct ExSender<T>(std::sync::mpsc::Sender<T>);

/// A request from a CLI client, paired with the channel the main loop uses
/// to send back the [`ServerReply`].
#[derive(Debug)]
pub struct ServerRequest {
    pub command: ServerCommand,
    pub reply: std::sync::mpsc::Sender<ServerReply>,
}

/// Where a comment's note attaches: its hunk, else its line, else the banner.
pub open spec fn comment_target(entry: CommentEntry) -> NoteTarget {
    match entry.hunk {
        Some(hunk) => NoteTarget::Hunk { path: entry.file, hunk },
        None => match entry.line {
            Some(line) => NoteTarget::Line { path: entry.file, line },
            None => NoteTarget::Banner,
        },
    }
}

/// Convert a comment entry into the note that renders it in the stream:
/// the text carries the comment's id (for `comment rm` correlation) and its
/// body, as `id: body`.
pub fn comment_note(entry: &CommentEntry) -> (n: Note)
    ensures
        n.target == comment_target(*entry),
        n.text@ == entry.id@ + ": "@ + entry.text@,
{
    let target = match entry.hunk {
        Some(hunk) => NoteTarget::Hunk { path: entry.file.clone(), hunk },
        None => match entry.line {
            Some(line) => NoteTarget::Line { path: entry.file.clone(), line },
            None => NoteTarget::Banner,
        },
    };
    let mut text = entry.id.clone();
    text.append(": ");
    text.append(entry.text.as_str());
    Note { target, text }
}

/// The `--focus` target for a comment: its file, refined by hunk (first) or
/// line when the entry carries one.
pub fn comment_focus_target(entry: &CommentEntry) -> (t: FocusTarget)
    ensures
        t == match entry.hunk {
            Some(hunk) => FocusTarget::FileHunk(entry.file, hunk),
            None => match entry.line {
                Some(line) => FocusTarget::FileLine(entry.file, line),
                None => FocusTarget::File(entry.file),
            },
        },
{
    match entry.hunk {
        Some(hunk) => FocusTarget::FileHunk(entry.file.clone(), hunk),
        None => match entry.line {
            Some(line) => FocusTarget::FileLine(entry.file.clone(), line),
            None => FocusTarget::File(entry.file.clone()),
        },
    }
}


/// Whether `s` starts with `prefix`.
pub(crate) fn starts_with(s: &str, prefix: &str) -> (b: bool)
    ensures
        b == has_prefix(s@, prefix@),
{
    let a = str_chars(s);
    let p = str_chars(prefix);
    if p.len() > a.len() {
        return false;
    }
    let mut k: usize = 0;
    while k < p.len()
        invariant
            k <= p.len() <= a.len(),
            a@ == s@,
            p@ == prefix@,
            forall|j: int| 0 <= j < k ==> a@[j] == p@[j],
        decreases p.len() - k,
    {
        if a[k] != p[k] {
            proof {
                assert(s@.subrange(0, prefix@.len() as int)[k as int] != prefix@[k as int]);
            }
            return false;
        }
        k = k + 1;
    }
    proof {
        assert(s@.subrange(0, prefix@.len() as int) =~= prefix@);
    }
    true
}

/// Whether `comment clear` takes a comment: with `--file`, only that file's;
/// agent comments always, human notes (`user:` ids) only with `--all`.
pub open spec fn comment_in_scope(c: CommentEntry, file: Option<Seq<char>>, all: bool) -> bool {
    (match file {
        Some(f) => c.file@ == f,
        None => true,
    }) && (all || !has_prefix(c.id@, "user:"@))
}

/// The comments `comment clear` keeps.
pub open spec fn kept_comments(cs: Seq<CommentEntry>, file: Option<Seq<char>>, all: bool) -> Seq<
    CommentEntry,
>
    decreases cs.len(),
{
    if cs.len() == 0 {
        Seq::empty()
    } else {
        let before = kept_comments(cs.drop_last(), file, all);
        if comment_in_scope(cs.last(), file, all) {
            before
        } else {
            before.push(cs.last())
        }
    }
}

/// The ids `comment clear` removes, in order.
pub open spec fn cleared_ids(cs: Seq<CommentEntry>, file: Option<Seq<char>>, all: bool) -> Seq<
    Seq<char>,
>
    decreases cs.len(),
{
    if cs.len() == 0 {
        Seq::empty()
    } else {
        let before = cleared_ids(cs.drop_last(), file, all);
        if comment_in_scope(cs.last(), file, all) {
            before.push(cs.last().id@)
        } else {
            before
        }
    }
}

/// A copy of a comment entry.
pub(crate) fn copy_comment(c: &CommentEntry) -> (r: CommentEntry)
    ensures
        r == *c,
{
    CommentEntry {
        id: c.id.clone(),
        file: c.file.clone(),
        text: c.text.clone(),
        line: c.line,
        hunk: c.hunk,
    }
}

pub open spec fn opt_view(o: Option<&str>) -> Option<Seq<char>> {
    match o {
        Some(s) => Some(s@),
        None => None,
    }
}

/// `comment clear`: remove the comments in scope, keeping the others in
/// order; the removed ids, in order (none: nothing matched).
pub fn comment_clear(comments: &mut Vec<CommentEntry>, file: Option<&str>, all: bool) -> (removed: Vec<
    String,
>)
    ensures
        final(comments)@ == kept_comments(old(comments)@, opt_view(file), all),
        string_views(removed@) == cleared_ids(old(comments)@, opt_view(file), all),
{
    let ghost fv = opt_view(file);
    let mut kept: Vec<CommentEntry> = Vec::new();
    let mut removed: Vec<String> = Vec::new();
    let mut i: usize = 0;
    while i < comments.len()
        invariant
            i <= comments.len(),
            fv == opt_view(file),
            kept@ == kept_comments(comments@.subrange(0, i as int), fv, all),
            string_views(removed@) == cleared_ids(comments@.subrange(0, i as int), fv, all),
        decreases comments.len() - i,
    {
        let c = &comments[i];
        proof {
            assert(comments@.subrange(0, i + 1).drop_last() =~= comments@.subrange(0, i as int));
            assert(comments@.subrange(0, i + 1).last() == *c);
        }
        let file_ok = match file {
            Some(f) => str_eq(c.file.as_str(), f),
            None => true,
        };
        let in_scope = file_ok && (all || !starts_with(c.id.as_str(), "user:"));
        proof {
            assert(in_scope == comment_in_scope(*c, fv, all));
        }
        if in_scope {
            let ghost before = string_views(removed@);
            removed.push(c.id.clone());
            proof {
                assert(string_views(removed@) =~= before.push(c.id@));
            }
        } else {
            kept.push(copy_comment(c));
        }
        i = i + 1;
    }
    proof {
        assert(comments@.subrange(0, comments@.len() as int) =~= comments@);
    }
    *comments = kept;
    removed
}

/// The comments `comment rm` keeps: all but those with the id.
pub open spec fn without_id(cs: Seq<CommentEntry>, id: Seq<char>) -> Seq<CommentEntry>
    decreases cs.len(),
{
    if cs.len() == 0 {
        Seq::empty()
    } else {
        let before = without_id(cs.drop_last(), id);
        if cs.last().id@ == id {
            before
        } else {
            before.push(cs.last())
        }
    }
}

/// `comment rm`: remove the comments with this id; whether any was there.
pub fn comment_rm(comments: &mut Vec<CommentEntry>, id: &str) -> (found: bool)
    ensures
        final(comments)@ == without_id(old(comments)@, id@),
        found == (exists|j: int| 0 <= j < old(comments)@.len() && (#[trigger] old(comments)@[j]).id@ == id@),
{
    let mut kept: Vec<CommentEntry> = Vec::new();
    let mut found = false;
    let mut i: usize = 0;
    while i < comments.len()
        invariant
            i <= comments.len(),
            kept@ == without_id(comments@.subrange(0, i as int), id@),
            found == (exists|j: int| 0 <= j < i && (#[trigger] comments@[j]).id@ == id@),
        decreases comments.len() - i,
    {
        let c = &comments[i];
        proof {
            assert(comments@.subrange(0, i + 1).drop_last() =~= comments@.subrange(0, i as int));
            assert(comments@.subrange(0, i + 1).last() == *c);
        }
        if str_eq(c.id.as_str(), id) {
            found = true;
        } else {
            kept.push(copy_comment(c));
        }
        i = i + 1;
    }
    proof {
        assert(comments@.subrange(0, comments@.len() as int) =~= comments@);
    }
    *comments = kept;
    found
}

/// The notes left once an agent comment's note (text `id: ...`) goes.
pub open spec fn without_agent_note(ns: Seq<Note>, id: Seq<char>) -> Seq<Note>
    decreases ns.len(),
{
    if ns.len() == 0 {
        Seq::empty()
    } else {
        let before = without_agent_note(ns.drop_last(), id);
        if has_prefix(ns.last().text@, id + ": "@) {
            before
        } else {
            before.push(ns.last())
        }
    }
}

pub(crate) fn copy_note(n: &Note) -> (r: Note)
    ensures
        r == *n,
{
    let target = match &n.target {
        NoteTarget::Line { path, line } => NoteTarget::Line { path: path.clone(), line: *line },
        NoteTarget::Hunk { path, hunk } => NoteTarget::Hunk { path: path.clone(), hunk: *hunk },
        NoteTarget::Banner => NoteTarget::Banner,
    };
    Note { target, text: n.text.clone() }
}

/// Drop the rendered notes of the agent comment `id` (their text starts
/// with `id: `), keeping the others in order.
pub fn drop_agent_notes(notes: &mut Vec<Note>, id: &str)
    ensures
        final(notes)@ == without_agent_note(old(notes)@, id@),
{
    let mut prefix = owned(id);
    prefix.append(": ");
    let mut kept: Vec<Note> = Vec::new();
    let mut i: usize = 0;
    while i < notes.len()
        invariant
            i <= notes.len(),
            prefix@ == id@ + ": "@,
            kept@ == without_agent_note(notes@.subrange(0, i as int), id@),
        decreases notes.len() - i,
    {
        let n = &notes[i];
        proof {
            assert(notes@.subrange(0, i + 1).drop_last() =~= notes@.subrange(0, i as int));
            assert(notes@.subrange(0, i + 1).last() == *n);
        }
        if !starts_with(n.text.as_str(), prefix.as_str()) {
            kept.push(copy_note(n));
        }
        i = i + 1;
    }
    proof {
        assert(notes@.subrange(0, notes@.len() as int) =~= notes@);
    }
    *notes = kept;
}

/// The complaint about a batch item (1-based `k`): its file is unknown
/// (`count` is `None`), or its hunk is outside the file's `count` hunks.
pub open spec fn batch_item_error(k: nat, file: Seq<char>, hunk: Option<usize>, count: Option<usize>) -> Option<
    Seq<char>,
> {
    match count {
        None => Some("comment "@ + decimal(k) + " targets unknown file `"@ + file + "`"@),
        Some(n) => match hunk {
            Some(h) => if h == 0 || h > n {
                Some(
                    "comment "@ + decimal(k) + ": `"@ + file + "` has "@ + decimal(n as nat)
                        + " hunk(s); hunk "@ + decimal(h as nat) + " is out of range"@,
                )
            } else {
                None
            },
            None => None,
        },
    }
}

/// The first complaint about the items from index `i` on.
pub open spec fn batch_error_from(items: Seq<(Seq<char>, Option<usize>, Option<usize>)>, i: nat) -> Option<
    Seq<char>,
>
    decreases items.len() - i,
{
    if i >= items.len() {
        None
    } else {
        match batch_item_error(i + 1, items[i as int].0, items[i as int].1, items[i as int].2) {
            Some(e) => Some(e),
            None => batch_error_from(items, i + 1),
        }
    }
}

pub open spec fn batch_view(v: Seq<(String, Option<usize>, Option<usize>)>) -> Seq<
    (Seq<char>, Option<usize>, Option<usize>),
> {
    v.map_values(|x: (String, Option<usize>, Option<usize>)| (x.0@, x.1, x.2))
}

/// Check a comment batch before anything is applied: each item gives its
/// file, its hunk (if any) and the file's hunk count (`None` for a file
/// the review does not have). The first problem, as the reply's message;
/// `None` when every item can be applied.
pub fn batch_error(items: &Vec<(String, Option<usize>, Option<usize>)>) -> (r: Option<String>)
    ensures
        match r {
            None => batch_error_from(batch_view(items@), 0) is None,
            Some(e) => batch_error_from(batch_view(items@), 0) == Some(e@),
        },
{
    let ghost iv = batch_view(items@);
    let mut i: usize = 0;
    while i < items.len()
        invariant
            i <= items.len(),
            iv == batch_view(items@),
            batch_error_from(iv, 0) == batch_error_from(iv, i as nat),
        decreases items.len() - i,
    {
        let (file, hunk, count) = (&items[i].0, items[i].1, items[i].2);
        proof {
            assert(iv[i as int] == (file@, hunk, count));
        }
        let k = u64_to_string((i + 1) as u64);
        match count {
            None => {
                let mut e = owned("comment ");
                e.append(k.as_str());
                e.append(" targets unknown file `");
                e.append(file.as_str());
                e.append("`");
                return Some(e);
            },
            Some(n) => {
                if let Some(h) = hunk {
                    if h == 0 || h > n {
                        let mut e = owned("comment ");
                        e.append(k.as_str());
                        e.append(": `");
                        e.append(file.as_str());
                        e.append("` has ");
                        e.append(u64_to_string(n as u64).as_str());
                        e.append(" hunk(s); hunk ");
                        e.append(u64_to_string(h as u64).as_str());
                        e.append(" is out of range");
                        return Some(e);
                    }
                }
            },
        }
        i = i + 1;
    }
    None
}

/// The complaint about an attention mark's character range, unless
/// `1 <= start < end`.
pub fn highlight_range_error(start: usize, end: usize) -> (r: Option<String>)
    ensures
        r is None <==> (start >= 1 && end > start),
        r matches Some(e) ==> e@ == "highlight range must satisfy 1 <= start < end (got "@ + decimal(
            start as nat,
        ) + ".."@ + decimal(end as nat) + ")"@,
{
    if start >= 1 && end > start {
        return None;
    }
    let mut e = owned("highlight range must satisfy 1 <= start < end (got ");
    e.append(u64_to_string(start as u64).as_str());
    e.append("..");
    e.append(u64_to_string(end as u64).as_str());
    e.append(")");
    Some(e)
}

} // verus!
