//! The serve-mode session: what each command from an agent's CLI does to
//! the running review's comments, notes, attention marks, focus and status
//! line, and what it answers.
//!
//! Placing the view on a new focus target needs the diff model, so a
//! command that moves the focus records the target and raises `refocus` for
//! the front end.

use vstd::prelude::*;
use crate::app::{CommentEntry, Decision, FocusTarget, HunkId, Note, ToastKind};
use crate::export::{clone_comment, comment_view, comment_views, note_eq, note_view};
use crate::marks::{clear_highlights, kept_marks, new_highlight_mark, HighlightMark};
use crate::server::{
    batch_error, batch_error_from, batch_view, cleared_ids, comment_clear, comment_focus_target, comment_note,
    comment_rm, drop_agent_notes, highlight_range_error,
    comment_in_scope, copy_note, kept_comments, without_agent_note, without_id, BatchComment, ServerCommand, ServerReply,
};
use crate::session::{all_hunks, bucket, files_view, selections};
use crate::text::{decimal, has_prefix, opt_str_view, owned, str_eq, string_views, strings_contain, u64_to_string};

verus! {

/// A note as plain values.
pub type NoteV = ((u8, Seq<char>, int), Seq<char>);

/// A comment as plain values: id, file, text, line, hunk.
pub type CommentV = (Seq<char>, Seq<char>, Seq<char>, Option<u32>, Option<usize>);

/// An attention mark as plain values: id, file, line, start, end, tone.
pub type MarkV = (Seq<char>, Seq<char>, u32, usize, usize, Seq<char>);

/// The session the serve commands act on.
pub struct ServeState {
    /// The review's files: display path and hunk count.
    pub files: Vec<(String, usize)>,
    /// The repository root, as reported to clients.
    pub repo_root: String,
    /// The session's comments, agent (`cN`) and human (`user:N`).
    pub comments: Vec<CommentEntry>,
    /// The notes rendered in the stream.
    pub notes: Vec<Note>,
    /// Each human comment id with the note that renders it.
    pub user_notes: Vec<(String, Note)>,
    /// The ids of the comments already rendered as notes.
    pub applied: Vec<String>,
    /// The attention marks.
    pub highlights: Vec<HighlightMark>,
    /// The focus target, and whether the view must move to it.
    pub focus: Option<FocusTarget>,
    pub refocus: bool,
    /// The number the next agent comment id takes.
    pub next_comment: u64,
    /// The status-line message set by the last command (severity, text).
    pub status: Option<(ToastKind, String)>,
    /// The per-hunk decisions.
    pub decisions: Vec<(HunkId, Decision)>,
}

/// A focus target as plain values: kind (0 file, 1 line, 2 hunk), path,
/// line or hunk.
pub open spec fn focus_view(t: FocusTarget) -> (u8, Seq<char>, int) {
    match t {
        FocusTarget::File(p) => (0u8, p@, 0),
        FocusTarget::FileLine(p, l) => (1u8, p@, l as int),
        FocusTarget::FileHunk(p, h) => (2u8, p@, h as int),
    }
}

pub open spec fn opt_focus_view(t: Option<FocusTarget>) -> Option<(u8, Seq<char>, int)> {
    match t {
        Some(f) => Some(focus_view(f)),
        None => None,
    }
}

pub open spec fn note_views(v: Seq<Note>) -> Seq<NoteV> {
    v.map_values(|n: Note| note_view(n))
}

pub open spec fn mark_view(m: HighlightMark) -> MarkV {
    (m.id@, m.file@, m.line, m.start, m.end, m.tone@)
}

pub open spec fn mark_views(v: Seq<HighlightMark>) -> Seq<MarkV> {
    v.map_values(|m: HighlightMark| mark_view(m))
}

pub open spec fn user_note_views(v: Seq<(String, Note)>) -> Seq<(Seq<char>, NoteV)> {
    v.map_values(|p: (String, Note)| (p.0@, note_view(p.1)))
}

pub open spec fn status_view(s: Option<(ToastKind, String)>) -> Option<(ToastKind, Seq<char>)> {
    match s {
        Some((k, t)) => Some((k, t@)),
        None => None,
    }
}

/// The session as plain values.
#[verifier::ext_equal]
pub struct ServeModel {
    pub files: Seq<(Seq<char>, usize)>,
    pub repo_root: Seq<char>,
    pub comments: Seq<CommentV>,
    pub notes: Seq<NoteV>,
    pub user_notes: Seq<(Seq<char>, NoteV)>,
    pub applied: Seq<Seq<char>>,
    pub marks: Seq<MarkV>,
    pub focus: Option<(u8, Seq<char>, int)>,
    pub refocus: bool,
    pub next_comment: u64,
    pub status: Option<(ToastKind, Seq<char>)>,
    pub decisions: Seq<(HunkId, Decision)>,
}

pub open spec fn model(s: ServeState) -> ServeModel {
    ServeModel {
        files: files_view(s.files@),
        repo_root: s.repo_root@,
        comments: comment_views(s.comments@),
        notes: note_views(s.notes@),
        user_notes: user_note_views(s.user_notes@),
        applied: string_views(s.applied@),
        marks: mark_views(s.highlights@),
        focus: opt_focus_view(s.focus),
        refocus: s.refocus,
        next_comment: s.next_comment,
        status: status_view(s.status),
        decisions: s.decisions@,
    }
}

/// A reply as plain values.
#[verifier::ext_equal]
pub enum ReplyModel {
    Ack,
    Decisions(Seq<Seq<char>>, Seq<Seq<char>>, Seq<Seq<char>>),
    Info(Seq<char>, usize),
    Error(Seq<char>),
    CommentAdded(Seq<char>),
    CommentList(Seq<CommentV>),
    CommentCleared(usize),
    HighlightList(Seq<MarkV>),
    HighlightCleared(usize),
}

pub open spec fn reply_view(r: ServerReply) -> ReplyModel {
    match r {
        ServerReply::Ack => ReplyModel::Ack,
        ServerReply::Decisions(s) => ReplyModel::Decisions(
            string_views(s.accepted@),
            string_views(s.rejected@),
            string_views(s.undecided@),
        ),
        ServerReply::Info { repo_path, file_count } => ReplyModel::Info(repo_path@, file_count),
        ServerReply::Error(e) => ReplyModel::Error(e@),
        ServerReply::CommentAdded { id } => ReplyModel::CommentAdded(id@),
        ServerReply::CommentList { comments } => ReplyModel::CommentList(comment_views(comments@)),
        ServerReply::CommentCleared { removed } => ReplyModel::CommentCleared(removed),
        ServerReply::HighlightList { marks } => ReplyModel::HighlightList(mark_views(marks@)),
        ServerReply::HighlightCleared { removed } => ReplyModel::HighlightCleared(removed),
    }
}

/// The agent comment id numbered `n`.
pub open spec fn comment_id(n: nat) -> Seq<char> {
    "c"@ + decimal(n)
}

/// The note that renders a comment: on its hunk, else its line, else the
/// banner; the text is `id: body`.
pub open spec fn comment_note_view(c: CommentV) -> NoteV {
    let target = match c.4 {
        Some(h) => (1u8, c.1, h as int),
        None => match c.3 {
            Some(l) => (0u8, c.1, l as int),
            None => (2u8, Seq::<char>::empty(), 0int),
        },
    };
    (target, c.0 + ": "@ + c.2)
}

/// The focus target of a comment: its hunk, else its line, else its file.
pub open spec fn comment_focus_view(c: CommentV) -> (u8, Seq<char>, int) {
    match c.4 {
        Some(h) => (2u8, c.1, h as int),
        None => match c.3 {
            Some(l) => (1u8, c.1, l as int),
            None => (0u8, c.1, 0int),
        },
    }
}

/// Mark an id as rendered (a set: an id already there stays once).
pub open spec fn add_applied(a: Seq<Seq<char>>, id: Seq<char>) -> Seq<Seq<char>> {
    if a.contains(id) {
        a
    } else {
        a.push(id)
    }
}

/// The index of the first file with this display path.
pub open spec fn file_index(files: Seq<(Seq<char>, usize)>, p: Seq<char>) -> Option<nat> {
    if exists|i: int| 0 <= i < files.len() && files[i].0 == p {
        Some(choose_first(files, p, 0))
    } else {
        None
    }
}

/// The first index from `k` on of a file with this path (`files.len()` if
/// none).
pub open spec fn choose_first(files: Seq<(Seq<char>, usize)>, p: Seq<char>, k: nat) -> nat
    decreases files.len() - k,
{
    if k >= files.len() {
        files.len()
    } else if files[k as int].0 == p {
        k
    } else {
        choose_first(files, p, k + 1)
    }
}

/// The note of the first human comment with this id, if it has one.
pub open spec fn user_note_of(un: Seq<(Seq<char>, NoteV)>, id: Seq<char>) -> Option<NoteV>
    decreases un.len(),
{
    if un.len() == 0 {
        None
    } else {
        match user_note_of(un.drop_last(), id) {
            Some(n) => Some(n),
            None => if un.last().0 == id {
                Some(un.last().1)
            } else {
                None
            },
        }
    }
}

/// The human-note pairs without this id.
pub open spec fn drop_user_note(un: Seq<(Seq<char>, NoteV)>, id: Seq<char>) -> Seq<(Seq<char>, NoteV)>
    decreases un.len(),
{
    if un.len() == 0 {
        Seq::empty()
    } else {
        let before = drop_user_note(un.drop_last(), id);
        if un.last().0 == id {
            before
        } else {
            before.push(un.last())
        }
    }
}

/// The index of the first note equal to `x`.
pub open spec fn first_equal(ns: Seq<NoteV>, x: NoteV) -> Option<nat>
    decreases ns.len(),
{
    if ns.len() == 0 {
        None
    } else {
        match first_equal(ns.drop_last(), x) {
            Some(p) => Some(p),
            None => if ns.last() == x {
                Some((ns.len() - 1) as nat)
            } else {
                None
            },
        }
    }
}

/// The notes without the first one equal to `x`.
pub open spec fn drop_first_equal(ns: Seq<NoteV>, x: NoteV) -> Seq<NoteV> {
    match first_equal(ns, x) {
        Some(p) => ns.remove(p as int),
        None => ns,
    }
}

/// The notes without any equal to `x`.
pub open spec fn drop_equal(ns: Seq<NoteV>, x: NoteV) -> Seq<NoteV>
    decreases ns.len(),
{
    if ns.len() == 0 {
        ns
    } else {
        let before = drop_equal(ns.drop_last(), x);
        if ns.last() == x {
            before
        } else {
            before.push(ns.last())
        }
    }
}

/// The notes without an agent comment's notes (text `id: ...`).
pub open spec fn drop_prefixed(ns: Seq<NoteV>, id: Seq<char>) -> Seq<NoteV>
    decreases ns.len(),
{
    if ns.len() == 0 {
        ns
    } else {
        let before = drop_prefixed(ns.drop_last(), id);
        if has_prefix(ns.last().1, id + ": "@) {
            before
        } else {
            before.push(ns.last())
        }
    }
}

/// The notes and human-note pairs once the comments with these ids are
/// cleared: a human comment takes its paired note (and every note equal to
/// it) with it, an agent comment the notes whose text starts with `id: `.
pub open spec fn clear_notes(ns: Seq<NoteV>, un: Seq<(Seq<char>, NoteV)>, ids: Seq<Seq<char>>) -> (
    Seq<NoteV>,
    Seq<(Seq<char>, NoteV)>,
)
    decreases ids.len(),
{
    if ids.len() == 0 {
        (ns, un)
    } else {
        let (n0, u0) = clear_notes(ns, un, ids.drop_last());
        let id = ids.last();
        match user_note_of(u0, id) {
            Some(note) => (drop_equal(n0, note), drop_user_note(u0, id)),
            None => (drop_prefixed(n0, id), u0),
        }
    }
}

/// Render the comments not rendered yet: their ids join the rendered ones
/// and their notes are appended, in order.
pub open spec fn apply_pending(cs: Seq<CommentV>, applied: Seq<Seq<char>>, notes: Seq<NoteV>) -> (
    Seq<Seq<char>>,
    Seq<NoteV>,
    nat,
)
    decreases cs.len(),
{
    if cs.len() == 0 {
        (applied, notes, 0)
    } else {
        let (a, n, k) = apply_pending(cs.drop_last(), applied, notes);
        let c = cs.last();
        if a.contains(c.0) {
            (a, n, k)
        } else {
            (a.push(c.0), n.push(comment_note_view(c)), k + 1)
        }
    }
}

/// The comments a batch adds, numbered from `n`.
pub open spec fn batch_entries(items: Seq<BatchComment>, n: nat) -> Seq<CommentV>
    decreases items.len(),
{
    if items.len() == 0 {
        Seq::empty()
    } else {
        let before = batch_entries(items.drop_last(), n);
        let b = items.last();
        before.push((comment_id((n + items.len() - 1) as nat), b.file@, b.text@, b.line, b.hunk))
    }
}

/// Mark several ids as rendered, in order.
pub open spec fn add_applied_all(a: Seq<Seq<char>>, cs: Seq<CommentV>) -> Seq<Seq<char>>
    decreases cs.len(),
{
    if cs.len() == 0 {
        a
    } else {
        add_applied(add_applied_all(a, cs.drop_last()), cs.last().0)
    }
}

/// A batch item with the hunk count of its file (`None`: unknown file).
pub open spec fn batch_checks(files: Seq<(Seq<char>, usize)>, items: Seq<BatchComment>) -> Seq<
    (Seq<char>, Option<usize>, Option<usize>),
> {
    Seq::new(
        items.len(),
        |i: int|
            (items[i].file@, items[i].hunk, match file_index(files, items[i].file@) {
                Some(fi) => Some(files[fi as int].1),
                None => None,
            }),
    )
}

/// What a serve command does to the session, and what it answers.
pub open spec fn serve_spec(s: ServeState, command: ServerCommand) -> (ServeModel, ReplyModel) {
    let m = model(s);
    match command {
        ServerCommand::Push { focus, notes } => (ServeModel {
            focus: if focus is Some { opt_focus_view(focus) } else { m.focus },
            refocus: m.refocus || focus is Some,
            notes: m.notes + note_views(notes@),
            status: Some((ToastKind::Info, "pushed by agent"@)),
            ..m
        }, ReplyModel::Ack),
        ServerCommand::Decision => {
            let hunks = all_hunks(m.files, m.files.len());
            (m, ReplyModel::Decisions(
                bucket(m.files, m.decisions, hunks, Decision::Accept),
                bucket(m.files, m.decisions, hunks, Decision::Reject),
                bucket(m.files, m.decisions, hunks, Decision::Undecided),
            ))
        },
        ServerCommand::Info => (m, ReplyModel::Info(m.repo_root, m.files.len() as usize)),
        ServerCommand::Navigate { target } => (ServeModel {
            focus: Some(focus_view(target)),
            refocus: true,
            ..m
        }, ReplyModel::Ack),
        ServerCommand::CommentAdd { file, text, line, hunk, focus } => {
            let id = comment_id(m.next_comment as nat);
            let c = (id, file@, text@, line, hunk);
            (ServeModel {
                applied: add_applied(m.applied, id),
                notes: m.notes.push(comment_note_view(c)),
                focus: if focus { Some(comment_focus_view(c)) } else { m.focus },
                refocus: m.refocus || focus,
                comments: m.comments.push(c),
                next_comment: (m.next_comment + 1) as u64,
                status: Some((ToastKind::Success, "comment "@ + id + " added by agent"@)),
                ..m
            }, ReplyModel::CommentAdded(id))
        },
        ServerCommand::CommentList => (m, ReplyModel::CommentList(m.comments)),
        ServerCommand::CommentRm { id } => {
            let kept = without_id(s.comments@, id@);
            if kept.len() < s.comments@.len() {
                match user_note_of(m.user_notes, id@) {
                    Some(note) => (ServeModel {
                        comments: comment_views(kept),
                        user_notes: drop_user_note(m.user_notes, id@),
                        notes: drop_first_equal(m.notes, note),
                        ..m
                    }, ReplyModel::Ack),
                    None => (ServeModel { comments: comment_views(kept), ..m }, ReplyModel::Ack),
                }
            } else {
                (m, ReplyModel::Error("comment "@ + id@ + " not found"@))
            }
        },
        ServerCommand::CommentApply => {
            let (a, n, k) = apply_pending(m.comments, m.applied, m.notes);
            (ServeModel {
                applied: a,
                notes: n,
                status: Some(
                    (ToastKind::Success, "comments applied ("@ + decimal(k) + " new)"@),
                ),
                ..m
            }, ReplyModel::Ack)
        },
        ServerCommand::CommentApplyBatch { comments, focus } => {
            match batch_error_from(batch_checks(m.files, comments@), 0) {
                Some(e) => (m, ReplyModel::Error(e)),
                None => {
                    let es = batch_entries(comments@, m.next_comment as nat);
                    let moves = focus && es.len() > 0;
                    (ServeModel {
                        applied: add_applied_all(m.applied, es),
                        notes: m.notes + es.map_values(|c: CommentV| comment_note_view(c)),
                        comments: m.comments + es,
                        focus: if moves { Some(comment_focus_view(es[0])) } else { m.focus },
                        refocus: m.refocus || moves,
                        next_comment: (m.next_comment + es.len()) as u64,
                        status: Some(
                            (ToastKind::Success, decimal(es.len()) + " comments applied by agent"@),
                        ),
                        ..m
                    }, ReplyModel::Ack)
                },
            }
        },
        ServerCommand::CommentClear { file, all } => {
            let fv = match file {
                Some(f) => Some(f@),
                None => None,
            };
            let removed = cleared_ids(s.comments@, fv, all);
            if removed.len() == 0 {
                (m, ReplyModel::Error("no comments matched"@))
            } else {
                let (ns, un) = clear_notes(m.notes, m.user_notes, removed);
                (ServeModel {
                    comments: comment_views(kept_comments(s.comments@, fv, all)),
                    notes: ns,
                    user_notes: un,
                    status: Some(
                        (ToastKind::Success, "cleared "@ + decimal(removed.len()) + " comment(s)"@),
                    ),
                    ..m
                }, ReplyModel::CommentCleared(removed.len() as usize))
            }
        },
        ServerCommand::HighlightAdd { file, line, start, end, tone, focus } => {
            if file_index(m.files, file@) is None {
                (m, ReplyModel::Error("highlight targets unknown file `"@ + file@ + "`"@))
            } else if !(start >= 1 && end > start) {
                (m, ReplyModel::Error(
                    "highlight range must satisfy 1 <= start < end (got "@ + decimal(start as nat)
                        + ".."@ + decimal(end as nat) + ")"@,
                ))
            } else {
                let mark = (
                    "hl"@ + decimal(m.marks.len()),
                    file@,
                    line,
                    start,
                    end,
                    if tone@.len() == 0 { "warning"@ } else { tone@ },
                );
                (ServeModel {
                    marks: m.marks.push(mark),
                    focus: if focus { Some((1u8, file@, line as int)) } else { m.focus },
                    refocus: m.refocus || focus,
                    status: Some((ToastKind::Success, "attention mark painted by agent"@)),
                    ..m
                }, ReplyModel::Ack)
            }
        },
        ServerCommand::HighlightList => (m, ReplyModel::HighlightList(m.marks)),
        ServerCommand::HighlightClear { file } => {
            let kept = kept_marks(
                s.highlights@,
                match file {
                    Some(f) => Some(f@),
                    None => None,
                },
            );
            let removed = s.highlights@.len() - kept.len();
            if removed == 0 {
                (m, ReplyModel::Error("no marks matched"@))
            } else {
                (ServeModel {
                    marks: mark_views(kept),
                    status: Some(
                        (ToastKind::Success, "cleared "@ + decimal(removed as nat) + " mark(s)"@),
                    ),
                    ..m
                }, ReplyModel::HighlightCleared(removed as usize))
            }
        },
    }
}

/// How many comment ids a command mints.
pub open spec fn ids_minted(command: ServerCommand) -> nat {
    match command {
        ServerCommand::CommentAdd { .. } => 1,
        ServerCommand::CommentApplyBatch { comments, .. } => comments@.len(),
        _ => 0,
    }
}

proof fn lemma_first_equal_bound(ns: Seq<NoteV>, x: NoteV)
    ensures
        first_equal(ns, x) matches Some(p) ==> p < ns.len() && ns[p as int] == x,
    decreases ns.len(),
{
    if ns.len() > 0 {
        lemma_first_equal_bound(ns.drop_last(), x);
    }
}

/// Take out the first human-note pair with this id (and any later one with
/// it); its note.
fn remove_user_note(un: &mut Vec<(String, Note)>, id: &str) -> (r: Option<Note>)
    ensures
        user_note_views(final(un)@) == drop_user_note(user_note_views(old(un)@), id@),
        match r {
            Some(n) => user_note_of(user_note_views(old(un)@), id@) == Some(note_view(n)),
            None => user_note_of(user_note_views(old(un)@), id@) is None,
        },
{
    let ghost uv = user_note_views(un@);
    let mut kept: Vec<(String, Note)> = Vec::new();
    let mut found: Option<Note> = None;
    let mut i: usize = 0;
    while i < un.len()
        invariant
            i <= un.len(),
            uv == user_note_views(un@),
            user_note_views(kept@) == drop_user_note(uv.subrange(0, i as int), id@),
            match found {
                Some(n) => user_note_of(uv.subrange(0, i as int), id@) == Some(note_view(n)),
                None => user_note_of(uv.subrange(0, i as int), id@) is None,
            },
        decreases un.len() - i,
    {
        let ghost before = user_note_views(kept@);
        proof {
            assert(uv.subrange(0, i + 1).drop_last() =~= uv.subrange(0, i as int));
            assert(uv.subrange(0, i + 1).last() == (un@[i as int].0@, note_view(un@[i as int].1)));
        }
        if str_eq(un[i].0.as_str(), id) {
            if found.is_none() {
                found = Some(copy_note(&un[i].1));
            }
        } else {
            kept.push((un[i].0.clone(), copy_note(&un[i].1)));
            proof {
                assert(user_note_views(kept@) =~= before.push(uv[i as int]));
            }
        }
        i = i + 1;
    }
    proof {
        assert(uv.subrange(0, uv.len() as int) =~= uv);
    }
    *un = kept;
    found
}

/// Take out the first note equal to `note`.
fn remove_first_note(notes: &mut Vec<Note>, note: &Note)
    ensures
        note_views(final(notes)@) == drop_first_equal(note_views(old(notes)@), note_view(*note)),
{
    let ghost nv = note_views(notes@);
    let ghost x = note_view(*note);
    let mut pos: Option<usize> = None;
    let mut i: usize = 0;
    while i < notes.len()
        invariant
            i <= notes.len(),
            nv == note_views(notes@),
            x == note_view(*note),
            match pos {
                Some(p) => first_equal(nv.subrange(0, i as int), x) == Some(p as nat),
                None => first_equal(nv.subrange(0, i as int), x) is None,
            },
        decreases notes.len() - i,
    {
        proof {
            assert(nv.subrange(0, i + 1).drop_last() =~= nv.subrange(0, i as int));
            assert(nv.subrange(0, i + 1).last() == note_view(notes@[i as int]));
        }
        if pos.is_none() && note_eq(&notes[i], note) {
            pos = Some(i);
        }
        i = i + 1;
    }
    proof {
        assert(nv.subrange(0, nv.len() as int) =~= nv);
        lemma_first_equal_bound(nv, x);
    }
    if let Some(p) = pos {
        notes.remove(p);
        proof {
            assert(note_views(notes@) =~= nv.remove(p as int));
        }
    }
}

/// Drop every note equal to `note`.
fn remove_equal_notes(notes: &mut Vec<Note>, note: &Note)
    ensures
        note_views(final(notes)@) == drop_equal(note_views(old(notes)@), note_view(*note)),
{
    let ghost nv = note_views(notes@);
    let ghost x = note_view(*note);
    let mut kept: Vec<Note> = Vec::new();
    let mut i: usize = 0;
    while i < notes.len()
        invariant
            i <= notes.len(),
            nv == note_views(notes@),
            x == note_view(*note),
            note_views(kept@) == drop_equal(nv.subrange(0, i as int), x),
        decreases notes.len() - i,
    {
        let ghost before = note_views(kept@);
        proof {
            assert(nv.subrange(0, i + 1).drop_last() =~= nv.subrange(0, i as int));
            assert(nv.subrange(0, i + 1).last() == note_view(notes@[i as int]));
        }
        if !note_eq(&notes[i], note) {
            kept.push(copy_note(&notes[i]));
            proof {
                assert(note_views(kept@) =~= before.push(nv[i as int]));
            }
        }
        i = i + 1;
    }
    proof {
        assert(nv.subrange(0, nv.len() as int) =~= nv);
    }
    *notes = kept;
}

proof fn lemma_drop_prefixed(ns: Seq<Note>, id: Seq<char>)
    ensures
        note_views(without_agent_note(ns, id)) == drop_prefixed(note_views(ns), id),
    decreases ns.len(),
{
    if ns.len() > 0 {
        lemma_drop_prefixed(ns.drop_last(), id);
        assert(note_views(ns).drop_last() =~= note_views(ns.drop_last()));
        let before = without_agent_note(ns.drop_last(), id);
        assert(note_views(before.push(ns.last())) =~= note_views(before).push(note_view(ns.last())));
    }
}

/// The hunk count of the first file with this display path.
fn file_hunk_count(files: &Vec<(String, usize)>, path: &str) -> (r: Option<usize>)
    ensures
        r == match file_index(files_view(files@), path@) {
            Some(fi) => Some(files_view(files@)[fi as int].1),
            None => None::<usize>,
        },
{
    let ghost fv = files_view(files@);
    let mut i: usize = 0;
    while i < files.len()
        invariant
            i <= files.len(),
            fv == files_view(files@),
            forall|j: int| 0 <= j < i ==> fv[j].0 != path@,
            choose_first(fv, path@, 0) == choose_first(fv, path@, i as nat),
        decreases files.len() - i,
    {
        if str_eq(files[i].0.as_str(), path) {
            proof {
                assert(fv[i as int].0 == path@);
            }
            return Some(files[i].1);
        }
        i = i + 1;
    }
    None
}

proof fn lemma_without_id(cs: Seq<CommentEntry>, id: Seq<char>)
    ensures
        without_id(cs, id).len() <= cs.len(),
        (exists|j: int| 0 <= j < cs.len() && (#[trigger] cs[j]).id@ == id) <==> without_id(cs, id).len() < cs.len(),
        without_id(cs, id).len() == cs.len() ==> without_id(cs, id) == cs,
    decreases cs.len(),
{
    if cs.len() > 0 {
        let d = cs.drop_last();
        lemma_without_id(d, id);
        if exists|j: int| 0 <= j < d.len() && (#[trigger] d[j]).id@ == id {
            let j = choose|j: int| 0 <= j < d.len() && (#[trigger] d[j]).id@ == id;
            assert(cs[j] == d[j]);
        }
        if exists|j: int| 0 <= j < cs.len() && (#[trigger] cs[j]).id@ == id {
            let j = choose|j: int| 0 <= j < cs.len() && (#[trigger] cs[j]).id@ == id;
            if j < d.len() {
                assert(d[j] == cs[j]);
            }
        }
        if cs.last().id@ == id {
            assert(cs[cs.len() - 1].id@ == id);
        }
        assert(d.push(cs.last()) =~= cs);
    }
}

proof fn lemma_nothing_cleared(cs: Seq<CommentEntry>, file: Option<Seq<char>>, all: bool)
    requires
        cleared_ids(cs, file, all).len() == 0,
    ensures
        kept_comments(cs, file, all) == cs,
    decreases cs.len(),
{
    if cs.len() > 0 {
        lemma_nothing_cleared(cs.drop_last(), file, all);
        assert(cs.drop_last().push(cs.last()) =~= cs);
    }
}

proof fn lemma_kept_marks(ms: Seq<HighlightMark>, file: Option<Seq<char>>)
    ensures
        kept_marks(ms, file).len() <= ms.len(),
        kept_marks(ms, file).len() == ms.len() ==> kept_marks(ms, file) == ms,
    decreases ms.len(),
{
    if ms.len() > 0 {
        lemma_kept_marks(ms.drop_last(), file);
        assert(ms.drop_last().push(ms.last()) =~= ms);
    }
}

fn copy_comments(cs: &Vec<CommentEntry>) -> (r: Vec<CommentEntry>)
    ensures
        r@ == cs@,
{
    let mut out: Vec<CommentEntry> = Vec::new();
    let mut i: usize = 0;
    while i < cs.len()
        invariant
            i <= cs.len(),
            out@ == cs@.subrange(0, i as int),
        decreases cs.len() - i,
    {
        out.push(clone_comment(&cs[i]));
        proof {
            assert(out@ =~= cs@.subrange(0, i + 1));
        }
        i = i + 1;
    }
    proof {
        assert(cs@.subrange(0, cs@.len() as int) =~= cs@);
    }
    out
}

fn copy_mark(m: &HighlightMark) -> (r: HighlightMark)
    ensures
        r == *m,
{
    HighlightMark {
        id: m.id.clone(),
        file: m.file.clone(),
        line: m.line,
        start: m.start,
        end: m.end,
        tone: m.tone.clone(),
    }
}

fn copy_marks(ms: &Vec<HighlightMark>) -> (r: Vec<HighlightMark>)
    ensures
        r@ == ms@,
{
    let mut out: Vec<HighlightMark> = Vec::new();
    let mut i: usize = 0;
    while i < ms.len()
        invariant
            i <= ms.len(),
            out@ == ms@.subrange(0, i as int),
        decreases ms.len() - i,
    {
        out.push(copy_mark(&ms[i]));
        proof {
            assert(out@ =~= ms@.subrange(0, i + 1));
        }
        i = i + 1;
    }
    proof {
        assert(ms@.subrange(0, ms@.len() as int) =~= ms@);
    }
    out
}

fn status_text(kind: ToastKind, text: &str) -> (r: Option<(ToastKind, String)>)
    ensures
        status_view(r) == Some((kind, text@)),
{
    Some((kind, owned(text)))
}

fn serve_push(s: &mut ServeState, focus: Option<FocusTarget>, notes: Vec<Note>) -> (r: ServerReply)
    ensures
        model(*final(s)) == serve_spec(*old(s), ServerCommand::Push { focus, notes }).0,
        reply_view(r) == serve_spec(*old(s), ServerCommand::Push { focus, notes }).1,
{
    let ghost nv = note_views(notes@);
    let mut extra = notes;
    if focus.is_some() {
        s.focus = focus;
        s.refocus = true;
    }
    let ghost before = note_views(s.notes@);
    s.notes.append(&mut extra);
    proof {
        assert(note_views(s.notes@) =~= before + nv);
    }
    s.status = status_text(ToastKind::Info, "pushed by agent");
    ServerReply::Ack
}

fn serve_navigate(s: &mut ServeState, target: FocusTarget) -> (r: ServerReply)
    ensures
        model(*final(s)) == serve_spec(*old(s), ServerCommand::Navigate { target }).0,
        reply_view(r) == serve_spec(*old(s), ServerCommand::Navigate { target }).1,
{
    s.focus = Some(target);
    s.refocus = true;
    ServerReply::Ack
}

fn serve_query(s: &ServeState, command: &ServerCommand) -> (r: ServerReply)
    requires
        command is Decision || command is Info || command is CommentList || command is HighlightList,
    ensures
        model(*s) == serve_spec(*s, *command).0,
        reply_view(r) == serve_spec(*s, *command).1,
{
    match command {
        ServerCommand::Decision => ServerReply::Decisions(selections(&s.files, &s.decisions)),
        ServerCommand::Info => ServerReply::Info {
            repo_path: s.repo_root.clone(),
            file_count: s.files.len(),
        },
        ServerCommand::CommentList => ServerReply::CommentList { comments: copy_comments(&s.comments) },
        _ => ServerReply::HighlightList { marks: copy_marks(&s.highlights) },
    }
}

/// The agent comment id numbered `n`.
fn agent_id(n: u64) -> (r: String)
    ensures
        r@ == comment_id(n as nat),
{
    let mut id = owned("c");
    id.append(u64_to_string(n).as_str());
    id
}

/// Mark an id as rendered.
fn mark_applied(applied: &mut Vec<String>, id: &str)
    ensures
        string_views(final(applied)@) == add_applied(string_views(old(applied)@), id@),
{
    if !strings_contain(applied, id) {
        let ghost before = string_views(applied@);
        applied.push(owned(id));
        proof {
            assert(string_views(applied@) =~= before.push(id@));
        }
    }
}

/// Record a new agent comment: rendered at once, optionally focused.
fn add_comment(s: &mut ServeState, entry: CommentEntry, focus: bool)
    ensures
        ({
            let m = model(*old(s));
            let c = comment_view(entry);
            model(*final(s)) == ServeModel {
                applied: add_applied(m.applied, c.0),
                notes: m.notes.push(comment_note_view(c)),
                focus: if focus { Some(comment_focus_view(c)) } else { m.focus },
                refocus: m.refocus || focus,
                comments: m.comments.push(c),
                ..m
            }
        }),
{
    mark_applied(&mut s.applied, entry.id.as_str());
    let ghost nb = note_views(s.notes@);
    let n = comment_note(&entry);
    s.notes.push(n);
    proof {
        assert(note_views(s.notes@) =~= nb.push(comment_note_view(comment_view(entry))));
    }
    if focus {
        s.focus = Some(comment_focus_target(&entry));
        s.refocus = true;
    }
    let ghost cb = comment_views(s.comments@);
    s.comments.push(entry);
    proof {
        assert(comment_views(s.comments@) =~= cb.push(comment_view(entry)));
    }
}

fn serve_comment_add(
    s: &mut ServeState,
    file: String,
    text: String,
    line: Option<u32>,
    hunk: Option<usize>,
    focus: bool,
) -> (r: ServerReply)
    requires
        old(s).next_comment < u64::MAX,
    ensures
        model(*final(s)) == serve_spec(*old(s), ServerCommand::CommentAdd { file, text, line, hunk, focus }).0,
        reply_view(r) == serve_spec(*old(s), ServerCommand::CommentAdd { file, text, line, hunk, focus }).1,
{
    let id = agent_id(s.next_comment);
    let entry = CommentEntry { id: id.clone(), file, text, line, hunk };
    add_comment(s, entry, focus);
    s.next_comment = s.next_comment + 1;
    let mut msg = owned("comment ");
    msg.append(id.as_str());
    msg.append(" added by agent");
    s.status = Some((ToastKind::Success, msg));
    ServerReply::CommentAdded { id }
}

proof fn lemma_no_user_note(un: Seq<(Seq<char>, NoteV)>, id: Seq<char>)
    requires
        user_note_of(un, id) is None,
    ensures
        drop_user_note(un, id) == un,
    decreases un.len(),
{
    if un.len() > 0 {
        lemma_no_user_note(un.drop_last(), id);
        assert(un.drop_last().push(un.last()) =~= un);
    }
}

fn serve_comment_rm(s: &mut ServeState, id: String) -> (r: ServerReply)
    ensures
        model(*final(s)) == serve_spec(*old(s), ServerCommand::CommentRm { id }).0,
        reply_view(r) == serve_spec(*old(s), ServerCommand::CommentRm { id }).1,
{
    proof {
        lemma_without_id(s.comments@, id@);
    }
    let found = comment_rm(&mut s.comments, id.as_str());
    if found {
        let ghost un = user_note_views(s.user_notes@);
        match remove_user_note(&mut s.user_notes, id.as_str()) {
            Some(note) => remove_first_note(&mut s.notes, &note),
            None => {
                proof {
                    lemma_no_user_note(un, id@);
                }
            },
        }
        ServerReply::Ack
    } else {
        let mut e = owned("comment ");
        e.append(id.as_str());
        e.append(" not found");
        ServerReply::Error(e)
    }
}

/// Render the comments not rendered yet; how many were.
fn apply_comments(cs: &Vec<CommentEntry>, applied: &mut Vec<String>, notes: &mut Vec<Note>) -> (k: usize)
    ensures
        (string_views(final(applied)@), note_views(final(notes)@), k as nat) == apply_pending(
            comment_views(cs@),
            string_views(old(applied)@),
            note_views(old(notes)@),
        ),
{
    let ghost cv = comment_views(cs@);
    let ghost a0 = string_views(applied@);
    let ghost n0 = note_views(notes@);
    let mut k: usize = 0;
    let mut i: usize = 0;
    while i < cs.len()
        invariant
            i <= cs.len(),
            k <= i,
            cv == comment_views(cs@),
            (string_views(applied@), note_views(notes@), k as nat) == apply_pending(
                cv.subrange(0, i as int),
                a0,
                n0,
            ),
        decreases cs.len() - i,
    {
        let c = &cs[i];
        proof {
            assert(cv.subrange(0, i + 1).drop_last() =~= cv.subrange(0, i as int));
            assert(cv.subrange(0, i + 1).last() == comment_view(*c));
        }
        if !strings_contain(applied, c.id.as_str()) {
            let ghost ab = string_views(applied@);
            let ghost nb = note_views(notes@);
            applied.push(c.id.clone());
            notes.push(comment_note(c));
            k = k + 1;
            proof {
                assert(string_views(applied@) =~= ab.push(c.id@));
                assert(note_views(notes@) =~= nb.push(comment_note_view(comment_view(*c))));
            }
        }
        i = i + 1;
    }
    proof {
        assert(cv.subrange(0, cv.len() as int) =~= cv);
    }
    k
}

fn serve_comment_apply(s: &mut ServeState) -> (r: ServerReply)
    ensures
        model(*final(s)) == serve_spec(*old(s), ServerCommand::CommentApply).0,
        reply_view(r) == serve_spec(*old(s), ServerCommand::CommentApply).1,
{
    let k = apply_comments(&s.comments, &mut s.applied, &mut s.notes);
    let mut msg = owned("comments applied (");
    msg.append(u64_to_string(k as u64).as_str());
    msg.append(" new)");
    s.status = Some((ToastKind::Success, msg));
    ServerReply::Ack
}

proof fn lemma_batch_entries(items: Seq<BatchComment>, n: nat)
    ensures
        batch_entries(items, n).len() == items.len(),
        forall|j: int|
            0 <= j < items.len() ==> #[trigger] batch_entries(items, n)[j] == (
                comment_id((n + j) as nat),
                items[j].file@,
                items[j].text@,
                items[j].line,
                items[j].hunk,
            ),
    decreases items.len(),
{
    if items.len() > 0 {
        lemma_batch_entries(items.drop_last(), n);
        assert forall|j: int| 0 <= j < items.len() - 1 implies items.drop_last()[j] == items[j] by {}
    }
}

/// Each batch item with its file's hunk count, for the check.
fn batch_check_items(files: &Vec<(String, usize)>, items: &Vec<BatchComment>) -> (r: Vec<
    (String, Option<usize>, Option<usize>),
>)
    ensures
        batch_view(r@) == batch_checks(files_view(files@), items@),
{
    let ghost want = batch_checks(files_view(files@), items@);
    let mut out: Vec<(String, Option<usize>, Option<usize>)> = Vec::new();
    let mut i: usize = 0;
    while i < items.len()
        invariant
            i <= items.len(),
            want == batch_checks(files_view(files@), items@),
            out@.len() == i,
            forall|j: int| 0 <= j < i ==> #[trigger] batch_view(out@)[j] == want[j],
        decreases items.len() - i,
    {
        let count = file_hunk_count(files, items[i].file.as_str());
        let ghost before = batch_view(out@);
        out.push((items[i].file.clone(), items[i].hunk, count));
        proof {
            assert(batch_view(out@) =~= before.push((items@[i as int].file@, items@[i as int].hunk, count)));
            assert(want[i as int] == (items@[i as int].file@, items@[i as int].hunk, count));
        }
        i = i + 1;
    }
    proof {
        assert(batch_view(out@) =~= want);
    }
    out
}

fn serve_comment_batch(s: &mut ServeState, comments: Vec<BatchComment>, focus: bool) -> (r: ServerReply)
    requires
        old(s).next_comment + comments@.len() <= u64::MAX,
    ensures
        model(*final(s)) == serve_spec(*old(s), ServerCommand::CommentApplyBatch { comments, focus }).0,
        reply_view(r) == serve_spec(*old(s), ServerCommand::CommentApplyBatch { comments, focus }).1,
{
    let checks = batch_check_items(&s.files, &comments);
    if let Some(e) = batch_error(&checks) {
        return ServerReply::Error(e);
    }
    let ghost m0 = model(*s);
    let ghost items = comments@;
    let n0 = s.next_comment;
    proof {
        lemma_batch_entries(items, n0 as nat);
    }
    let mut i: usize = 0;
    while i < comments.len()
        invariant
            i <= comments.len(),
            items == comments@,
            n0 == m0.next_comment,
            n0 + items.len() <= u64::MAX,
            model(*s) == ({
                let es = batch_entries(items.subrange(0, i as int), n0 as nat);
                ServeModel {
                    applied: add_applied_all(m0.applied, es),
                    notes: m0.notes + es.map_values(|c: CommentV| comment_note_view(c)),
                    comments: m0.comments + es,
                    ..m0
                }
            }),
        decreases comments.len() - i,
    {
        let b = &comments[i];
        let id = agent_id(n0 + i as u64);
        let entry = CommentEntry { id, file: b.file.clone(), text: b.text.clone(), line: b.line, hunk: b.hunk };
        let ghost es = batch_entries(items.subrange(0, i as int), n0 as nat);
        let ghost c = comment_view(entry);
        proof {
            assert(items.subrange(0, i + 1).drop_last() =~= items.subrange(0, i as int));
            assert(items.subrange(0, i + 1).last() == *b);
            assert(batch_entries(items.subrange(0, i + 1), n0 as nat) == es.push(c));
            assert(es.push(c).drop_last() =~= es);
            assert(m0.notes + es.push(c).map_values(|c: CommentV| comment_note_view(c)) =~= (m0.notes
                + es.map_values(|c: CommentV| comment_note_view(c))).push(comment_note_view(c)));
            assert(m0.comments + es.push(c) =~= (m0.comments + es).push(c));
        }
        add_comment(s, entry, false);
        i = i + 1;
    }
    proof {
        assert(items.subrange(0, items.len() as int) =~= items);
    }
    let n = comments.len();
    if focus && n > 0 {
        let b = &comments[0];
        let t = match b.hunk {
            Some(h) => FocusTarget::FileHunk(b.file.clone(), h),
            None => match b.line {
                Some(l) => FocusTarget::FileLine(b.file.clone(), l),
                None => FocusTarget::File(b.file.clone()),
            },
        };
        s.focus = Some(t);
        s.refocus = true;
    }
    s.next_comment = n0 + n as u64;
    let mut msg = u64_to_string(n as u64);
    msg.append(" comments applied by agent");
    s.status = Some((ToastKind::Success, msg));
    ServerReply::Ack
}

/// Drop the notes of the cleared comments, in order: a human comment's
/// paired note (every note equal to it), an agent comment's `id: ` notes.
fn clear_comment_notes(notes: &mut Vec<Note>, un: &mut Vec<(String, Note)>, ids: &Vec<String>)
    ensures
        (note_views(final(notes)@), user_note_views(final(un)@)) == clear_notes(
            note_views(old(notes)@),
            user_note_views(old(un)@),
            string_views(ids@),
        ),
{
    let ghost iv = string_views(ids@);
    let ghost n0 = note_views(notes@);
    let ghost u0 = user_note_views(un@);
    let mut i: usize = 0;
    while i < ids.len()
        invariant
            i <= ids.len(),
            iv == string_views(ids@),
            (note_views(notes@), user_note_views(un@)) == clear_notes(n0, u0, iv.subrange(0, i as int)),
        decreases ids.len() - i,
    {
        let id = ids[i].as_str();
        proof {
            assert(iv.subrange(0, i + 1).drop_last() =~= iv.subrange(0, i as int));
            assert(iv.subrange(0, i + 1).last() == id@);
        }
        let ghost nb = notes@;
        let ghost ub = user_note_views(un@);
        match remove_user_note(un, id) {
            Some(note) => remove_equal_notes(notes, &note),
            None => {
                drop_agent_notes(notes, id);
                proof {
                    lemma_drop_prefixed(nb, id@);
                    lemma_no_user_note(ub, id@);
                }
            },
        }
        i = i + 1;
    }
    proof {
        assert(iv.subrange(0, iv.len() as int) =~= iv);
    }
}

fn serve_comment_clear(s: &mut ServeState, file: Option<String>, all: bool) -> (r: ServerReply)
    ensures
        model(*final(s)) == serve_spec(*old(s), ServerCommand::CommentClear { file, all }).0,
        reply_view(r) == serve_spec(*old(s), ServerCommand::CommentClear { file, all }).1,
{
    let ghost cs = s.comments@;
    let f: Option<&str> = match &file {
        Some(x) => Some(x.as_str()),
        None => None,
    };
    let removed = comment_clear(&mut s.comments, f, all);
    if removed.len() == 0 {
        proof {
            lemma_nothing_cleared(cs, opt_str_view(f), all);
        }
        return ServerReply::Error(owned("no comments matched"));
    }
    clear_comment_notes(&mut s.notes, &mut s.user_notes, &removed);
    let n = removed.len();
    let mut msg = owned("cleared ");
    msg.append(u64_to_string(n as u64).as_str());
    msg.append(" comment(s)");
    s.status = Some((ToastKind::Success, msg));
    ServerReply::CommentCleared { removed: n }
}

fn serve_highlight_add(
    s: &mut ServeState,
    file: String,
    line: u32,
    start: usize,
    end: usize,
    tone: String,
    focus: bool,
) -> (r: ServerReply)
    ensures
        model(*final(s)) == serve_spec(
            *old(s),
            ServerCommand::HighlightAdd { file, line, start, end, tone, focus },
        ).0,
        reply_view(r) == serve_spec(
            *old(s),
            ServerCommand::HighlightAdd { file, line, start, end, tone, focus },
        ).1,
{
    if file_hunk_count(&s.files, file.as_str()).is_none() {
        let mut e = owned("highlight targets unknown file `");
        e.append(file.as_str());
        e.append("`");
        return ServerReply::Error(e);
    }
    if let Some(e) = highlight_range_error(start, end) {
        return ServerReply::Error(e);
    }
    let path = file.clone();
    let mark = match new_highlight_mark(file, line, start, end, tone, s.highlights.len()) {
        Ok(m) => m,
        Err(e) => {
            return ServerReply::Error(e);
        },
    };
    if focus {
        s.focus = Some(FocusTarget::FileLine(path, line));
        s.refocus = true;
    }
    s.status = status_text(ToastKind::Success, "attention mark painted by agent");
    let ghost before = mark_views(s.highlights@);
    s.highlights.push(mark);
    proof {
        assert(mark_views(s.highlights@) =~= before.push(mark_view(mark)));
    }
    ServerReply::Ack
}

fn serve_highlight_clear(s: &mut ServeState, file: Option<String>) -> (r: ServerReply)
    ensures
        model(*final(s)) == serve_spec(*old(s), ServerCommand::HighlightClear { file }).0,
        reply_view(r) == serve_spec(*old(s), ServerCommand::HighlightClear { file }).1,
{
    let ghost ms = s.highlights@;
    let f: Option<&str> = match &file {
        Some(x) => Some(x.as_str()),
        None => None,
    };
    let removed = clear_highlights(&mut s.highlights, f);
    proof {
        lemma_kept_marks(ms, opt_str_view(f));
    }
    if removed == 0 {
        return ServerReply::Error(owned("no marks matched"));
    }
    let mut msg = owned("cleared ");
    msg.append(u64_to_string(removed as u64).as_str());
    msg.append(" mark(s)");
    s.status = Some((ToastKind::Success, msg));
    ServerReply::HighlightCleared { removed }
}

/// Apply one serve command to the session and produce the reply for the
/// client. A batch is checked whole before anything changes; agent comment
/// ids count up from `next_comment`.
pub fn apply_server_command(s: &mut ServeState, command: ServerCommand) -> (reply: ServerReply)
    requires
        old(s).next_comment + ids_minted(command) <= u64::MAX,
    ensures
        model(*final(s)) == serve_spec(*old(s), command).0,
        reply_view(reply) == serve_spec(*old(s), command).1,
{
    match command {
        ServerCommand::Push { focus, notes } => serve_push(s, focus, notes),
        ServerCommand::Decision => serve_query(s, &ServerCommand::Decision),
        ServerCommand::Info => serve_query(s, &ServerCommand::Info),
        ServerCommand::Navigate { target } => serve_navigate(s, target),
        ServerCommand::CommentAdd { file, text, line, hunk, focus } => serve_comment_add(
            s,
            file,
            text,
            line,
            hunk,
            focus,
        ),
        ServerCommand::CommentList => serve_query(s, &ServerCommand::CommentList),
        ServerCommand::CommentRm { id } => serve_comment_rm(s, id),
        ServerCommand::CommentApply => serve_comment_apply(s),
        ServerCommand::CommentApplyBatch { comments, focus } => serve_comment_batch(s, comments, focus),
        ServerCommand::CommentClear { file, all } => serve_comment_clear(s, file, all),
        ServerCommand::HighlightAdd { file, line, start, end, tone, focus } => serve_highlight_add(
            s,
            file,
            line,
            start,
            end,
            tone,
            focus,
        ),
        ServerCommand::HighlightList => serve_query(s, &ServerCommand::HighlightList),
        ServerCommand::HighlightClear { file } => serve_highlight_clear(s, file),
    }
}

/// A comment batch with a bad item changes nothing: the session stays as it
/// was and the reply is the complaint about the first bad item.
pub proof fn law_batch_all_or_nothing(s: ServeState, comments: Vec<BatchComment>, focus: bool)
    requires
        batch_error_from(batch_checks(model(s).files, comments@), 0) is Some,
    ensures
        serve_spec(s, ServerCommand::CommentApplyBatch { comments, focus }).0 == model(s),
        serve_spec(s, ServerCommand::CommentApplyBatch { comments, focus }).1 == ReplyModel::Error(
            batch_error_from(batch_checks(model(s).files, comments@), 0)->0,
        ),
{
}

proof fn lemma_push_keeps(a: Seq<Seq<char>>, y: Seq<char>)
    ensures
        a.push(y).contains(y),
        forall|x: Seq<char>| a.contains(x) ==> a.push(y).contains(x),
{
    assert(a.push(y)[a.len() as int] == y);
    assert forall|x: Seq<char>| a.contains(x) implies a.push(y).contains(x) by {
        let t = choose|t: int| 0 <= t < a.len() && a[t] == x;
        assert(a.push(y)[t] == x);
    }
}

#[verifier::spinoff_prover]
proof fn lemma_apply_pending_covers(cs: Seq<CommentV>, a: Seq<Seq<char>>, n: Seq<NoteV>)
    ensures
        forall|x: Seq<char>| a.contains(x) ==> apply_pending(cs, a, n).0.contains(x),
        forall|j: int| 0 <= j < cs.len() ==> apply_pending(cs, a, n).0.contains(#[trigger] cs[j].0),
    decreases cs.len(),
{
    if cs.len() > 0 {
        let d = cs.drop_last();
        lemma_apply_pending_covers(d, a, n);
        let r = apply_pending(d, a, n);
        let c = cs.last();
        let res = apply_pending(cs, a, n).0;
        lemma_push_keeps(r.0, c.0);
        assert(res.contains(c.0));
        assert(forall|x: Seq<char>| r.0.contains(x) ==> res.contains(x));
        assert forall|j: int| 0 <= j < cs.len() implies res.contains(#[trigger] cs[j].0) by {
            if j < cs.len() - 1 {
                assert(d[j] == cs[j]);
                assert(r.0.contains(d[j].0));
            }
        }
    }
}

proof fn lemma_apply_pending_nothing_new(cs: Seq<CommentV>, a: Seq<Seq<char>>, n: Seq<NoteV>)
    requires
        forall|j: int| 0 <= j < cs.len() ==> a.contains(#[trigger] cs[j].0),
    ensures
        apply_pending(cs, a, n) == (a, n, 0nat),
    decreases cs.len(),
{
    if cs.len() > 0 {
        let d = cs.drop_last();
        assert forall|j: int| 0 <= j < d.len() implies a.contains(#[trigger] d[j].0) by {
            assert(d[j] == cs[j]);
        }
        lemma_apply_pending_nothing_new(d, a, n);
        assert(a.contains(cs[cs.len() - 1].0));
    }
}

/// Applying the comments a second time renders nothing new: the rendered
/// ids and the notes stay, and the status reports no new comment.
pub proof fn law_apply_twice(s1: ServeState, s2: ServeState)
    requires
        model(s2) == serve_spec(s1, ServerCommand::CommentApply).0,
    ensures
        serve_spec(s2, ServerCommand::CommentApply).0 == (ServeModel {
            status: Some((ToastKind::Success, "comments applied (0 new)"@)),
            ..model(s2)
        }),
{
    let m = model(s1);
    lemma_apply_pending_covers(m.comments, m.applied, m.notes);
    let r = apply_pending(m.comments, m.applied, m.notes);
    assert(model(s2).comments == m.comments);
    lemma_apply_pending_nothing_new(m.comments, r.0, r.1);
    assert(decimal(0) == seq!['0']);
    assert("comments applied ("@ + decimal(0) + " new)"@ =~= "comments applied (0 new)"@) by {
        reveal_strlit("comments applied (");
        reveal_strlit(" new)");
        reveal_strlit("comments applied (0 new)");
    }
}

proof fn lemma_drop_user_note(un: Seq<(Seq<char>, NoteV)>, x: Seq<char>, y: Seq<char>)
    ensures
        user_note_of(drop_user_note(un, x), y) == if x == y {
            None
        } else {
            user_note_of(un, y)
        },
    decreases un.len(),
{
    if un.len() > 0 {
        lemma_drop_user_note(un.drop_last(), x, y);
        let before = drop_user_note(un.drop_last(), x);
        if un.last().0 != x {
            assert(before.push(un.last()).drop_last() =~= before);
        }
    }
}

proof fn lemma_without_id_gone(cs: Seq<CommentEntry>, id: Seq<char>)
    ensures
        forall|j: int| 0 <= j < without_id(cs, id).len() ==> (#[trigger] without_id(cs, id)[j]).id@ != id,
    decreases cs.len(),
{
    if cs.len() > 0 {
        lemma_without_id_gone(cs.drop_last(), id);
    }
}

/// Once `comment rm` has taken a comment out, no comment with that id is
/// left and no human note is paired with it.
pub proof fn law_rm_takes_paired_note(s: ServeState, id: String)
    ensures
        ({
            let after = serve_spec(s, ServerCommand::CommentRm { id }).0;
            serve_spec(s, ServerCommand::CommentRm { id }).1 == ReplyModel::Ack ==> {
                &&& forall|j: int| 0 <= j < after.comments.len() ==> (#[trigger] after.comments[j]).0 != id@
                &&& user_note_of(after.user_notes, id@) is None
            }
        }),
{
    let m = model(s);
    lemma_without_id_gone(s.comments@, id@);
    lemma_drop_user_note(m.user_notes, id@, id@);
}

proof fn lemma_clear_notes_unpairs(ns: Seq<NoteV>, un: Seq<(Seq<char>, NoteV)>, ids: Seq<Seq<char>>)
    ensures
        forall|j: int| 0 <= j < ids.len() ==> user_note_of(clear_notes(ns, un, ids).1, #[trigger] ids[j]) is None,
    decreases ids.len(),
{
    if ids.len() > 0 {
        let d = ids.drop_last();
        lemma_clear_notes_unpairs(ns, un, d);
        let (n0, u0) = clear_notes(ns, un, d);
        let id = ids.last();
        assert forall|j: int| 0 <= j < ids.len() implies user_note_of(
            clear_notes(ns, un, ids).1,
            #[trigger] ids[j],
        ) is None by {
            if j < ids.len() - 1 {
                assert(ids[j] == d[j]);
                assert(user_note_of(u0, d[j]) is None);
            }
            match user_note_of(u0, id) {
                Some(_) => lemma_drop_user_note(u0, id, ids[j]),
                None => {},
            }
        }
    }
}

proof fn lemma_kept_out_of_scope(cs: Seq<CommentEntry>, file: Option<Seq<char>>, all: bool)
    ensures
        forall|j: int|
            0 <= j < kept_comments(cs, file, all).len() ==> !comment_in_scope(
                #[trigger] kept_comments(cs, file, all)[j],
                file,
                all,
            ),
    decreases cs.len(),
{
    if cs.len() > 0 {
        let d = cs.drop_last();
        lemma_kept_out_of_scope(d, file, all);
        let before = kept_comments(d, file, all);
        let k = kept_comments(cs, file, all);
        assert forall|j: int| 0 <= j < k.len() implies !comment_in_scope(#[trigger] k[j], file, all) by {
            if j < before.len() {
                assert(k[j] == before[j]);
            }
        }
    }
}

/// Once `comment clear` has run, no comment left is in its scope, and no
/// cleared comment keeps a paired human note.
pub proof fn law_clear_takes_paired_notes(s: ServeState, file: Option<String>, all: bool)
    ensures
        ({
            let fv = match file {
                Some(f) => Some(f@),
                None => None::<Seq<char>>,
            };
            let removed = cleared_ids(s.comments@, fv, all);
            let after = serve_spec(s, ServerCommand::CommentClear { file, all }).0;
            removed.len() > 0 ==> {
                &&& forall|j: int|
                    0 <= j < kept_comments(s.comments@, fv, all).len() ==> !comment_in_scope(
                        #[trigger] kept_comments(s.comments@, fv, all)[j],
                        fv,
                        all,
                    )
                &&& after.comments == comment_views(kept_comments(s.comments@, fv, all))
                &&& forall|j: int| 0 <= j < removed.len() ==> user_note_of(after.user_notes, #[trigger] removed[j]) is None
            }
        }),
{
    let fv = match file {
        Some(f) => Some(f@),
        None => None::<Seq<char>>,
    };
    let m = model(s);
    lemma_kept_out_of_scope(s.comments@, fv, all);
    lemma_clear_notes_unpairs(m.notes, m.user_notes, cleared_ids(s.comments@, fv, all));
}

/// Whether each mark's id is `hl` and its position.
pub open spec fn marks_numbered(marks: Seq<MarkV>) -> bool {
    forall|j: int| 0 <= j < marks.len() ==> (#[trigger] marks[j]).0 == "hl"@ + decimal(j as nat)
}

/// Attention-mark ids count up: marks numbered `hl0`, `hl1`, … stay so
/// when `highlight add` paints a new one.
pub proof fn law_highlight_ids_count_up(
    s: ServeState,
    file: String,
    line: u32,
    start: usize,
    end: usize,
    tone: String,
    focus: bool,
)
    requires
        marks_numbered(model(s).marks),
    ensures
        marks_numbered(
            serve_spec(s, ServerCommand::HighlightAdd { file, line, start, end, tone, focus }).0.marks,
        ),
{
    let m = model(s);
    let after = serve_spec(s, ServerCommand::HighlightAdd { file, line, start, end, tone, focus }).0.marks;
    assert forall|j: int| 0 <= j < after.len() implies (#[trigger] after[j]).0 == "hl"@ + decimal(j as nat) by {
        if j < m.marks.len() {
            assert(after[j] == m.marks[j]);
        }
    }
}

} // verus!
