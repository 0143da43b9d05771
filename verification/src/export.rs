//! Structured review export on TUI quit: an agent-readable report that
//! extends the `--select` / `decision` JSON (`accepted` / `rejected` /
//! `undecided`) with session comments and a banner summary, and its
//! Markdown rendering. Serializing the report and writing it out belong to
//! the front end.

use vstd::prelude::*;
use vstd::multiset::Multiset;
use crate::app::{CommentEntry, Note, NoteTarget, Selections};
use crate::paths::{
    join_spec, path_extension, path_extension_spec, path_file_stem, path_file_stem_spec,
    path_join, path_parent, path_parent_spec, path_with_extension, path_with_extension_spec,
};
use crate::text::{
    ascii_lower_seq, decimal, opt_str_view, opt_string_view, owned, str_chars, str_eq,
    str_to_ascii_lowercase, string_from_chars, string_views, join_strings, join_with, u64_to_string,
};

verus! {

/// Full review report emitted on quit. The three decision arrays keep the
/// names/shape of the `--select` quit output; `comments` holds the session
/// comments plus synthetic `note-N` entries for non-banner agent notes, and
/// `banner` the joined banner-note text.
#[derive(Debug, Clone, PartialEq, Eq)]
pub struct ReviewReport {
    pub accepted: Vec<String>,
    pub rejected: Vec<String>,
    pub undecided: Vec<String>,
    pub comments: Vec<CommentEntry>,
    pub banner: Option<String>,
}

/// A copy of a list of strings.
pub fn clone_strings(v: &Vec<String>) -> (r: Vec<String>)
    ensures
        r@ == v@,
{
    let mut out: Vec<String> = Vec::new();
    let mut i: usize = 0;
    while i < v.len()
        invariant
            0 <= i <= v.len(),
            out@ == v@.subrange(0, i as int),
        decreases v.len() - i,
    {
        out.push(v[i].clone());
        proof {
            assert(out@ =~= v@.subrange(0, i + 1));
        }
        i = i + 1;
    }
    proof {
        assert(v@.subrange(0, v@.len() as int) =~= v@);
    }
    out
}

/// A copy of a comment entry.
pub fn clone_comment(c: &CommentEntry) -> (r: CommentEntry)
    ensures
        r == *c,
{
    CommentEntry {
        id: c.id.clone(),
        file: c.file.clone(),
        text: c.text.clone(),
        line: c.line,
        hunk: c.hunk,
    }
}

impl ReviewReport {
    /// Project down to the legacy [`Selections`] shape (decision arrays only).
    pub fn as_selections(&self) -> (s: Selections)
        ensures
            s.accepted@ == self.accepted@,
            s.rejected@ == self.rejected@,
            s.undecided@ == self.undecided@,
    {
        Selections {
            accepted: clone_strings(&self.accepted),
            rejected: clone_strings(&self.rejected),
            undecided: clone_strings(&self.undecided),
        }
    }
}

/// A note target as plain values: kind (0 line, 1 hunk, 2 banner), path,
/// ordinal.
pub open spec fn target_view(t: NoteTarget) -> (u8, Seq<char>, int) {
    match t {
        NoteTarget::Line { path, line } => (0u8, path@, line as int),
        NoteTarget::Hunk { path, hunk } => (1u8, path@, hunk as int),
        NoteTarget::Banner => (2u8, Seq::empty(), 0),
    }
}

/// A note as plain values: target and text.
pub open spec fn note_view(n: Note) -> ((u8, Seq<char>, int), Seq<char>) {
    (target_view(n.target), n.text@)
}

/// A comment entry as plain values.
pub open spec fn comment_view(c: CommentEntry) -> (Seq<char>, Seq<char>, Seq<char>, Option<u32>, Option<usize>) {
    (c.id@, c.file@, c.text@, c.line, c.hunk)
}

pub open spec fn comment_views(v: Seq<CommentEntry>) -> Seq<(Seq<char>, Seq<char>, Seq<char>, Option<u32>, Option<usize>)> {
    v.map_values(|c: CommentEntry| comment_view(c))
}

/// The notes of a list, as a multiset of plain values.
pub open spec fn note_multiset(v: Seq<Note>) -> Multiset<((u8, Seq<char>, int), Seq<char>)>
    decreases v.len(),
{
    if v.len() == 0 {
        Multiset::empty()
    } else {
        note_multiset(v.drop_last()).insert(note_view(v.last()))
    }
}

/// The id of the `n`-th synthetic comment made from an agent note.
pub open spec fn note_comment_id(n: nat) -> Seq<char> {
    "note-"@ + decimal(n)
}

/// The state after folding notes into a report: human mirrors not yet
/// matched, synthetic comments made, banner texts collected.
pub struct ReportFold {
    pub mirrors: Multiset<((u8, Seq<char>, int), Seq<char>)>,
    pub made: Seq<(Seq<char>, Seq<char>, Seq<char>, Option<u32>, Option<usize>)>,
    pub banner: Seq<Seq<char>>,
}

/// Fold the agent notes, in order, into the report. A note that equals (by
/// target and text) a still-unmatched human note is that human note's
/// mirror: it consumes exactly one such human note and is skipped (the human
/// note is already among the comments). Otherwise a banner note contributes
/// its text when non-empty, and a line or hunk note becomes the synthetic
/// comment `note-K` (K counting these from 0).
pub open spec fn fold_notes(notes: Seq<Note>, users: Seq<Note>) -> ReportFold
    decreases notes.len(),
{
    if notes.len() == 0 {
        ReportFold { mirrors: note_multiset(users), made: Seq::empty(), banner: Seq::empty() }
    } else {
        let prev = fold_notes(notes.drop_last(), users);
        let n = notes.last();
        if prev.mirrors.count(note_view(n)) > 0 {
            ReportFold { mirrors: prev.mirrors.remove(note_view(n)), ..prev }
        } else {
            match n.target {
                NoteTarget::Banner => if n.text@.len() > 0 {
                    ReportFold { banner: prev.banner.push(n.text@), ..prev }
                } else {
                    prev
                },
                NoteTarget::Line { path, line } => ReportFold {
                    made: prev.made.push(
                        (note_comment_id(prev.made.len()), path@, n.text@, Some(line), None),
                    ),
                    ..prev
                },
                NoteTarget::Hunk { path, hunk } => ReportFold {
                    made: prev.made.push(
                        (note_comment_id(prev.made.len()), path@, n.text@, None, Some(hunk)),
                    ),
                    ..prev
                },
            }
        }
    }
}

/// The banner of a report: the collected banner texts joined with `"; "`,
/// or none when there are none.
pub open spec fn banner_of(parts: Seq<Seq<char>>) -> Option<Seq<char>> {
    if parts.len() == 0 {
        None
    } else {
        Some(join_with(parts, "; "@))
    }
}


pub(crate) fn note_eq(a: &Note, b: &Note) -> (r: bool)
    ensures
        r == (note_view(*a) == note_view(*b)),
{
    let same_target = match (&a.target, &b.target) {
        (NoteTarget::Line { path: p1, line: l1 }, NoteTarget::Line { path: p2, line: l2 }) => {
            *l1 == *l2 && str_eq(p1.as_str(), p2.as_str())
        },
        (NoteTarget::Hunk { path: p1, hunk: h1 }, NoteTarget::Hunk { path: p2, hunk: h2 }) => {
            *h1 == *h2 && str_eq(p1.as_str(), p2.as_str())
        },
        (NoteTarget::Banner, NoteTarget::Banner) => true,
        _ => false,
    };
    same_target && str_eq(a.text.as_str(), b.text.as_str())
}

/// The multiset of the notes not yet consumed.
pub open spec fn unconsumed(users: Seq<Note>, consumed: Seq<bool>) -> Multiset<((u8, Seq<char>, int), Seq<char>)>
    decreases users.len(),
{
    if users.len() == 0 || consumed.len() == 0 {
        Multiset::empty()
    } else {
        let rest = unconsumed(users.drop_last(), consumed.drop_last());
        if consumed.last() {
            rest
        } else {
            rest.insert(note_view(users.last()))
        }
    }
}

proof fn lemma_unconsumed_all(users: Seq<Note>, consumed: Seq<bool>)
    requires
        users.len() == consumed.len(),
        forall|i: int| 0 <= i < consumed.len() ==> !consumed[i],
    ensures
        unconsumed(users, consumed) == note_multiset(users),
    decreases users.len(),
{
    if users.len() > 0 {
        lemma_unconsumed_all(users.drop_last(), consumed.drop_last());
    }
}

proof fn lemma_unconsumed_count(users: Seq<Note>, consumed: Seq<bool>, v: ((u8, Seq<char>, int), Seq<char>))
    requires
        users.len() == consumed.len(),
    ensures
        unconsumed(users, consumed).count(v) > 0 <==> exists|j: int|
            0 <= j < users.len() && !consumed[j] && note_view(users[j]) == v,
    decreases users.len(),
{
    if users.len() > 0 {
        let u = users.drop_last();
        let c = consumed.drop_last();
        lemma_unconsumed_count(u, c, v);
        if unconsumed(users, consumed).count(v) > 0 {
            if unconsumed(u, c).count(v) > 0 {
                let j = choose|j: int| 0 <= j < u.len() && !c[j] && note_view(u[j]) == v;
                assert(users[j] == u[j] && consumed[j] == c[j]);
            } else {
                let j = users.len() - 1;
                assert(!consumed[j] && note_view(users[j]) == v);
            }
        } else {
            if exists|j: int| 0 <= j < users.len() && !consumed[j] && note_view(users[j]) == v {
                let j = choose|j: int|
                    0 <= j < users.len() && !consumed[j] && note_view(users[j]) == v;
                if j < users.len() - 1 {
                    assert(u[j] == users[j] && c[j] == consumed[j]);
                }
                assert(false);
            }
        }
    }
}

proof fn lemma_unconsumed_consume(users: Seq<Note>, consumed: Seq<bool>, j: int)
    requires
        users.len() == consumed.len(),
        0 <= j < users.len(),
        !consumed[j],
    ensures
        unconsumed(users, consumed.update(j, true)) == unconsumed(users, consumed).remove(
            note_view(users[j]),
        ),
    decreases users.len(),
{
    let c2 = consumed.update(j, true);
    if j == users.len() - 1 {
        assert(c2.drop_last() =~= consumed.drop_last());
    } else {
        assert(c2.drop_last() =~= consumed.drop_last().update(j, true));
        lemma_unconsumed_consume(users.drop_last(), consumed.drop_last(), j);
        lemma_unconsumed_count(users.drop_last(), consumed.drop_last(), note_view(users[j]));
        assert(users.drop_last()[j] == users[j]);
        assert(consumed.drop_last()[j] == consumed[j]);
        assert(!consumed.drop_last()[j] && note_view(users.drop_last()[j]) == note_view(users[j]));
        let rest = unconsumed(users.drop_last(), consumed.drop_last());
        assert(rest.count(note_view(users[j])) > 0);
        if !consumed.last() {
            assert(rest.insert(note_view(users.last())).remove(note_view(users[j])) =~= rest.remove(
                note_view(users[j]),
            ).insert(note_view(users.last())));
        }
    }
}

fn note_comment_id_string(n: usize) -> (r: String)
    ensures
        r@ == note_comment_id(n as nat),
{
    let mut out = owned("note-");
    let d = u64_to_string(n as u64);
    out.append(d.as_str());
    out
}

/// Build a [`ReviewReport`] from decisions, session comments, agent notes
/// and the human-composed notes (the values of the `user:N` map, which are
/// already mirrored into `comments`).
///
/// - Decisions: copied from `selections`.
/// - Comments: the session comments first, then a synthetic `note-K` entry
///   for each line/hunk note; a note that mirrors a human note is skipped,
///   each human note absorbing exactly one mirror.
/// - Banner: non-empty banner note texts joined with `"; "`.
pub fn build_report(
    selections: &Selections,
    comments: &[CommentEntry],
    notes: &[Note],
    user_notes: &[Note],
) -> (r: ReviewReport)
    ensures
        r.accepted@ == selections.accepted@,
        r.rejected@ == selections.rejected@,
        r.undecided@ == selections.undecided@,
        comment_views(r.comments@) == comment_views(comments@) + fold_notes(
            notes@,
            user_notes@,
        ).made,
        opt_string_view(r.banner) == banner_of(fold_notes(notes@, user_notes@).banner),
{
    let mut consumed: Vec<bool> = Vec::new();
    let mut k: usize = 0;
    while k < user_notes.len()
        invariant
            0 <= k <= user_notes.len(),
            consumed@.len() == k,
            forall|i: int| 0 <= i < k ==> !consumed@[i],
        decreases user_notes.len() - k,
    {
        consumed.push(false);
        k = k + 1;
    }
    proof {
        lemma_unconsumed_all(user_notes@, consumed@);
    }
    let mut out_comments: Vec<CommentEntry> = Vec::new();
    let mut c: usize = 0;
    while c < comments.len()
        invariant
            0 <= c <= comments.len(),
            out_comments@ == comments@.subrange(0, c as int),
        decreases comments.len() - c,
    {
        out_comments.push(clone_comment(&comments[c]));
        proof {
            assert(out_comments@ =~= comments@.subrange(0, c + 1));
        }
        c = c + 1;
    }
    proof {
        assert(comments@.subrange(0, comments@.len() as int) =~= comments@);
    }
    let ghost base = comment_views(comments@);
    let mut banner_parts: Vec<String> = Vec::new();
    let mut made: usize = 0;
    let mut i: usize = 0;
    while i < notes.len()
        invariant
            0 <= i <= notes.len(),
            consumed@.len() == user_notes@.len(),
            made <= i,
            ({
                let f = fold_notes(notes@.subrange(0, i as int), user_notes@);
                &&& f.mirrors == unconsumed(user_notes@, consumed@)
                &&& comment_views(out_comments@) == base + f.made
                &&& f.made.len() == made
                &&& banner_parts@.map_values(|s: String| s@) == f.banner
            }),
        decreases notes.len() - i,
    {
        let ghost prev = fold_notes(notes@.subrange(0, i as int), user_notes@);
        proof {
            assert(notes@.subrange(0, i + 1).drop_last() =~= notes@.subrange(0, i as int));
            assert(notes@.subrange(0, i + 1).last() == notes@[i as int]);
        }
        let note = &notes[i];
        // find an unconsumed human mirror of this note
        let mut j: usize = 0;
        let mut found = false;
        while j < user_notes.len()
            invariant
                0 <= j <= user_notes.len(),
                consumed@.len() == user_notes@.len(),
                !found ==> forall|t: int|
                    0 <= t < j ==> consumed@[t] || note_view(user_notes@[t]) != note_view(*note),
                found ==> j < user_notes.len() && !consumed@[j as int] && note_view(
                    user_notes@[j as int],
                ) == note_view(*note),
            ensures
                !found ==> forall|t: int|
                    0 <= t < user_notes.len() ==> consumed@[t] || note_view(user_notes@[t])
                        != note_view(*note),
                found ==> j < user_notes.len() && !consumed@[j as int] && note_view(
                    user_notes@[j as int],
                ) == note_view(*note),
            decreases user_notes.len() - j,
        {
            if !consumed[j] && note_eq(&user_notes[j], note) {
                found = true;
                break;
            }
            j = j + 1;
        }
        proof {
            lemma_unconsumed_count(user_notes@, consumed@, note_view(*note));
        }
        if found {
            proof {
                lemma_unconsumed_consume(user_notes@, consumed@, j as int);
            }
            consumed.set(j, true);
        } else {
            match &note.target {
                NoteTarget::Banner => {
                    if !note.text.as_str().is_empty() {
                        banner_parts.push(note.text.clone());
                        proof {
                            assert(banner_parts@.map_values(|s: String| s@) =~= prev.banner.push(
                                note.text@,
                            ));
                        }
                    }
                },
                NoteTarget::Line { path, line } => {
                    proof {
                        let f2 = fold_notes(notes@.subrange(0, i + 1), user_notes@);
                        assert(prev.mirrors.count(note_view(*note)) == 0);
                        assert(f2.made == prev.made.push((note_comment_id(made as nat), path@, note.text@, Some(*line), None)));
                    }
                    let entry = CommentEntry {
                        id: note_comment_id_string(made),
                        file: path.clone(),
                        text: note.text.clone(),
                        line: Some(*line),
                        hunk: None,
                    };
                    let ghost old_out = out_comments@;
                    let ghost ev = comment_view(entry);
                    out_comments.push(entry);
                    made = made + 1;
                    proof {
                        assert(comment_views(out_comments@) =~= comment_views(old_out).push(ev));
                        assert(comment_views(out_comments@) =~= base + fold_notes(
                            notes@.subrange(0, i + 1),
                            user_notes@,
                        ).made);
                    }
                },
                NoteTarget::Hunk { path, hunk } => {
                    proof {
                        let f2 = fold_notes(notes@.subrange(0, i + 1), user_notes@);
                        assert(f2.made == prev.made.push((note_comment_id(made as nat), path@, note.text@, None, Some(*hunk))));
                    }
                    let entry = CommentEntry {
                        id: note_comment_id_string(made),
                        file: path.clone(),
                        text: note.text.clone(),
                        line: None,
                        hunk: Some(*hunk),
                    };
                    let ghost old_out = out_comments@;
                    let ghost ev = comment_view(entry);
                    out_comments.push(entry);
                    made = made + 1;
                    proof {
                        assert(comment_views(out_comments@) =~= comment_views(old_out).push(ev));
                        assert(comment_views(out_comments@) =~= base + fold_notes(
                            notes@.subrange(0, i + 1),
                            user_notes@,
                        ).made);
                    }
                },
            }
        }
        i = i + 1;
    }
    proof {
        assert(notes@.subrange(0, notes@.len() as int) =~= notes@);
    }
    let banner = if banner_parts.len() == 0 {
        None
    } else {
        Some(join_strings(&banner_parts, "; "))
    };
    ReviewReport {
        accepted: clone_strings(&selections.accepted),
        rejected: clone_strings(&selections.rejected),
        undecided: clone_strings(&selections.undecided),
        comments: out_comments,
        banner,
    }
}

} // verus!

verus! {

/// A line without the `\r` of a `\r\n` ending.
pub open spec fn strip_cr(l: Seq<char>) -> Seq<char> {
    if l.len() > 0 && l.last() == '\r' {
        l.drop_last()
    } else {
        l
    }
}

/// `str::lines` over the rest `s` of a text whose current line so far is
/// `cur`: lines end at `\n` (an ending `\r\n` loses its `\r`); the last line
/// needs no ending, and an empty last line is no line.
pub open spec fn lines_from(s: Seq<char>, cur: Seq<char>) -> Seq<Seq<char>>
    decreases s.len(),
{
    if s.len() == 0 {
        if cur.len() == 0 {
            Seq::empty()
        } else {
            seq![cur]
        }
    } else if s[0] == '\n' {
        seq![strip_cr(cur)] + lines_from(s.drop_first(), Seq::empty())
    } else {
        lines_from(s.drop_first(), cur.push(s[0]))
    }
}

/// The lines of a text, as `str::lines` yields them.
pub open spec fn lines_spec(s: Seq<char>) -> Seq<Seq<char>> {
    lines_from(s, Seq::empty())
}

/// Lines rendered as a Markdown blockquote: each becomes `> line\n`.
pub open spec fn quote_lines(ls: Seq<Seq<char>>) -> Seq<char>
    decreases ls.len(),
{
    if ls.len() == 0 {
        Seq::empty()
    } else {
        "> "@ + ls[0] + "\n"@ + quote_lines(ls.drop_first())
    }
}

/// Markdown bullets for hunk keys: `` - `key` `` per line.
pub open spec fn bullets(keys: Seq<Seq<char>>) -> Seq<char>
    decreases keys.len(),
{
    if keys.len() == 0 {
        Seq::empty()
    } else {
        bullets(keys.drop_last()) + "- `"@ + keys.last() + "`\n"@
    }
}

/// A decision section: heading, then the bullets or `_(none)_`.
pub open spec fn decision_section(title: Seq<char>, keys: Seq<Seq<char>>) -> Seq<char> {
    "\n### "@ + title + "\n\n"@ + if keys.len() == 0 {
        "_(none)_\n"@
    } else {
        bullets(keys)
    }
}

/// Where a comment points: `file:line`, `file:hN`, the file, or `banner`
/// for a comment without a file.
pub open spec fn comment_where(c: CommentEntry) -> Seq<char> {
    match (c.line, c.hunk) {
        (Some(line), _) => c.file@ + ":"@ + decimal(line as nat),
        (None, Some(hunk)) => c.file@ + ":h"@ + decimal(hunk as nat),
        (None, None) => if c.file@.len() == 0 {
            "banner"@
        } else {
            c.file@
        },
    }
}

/// A comment block: heading with id and location, then the body as a
/// blockquote, then a blank line.
pub open spec fn comment_block(c: CommentEntry) -> Seq<char> {
    "\n### `"@ + c.id@ + "` — "@ + comment_where(c) + "\n\n"@ + quote_lines(lines_spec(c.text@))
        + "\n"@
}

pub open spec fn comment_blocks(cs: Seq<CommentEntry>) -> Seq<char>
    decreases cs.len(),
{
    if cs.len() == 0 {
        Seq::empty()
    } else {
        comment_blocks(cs.drop_last()) + comment_block(cs.last())
    }
}

/// The Markdown form of a report.
pub open spec fn markdown_spec(r: ReviewReport) -> Seq<char> {
    "# next-hunk review report\n"@ + match r.banner {
        Some(b) => "\n## Banner\n\n"@ + b@ + "\n"@,
        None => Seq::empty(),
    } + "\n## Decisions\n"@ + decision_section("Accepted"@, string_views(r.accepted@))
        + decision_section("Rejected"@, string_views(r.rejected@)) + decision_section(
        "Undecided"@,
        string_views(r.undecided@),
    ) + "\n## Comments\n"@ + if r.comments@.len() == 0 {
        "\n_(none)_\n"@
    } else {
        comment_blocks(r.comments@)
    }
}

fn append_quoted(out: &mut String, text: &str)
    ensures
        final(out)@ == old(out)@ + quote_lines(lines_spec(text@)),
{
    let chars = str_chars(text);
    let mut cur: Vec<char> = Vec::new();
    let mut k: usize = 0;
    proof {
        assert(chars@.skip(0) =~= chars@);
    }
    while k < chars.len()
        invariant
            0 <= k <= chars.len(),
            chars@ == text@,
            out@ + quote_lines(lines_from(chars@.skip(k as int), cur@)) == old(out)@
                + quote_lines(lines_spec(text@)),
        decreases chars.len() - k,
    {
        let c = chars[k];
        let ghost rest = chars@.skip(k as int);
        proof {
            assert(rest[0] == c);
            assert(rest.drop_first() =~= chars@.skip(k + 1));
        }
        if c == '\n' {
            if cur.len() > 0 && cur[cur.len() - 1] == '\r' {
                cur.pop();
            }
            let line = string_from_chars(cur.as_slice());
            let ghost before = out@;
            out.append("> ");
            out.append(line.as_str());
            out.append("\n");
            proof {
                let tail = lines_from(chars@.skip(k + 1), Seq::empty());
                let ls = seq![line@] + tail;
                assert(ls[0] == line@);
                assert(ls.drop_first() =~= tail);
                assert(out@ =~= before + ("> "@ + line@ + "\n"@));
                assert(out@ + quote_lines(tail) =~= before + quote_lines(ls));
            }
            cur = Vec::new();
        } else {
            cur.push(c);
        }
        k = k + 1;
    }
    proof {
        assert(chars@.skip(k as int) =~= Seq::<char>::empty());
    }
    if cur.len() > 0 {
        let line = string_from_chars(cur.as_slice());
        let ghost before = out@;
        out.append("> ");
        out.append(line.as_str());
        out.append("\n");
        proof {
            let ls = seq![line@];
            assert(ls.drop_first() =~= Seq::<Seq<char>>::empty());
            assert(quote_lines(ls.drop_first()) =~= Seq::<char>::empty());
            assert(ls[0] == line@);
            assert(quote_lines(ls) =~= "> "@ + line@ + "\n"@);
            assert(lines_from(Seq::<char>::empty(), cur@) == ls);
            assert(out@ =~= before + quote_lines(ls));
        }
    } else {
        proof {
            assert(quote_lines(lines_from(Seq::<char>::empty(), cur@)) =~= Seq::<char>::empty());
            assert(out@ + Seq::<char>::empty() =~= out@);
        }
    }
}

fn append_decision_section(out: &mut String, title: &str, keys: &Vec<String>)
    ensures
        final(out)@ == old(out)@ + decision_section(title@, string_views(keys@)),
{
    out.append("\n### ");
    out.append(title);
    out.append("\n\n");
    let ghost head = out@;
    if keys.len() == 0 {
        out.append("_(none)_\n");
        proof {
            assert(out@ =~= old(out)@ + decision_section(title@, string_views(keys@)));
        }
    } else {
        let mut i: usize = 0;
        while i < keys.len()
            invariant
                0 <= i <= keys.len(),
                out@ == head + bullets(string_views(keys@.subrange(0, i as int))),
            decreases keys.len() - i,
        {
            out.append("- `");
            out.append(keys[i].as_str());
            out.append("`\n");
            proof {
                let ks = string_views(keys@.subrange(0, i + 1));
                assert(ks.drop_last() =~= string_views(keys@.subrange(0, i as int)));
                assert(ks.last() == keys@[i as int]@);
                assert(out@ =~= head + bullets(ks));
            }
            i = i + 1;
        }
        proof {
            assert(keys@.subrange(0, keys@.len() as int) =~= keys@);
            assert(out@ =~= old(out)@ + decision_section(title@, string_views(keys@)));
        }
    }
}

fn comment_where_string(c: &CommentEntry) -> (r: String)
    ensures
        r@ == comment_where(*c),
{
    match (c.line, c.hunk) {
        (Some(line), _) => {
            let mut out = c.file.clone();
            out.append(":");
            let d = u64_to_string(line as u64);
            out.append(d.as_str());
            out
        },
        (None, Some(hunk)) => {
            let mut out = c.file.clone();
            out.append(":h");
            let d = u64_to_string(hunk as u64);
            out.append(d.as_str());
            out
        },
        (None, None) => {
            if c.file.as_str().is_empty() {
                owned("banner")
            } else {
                c.file.clone()
            }
        },
    }
}

/// Render a Markdown report suitable for pasting into an agent prompt or a
/// PR description. Comment bodies are blockquoted line by line, so a
/// multi-line note keeps its structure and a line starting with `#` cannot
/// become a heading of the report.
pub fn to_markdown(report: &ReviewReport) -> (md: String)
    ensures
        md@ == markdown_spec(*report),
{
    let mut out = owned("# next-hunk review report\n");
    match &report.banner {
        Some(banner) => {
            out.append("\n## Banner\n\n");
            out.append(banner.as_str());
            out.append("\n");
        },
        None => {},
    }
    let ghost after_banner = out@;
    out.append("\n## Decisions\n");
    append_decision_section(&mut out, "Accepted", &report.accepted);
    append_decision_section(&mut out, "Rejected", &report.rejected);
    append_decision_section(&mut out, "Undecided", &report.undecided);
    out.append("\n## Comments\n");
    let ghost head = out@;
    if report.comments.len() == 0 {
        out.append("\n_(none)_\n");
    } else {
        let mut i: usize = 0;
        while i < report.comments.len()
            invariant
                0 <= i <= report.comments.len(),
                out@ == head + comment_blocks(report.comments@.subrange(0, i as int)),
            decreases report.comments.len() - i,
        {
            let c = &report.comments[i];
            let ghost before = out@;
            out.append("\n### `");
            out.append(c.id.as_str());
            out.append("` — ");
            let w = comment_where_string(c);
            out.append(w.as_str());
            out.append("\n\n");
            append_quoted(&mut out, c.text.as_str());
            out.append("\n");
            proof {
                let cs = report.comments@.subrange(0, i + 1);
                assert(cs.drop_last() =~= report.comments@.subrange(0, i as int));
                assert(cs.last() == *c);
                assert(out@ =~= before + comment_block(*c));
            }
            i = i + 1;
        }
        proof {
            assert(report.comments@.subrange(0, report.comments@.len() as int)
                =~= report.comments@);
        }
    }
    proof {
        assert(out@ =~= markdown_spec(*report));
    }
    out
}

} // verus!

verus! {

/// Whether two strings are equal up to ASCII case.
pub open spec fn eq_ignore_ascii_case(a: Seq<char>, b: Seq<char>) -> bool {
    ascii_lower_seq(a) == ascii_lower_seq(b)
}

/// The export file for `path` given the wanted extension: `path` itself when
/// it already carries that extension (any ASCII case; `.markdown` counts as
/// `.md`), else `path` with its extension replaced or added.
pub open spec fn path_with_ext_spec(path: Seq<char>, ext: Seq<char>) -> Seq<char> {
    match path_extension_spec(path) {
        Some(e) => if eq_ignore_ascii_case(e, ext) || (ext == "md"@ && eq_ignore_ascii_case(
            e,
            "markdown"@,
        )) {
            path
        } else {
            path_with_extension_spec(path, ext)
        },
        None => path_with_extension_spec(path, ext),
    }
}

fn ascii_case_eq(a: &str, b: &str) -> (r: bool)
    ensures
        r == eq_ignore_ascii_case(a@, b@),
{
    let la = str_to_ascii_lowercase(a);
    let lb = str_to_ascii_lowercase(b);
    str_eq(la.as_str(), lb.as_str())
}

/// Keep `path` when it already has the wanted extension; otherwise replace
/// or append it. The extension is a bare extension, without a `/`.
pub fn path_with_ext(path: &str, ext: &str) -> (r: String)
    requires
        !ext@.contains('/'),
    ensures
        r@ == path_with_ext_spec(path@, ext@),
{
    match path_extension(path) {
        Some(e) => {
            if ascii_case_eq(e.as_str(), ext) || (str_eq(ext, "md") && ascii_case_eq(
                e.as_str(),
                "markdown",
            )) {
                owned(path)
            } else {
                path_with_extension(path, ext)
            }
        },
        None => path_with_extension(path, ext),
    }
}

/// The stem the `both` export files share: the path's file stem, or
/// `review-report` when it has none.
pub open spec fn export_stem(path: Seq<char>) -> Seq<char> {
    match path_file_stem_spec(path) {
        Some(s) => s,
        None => "review-report"@,
    }
}

/// The directory the `both` export files go to: the path's parent, or `.`.
pub open spec fn export_dir(path: Seq<char>) -> Seq<char> {
    match path_parent_spec(path) {
        Some(p) => p,
        None => "."@,
    }
}

/// For `both` exports: `<dir>/<stem>.json` and `<dir>/<stem>.md`, so that
/// `report.json` yields `report.json` + `report.md`.
pub fn both_paths(path: &str) -> (r: (String, String))
    ensures
        r.0@ == join_spec(export_dir(path@), export_stem(path@) + ".json"@),
        r.1@ == join_spec(export_dir(path@), export_stem(path@) + ".md"@),
{
    let stem = match path_file_stem(path) {
        Some(s) => s,
        None => owned("review-report"),
    };
    let parent = match path_parent(path) {
        Some(p) => p,
        None => owned("."),
    };
    proof {
        reveal_strlit("review-report");
        if stem@.len() > 0 && stem@[0] == '/' {
            assert(stem@.contains('/'));
        }
        reveal_strlit(".json");
        reveal_strlit(".md");
    }
    let ghost sv = stem@;
    let mut json = stem.clone();
    json.append(".json");
    let mut md = stem;
    md.append(".md");
    proof {
        if sv.len() > 0 {
            assert(json@[0] == sv[0]);
            assert(md@[0] == sv[0]);
        }
    }
    (path_join(parent.as_str(), json.as_str()), path_join(parent.as_str(), md.as_str()))
}

/// The `export_on_quit` setting: which report to emit when the review ends.
#[derive(Debug, Clone, Copy, PartialEq, Eq, Structural)]
pub enum ExportOnQuit {
    /// Emit nothing (but the decisions-only JSON in `--select` mode).
    Nothing,
    Json,
    Markdown,
    Both,
}

/// `text` ending in exactly the newline it had, or one more when it had none.
pub open spec fn with_newline(t: Seq<char>) -> Seq<char> {
    if t.len() > 0 && t.last() == '\n' {
        t
    } else {
        t.push('\n')
    }
}

/// One output of the quit-time export: the file to write (`None` for
/// stdout) and the exact text.
pub open spec fn write_view(w: (Option<String>, String)) -> (Option<Seq<char>>, Seq<char>) {
    (opt_string_view(w.0), w.1@)
}

/// One `write_text`: to the file (its extension adjusted when one is
/// wanted) or to stdout, always ending with a newline.
pub open spec fn text_write(file: Option<Seq<char>>, text: Seq<char>, ext: Option<Seq<char>>) -> (Option<Seq<char>>, Seq<char>) {
    match file {
        Some(p) => (
            Some(
                match ext {
                    Some(e) => path_with_ext_spec(p, e),
                    None => p,
                },
            ),
            with_newline(text),
        ),
        None => (None, with_newline(text)),
    }
}

/// What the quit-time export writes, in order, given the serialized
/// selections, the serialized report and the Markdown report.
///
/// - `Nothing` with `--select`: the decisions-only JSON; without: nothing.
/// - `Json` / `Markdown`: the full report, even without `--select`.
/// - `Both` to a file: `<stem>.json` and `<stem>.md`; to stdout: the JSON
///   line, a `---` line, then the Markdown.
pub open spec fn export_writes(
    mode: ExportOnQuit,
    select_mode: bool,
    file: Option<Seq<char>>,
    selections_json: Seq<char>,
    report_json: Seq<char>,
    markdown: Seq<char>,
) -> Seq<(Option<Seq<char>>, Seq<char>)> {
    match mode {
        ExportOnQuit::Nothing => if select_mode {
            seq![text_write(file, selections_json, None)]
        } else {
            Seq::empty()
        },
        ExportOnQuit::Json => seq![text_write(file, report_json, Some("json"@))],
        ExportOnQuit::Markdown => seq![text_write(file, markdown, Some("md"@))],
        ExportOnQuit::Both => match file {
            Some(p) => seq![
                (Some(join_spec(export_dir(p), export_stem(p) + ".json"@)), report_json.push('\n')),
                (Some(join_spec(export_dir(p), export_stem(p) + ".md"@)), markdown),
            ],
            None => seq![(None, report_json + "\n---\n"@ + markdown)],
        },
    }
}

fn ends_with_newline(t: &str) -> (b: bool)
    ensures
        b == (t@.len() > 0 && t@.last() == '\n'),
{
    let cs = str_chars(t);
    cs.len() > 0 && cs[cs.len() - 1] == '\n'
}

fn newline_terminated(t: &str) -> (r: String)
    ensures
        r@ == with_newline(t@),
{
    let mut out = owned(t);
    if !ends_with_newline(t) {
        out.push('\n');
    }
    out
}

fn write_text(file: Option<&str>, text: &str, ext: Option<&str>) -> (r: (Option<String>, String))
    requires
        ext matches Some(e) ==> !e@.contains('/'),
    ensures
        write_view(r) == text_write(opt_str_view(file), text@, opt_str_view(ext)),
{
    let body = newline_terminated(text);
    match file {
        Some(p) => {
            let target = match ext {
                Some(e) => path_with_ext(p, e),
                None => owned(p),
            };
            (Some(target), body)
        },
        None => (None, body),
    }
}

/// Decide what the quit-time export writes, and where: each entry is the
/// target file (`None` for stdout) and the exact text to write. The caller
/// serializes the selections and the report beforehand and performs the
/// writes afterwards.
pub fn emit_report(
    mode: ExportOnQuit,
    select_mode: bool,
    export_file: Option<&str>,
    selections_json: &str,
    report_json: &str,
    markdown: &str,
) -> (r: Vec<(Option<String>, String)>)
    ensures
        r@.map_values(|w: (Option<String>, String)| write_view(w)) == export_writes(
            mode,
            select_mode,
            opt_str_view(export_file),
            selections_json@,
            report_json@,
            markdown@,
        ),
{
    let mut out: Vec<(Option<String>, String)> = Vec::new();
    match mode {
        ExportOnQuit::Nothing => {
            if select_mode {
                out.push(write_text(export_file, selections_json, None));
            }
        },
        ExportOnQuit::Json => {
            proof {
                reveal_strlit("json");
                assert(!"json"@.contains('/'));
            }
            out.push(write_text(export_file, report_json, Some("json")));
        },
        ExportOnQuit::Markdown => {
            proof {
                reveal_strlit("md");
                assert(!"md"@.contains('/'));
            }
            out.push(write_text(export_file, markdown, Some("md")));
        },
        ExportOnQuit::Both => {
            match export_file {
                Some(p) => {
                    let (json_path, md_path) = both_paths(p);
                    let mut json = owned(report_json);
                    json.push('\n');
                    out.push((Some(json_path), json));
                    out.push((Some(md_path), owned(markdown)));
                },
                None => {
                    let mut all = owned(report_json);
                    all.append("\n---\n");
                    all.append(markdown);
                    out.push((None, all));
                },
            }
        },
    }
    proof {
        assert(out@.map_values(|w: (Option<String>, String)| write_view(w)) =~= export_writes(
            mode,
            select_mode,
            opt_str_view(export_file),
            selections_json@,
            report_json@,
            markdown@,
        ));
    }
    out
}

/// One hunk key as a Markdown list item.
pub open spec fn key_item(key: Seq<char>) -> Seq<char> {
    "- `"@ + key + "`\n"@
}

/// Hunk keys as list items, first key first.
pub open spec fn key_items(keys: Seq<Seq<char>>) -> Seq<char>
    decreases keys.len(),
{
    if keys.len() == 0 {
        Seq::empty()
    } else {
        key_item(keys[0]) + key_items(keys.drop_first())
    }
}

/// The body of a decision list: its items, or `_(none)_` when it is empty.
pub open spec fn key_list(keys: Seq<Seq<char>>) -> Seq<char> {
    if keys.len() == 0 {
        "_(none)_\n"@
    } else {
        key_items(keys)
    }
}

proof fn lemma_key_items_snoc(keys: Seq<Seq<char>>)
    requires
        keys.len() > 0,
    ensures
        key_items(keys) == key_items(keys.drop_last()) + key_item(keys.last()),
    decreases keys.len(),
{
    if keys.len() == 1 {
        assert(keys.drop_first() =~= Seq::<Seq<char>>::empty());
        assert(keys.drop_last() =~= Seq::<Seq<char>>::empty());
        assert(key_items(keys.drop_first()) =~= Seq::<char>::empty());
        assert(key_items(keys) =~= key_item(keys[0]));
        assert(key_items(keys.drop_last()) + key_item(keys.last()) =~= key_item(keys[0]));
    } else {
        let rest = keys.drop_first();
        lemma_key_items_snoc(rest);
        assert(rest.drop_last() =~= keys.drop_last().drop_first());
        assert(rest.last() == keys.last());
        assert(keys.drop_last()[0] == keys[0]);
        assert(key_items(keys.drop_last()) == key_item(keys[0]) + key_items(keys.drop_last().drop_first()));
        assert(key_items(keys) =~= key_items(keys.drop_last()) + key_item(keys.last()));
    }
}

proof fn lemma_key_items_bullets(keys: Seq<Seq<char>>)
    ensures
        key_items(keys) == bullets(keys),
    decreases keys.len(),
{
    if keys.len() > 0 {
        lemma_key_items_snoc(keys);
        lemma_key_items_bullets(keys.drop_last());
    }
}

/// The decisions part of the Markdown report has exactly three sections, in
/// this order and under these headings: `### Accepted` lists the accepted
/// hunk keys, `### Rejected` the rejected ones and `### Undecided` the
/// undecided ones, each key as `` - `key` `` in list order, or `_(none)_`
/// for an empty list. Before them stand the title, the banner (if any) and
/// `## Decisions`; after them `## Comments` and the comments.
pub proof fn law_markdown_sections(r: ReviewReport)
    ensures
        markdown_spec(r) == "# next-hunk review report\n"@ + match r.banner {
            Some(b) => "\n## Banner\n\n"@ + b@ + "\n"@,
            None => Seq::empty(),
        } + "\n## Decisions\n"@ + "\n### Accepted\n\n"@ + key_list(string_views(r.accepted@))
            + "\n### Rejected\n\n"@ + key_list(string_views(r.rejected@))
            + "\n### Undecided\n\n"@ + key_list(string_views(r.undecided@))
            + "\n## Comments\n"@ + if r.comments@.len() == 0 {
            "\n_(none)_\n"@
        } else {
            comment_blocks(r.comments@)
        },
{
    let a = string_views(r.accepted@);
    let j = string_views(r.rejected@);
    let u = string_views(r.undecided@);
    lemma_key_items_bullets(a);
    lemma_key_items_bullets(j);
    lemma_key_items_bullets(u);
    reveal_strlit("\n### ");
    reveal_strlit("\n\n");
    reveal_strlit("Accepted");
    reveal_strlit("Rejected");
    reveal_strlit("Undecided");
    reveal_strlit("\n### Accepted\n\n");
    reveal_strlit("\n### Rejected\n\n");
    reveal_strlit("\n### Undecided\n\n");
    assert(decision_section("Accepted"@, a) =~= "\n### Accepted\n\n"@ + key_list(a));
    assert(decision_section("Rejected"@, j) =~= "\n### Rejected\n\n"@ + key_list(j));
    assert(decision_section("Undecided"@, u) =~= "\n### Undecided\n\n"@ + key_list(u));
    let pre = "# next-hunk review report\n"@ + match r.banner {
        Some(b) => "\n## Banner\n\n"@ + b@ + "\n"@,
        None => Seq::empty(),
    } + "\n## Decisions\n"@;
    let post = "\n## Comments\n"@ + if r.comments@.len() == 0 {
        "\n_(none)_\n"@
    } else {
        comment_blocks(r.comments@)
    };
    assert(markdown_spec(r) =~= pre + decision_section("Accepted"@, a) + decision_section("Rejected"@, j)
        + decision_section("Undecided"@, u) + post);
}

} // verus!
