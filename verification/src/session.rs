//! Review-session bookkeeping on plain values: which files the path filter
//! shows, the rows that carry notes and how `}` / `{` step through them,
//! and the `--select` buckets of the per-hunk decisions.

use vstd::prelude::*;
use crate::app::{CommentEntry, Decision, HunkId, Note, NoteTarget, Selections};
use crate::text::{
    contains_seq, decimal, owned, str_contains, str_eq, str_to_lowercase, str_trim, string_views,
    trim_seq, u64_to_string, unicode_lowercase,
};

verus! {

/// The files the path filter shows: all of them for a blank filter, else
/// those whose lower-cased path contains the lower-cased filter.
pub open spec fn visible_spec(paths: Seq<Seq<char>>, filter: Seq<char>, n: nat) -> Seq<usize>
    decreases n,
{
    if n == 0 || n > paths.len() {
        Seq::empty()
    } else {
        let before = visible_spec(paths, filter, (n - 1) as nat);
        if trim_seq(filter).len() == 0 || contains_seq(
            unicode_lowercase(paths[n - 1]),
            unicode_lowercase(filter),
        ) {
            before.push((n - 1) as usize)
        } else {
            before
        }
    }
}

/// The indices of the files the path filter shows, in order.
pub fn visible_files(paths: &Vec<String>, filter: &str) -> (r: Vec<usize>)
    ensures
        r@ == visible_spec(string_views(paths@), filter@, paths@.len()),
{
    let blank = str_trim(filter).is_empty();
    let needle = str_to_lowercase(filter);
    let ghost pv = string_views(paths@);
    let mut out: Vec<usize> = Vec::new();
    let mut i: usize = 0;
    while i < paths.len()
        invariant
            i <= paths.len(),
            pv == string_views(paths@),
            blank == (trim_seq(filter@).len() == 0),
            needle@ == unicode_lowercase(filter@),
            out@ == visible_spec(pv, filter@, i as nat),
        decreases paths.len() - i,
    {
        proof {
            assert(pv[(i + 1) - 1] == paths@[i as int]@);
        }
        if blank {
            out.push(i);
        } else {
            let lower = str_to_lowercase(paths[i].as_str());
            if str_contains(lower.as_str(), needle.as_str()) {
                out.push(i);
            }
        }
        i = i + 1;
    }
    out
}

/// Strictly increasing.
pub open spec fn increasing(s: Seq<usize>) -> bool {
    forall|a: int, b: int| 0 <= a < b < s.len() ==> s[a] < s[b]
}

/// The rows that carry a note, each once and in order, from the rows the
/// notes resolve to (`None` for a note that resolves to no row).
pub fn annotated_rows(resolved: &Vec<Option<usize>>) -> (r: Vec<usize>)
    ensures
        increasing(r@),
        forall|x: usize| r@.contains(x) <==> resolved@.contains(Some(x)),
{
    let mut out: Vec<usize> = Vec::new();
    let mut i: usize = 0;
    while i < resolved.len()
        invariant
            i <= resolved.len(),
            increasing(out@),
            forall|x: usize| out@.contains(x) <==> resolved@.subrange(0, i as int).contains(Some(x)),
        decreases resolved.len() - i,
    {
        let ghost prefix = resolved@.subrange(0, i as int);
        let ghost next = resolved@.subrange(0, i + 1);
        proof {
            assert(next =~= prefix.push(resolved@[i as int]));
        }
        if let Some(x) = resolved[i] {
            // find the insertion point
            let mut k: usize = 0;
            while k < out.len() && out[k] < x
                invariant
                    k <= out.len(),
                    forall|a: int| 0 <= a < k ==> out@[a] < x,
                decreases out.len() - k,
            {
                k = k + 1;
            }
            if k < out.len() && out[k] == x {
                proof {
                    assert forall|y: usize| out@.contains(y) <==> next.contains(
                        Some(y),
                    ) by {
                        if y == x {
                            assert(out@[k as int] == x);
                            assert(next[i as int] == Some(x));
                        }
                        if next.contains(Some(y)) {
                            let j = choose|j: int|
                                0 <= j < i + 1 && next[j] == Some(y);
                            if j < i {
                                assert(prefix[j] == Some(y));
                            }
                        }
                    }
                }
            } else {
                let ghost old_out = out@;
                out.insert(k, x);
                proof {
                    assert(out@ =~= old_out.subrange(0, k as int).push(x) + old_out.subrange(
                        k as int,
                        old_out.len() as int,
                    ));
                    assert forall|a: int, b: int| 0 <= a < b < out@.len() implies out@[a] < out@[b] by {
                        if b < k {
                            assert(out@[a] == old_out[a] && out@[b] == old_out[b]);
                        } else if b == k {
                            assert(out@[a] == old_out[a]);
                        } else if a < k {
                            assert(out@[b] == old_out[b - 1]);
                            assert(old_out[b - 1] >= x) by {
                                if old_out[b - 1] < x {
                                    assert(old_out[k as int] <= old_out[b - 1]);
                                }
                            }
                            if a < k {
                                assert(out@[a] == old_out[a]);
                            }
                            assert(old_out[k as int] != x);
                            assert(old_out[k as int] > x);
                            assert(old_out[b - 1] >= old_out[k as int]);
                        } else if a == k {
                            assert(out@[b] == old_out[b - 1]);
                            assert(old_out[k as int] > x);
                            assert(old_out[b - 1] >= old_out[k as int]);
                        } else {
                            assert(out@[a] == old_out[a - 1] && out@[b] == old_out[b - 1]);
                        }
                    }
                    assert forall|y: usize| out@.contains(y) <==> next.contains(
                        Some(y),
                    ) by {
                        if out@.contains(y) {
                            let j = choose|j: int| 0 <= j < out@.len() && out@[j] == y;
                            if j < k {
                                assert(old_out[j] == y);
                                assert(old_out.contains(y));
                            } else if j > k {
                                assert(old_out[j - 1] == y);
                                assert(old_out.contains(y));
                            }
                        }
                        if next.contains(Some(y)) {
                            let j = choose|j: int|
                                0 <= j < i + 1 && next[j] == Some(y);
                            if j < i {
                                assert(prefix[j] == Some(y));
                                assert(old_out.contains(y));
                                let m = choose|m: int| 0 <= m < old_out.len() && old_out[m] == y;
                                if m < k {
                                    assert(out@[m] == y);
                                } else {
                                    assert(out@[m + 1] == y);
                                }
                            } else {
                                assert(out@[k as int] == y);
                            }
                        }
                        if old_out.contains(y) {
                            let m = choose|m: int| 0 <= m < old_out.len() && old_out[m] == y;
                            assert(prefix.contains(Some(y)));
                        }
                    }
                }
            }
        } else {
            proof {
                assert forall|y: usize| out@.contains(y) <==> next.contains(
                    Some(y),
                ) by {
                    if next.contains(Some(y)) {
                        let j = choose|j: int|
                            0 <= j < i + 1 && next[j] == Some(y);
                        assert(j < i);
                        assert(prefix[j] == Some(y));
                    }
                }
            }
        }
        i = i + 1;
    }
    proof {
        assert(resolved@.subrange(0, resolved@.len() as int) =~= resolved@);
    }
    out
}


/// The first index from `k` on whose row lies after `anchor`.
pub open spec fn first_after(rows: Seq<usize>, anchor: usize, k: nat) -> Option<nat>
    decreases rows.len() - k,
{
    if k >= rows.len() {
        None
    } else if rows[k as int] > anchor {
        Some(k)
    } else {
        first_after(rows, anchor, k + 1)
    }
}

/// The last index below `k` whose row lies before `anchor`.
pub open spec fn last_before(rows: Seq<usize>, anchor: usize, k: nat) -> Option<nat>
    decreases k,
{
    if k == 0 || k > rows.len() {
        None
    } else if rows[k - 1] < anchor {
        Some((k - 1) as nat)
    } else {
        last_before(rows, anchor, (k - 1) as nat)
    }
}

/// The first index from `k` on holding `row`.
pub open spec fn position_of(rows: Seq<usize>, row: usize, k: nat) -> Option<nat>
    decreases rows.len() - k,
{
    if k >= rows.len() {
        None
    } else if rows[k as int] == row {
        Some(k)
    } else {
        position_of(rows, row, k + 1)
    }
}

/// Where `}` (next) or `{` (previous) goes from `anchor` among the
/// annotated rows: the first row after it, wrapping to the first row; or
/// the last row before it, wrapping to the last. With the row's 1-based
/// ordinal among the annotated rows. `None` when there are none.
pub open spec fn note_jump_spec(rows: Seq<usize>, anchor: usize, next: bool) -> Option<(usize, usize)> {
    if rows.len() == 0 {
        None
    } else {
        let i: nat = if next {
            match first_after(rows, anchor, 0) {
                Some(i) => i,
                None => 0,
            }
        } else {
            match last_before(rows, anchor, rows.len()) {
                Some(i) => i,
                None => (rows.len() - 1) as nat,
            }
        };
        let row = rows[i as int];
        Some((row, match position_of(rows, row, 0) {
            Some(p) => (p + 1) as usize,
            None => 0,
        }))
    }
}

/// The row `}` / `{` jumps to from `anchor`, and its ordinal among the
/// annotated `rows`.
pub fn note_jump(rows: &Vec<usize>, anchor: usize, next: bool) -> (r: Option<(usize, usize)>)
    ensures
        r == note_jump_spec(rows@, anchor, next),
{
    let n = rows.len();
    if n == 0 {
        return None;
    }
    let mut i: usize;
    if next {
        let mut k: usize = 0;
        while k < n && rows[k] <= anchor
            invariant
                k <= n,
                n == rows@.len(),
                first_after(rows@, anchor, 0) == first_after(rows@, anchor, k as nat),
            decreases n - k,
        {
            k = k + 1;
        }
        i = if k < n { k } else { 0 };
    } else {
        let mut k: usize = n;
        while k > 0 && rows[k - 1] >= anchor
            invariant
                k <= n,
                n == rows@.len(),
                last_before(rows@, anchor, n as nat) == last_before(rows@, anchor, k as nat),
            decreases k,
        {
            k = k - 1;
        }
        i = if k > 0 { k - 1 } else { n - 1 };
    }
    let row = rows[i];
    let mut p: usize = 0;
    while p < n && rows[p] != row
        invariant
            p <= n,
            n == rows@.len(),
            position_of(rows@, row, 0) == position_of(rows@, row, p as nat),
        decreases n - p,
    {
        p = p + 1;
    }
    let ordinal = if p < n { p + 1 } else { 0 };
    Some((row, ordinal))
}

proof fn lemma_first_after_increasing(rows: Seq<usize>, i: nat, k: nat)
    requires
        increasing(rows),
        i < rows.len(),
        k <= i + 1,
    ensures
        first_after(rows, rows[i as int], k) == (if i + 1 < rows.len() {
            Some(i + 1)
        } else {
            None::<nat>
        }),
    decreases rows.len() - k,
{
    if k < rows.len() {
        if k <= i {
            assert(rows[k as int] <= rows[i as int]) by {
                if k < i {
                    assert(rows[k as int] < rows[i as int]);
                }
            }
            lemma_first_after_increasing(rows, i, k + 1);
        } else {
            assert(rows[k as int] > rows[i as int]);
        }
    }
}

proof fn lemma_last_before_increasing(rows: Seq<usize>, i: nat, k: nat)
    requires
        increasing(rows),
        i < rows.len(),
        i <= k <= rows.len(),
    ensures
        last_before(rows, rows[i as int], k) == (if i > 0 {
            Some((i - 1) as nat)
        } else {
            None::<nat>
        }),
    decreases k,
{
    if k > 0 {
        if k - 1 >= i {
            assert(rows[k - 1] >= rows[i as int]) by {
                if k - 1 > i {
                    assert(rows[i as int] < rows[k - 1]);
                }
            }
            lemma_last_before_increasing(rows, i, (k - 1) as nat);
        } else {
            assert(rows[k - 1] < rows[i as int]);
        }
    }
}

proof fn lemma_position_increasing(rows: Seq<usize>, j: nat, k: nat)
    requires
        increasing(rows),
        j < rows.len(),
        k <= j,
    ensures
        position_of(rows, rows[j as int], k) == Some(j),
    decreases j - k,
{
    if k < j {
        assert(rows[k as int] < rows[j as int]);
        lemma_position_increasing(rows, j, k + 1);
    }
}

/// From an annotated row, `}` goes to the next annotated row and `{` to the
/// previous one, wrapping around at either end: the same steps `n` and `N`
/// take through search matches.
pub proof fn law_note_jumps_step_through_rows(rows: Seq<usize>, i: nat, next: bool)
    requires
        increasing(rows),
        i < rows.len(),
    ensures
        ({
            let j = crate::app::stepped_match(i, rows.len(), next);
            note_jump_spec(rows, rows[i as int], next) == Some((rows[j as int], (j + 1) as usize))
        }),
{
    let n = rows.len();
    let j = crate::app::stepped_match(i, n, next);
    if next {
        lemma_first_after_increasing(rows, i, 0);
        if i + 1 < n {
            assert((i + 1) % n == i + 1) by (nonlinear_arith)
                requires
                    i + 1 < n,
            ;
        } else {
            assert((i + 1) % n == 0) by (nonlinear_arith)
                requires
                    i + 1 == n,
            ;
        }
    } else {
        lemma_last_before_increasing(rows, i, n);
    }
    assert(j < n);
    lemma_position_increasing(rows, j, 0);
}


/// The decision recorded for a hunk (the first entry for it), else
/// undecided.
pub open spec fn decision_of(decisions: Seq<(HunkId, Decision)>, id: HunkId) -> Decision
    decreases decisions.len(),
{
    if decisions.len() == 0 {
        Decision::Undecided
    } else if decisions[0].0 == id {
        decisions[0].1
    } else {
        decision_of(decisions.drop_first(), id)
    }
}

/// Every hunk of the first `n` files, file by file, in order.
pub open spec fn all_hunks(files: Seq<(Seq<char>, usize)>, n: nat) -> Seq<HunkId>
    decreases n,
{
    if n == 0 || n > files.len() {
        Seq::empty()
    } else {
        all_hunks(files, (n - 1) as nat) + Seq::new(
            files[n - 1].1 as nat,
            |h: int| HunkId { file_idx: (n - 1) as usize, hunk_idx: h as usize },
        )
    }
}

/// A hunk's key: `path:hN` with the 1-based ordinal.
pub open spec fn hunk_key(files: Seq<(Seq<char>, usize)>, id: HunkId) -> Seq<char> {
    files[id.file_idx as int].0 + ":h"@ + decimal((id.hunk_idx + 1) as nat)
}

/// The keys of the hunks with decision `d`, in order.
pub open spec fn bucket(
    files: Seq<(Seq<char>, usize)>,
    decisions: Seq<(HunkId, Decision)>,
    hunks: Seq<HunkId>,
    d: Decision,
) -> Seq<Seq<char>>
    decreases hunks.len(),
{
    if hunks.len() == 0 {
        Seq::empty()
    } else {
        let before = bucket(files, decisions, hunks.drop_last(), d);
        if decision_of(decisions, hunks.last()) == d {
            before.push(hunk_key(files, hunks.last()))
        } else {
            before
        }
    }
}

pub open spec fn files_view(files: Seq<(String, usize)>) -> Seq<(Seq<char>, usize)> {
    files.map_values(|f: (String, usize)| (f.0@, f.1))
}

fn lookup_decision(decisions: &Vec<(HunkId, Decision)>, id: HunkId) -> (d: Decision)
    ensures
        d == decision_of(decisions@, id),
{
    let mut k: usize = 0;
    proof {
        assert(decisions@.subrange(0, decisions@.len() as int) =~= decisions@);
    }
    while k < decisions.len()
        invariant
            k <= decisions.len(),
            decision_of(decisions@, id) == decision_of(
                decisions@.subrange(k as int, decisions@.len() as int),
                id,
            ),
        decreases decisions.len() - k,
    {
        let ghost rest = decisions@.subrange(k as int, decisions@.len() as int);
        proof {
            assert(rest[0] == decisions@[k as int]);
            assert(rest.drop_first() =~= decisions@.subrange(k + 1, decisions@.len() as int));
        }
        if decisions[k].0 == id {
            return decisions[k].1;
        }
        k = k + 1;
    }
    proof {
        assert(decisions@.subrange(k as int, decisions@.len() as int) =~= Seq::<(HunkId, Decision)>::empty());
    }
    Decision::Undecided
}

/// The `--select` output: every hunk of every file (given by display path
/// and hunk count) in exactly one bucket by its decision, unreviewed hunks
/// undecided; keys are `path:hN` with the 1-based hunk ordinal.
pub fn selections(files: &Vec<(String, usize)>, decisions: &Vec<(HunkId, Decision)>) -> (r: Selections)
    ensures
        ({
            let fv = files_view(files@);
            let hunks = all_hunks(fv, fv.len());
            &&& string_views(r.accepted@) == bucket(fv, decisions@, hunks, Decision::Accept)
            &&& string_views(r.rejected@) == bucket(fv, decisions@, hunks, Decision::Reject)
            &&& string_views(r.undecided@) == bucket(fv, decisions@, hunks, Decision::Undecided)
        }),
{
    let ghost fv = files_view(files@);
    let mut accepted: Vec<String> = Vec::new();
    let mut rejected: Vec<String> = Vec::new();
    let mut undecided: Vec<String> = Vec::new();
    let mut f: usize = 0;
    while f < files.len()
        invariant
            f <= files.len(),
            fv == files_view(files@),
            string_views(accepted@) == bucket(fv, decisions@, all_hunks(fv, f as nat), Decision::Accept),
            string_views(rejected@) == bucket(fv, decisions@, all_hunks(fv, f as nat), Decision::Reject),
            string_views(undecided@) == bucket(
                fv,
                decisions@,
                all_hunks(fv, f as nat),
                Decision::Undecided,
            ),
        decreases files.len() - f,
    {
        let count = files[f].1;
        let ghost base = all_hunks(fv, f as nat);
        let ghost this = Seq::new(
            fv[f as int].1 as nat,
            |h: int| HunkId { file_idx: f, hunk_idx: h as usize },
        );
        proof {
            assert(fv[f as int] == (files@[f as int].0@, files@[f as int].1));
            assert(all_hunks(fv, (f + 1) as nat) == base + this);
            assert(this.subrange(0, 0) =~= Seq::<HunkId>::empty());
            assert(base + this.subrange(0, 0) =~= base);
        }
        let mut h: usize = 0;
        while h < count
            invariant
                h <= count,
                count == fv[f as int].1,
                f < files.len(),
                fv == files_view(files@),
                this == Seq::new(count as nat, |x: int| HunkId { file_idx: f, hunk_idx: x as usize }),
                string_views(accepted@) == bucket(fv, decisions@, base + this.subrange(0, h as int), Decision::Accept),
                string_views(rejected@) == bucket(fv, decisions@, base + this.subrange(0, h as int), Decision::Reject),
                string_views(undecided@) == bucket(
                    fv,
                    decisions@,
                    base + this.subrange(0, h as int),
                    Decision::Undecided,
                ),
            decreases count - h,
        {
            let id = HunkId { file_idx: f, hunk_idx: h };
            let ghost upto = base + this.subrange(0, h + 1);
            proof {
                assert(upto.drop_last() =~= base + this.subrange(0, h as int));
                assert(upto.last() == id);
            }
            let mut key = files[f].0.clone();
            key.append(":h");
            key.append(u64_to_string((h + 1) as u64).as_str());
            proof {
                assert(key@ == hunk_key(fv, id));
            }
            let d = lookup_decision(decisions, id);
            let ghost (a0, r0, u0) = (string_views(accepted@), string_views(rejected@), string_views(undecided@));
            match d {
                Decision::Accept => accepted.push(key),
                Decision::Reject => rejected.push(key),
                Decision::Undecided => undecided.push(key),
            }
            proof {
                assert(string_views(accepted@) =~= bucket(fv, decisions@, upto, Decision::Accept));
                assert(string_views(rejected@) =~= bucket(fv, decisions@, upto, Decision::Reject));
                assert(string_views(undecided@) =~= bucket(fv, decisions@, upto, Decision::Undecided));
            }
            h = h + 1;
        }
        proof {
            assert(this.subrange(0, count as int) =~= this);
        }
        f = f + 1;
    }
    Selections { accepted, rejected, undecided }
}


/// Every hunk lands in exactly one bucket: the three buckets together hold
/// as many keys as there are hunks, each hunk's key in the bucket of its
/// decision.
pub proof fn law_every_hunk_in_one_bucket(
    files: Seq<(Seq<char>, usize)>,
    decisions: Seq<(HunkId, Decision)>,
    hunks: Seq<HunkId>,
)
    ensures
        bucket(files, decisions, hunks, Decision::Accept).len() + bucket(
            files,
            decisions,
            hunks,
            Decision::Reject,
        ).len() + bucket(files, decisions, hunks, Decision::Undecided).len() == hunks.len(),
    decreases hunks.len(),
{
    if hunks.len() > 0 {
        law_every_hunk_in_one_bucket(files, decisions, hunks.drop_last());
    }
}


/// A copy of a note target.
fn copy_target(t: &NoteTarget) -> (r: NoteTarget)
    ensures
        r == *t,
{
    match t {
        NoteTarget::Line { path, line } => NoteTarget::Line { path: path.clone(), line: *line },
        NoteTarget::Hunk { path, hunk } => NoteTarget::Hunk { path: path.clone(), hunk: *hunk },
        NoteTarget::Banner => NoteTarget::Banner,
    }
}

/// Save a composed note: the draft, trimmed, becomes a note on `target`,
/// mirrored as the comment `user:N` (N the next number after `seq`) on the
/// target's file and line or hunk (no file for a banner note) so that the
/// comment list sees it. A blank draft is discarded (`None`).
pub fn user_note(target: &NoteTarget, draft: &str, seq: usize) -> (r: Option<(CommentEntry, Note)>)
    requires
        seq < usize::MAX,
    ensures
        r is None <==> trim_seq(draft@).len() == 0,
        r matches Some((c, n)) ==> {
            &&& c.id@ == "user:"@ + decimal((seq + 1) as nat)
            &&& c.text@ == trim_seq(draft@)
            &&& n.text@ == trim_seq(draft@)
            &&& n.target == *target
            &&& match *target {
                NoteTarget::Line { path, line } => c.file == path && c.line == Some(line) && c.hunk
                    is None,
                NoteTarget::Hunk { path, hunk } => c.file == path && c.line is None && c.hunk == Some(
                    hunk,
                ),
                NoteTarget::Banner => c.file@.len() == 0 && c.line is None && c.hunk is None,
            }
        },
{
    let text = owned(str_trim(draft));
    if text.as_str().is_empty() {
        return None;
    }
    let mut id = owned("user:");
    id.append(u64_to_string((seq + 1) as u64).as_str());
    let (file, line, hunk) = match target {
        NoteTarget::Line { path, line } => (path.clone(), Some(*line), None),
        NoteTarget::Hunk { path, hunk } => (path.clone(), None, Some(*hunk)),
        NoteTarget::Banner => (String::new(), None, None),
    };
    let comment = CommentEntry { id, file, text: text.clone(), line, hunk };
    let note = Note { target: copy_target(target), text };
    Some((comment, note))
}


/// The `--select` marker in front of a hunk header: `[✓] ` accepted,
/// `[✗] ` rejected, `[?] ` undecided.
pub fn decision_mark(d: Decision) -> (r: String)
    ensures
        r@ == match d {
            Decision::Accept => "[✓] "@,
            Decision::Reject => "[✗] "@,
            Decision::Undecided => "[?] "@,
        },
{
    match d {
        Decision::Accept => owned("[✓] "),
        Decision::Reject => owned("[✗] "),
        Decision::Undecided => owned("[?] "),
    }
}


/// What applying the path filter does.
#[derive(Debug, Clone, Copy, PartialEq, Eq, Structural)]
pub enum FilterOutcome {
    /// A blank filter: the filter is cleared, every file shows.
    Cleared,
    /// The selected file still matches and stays selected.
    Keep,
    /// The selected file no longer matches: select (and jump to) the first
    /// file that does.
    Select(usize),
    /// No file matches.
    NoMatch,
}

/// Applying the path filter: a blank filter clears it; else the selection
/// stays when its path matches (case-insensitively), moves to the first
/// matching file otherwise, and there is nothing to select when no file
/// matches.
pub open spec fn filter_outcome_spec(paths: Seq<Seq<char>>, selected: usize, filter: Seq<char>) -> FilterOutcome {
    if trim_seq(filter).len() == 0 {
        FilterOutcome::Cleared
    } else if selected < paths.len() && contains_seq(
        unicode_lowercase(paths[selected as int]),
        unicode_lowercase(filter),
    ) {
        FilterOutcome::Keep
    } else {
        let shown = visible_spec(paths, filter, paths.len());
        if shown.len() > 0 {
            FilterOutcome::Select(shown[0])
        } else {
            FilterOutcome::NoMatch
        }
    }
}

/// Apply the path filter to the files (their display paths) with file
/// `selected` selected.
pub fn filter_outcome(paths: &Vec<String>, selected: usize, filter: &str) -> (r: FilterOutcome)
    requires
        selected < paths.len(),
    ensures
        r == filter_outcome_spec(string_views(paths@), selected, filter@),
{
    if str_trim(filter).is_empty() {
        return FilterOutcome::Cleared;
    }
    let needle = str_to_lowercase(filter);
    let lower = str_to_lowercase(paths[selected].as_str());
    proof {
        assert(string_views(paths@)[selected as int] == paths@[selected as int]@);
    }
    if str_contains(lower.as_str(), needle.as_str()) {
        return FilterOutcome::Keep;
    }
    let shown = visible_files(paths, filter);
    if shown.len() > 0 {
        FilterOutcome::Select(shown[0])
    } else {
        FilterOutcome::NoMatch
    }
}

/// Where `]h` / `[h` and `}` / `{` search from: the row of the last jump
/// (`last`: the stream row and the screen row it sits on in the stream),
/// while that row is still on screen; else the row at the top of the view.
pub open spec fn jump_anchor_spec(
    last: Option<(usize, usize)>,
    top_row: usize,
    scroll_y: usize,
    viewport_height: usize,
) -> usize {
    match last {
        Some((row, v)) => if v >= scroll_y && v < scroll_y + viewport_height {
            row
        } else {
            top_row
        },
        None => top_row,
    }
}

/// The row a hunk or note jump searches from.
pub fn jump_anchor(last: Option<(usize, usize)>, top_row: usize, scroll_y: usize, viewport_height: usize) -> (r: usize)
    ensures
        r == jump_anchor_spec(last, top_row, scroll_y, viewport_height),
{
    match last {
        Some((row, v)) => if v >= scroll_y && v - scroll_y < viewport_height {
            row
        } else {
            top_row
        },
        None => top_row,
    }
}

/// A file of the review as far as placing notes needs it: its display
/// path, the row of each hunk header, and the row of each line that has a
/// new-side number (with that number), in stream order.
pub struct FileRows {
    pub path: String,
    pub hunk_rows: Vec<usize>,
    pub new_line_rows: Vec<(u32, usize)>,
}

/// The first file with this display path.
pub open spec fn path_index(files: Seq<FileRows>, p: Seq<char>) -> Option<nat>
    decreases files.len(),
{
    if files.len() == 0 {
        None
    } else {
        match path_index(files.drop_last(), p) {
            Some(i) => Some(i),
            None => if files.last().path@ == p {
                Some((files.len() - 1) as nat)
            } else {
                None
            },
        }
    }
}

/// The row of the first line with this new-side number.
pub open spec fn line_row(lines: Seq<(u32, usize)>, line: u32) -> Option<usize>
    decreases lines.len(),
{
    if lines.len() == 0 {
        None
    } else {
        match line_row(lines.drop_last(), line) {
            Some(r) => Some(r),
            None => if lines.last().0 == line {
                Some(lines.last().1)
            } else {
                None
            },
        }
    }
}

/// The row a note attaches to: a line note on its new-side line, a hunk
/// note on the header of its (1-based) hunk; none for a banner note or a
/// target the review no longer has.
pub open spec fn note_row_spec(files: Seq<FileRows>, target: NoteTarget) -> Option<usize> {
    match target {
        NoteTarget::Line { path, line } => match path_index(files, path@) {
            Some(i) => line_row(files[i as int].new_line_rows@, line),
            None => None,
        },
        NoteTarget::Hunk { path, hunk } => match path_index(files, path@) {
            Some(i) => {
                let h0: int = if hunk >= 1 { hunk - 1 } else { 0 };
                if h0 < files[i as int].hunk_rows@.len() {
                    Some(files[i as int].hunk_rows@[h0])
                } else {
                    None
                }
            },
            None => None,
        },
        NoteTarget::Banner => None,
    }
}

pub(crate) proof fn lemma_path_index_bound(files: Seq<FileRows>, p: Seq<char>)
    ensures
        path_index(files, p) matches Some(i) ==> i < files.len(),
    decreases files.len(),
{
    if files.len() > 0 {
        lemma_path_index_bound(files.drop_last(), p);
    }
}

pub(crate) fn find_path(files: &Vec<FileRows>, p: &str) -> (r: Option<usize>)
    ensures
        match r {
            Some(i) => path_index(files@, p@) == Some(i as nat),
            None => path_index(files@, p@) is None,
        },
{
    let mut found: Option<usize> = None;
    let mut i: usize = 0;
    while i < files.len()
        invariant
            i <= files.len(),
            match found {
                Some(k) => path_index(files@.subrange(0, i as int), p@) == Some(k as nat),
                None => path_index(files@.subrange(0, i as int), p@) is None,
            },
        decreases files.len() - i,
    {
        proof {
            assert(files@.subrange(0, i + 1).drop_last() =~= files@.subrange(0, i as int));
        }
        if found.is_none() && str_eq(files[i].path.as_str(), p) {
            found = Some(i);
        }
        i = i + 1;
    }
    proof {
        assert(files@.subrange(0, files@.len() as int) =~= files@);
    }
    found
}

fn find_line(lines: &Vec<(u32, usize)>, line: u32) -> (r: Option<usize>)
    ensures
        r == line_row(lines@, line),
{
    let mut found: Option<usize> = None;
    let mut i: usize = 0;
    while i < lines.len()
        invariant
            i <= lines.len(),
            found == line_row(lines@.subrange(0, i as int), line),
        decreases lines.len() - i,
    {
        proof {
            assert(lines@.subrange(0, i + 1).drop_last() =~= lines@.subrange(0, i as int));
        }
        if found.is_none() && lines[i].0 == line {
            found = Some(lines[i].1);
        }
        i = i + 1;
    }
    proof {
        assert(lines@.subrange(0, lines@.len() as int) =~= lines@);
    }
    found
}

/// Resolve a note target to the stream row it attaches to.
pub fn note_stream_row(files: &Vec<FileRows>, target: &NoteTarget) -> (r: Option<usize>)
    ensures
        r == note_row_spec(files@, *target),
{
    match target {
        NoteTarget::Line { path, line } => match find_path(files, path.as_str()) {
            Some(i) => {
                proof {
                    lemma_path_index_bound(files@, path@);
                }
                find_line(&files[i].new_line_rows, *line)
            },
            None => None,
        },
        NoteTarget::Hunk { path, hunk } => match find_path(files, path.as_str()) {
            Some(i) => {
                proof {
                    lemma_path_index_bound(files@, path@);
                }
                let h0: usize = if *hunk >= 1 { *hunk - 1 } else { 0 };
                if h0 < files[i].hunk_rows.len() {
                    Some(files[i].hunk_rows[h0])
                } else {
                    None
                }
            },
            None => None,
        },
        NoteTarget::Banner => None,
    }
}

} // verus!
