//! Hot reload keeps the user's place: the selected file, the per-hunk
//! decisions and the folded files follow their files by display path into
//! the freshly parsed review; what no longer exists is dropped.

use vstd::prelude::*;
use crate::app::{Decision, HunkId};
use crate::text::{str_eq, string_views};

verus! {

/// The first index from `k` on of a file with this path.
pub open spec fn first_with_path(paths: Seq<Seq<char>>, p: Seq<char>, k: nat) -> Option<nat>
    decreases paths.len() - k,
{
    if k >= paths.len() {
        None
    } else if paths[k as int] == p {
        Some(k)
    } else {
        first_with_path(paths, p, k + 1)
    }
}

/// The last index below `k` of a file with this path.
pub open spec fn last_with_path(paths: Seq<Seq<char>>, p: Seq<char>, k: nat) -> Option<nat>
    decreases k,
{
    if k == 0 || k > paths.len() {
        None
    } else if paths[k - 1] == p {
        Some((k - 1) as nat)
    } else {
        last_with_path(paths, p, (k - 1) as nat)
    }
}

/// Where a file of the old review is in the new one: the new file with
/// its display path (the last such, should there be several).
pub open spec fn new_index(old_paths: Seq<Seq<char>>, new_paths: Seq<Seq<char>>, fi: usize) -> Option<nat> {
    if fi < old_paths.len() {
        last_with_path(new_paths, old_paths[fi as int], new_paths.len())
    } else {
        None
    }
}

/// The decisions carried into the new review: each moves to its file's new
/// index, and is dropped when its file or its hunk is gone.
pub open spec fn remapped_decisions(
    old_paths: Seq<Seq<char>>,
    new_files: Seq<(Seq<char>, usize)>,
    decisions: Seq<(HunkId, Decision)>,
) -> Seq<(HunkId, Decision)>
    decreases decisions.len(),
{
    if decisions.len() == 0 {
        Seq::empty()
    } else {
        let before = remapped_decisions(old_paths, new_files, decisions.drop_last());
        let (id, d) = decisions.last();
        match new_index(old_paths, new_files.map_values(|f: (Seq<char>, usize)| f.0), id.file_idx) {
            Some(nf) => if id.hunk_idx < new_files[nf as int].1 {
                before.push((HunkId { file_idx: nf as usize, hunk_idx: id.hunk_idx }, d))
            } else {
                before
            },
            None => before,
        }
    }
}

/// The folded files carried into the new review, by their new indices.
pub open spec fn remapped_folds(old_paths: Seq<Seq<char>>, new_paths: Seq<Seq<char>>, folded: Seq<usize>) -> Seq<
    usize,
>
    decreases folded.len(),
{
    if folded.len() == 0 {
        Seq::empty()
    } else {
        let before = remapped_folds(old_paths, new_paths, folded.drop_last());
        match new_index(old_paths, new_paths, folded.last()) {
            Some(nf) => before.push(nf as usize),
            None => before,
        }
    }
}

pub open spec fn new_files_view(v: Seq<(String, usize)>) -> Seq<(Seq<char>, usize)> {
    v.map_values(|f: (String, usize)| (f.0@, f.1))
}

/// The user's place, carried into the new review.
pub struct Carried {
    /// The selected file: the first new file with the selected path, else
    /// the first file.
    pub selected: usize,
    pub decisions: Vec<(HunkId, Decision)>,
    pub folded: Vec<usize>,
}

/// The last new file with this path.
fn find_last(new_files: &Vec<(String, usize)>, p: &str) -> (r: Option<usize>)
    ensures
        r matches Some(i) ==> i < new_files.len(),
        match r {
            Some(i) => last_with_path(
                new_files_view(new_files@).map_values(|f: (Seq<char>, usize)| f.0),
                p@,
                new_files@.len(),
            ) == Some(i as nat),
            None => last_with_path(
                new_files_view(new_files@).map_values(|f: (Seq<char>, usize)| f.0),
                p@,
                new_files@.len(),
            ) is None,
        },
{
    let ghost np = new_files_view(new_files@).map_values(|f: (Seq<char>, usize)| f.0);
    let mut k: usize = new_files.len();
    while k > 0
        invariant
            k <= new_files.len(),
            np.len() == new_files@.len(),
            np == new_files_view(new_files@).map_values(|f: (Seq<char>, usize)| f.0),
            last_with_path(np, p@, new_files@.len() as nat) == last_with_path(np, p@, k as nat),
        decreases k,
    {
        proof {
            assert(np[k - 1] == new_files@[k - 1].0@);
        }
        if str_eq(new_files[k - 1].0.as_str(), p) {
            return Some(k - 1);
        }
        k = k - 1;
    }
    None
}

/// Carry the user's place from the old review (its files' display
/// paths; the selected file's path) into the new one (its files' paths and
/// hunk counts): the selection follows its path, and decisions and folds
/// move to their files' new indices, dropping what no longer exists.
pub fn carry_over(
    old_paths: &Vec<String>,
    selected_path: &str,
    new_files: &Vec<(String, usize)>,
    decisions: &Vec<(HunkId, Decision)>,
    folded: &Vec<usize>,
) -> (r: Carried)
    ensures
        ({
            let nv = new_files_view(new_files@);
            let np = nv.map_values(|f: (Seq<char>, usize)| f.0);
            let ov = string_views(old_paths@);
            &&& r.selected == match first_with_path(np, selected_path@, 0) {
                Some(i) => i as usize,
                None => 0usize,
            }
            &&& r.decisions@ == remapped_decisions(ov, nv, decisions@)
            &&& r.folded@ == remapped_folds(ov, np, folded@)
        }),
{
    let ghost nv = new_files_view(new_files@);
    let ghost np = nv.map_values(|f: (Seq<char>, usize)| f.0);
    let ghost ov = string_views(old_paths@);
    // the selection, by path
    let mut s: usize = 0;
    while s < new_files.len() && !str_eq(new_files[s].0.as_str(), selected_path)
        invariant
            s <= new_files.len(),
            np.len() == new_files@.len(),
            np == new_files_view(new_files@).map_values(|f: (Seq<char>, usize)| f.0),
            first_with_path(np, selected_path@, 0) == first_with_path(np, selected_path@, s as nat),
        decreases new_files.len() - s,
    {
        proof {
            assert(np[s as int] == new_files@[s as int].0@);
        }
        s = s + 1;
    }
    proof {
        if s < new_files.len() {
            assert(np[s as int] == new_files@[s as int].0@);
        }
    }
    let selected = if s < new_files.len() { s } else { 0 };
    // decisions
    let mut kept: Vec<(HunkId, Decision)> = Vec::new();
    let mut i: usize = 0;
    while i < decisions.len()
        invariant
            i <= decisions.len(),
            nv == new_files_view(new_files@),
            np == nv.map_values(|f: (Seq<char>, usize)| f.0),
            ov == string_views(old_paths@),
            kept@ == remapped_decisions(ov, nv, decisions@.subrange(0, i as int)),
        decreases decisions.len() - i,
    {
        let (id, d) = decisions[i];
        proof {
            assert(decisions@.subrange(0, i + 1).drop_last() =~= decisions@.subrange(0, i as int));
            assert(decisions@.subrange(0, i + 1).last() == (id, d));
        }
        if id.file_idx < old_paths.len() {
            proof {
                assert(ov[id.file_idx as int] == old_paths@[id.file_idx as int]@);
            }
            match find_last(new_files, old_paths[id.file_idx].as_str()) {
                Some(nf) => {
                    proof {
                        assert(nv[nf as int] == (new_files@[nf as int].0@, new_files@[nf as int].1));
                    }
                    if id.hunk_idx < new_files[nf].1 {
                        kept.push((HunkId { file_idx: nf, hunk_idx: id.hunk_idx }, d));
                    }
                },
                None => {},
            }
        }
        i = i + 1;
    }
    proof {
        assert(decisions@.subrange(0, decisions@.len() as int) =~= decisions@);
    }
    // folds
    let mut folds: Vec<usize> = Vec::new();
    let mut j: usize = 0;
    while j < folded.len()
        invariant
            j <= folded.len(),
            nv == new_files_view(new_files@),
            np == nv.map_values(|f: (Seq<char>, usize)| f.0),
            ov == string_views(old_paths@),
            folds@ == remapped_folds(ov, np, folded@.subrange(0, j as int)),
        decreases folded.len() - j,
    {
        let fi = folded[j];
        proof {
            assert(folded@.subrange(0, j + 1).drop_last() =~= folded@.subrange(0, j as int));
            assert(folded@.subrange(0, j + 1).last() == fi);
        }
        if fi < old_paths.len() {
            proof {
                assert(ov[fi as int] == old_paths@[fi as int]@);
            }
            match find_last(new_files, old_paths[fi].as_str()) {
                Some(nf) => folds.push(nf),
                None => {},
            }
        }
        j = j + 1;
    }
    proof {
        assert(folded@.subrange(0, folded@.len() as int) =~= folded@);
    }
    Carried { selected, decisions: kept, folded: folds }
}

/// Every decision carried over names a hunk that exists in the new review.
pub proof fn law_carried_decisions_name_existing_hunks(
    old_paths: Seq<Seq<char>>,
    new_files: Seq<(Seq<char>, usize)>,
    decisions: Seq<(HunkId, Decision)>,
)
    requires
        new_files.len() <= usize::MAX,
    ensures
        forall|k: int|
            0 <= k < remapped_decisions(old_paths, new_files, decisions).len() ==> {
                let id = (#[trigger] remapped_decisions(old_paths, new_files, decisions)[k]).0;
                id.file_idx < new_files.len() && id.hunk_idx < new_files[id.file_idx as int].1
            },
    decreases decisions.len(),
{
    if decisions.len() > 0 {
        law_carried_decisions_name_existing_hunks(old_paths, new_files, decisions.drop_last());
        let np = new_files.map_values(|f: (Seq<char>, usize)| f.0);
        let (id, d) = decisions.last();
        let before = remapped_decisions(old_paths, new_files, decisions.drop_last());
        let all = remapped_decisions(old_paths, new_files, decisions);
        match new_index(old_paths, np, id.file_idx) {
            Some(nf) => {
                lemma_last_in_range(np, old_paths[id.file_idx as int], np.len());
                if id.hunk_idx < new_files[nf as int].1 {
                    let e = (HunkId { file_idx: nf as usize, hunk_idx: id.hunk_idx }, d);
                    assert(all == before.push(e));
                    assert forall|k: int| 0 <= k < all.len() implies {
                        let x = (#[trigger] all[k]).0;
                        x.file_idx < new_files.len() && x.hunk_idx < new_files[x.file_idx as int].1
                    } by {
                        if k < before.len() {
                            assert(all[k] == before[k]);
                        }
                    }
                } else {
                    assert(all == before);
                }
            },
            None => {
                assert(all == before);
            },
        }
    }
}

proof fn lemma_last_in_range(paths: Seq<Seq<char>>, p: Seq<char>, k: nat)
    ensures
        match last_with_path(paths, p, k) {
            Some(i) => i < k && i < paths.len(),
            None => true,
        },
    decreases k,
{
    if k > 0 && k <= paths.len() && paths[k - 1] != p {
        lemma_last_in_range(paths, p, (k - 1) as nat);
    }
}

/// Whether no hunk has two decisions.
pub open spec fn keys_once(ds: Seq<(HunkId, Decision)>) -> bool {
    forall|i: int, j: int| 0 <= i < j < ds.len() ==> (#[trigger] ds[i]).0 != (#[trigger] ds[j]).0
}

/// Whether no two files share a display path.
pub open spec fn paths_distinct(paths: Seq<Seq<char>>) -> bool {
    forall|i: int, j: int| 0 <= i < j < paths.len() ==> (#[trigger] paths[i]) != (#[trigger] paths[j])
}

proof fn lemma_last_with_path_hit(paths: Seq<Seq<char>>, p: Seq<char>, k: nat)
    ensures
        last_with_path(paths, p, k) matches Some(i) ==> i < paths.len() && paths[i as int] == p,
    decreases k,
{
    if k > 0 && k <= paths.len() && paths[k - 1] != p {
        lemma_last_with_path_hit(paths, p, (k - 1) as nat);
    }
}

proof fn lemma_new_index_injective(old_paths: Seq<Seq<char>>, new_paths: Seq<Seq<char>>, f1: usize, f2: usize)
    requires
        paths_distinct(old_paths),
        new_index(old_paths, new_paths, f1) is Some,
        new_index(old_paths, new_paths, f1) == new_index(old_paths, new_paths, f2),
    ensures
        f1 == f2,
{
    lemma_last_with_path_hit(new_paths, old_paths[f1 as int], new_paths.len());
    lemma_last_with_path_hit(new_paths, old_paths[f2 as int], new_paths.len());
    if f1 < f2 {
        assert(old_paths[f1 as int] != old_paths[f2 as int]);
    } else if f2 < f1 {
        assert(old_paths[f2 as int] != old_paths[f1 as int]);
    }
}

/// Where each carried decision came from.
proof fn lemma_remapped_origin(
    old_paths: Seq<Seq<char>>,
    new_files: Seq<(Seq<char>, usize)>,
    ds: Seq<(HunkId, Decision)>,
)
    requires
        new_files.len() <= usize::MAX,
    ensures
        forall|e: int|
            0 <= e < remapped_decisions(old_paths, new_files, ds).len() ==> exists|k: int|
                0 <= k < ds.len() && ds[k].0.hunk_idx == (#[trigger] remapped_decisions(
                    old_paths,
                    new_files,
                    ds,
                )[e]).0.hunk_idx && new_index(
                    old_paths,
                    new_files.map_values(|f: (Seq<char>, usize)| f.0),
                    ds[k].0.file_idx,
                ) == Some(remapped_decisions(old_paths, new_files, ds)[e].0.file_idx as nat),
    decreases ds.len(),
{
    if ds.len() > 0 {
        let d = ds.drop_last();
        lemma_remapped_origin(old_paths, new_files, d);
        let before = remapped_decisions(old_paths, new_files, d);
        let r = remapped_decisions(old_paths, new_files, ds);
        let np = new_files.map_values(|f: (Seq<char>, usize)| f.0);
        let (id, dd) = ds.last();
        assert forall|e: int| 0 <= e < r.len() implies exists|k: int|
            0 <= k < ds.len() && ds[k].0.hunk_idx == (#[trigger] r[e]).0.hunk_idx && new_index(
                old_paths,
                np,
                ds[k].0.file_idx,
            ) == Some(r[e].0.file_idx as nat) by {
            if e < before.len() {
                assert(r[e] == before[e]);
                let k = choose|k: int|
                    0 <= k < d.len() && d[k].0.hunk_idx == (#[trigger] before[e]).0.hunk_idx && new_index(
                        old_paths,
                        np,
                        d[k].0.file_idx,
                    ) == Some(before[e].0.file_idx as nat);
                assert(ds[k] == d[k]);
            } else {
                let nf = new_index(old_paths, np, id.file_idx)->0;
                lemma_last_with_path_hit(np, old_paths[id.file_idx as int], np.len());
                assert(nf < np.len());
                assert(r[e] == (HunkId { file_idx: nf as usize, hunk_idx: id.hunk_idx }, dd));
                let k = ds.len() - 1;
                assert(ds[k] == ds.last());
                assert(ds[k].0.hunk_idx == r[e].0.hunk_idx);
                assert(new_index(old_paths, np, ds[k].0.file_idx) == Some(r[e].0.file_idx as nat));
            }
        }
    }
}

/// Hot reload keeps each hunk decided at most once: when the old review's
/// paths are distinct and no hunk had two decisions, no hunk of the new
/// review has two.
pub proof fn law_carry_decides_each_hunk_once(
    old_paths: Seq<Seq<char>>,
    new_files: Seq<(Seq<char>, usize)>,
    ds: Seq<(HunkId, Decision)>,
)
    requires
        paths_distinct(old_paths),
        keys_once(ds),
        new_files.len() <= usize::MAX,
    ensures
        keys_once(remapped_decisions(old_paths, new_files, ds)),
    decreases ds.len(),
{
    if ds.len() > 0 {
        let d = ds.drop_last();
        assert forall|i: int, j: int| 0 <= i < j < d.len() implies (#[trigger] d[i]).0 != (#[trigger] d[j]).0 by {
            assert(d[i] == ds[i]);
            assert(d[j] == ds[j]);
        }
        law_carry_decides_each_hunk_once(old_paths, new_files, d);
        lemma_remapped_origin(old_paths, new_files, d);
        let before = remapped_decisions(old_paths, new_files, d);
        let r = remapped_decisions(old_paths, new_files, ds);
        let np = new_files.map_values(|f: (Seq<char>, usize)| f.0);
        let (id, dd) = ds.last();
        if r.len() > before.len() {
            let nf = new_index(old_paths, np, id.file_idx)->0;
            lemma_last_with_path_hit(np, old_paths[id.file_idx as int], np.len());
            assert(nf < np.len());
            let last = r[before.len() as int];
            assert(last == (HunkId { file_idx: nf as usize, hunk_idx: id.hunk_idx }, dd));
            assert forall|i: int, j: int| 0 <= i < j < r.len() implies (#[trigger] r[i]).0 != (#[trigger] r[j]).0 by {
                if j < before.len() {
                    assert(r[i] == before[i]);
                    assert(r[j] == before[j]);
                } else {
                    assert(r[i] == before[i]);
                    if r[i].0 == r[j].0 {
                        let k = choose|k: int|
                            0 <= k < d.len() && d[k].0.hunk_idx == (#[trigger] before[i]).0.hunk_idx
                                && new_index(old_paths, np, d[k].0.file_idx) == Some(before[i].0.file_idx as nat);
                        assert(before[i].0.file_idx == nf as usize);
                        assert(new_index(old_paths, np, d[k].0.file_idx) == Some(nf));
                        lemma_new_index_injective(old_paths, np, d[k].0.file_idx, id.file_idx);
                        assert(ds[k] == d[k]);
                        assert(ds[ds.len() - 1] == ds.last());
                        assert(ds[k].0 == ds[ds.len() - 1].0);
                    }
                }
            }
        } else {
            assert(r == before);
        }
    }
}

} // verus!
