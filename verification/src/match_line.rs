//! The current search match, painted inside its row: the row's styled runs
//! are re-sliced at every case-insensitive occurrence of the needle, so the
//! matched characters can take the active-match style while the rest of the
//! row keeps its own colors under a subdued background.
//!
//! Offsets are character offsets into the row's text.

use vstd::prelude::*;
use crate::text::{str_chars, str_to_lowercase, string_from_chars, unicode_lowercase};
use crate::view::{
    lemma_piece_text_concat, lemma_piece_text_one, piece_text, pieces_view, run_text, runs_view,
    total_chars,
};

verus! {

/// The first position at or after `start` where `needle` occurs in `hay`
/// (`start` itself for an empty needle).
pub open spec fn first_match_from(hay: Seq<char>, needle: Seq<char>, start: nat) -> Option<nat>
    decreases hay.len() - start,
{
    if needle.len() == 0 {
        Some(start)
    } else if start + needle.len() > hay.len() {
        None
    } else if hay.subrange(start as int, (start + needle.len()) as int) == needle {
        Some(start)
    } else {
        first_match_from(hay, needle, start + 1)
    }
}

/// A match found from `start` lies at or after `start` and inside `hay`.
pub proof fn lemma_first_match_bounds(hay: Seq<char>, needle: Seq<char>, start: nat)
    requires
        needle.len() > 0,
    ensures
        match first_match_from(hay, needle, start) {
            Some(s) => start <= s && s + needle.len() <= hay.len() && hay.subrange(
                s as int,
                (s + needle.len()) as int,
            ) == needle,
            None => true,
        },
    decreases hay.len() - start,
{
    if start + needle.len() <= hay.len() && hay.subrange(start as int, (start + needle.len()) as int)
        != needle {
        lemma_first_match_bounds(hay, needle, start + 1);
    }
}

/// The successive non-overlapping matches of a non-empty `needle` in `hay`,
/// as half-open `[start, end)` character ranges, searching from `start`:
/// each search resumes where the previous match ended, and the scan stops
/// once a match ends at or past `limit`.
pub open spec fn match_ranges_from(hay: Seq<char>, needle: Seq<char>, start: nat, limit: nat) -> Seq<
    (nat, nat),
>
    decreases hay.len() - start,
{
    if needle.len() == 0 {
        Seq::empty()
    } else {
        match first_match_from(hay, needle, start) {
            None => Seq::empty(),
            Some(s) => {
                let e = s + needle.len();
                proof {
                    lemma_first_match_bounds(hay, needle, start);
                }
                seq![(s, e)] + if e >= limit {
                    Seq::<(nat, nat)>::empty()
                } else {
                    match_ranges_from(hay, needle, e, limit)
                }
            },
        }
    }
}

pub open spec fn ranges_view(r: Seq<(usize, usize)>) -> Seq<(nat, nat)> {
    r.map_values(|p: (usize, usize)| (p.0 as nat, p.1 as nat))
}

/// Whether `needle` sits at position `s` of `hay`.
fn matches_at(hay: &Vec<char>, needle: &Vec<char>, s: usize) -> (b: bool)
    requires
        s + needle.len() <= hay.len(),
    ensures
        b == (hay@.subrange(s as int, s + needle.len()) == needle@),
{
    let n = needle.len();
    let mut k: usize = 0;
    while k < n
        invariant
            k <= n,
            n == needle.len(),
            s + n <= hay.len(),
            forall|j: int| 0 <= j < k ==> hay@[s + j] == needle@[j],
        decreases n - k,
    {
        if hay[s + k] != needle[k] {
            proof {
                assert(hay@.subrange(s as int, s + n)[k as int] != needle@[k as int]);
            }
            return false;
        }
        k = k + 1;
    }
    proof {
        assert(hay@.subrange(s as int, s + n) =~= needle@);
    }
    true
}

/// The first occurrence of a non-empty `needle` in `hay` at or after `start`.
fn find_from(hay: &Vec<char>, needle: &Vec<char>, start: usize) -> (r: Option<usize>)
    requires
        needle.len() > 0,
    ensures
        match r {
            Some(s) => first_match_from(hay@, needle@, start as nat) == Some(s as nat),
            None => first_match_from(hay@, needle@, start as nat) is None,
        },
{
    let n = needle.len();
    if n > hay.len() || start > hay.len() - n {
        return None;
    }
    let last = hay.len() - n;
    let mut s: usize = start;
    while s <= last
        invariant
            start <= s,
            n == needle.len(),
            n > 0,
            last + n == hay.len(),
            first_match_from(hay@, needle@, start as nat) == first_match_from(
                hay@,
                needle@,
                s as nat,
            ),
        decreases last + 1 - s,
    {
        if matches_at(hay, needle, s) {
            return Some(s);
        }
        s = s + 1;
    }
    None
}

/// The successive non-overlapping matches of `needle` in `hay`, searched
/// from the start; after each match the search resumes at its end, and it
/// stops once a match ends at or past `limit`.
pub fn match_ranges(hay: &Vec<char>, needle: &Vec<char>, limit: usize) -> (r: Vec<(usize, usize)>)
    requires
        needle.len() > 0,
    ensures
        ranges_view(r@) == match_ranges_from(hay@, needle@, 0, limit as nat),
{
    let n = needle.len();
    let mut out: Vec<(usize, usize)> = Vec::new();
    let mut start: usize = 0;
    let ghost all = match_ranges_from(hay@, needle@, 0, limit as nat);
    proof {
        assert(ranges_view(out@) =~= Seq::<(nat, nat)>::empty());
        assert(all =~= ranges_view(out@) + match_ranges_from(hay@, needle@, 0, limit as nat));
    }
    loop
        invariant_except_break
            n == needle.len(),
            n > 0,
            start <= hay.len(),
            all == ranges_view(out@) + match_ranges_from(hay@, needle@, start as nat, limit as nat),
        ensures
            all == ranges_view(out@),
        decreases hay.len() - start,
    {
        match find_from(hay, needle, start) {
            None => {
                proof {
                    assert(ranges_view(out@) + Seq::<(nat, nat)>::empty() =~= ranges_view(out@));
                }
                break;
            },
            Some(s) => {
                proof {
                    lemma_first_match_bounds(hay@, needle@, start as nat);
                }
                let e = s + n;
                let ghost before = ranges_view(out@);
                out.push((s, e));
                proof {
                    assert(ranges_view(out@) =~= before.push((s as nat, e as nat)));
                }
                if e >= limit {
                    proof {
                        assert(ranges_view(out@) =~= before + seq![(s as nat, e as nat)]
                            + Seq::<(nat, nat)>::empty());
                    }
                    break;
                }
                proof {
                    assert(before + (seq![(s as nat, e as nat)] + match_ranges_from(
                        hay@,
                        needle@,
                        e as nat,
                        limit as nat,
                    )) =~= ranges_view(out@) + match_ranges_from(
                        hay@,
                        needle@,
                        e as nat,
                        limit as nat,
                    ));
                }
                start = e;
            },
        }
    }
    out
}


/// Whether character `g` of the line lies inside one of the ranges.
pub open spec fn covered(ranges: Seq<(nat, nat)>, g: nat) -> bool {
    exists|j: int| 0 <= j < ranges.len() && ranges[j].0 <= g && g < ranges[j].1
}

/// The pieces one styled run splits into: maximal stretches of its
/// characters that lie all inside or all outside the ranges, each flagged
/// accordingly and keeping the run's style. The run starts at character
/// `at` of the line; an empty run gives no piece.
pub open spec fn mask_run<S>(st: S, text: Seq<char>, at: nat, ranges: Seq<(nat, nat)>) -> Seq<
    (S, bool, Seq<char>),
>
    decreases text.len(),
{
    if text.len() == 0 {
        Seq::empty()
    } else {
        let prev = mask_run(st, text.drop_last(), at, ranges);
        let f = covered(ranges, (at + text.len() - 1) as nat);
        if prev.len() > 0 && prev.last().1 == f {
            prev.drop_last().push((st, f, prev.last().2.push(text.last())))
        } else {
            prev.push((st, f, seq![text.last()]))
        }
    }
}

/// The pieces of all the runs, the first starting at character `at`.
pub open spec fn mask_pieces<S>(runs: Seq<(S, Seq<char>)>, ranges: Seq<(nat, nat)>, at: nat) -> Seq<
    (S, bool, Seq<char>),
>
    decreases runs.len(),
{
    if runs.len() == 0 {
        Seq::empty()
    } else {
        mask_run(runs[0].0, runs[0].1, at, ranges) + mask_pieces(
            runs.drop_first(),
            ranges,
            at + runs[0].1.len(),
        )
    }
}

/// A per-character mask of the line: `true` where a range covers it.
fn coverage_mask(total: usize, ranges: &Vec<(usize, usize)>) -> (m: Vec<bool>)
    requires
        forall|j: int| 0 <= j < ranges.len() ==> (#[trigger] ranges@[j]).0 <= ranges@[j].1 <= total,
    ensures
        m.len() == total,
        forall|g: int| 0 <= g < total ==> m@[g] == covered(ranges_view(ranges@), g as nat),
{
    let ghost rv = ranges_view(ranges@);
    let mut m: Vec<bool> = Vec::new();
    let mut g: usize = 0;
    while g < total
        invariant
            g <= total,
            m.len() == g,
            forall|x: int| 0 <= x < g ==> m@[x] == false,
        decreases total - g,
    {
        m.push(false);
        g = g + 1;
    }
    let mut k: usize = 0;
    while k < ranges.len()
        invariant
            k <= ranges.len(),
            m.len() == total,
            rv == ranges_view(ranges@),
            forall|j: int| 0 <= j < ranges.len() ==> (#[trigger] ranges@[j]).0 <= ranges@[j].1 <= total,
            forall|x: int|
                0 <= x < total ==> m@[x] == (exists|j: int|
                    0 <= j < k && rv[j].0 <= x && x < rv[j].1),
        decreases ranges.len() - k,
    {
        let (s, e) = ranges[k];
        let mut x: usize = s;
        while x < e
            invariant
                s <= x <= e,
                e <= total,
                m.len() == total,
                k < ranges.len(),
                rv == ranges_view(ranges@),
                rv[k as int] == (s as nat, e as nat),
                forall|y: int|
                    0 <= y < total ==> m@[y] == ((exists|j: int|
                        0 <= j < k && rv[j].0 <= y && y < rv[j].1) || (s <= y && y < x)),
            decreases e - x,
        {
            m.set(x, true);
            x = x + 1;
        }
        proof {
            assert forall|y: int| 0 <= y < total implies m@[y] == (exists|j: int|
                0 <= j < k + 1 && rv[j].0 <= y && y < rv[j].1) by {
                if s <= y && y < e {
                    assert(rv[k as int].0 <= y && y < rv[k as int].1);
                }
                if exists|j: int| 0 <= j < k + 1 && rv[j].0 <= y && y < rv[j].1 {
                    let j = choose|j: int| 0 <= j < k + 1 && rv[j].0 <= y && y < rv[j].1;
                    if j < k {
                    } else {
                        assert(j == k);
                    }
                }
            }
        }
        k = k + 1;
    }
    m
}

/// Split styled runs at the edges of the given character ranges: each run
/// becomes the maximal stretches of its characters that lie all inside or
/// all outside the ranges, flagged accordingly and keeping the run's style;
/// empty runs vanish.
pub fn split_at_ranges<S: Copy>(runs: &Vec<(S, String)>, ranges: &Vec<(usize, usize)>) -> (r: Vec<
    (S, bool, String),
>)
    requires
        total_chars(runs_view(runs@)) <= usize::MAX,
        forall|j: int|
            0 <= j < ranges.len() ==> (#[trigger] ranges@[j]).0 <= ranges@[j].1 <= total_chars(
                runs_view(runs@),
            ),
    ensures
        pieces_view(r@) == mask_pieces(runs_view(runs@), ranges_view(ranges@), 0),
{
    let ghost rv = runs_view(runs@);
    let ghost gv = ranges_view(ranges@);
    let total = total_len(runs);
    let mask = coverage_mask(total, ranges);
    let mut out: Vec<(S, bool, String)> = Vec::new();
    let mut at: usize = 0;
    let mut i: usize = 0;
    proof {
        assert(rv.subrange(0, rv.len() as int) =~= rv);
        assert(pieces_view(out@) =~= Seq::<(S, bool, Seq<char>)>::empty());
    }
    while i < runs.len()
        invariant
            i <= runs.len(),
            rv == runs_view(runs@),
            gv == ranges_view(ranges@),
            mask.len() == total,
            total == total_chars(rv),
            forall|g: int| 0 <= g < total ==> mask@[g] == covered(gv, g as nat),
            mask_pieces(rv, gv, 0) == pieces_view(out@) + mask_pieces(
                rv.subrange(i as int, rv.len() as int),
                gv,
                at as nat,
            ),
            at + total_chars(rv.subrange(i as int, rv.len() as int)) == total,
        decreases runs.len() - i,
    {
        let st = runs[i].0;
        let chars = str_chars(runs[i].1.as_str());
        let ghost text = chars@;
        let ghost rest = rv.subrange(i as int, rv.len() as int);
        proof {
            assert(rest[0] == (st, text));
            assert(rest.drop_first() =~= rv.subrange(i + 1, rv.len() as int));
        }
        let ghost before = pieces_view(out@);
        let mut buf: Vec<char> = Vec::new();
        let mut flag: bool = false;
        let mut have: bool = false;
        let mut k: usize = 0;
        proof {
            assert(text.take(0) =~= Seq::<char>::empty());
            assert(pieces_view(out@) =~= before + Seq::<(S, bool, Seq<char>)>::empty());
        }
        while k < chars.len()
            invariant
                k <= chars.len(),
                chars@ == text,
                at + text.len() <= total,
                mask.len() == total,
                forall|g: int| 0 <= g < total ==> mask@[g] == covered(gv, g as nat),
                have == (k > 0),
                pieces_view(out@) + (if have {
                    seq![(st, flag, buf@)]
                } else {
                    Seq::<(S, bool, Seq<char>)>::empty()
                }) == before + mask_run(st, text.take(k as int), at as nat, gv),
            decreases chars.len() - k,
        {
            let c = chars[k];
            let f = mask[at + k];
            let ghost prev = mask_run(st, text.take(k as int), at as nat, gv);
            let ghost pv = pieces_view(out@);
            proof {
                assert(text.take(k + 1).drop_last() =~= text.take(k as int));
                assert(text.take(k + 1).last() == c);
                assert(f == covered(gv, (at + text.take(k + 1).len() - 1) as nat));
                if have {
                    assert(text.take(k as int).len() > 0);
                    assert(prev.len() > 0);
                    assert(pv + seq![(st, flag, buf@)] == before + prev);
                    assert((pv + seq![(st, flag, buf@)]).last() == (st, flag, buf@));
                    assert(prev.last() == (st, flag, buf@));
                    assert((before + prev).drop_last() =~= before + prev.drop_last());
                    assert(pv =~= (pv + seq![(st, flag, buf@)]).drop_last());
                    assert(pv == before + prev.drop_last());
                } else {
                    assert(prev =~= Seq::<(S, bool, Seq<char>)>::empty());
                }
            }
            if have && flag == f {
                buf.push(c);
                proof {
                    assert(pieces_view(out@) + seq![(st, flag, buf@)] =~= before + prev.drop_last().push(
                        (st, f, prev.last().2.push(c)),
                    ));
                }
            } else {
                if have {
                    let piece = string_from_chars(buf.as_slice());
                    out.push((st, flag, piece));
                    proof {
                        assert(pieces_view(out@) =~= pv.push((st, flag, buf@)));
                        assert(pieces_view(out@) =~= before + prev);
                    }
                }
                buf = Vec::new();
                buf.push(c);
                flag = f;
                have = true;
                proof {
                    assert(buf@ =~= seq![c]);
                    assert(pieces_view(out@) + seq![(st, flag, buf@)] =~= before + prev.push(
                        (st, f, seq![c]),
                    ));
                }
            }
            k = k + 1;
        }
        proof {
            assert(text.take(text.len() as int) =~= text);
        }
        if have {
            let piece = string_from_chars(buf.as_slice());
            out.push((st, flag, piece));
            proof {
                assert(pieces_view(out@) =~= before + mask_run(st, text, at as nat, gv));
            }
        } else {
            proof {
                assert(pieces_view(out@) =~= before + mask_run(st, text, at as nat, gv));
            }
        }
        proof {
            assert(pieces_view(out@) + mask_pieces(rest.drop_first(), gv, (at + text.len()) as nat)
                =~= before + mask_pieces(rest, gv, at as nat));
        }
        at = at + chars.len();
        i = i + 1;
    }
    proof {
        assert(rv.subrange(runs@.len() as int, rv.len() as int) =~= Seq::<(S, Seq<char>)>::empty());
        assert(pieces_view(out@) + Seq::<(S, bool, Seq<char>)>::empty() =~= pieces_view(out@));
    }
    out
}

/// The number of characters of all the runs.
fn total_len<S>(runs: &Vec<(S, String)>) -> (n: usize)
    requires
        total_chars(runs_view(runs@)) <= usize::MAX,
    ensures
        n == total_chars(runs_view(runs@)),
{
    let ghost rv = runs_view(runs@);
    let mut n: usize = 0;
    let mut i: usize = 0;
    proof {
        assert(rv.subrange(0, rv.len() as int) =~= rv);
    }
    while i < runs.len()
        invariant
            i <= runs.len(),
            rv == runs_view(runs@),
            total_chars(rv) <= usize::MAX,
            n + total_chars(rv.subrange(i as int, rv.len() as int)) == total_chars(rv),
        decreases runs.len() - i,
    {
        let ghost rest = rv.subrange(i as int, rv.len() as int);
        proof {
            assert(rest[0] == (runs@[i as int].0, runs@[i as int].1@));
            assert(rest.drop_first() =~= rv.subrange(i + 1, rv.len() as int));
        }
        let len = str_chars(runs[i].1.as_str()).len();
        n = n + len;
        i = i + 1;
    }
    proof {
        assert(rv.subrange(runs@.len() as int, rv.len() as int) =~= Seq::<(S, Seq<char>)>::empty());
    }
    n
}


/// Every match range runs forward: its start is at most its end.
pub proof fn lemma_ranges_forward(hay: Seq<char>, needle: Seq<char>, start: nat, limit: nat)
    ensures
        forall|j: int|
            0 <= j < match_ranges_from(hay, needle, start, limit).len() ==> (#[trigger] match_ranges_from(
                hay,
                needle,
                start,
                limit,
            )[j]).0 <= match_ranges_from(hay, needle, start, limit)[j].1,
    decreases hay.len() - start,
{
    if needle.len() > 0 {
        lemma_first_match_bounds(hay, needle, start);
        match first_match_from(hay, needle, start) {
            None => {},
            Some(s) => {
                let e = s + needle.len();
                if e < limit {
                    lemma_ranges_forward(hay, needle, e, limit);
                }
                let all = match_ranges_from(hay, needle, start, limit);
                let tail = if e >= limit {
                    Seq::<(nat, nat)>::empty()
                } else {
                    match_ranges_from(hay, needle, e, limit)
                };
                assert(all == seq![(s, e)] + tail);
                assert forall|j: int| 0 <= j < all.len() implies (#[trigger] all[j]).0 <= all[j].1 by {
                    if j > 0 {
                        assert(all[j] == tail[j - 1]);
                    }
                }
            },
        }
    }
}

/// The text of the runs has as many characters as the runs together.
pub proof fn lemma_run_text_len<S>(runs: Seq<(S, Seq<char>)>)
    ensures
        run_text(runs).len() == total_chars(runs),
    decreases runs.len(),
{
    if runs.len() > 0 {
        lemma_run_text_len(runs.drop_first());
    }
}

/// The text of the runs, as one string.
fn line_text<S>(runs: &Vec<(S, String)>) -> (t: String)
    ensures
        t@ == run_text(runs_view(runs@)),
{
    let ghost rv = runs_view(runs@);
    let mut t = String::new();
    let mut i: usize = 0;
    proof {
        assert(rv.subrange(0, rv.len() as int) =~= rv);
        assert(t@ =~= Seq::<char>::empty());
        assert(run_text(rv) =~= t@ + run_text(rv));
    }
    while i < runs.len()
        invariant
            i <= runs.len(),
            rv == runs_view(runs@),
            run_text(rv) == t@ + run_text(rv.subrange(i as int, rv.len() as int)),
        decreases runs.len() - i,
    {
        let ghost rest = rv.subrange(i as int, rv.len() as int);
        proof {
            assert(rest[0] == (runs@[i as int].0, runs@[i as int].1@));
            assert(rest.drop_first() =~= rv.subrange(i + 1, rv.len() as int));
        }
        let ghost old_t = t@;
        t.append(runs[i].1.as_str());
        proof {
            assert(old_t + run_text(rest) =~= t@ + run_text(rest.drop_first()));
        }
        i = i + 1;
    }
    proof {
        assert(rv.subrange(runs@.len() as int, rv.len() as int) =~= Seq::<(S, Seq<char>)>::empty());
        assert(t@ + Seq::<char>::empty() =~= t@);
    }
    t
}

/// The ranges of the needle's case-insensitive matches in a line: line and
/// needle are both lowercased, and the scan stops once a match ends at or
/// past the line's last character.
pub open spec fn line_match_ranges(line: Seq<char>, needle: Seq<char>) -> Seq<(nat, nat)> {
    match_ranges_from(unicode_lowercase(line), unicode_lowercase(needle), 0, line.len())
}

/// How the current-match row is painted. `None`: the whole row takes the
/// active-match style (an empty needle, or no match in the row, or a match
/// that would end past the row's last character, which only a lowercasing
/// that lengthens the text can produce). Otherwise the row's runs split at
/// the matches, the pieces inside a match flagged.
pub open spec fn current_match_spec<S>(runs: Seq<(S, Seq<char>)>, needle: Seq<char>) -> Option<
    Seq<(S, bool, Seq<char>)>,
> {
    let ranges = line_match_ranges(run_text(runs), needle);
    if needle.len() == 0 || unicode_lowercase(needle).len() == 0 || ranges.len() == 0 || exists|
        j: int,
    |
        0 <= j < ranges.len() && (#[trigger] ranges[j]).1 > run_text(runs).len() {
        None
    } else {
        Some(mask_pieces(runs, ranges, 0))
    }
}

/// Re-slice the current search-match row at every case-insensitive match
/// of `needle`: the pieces inside a match are flagged (the caller gives them
/// the active-match style, the rest a subdued background over their own
/// style). `None` asks for the whole row in the active-match style.
pub fn current_match_pieces<S: Copy>(runs: &Vec<(S, String)>, needle: &str) -> (r: Option<
    Vec<(S, bool, String)>,
>)
    requires
        total_chars(runs_view(runs@)) <= usize::MAX,
    ensures
        match r {
            None => current_match_spec(runs_view(runs@), needle@) is None,
            Some(p) => current_match_spec(runs_view(runs@), needle@) == Some(pieces_view(p@)),
        },
{
    let ghost rv = runs_view(runs@);
    let raw = str_chars(needle);
    if raw.len() == 0 {
        return None;
    }
    let needle_lc = str_to_lowercase(needle);
    let nv = str_chars(needle_lc.as_str());
    if nv.len() == 0 {
        return None;
    }
    let full = line_text(runs);
    let total = total_len(runs);
    proof {
        lemma_run_text_len(rv);
    }
    let full_lc = str_to_lowercase(full.as_str());
    let hv = str_chars(full_lc.as_str());
    let ranges = match_ranges(&hv, &nv, total);
    let ghost gv = ranges_view(ranges@);
    proof {
        assert(gv == line_match_ranges(run_text(rv), needle@));
        lemma_ranges_forward(hv@, nv@, 0, total as nat);
    }
    if ranges.len() == 0 {
        return None;
    }
    let mut j: usize = 0;
    while j < ranges.len()
        invariant
            j <= ranges.len(),
            gv == ranges_view(ranges@),
            rv == runs_view(runs@),
            total == run_text(rv).len(),
            gv == line_match_ranges(run_text(rv), needle@),
            forall|x: int| 0 <= x < j ==> (#[trigger] ranges@[x]).1 <= total,
        decreases ranges.len() - j,
    {
        if ranges[j].1 > total {
            proof {
                assert(gv[j as int].1 > run_text(rv).len());
            }
            return None;
        }
        j = j + 1;
    }
    proof {
        assert forall|x: int| 0 <= x < ranges.len() implies (#[trigger] ranges@[x]).0 <= ranges@[x].1
            <= total by {
            assert(gv[x] == (ranges@[x].0 as nat, ranges@[x].1 as nat));
        }
        assert(!(exists|x: int| 0 <= x < gv.len() && (#[trigger] gv[x]).1 > run_text(rv).len())) by {
            assert forall|x: int| 0 <= x < gv.len() implies (#[trigger] gv[x]).1 <= run_text(rv).len() by {
                assert(gv[x] == (ranges@[x].0 as nat, ranges@[x].1 as nat));
                assert(ranges@[x].1 <= total);
            }
        }
    }
    Some(split_at_ranges(runs, &ranges))
}

proof fn lemma_piece_text_push<S>(a: Seq<(S, bool, Seq<char>)>, x: (S, bool, Seq<char>))
    ensures
        piece_text(a.push(x)) == piece_text(a) + x.2,
{
    assert(a.push(x) =~= a + seq![x]);
    lemma_piece_text_concat(a, seq![x]);
    lemma_piece_text_one(x);
}

proof fn lemma_mask_run_text<S>(st: S, text: Seq<char>, at: nat, ranges: Seq<(nat, nat)>)
    ensures
        piece_text(mask_run(st, text, at, ranges)) == text,
    decreases text.len(),
{
    if text.len() == 0 {
        assert(piece_text(Seq::<(S, bool, Seq<char>)>::empty()) =~= text);
    } else {
        let prev = mask_run(st, text.drop_last(), at, ranges);
        lemma_mask_run_text(st, text.drop_last(), at, ranges);
        let f = covered(ranges, (at + text.len() - 1) as nat);
        if prev.len() > 0 && prev.last().1 == f {
            let init = prev.drop_last();
            assert(prev =~= init.push(prev.last()));
            lemma_piece_text_push(init, prev.last());
            lemma_piece_text_push(init, (st, f, prev.last().2.push(text.last())));
            assert(piece_text(init) + prev.last().2.push(text.last()) =~= (piece_text(init)
                + prev.last().2).push(text.last()));
        } else {
            lemma_piece_text_push(prev, (st, f, seq![text.last()]));
        }
        assert(text.drop_last().push(text.last()) =~= text);
    }
}

/// Splitting a row at the matches never changes its text: the pieces spell
/// out exactly the runs' text, in order.
pub proof fn law_match_pieces_keep_text<S>(runs: Seq<(S, Seq<char>)>, ranges: Seq<(nat, nat)>, at: nat)
    ensures
        piece_text(mask_pieces(runs, ranges, at)) == run_text(runs),
    decreases runs.len(),
{
    if runs.len() > 0 {
        let here = mask_run(runs[0].0, runs[0].1, at, ranges);
        let rest = mask_pieces(runs.drop_first(), ranges, at + runs[0].1.len());
        law_match_pieces_keep_text(runs.drop_first(), ranges, at + runs[0].1.len());
        lemma_mask_run_text(runs[0].0, runs[0].1, at, ranges);
        lemma_piece_text_concat(here, rest);
    } else {
        assert(piece_text(Seq::<(S, bool, Seq<char>)>::empty()) =~= run_text(runs));
    }
}

} // verus!
