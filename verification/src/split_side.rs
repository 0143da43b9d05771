//! One side of a split (side-by-side) row: a right-aligned line-number
//! gutter, then the code's styled runs cut to the column width, an ellipsis
//! where the line was cut, and blank padding so the divider between the two
//! sides stays aligned.

use vstd::prelude::*;
use crate::text::{decimal, owned, str_chars, string_from_chars, u64_to_string};
use crate::view::{char_str_cols, one_char_width, runs_view, space_string, spaces, str_width, str_width_of};

verus! {

/// The characters of `text` that fit between column `used` and `width`,
/// taken from the front and stopping at the first that does not fit, and
/// the column reached.
pub open spec fn clip_chars(text: Seq<char>, width: nat, used: nat) -> (Seq<char>, nat)
    decreases text.len(),
{
    if text.len() == 0 {
        (Seq::empty(), used)
    } else if used + char_str_cols(text[0]) > width {
        (Seq::empty(), used)
    } else {
        let rest = clip_chars(text.drop_first(), width, used + char_str_cols(text[0]));
        (seq![text[0]] + rest.0, rest.1)
    }
}

/// The styled runs cut to `width` columns from column `used` on: each run
/// keeps the characters of it that fit (a run that keeps none vanishes),
/// and the cut stops once the width is reached; with the column reached.
pub open spec fn clip_runs<S>(runs: Seq<(S, Seq<char>)>, width: nat, used: nat) -> (
    Seq<(S, Seq<char>)>,
    nat,
)
    decreases runs.len(),
{
    if runs.len() == 0 || used >= width {
        (Seq::empty(), used)
    } else {
        let (chunk, u) = clip_chars(runs[0].1, width, used);
        let rest = clip_runs(runs.drop_first(), width, u);
        ((if chunk.len() > 0 {
            seq![(runs[0].0, chunk)]
        } else {
            Seq::empty()
        }) + rest.0, rest.1)
    }
}

/// The columns of a list of characters, each measured on its own.
pub open spec fn chars_cols(cs: Seq<char>) -> nat
    decreases cs.len(),
{
    if cs.len() == 0 {
        0
    } else {
        char_str_cols(cs[0]) + chars_cols(cs.drop_first())
    }
}

/// The columns of a list of runs.
pub open spec fn runs_cols<S>(runs: Seq<(S, Seq<char>)>) -> nat
    decreases runs.len(),
{
    if runs.len() == 0 {
        0
    } else {
        chars_cols(runs[0].1) + runs_cols(runs.drop_first())
    }
}

/// The code part of one side: the kept pieces of the runs, whether an
/// ellipsis marks the cut, and the blank columns after it.
pub struct ClippedSide<S> {
    pub chunks: Vec<(S, String)>,
    pub ellipsis: bool,
    pub pad: usize,
}

/// What [`clip_side`] gives for runs, the line's full text and a width.
pub open spec fn clip_side_spec<S>(runs: Seq<(S, Seq<char>)>, text: Seq<char>, width: nat) -> (
    Seq<(S, Seq<char>)>,
    bool,
    nat,
) {
    let (chunks, used) = clip_runs(runs, width, 0);
    let ellipsis = used < str_width_of(text) && width > 0 && used < width;
    let end = used + if ellipsis { 1nat } else { 0nat };
    (chunks, ellipsis, if end < width { (width - end) as nat } else { 0 })
}

proof fn lemma_clip_chars(text: Seq<char>, width: nat, used: nat)
    requires
        used <= width,
    ensures
        clip_chars(text, width, used).1 == used + chars_cols(clip_chars(text, width, used).0),
        clip_chars(text, width, used).1 <= width,
    decreases text.len(),
{
    if text.len() > 0 && used + char_str_cols(text[0]) <= width {
        let u = used + char_str_cols(text[0]);
        lemma_clip_chars(text.drop_first(), width, u);
        let rest = clip_chars(text.drop_first(), width, u);
        assert((seq![text[0]] + rest.0).drop_first() =~= rest.0);
        assert((seq![text[0]] + rest.0)[0] == text[0]);
    } else {
        assert(chars_cols(Seq::<char>::empty()) == 0);
    }
}

proof fn lemma_clip_runs<S>(runs: Seq<(S, Seq<char>)>, width: nat, used: nat)
    requires
        used <= width,
    ensures
        clip_runs(runs, width, used).1 == used + runs_cols(clip_runs(runs, width, used).0),
        clip_runs(runs, width, used).1 <= width,
    decreases runs.len(),
{
    if runs.len() == 0 || used >= width {
        assert(runs_cols(Seq::<(S, Seq<char>)>::empty()) == 0);
    } else {
        let (chunk, u) = clip_chars(runs[0].1, width, used);
        lemma_clip_chars(runs[0].1, width, used);
        lemma_clip_runs(runs.drop_first(), width, u);
        let rest = clip_runs(runs.drop_first(), width, u);
        if chunk.len() > 0 {
            let all = seq![(runs[0].0, chunk)] + rest.0;
            assert(all.drop_first() =~= rest.0);
            assert(all[0] == (runs[0].0, chunk));
        } else {
            assert(chunk =~= Seq::<char>::empty());
            assert(Seq::<(S, Seq<char>)>::empty() + rest.0 =~= rest.0);
        }
    }
}

pub open spec fn chunks_view<S>(v: Seq<(S, String)>) -> Seq<(S, Seq<char>)> {
    v.map_values(|p: (S, String)| (p.0, p.1@))
}

/// The characters of `text` that fit from column `used` up to `width`.
fn clip_text(text: &str, width: usize, used: usize) -> (r: (String, usize))
    requires
        used <= width,
    ensures
        r.0@ == clip_chars(text@, width as nat, used as nat).0,
        r.1 == clip_chars(text@, width as nat, used as nat).1,
        r.1 <= width,
{
    proof {
        lemma_clip_chars(text@, width as nat, used as nat);
    }
    let cs = str_chars(text);
    let mut kept: Vec<char> = Vec::new();
    let mut u: usize = used;
    let mut k: usize = 0;
    proof {
        assert(cs@.subrange(0, cs@.len() as int) =~= cs@);
    }
    while k < cs.len()
        invariant
            k <= cs.len(),
            u <= width,
            clip_chars(text@, width as nat, used as nat) == (kept@ + clip_chars(
                cs@.subrange(k as int, cs@.len() as int),
                width as nat,
                u as nat,
            ).0, clip_chars(cs@.subrange(k as int, cs@.len() as int), width as nat, u as nat).1),
            cs@ == text@,
        decreases cs.len() - k,
    {
        let ghost rest = cs@.subrange(k as int, cs@.len() as int);
        let c = cs[k];
        let w = one_char_width(c);
        proof {
            assert(rest[0] == c);
        }
        if w > width - u {
            proof {
                assert(kept@ + Seq::<char>::empty() =~= kept@);
            }
            return (string_from_chars(kept.as_slice()), u);
        }
        proof {
            assert(rest.drop_first() =~= cs@.subrange(k + 1, cs@.len() as int));
            let tail = clip_chars(rest.drop_first(), width as nat, (u + w) as nat);
            assert(kept@ + (seq![c] + tail.0) =~= kept@.push(c) + tail.0);
        }
        kept.push(c);
        u = u + w;
        k = k + 1;
    }
    proof {
        assert(cs@.subrange(cs@.len() as int, cs@.len() as int) =~= Seq::<char>::empty());
        assert(kept@ + Seq::<char>::empty() =~= kept@);
    }
    (string_from_chars(kept.as_slice()), u)
}

/// Cut a side's styled runs to `width` columns: each run keeps its leading
/// characters that still fit (a wide character that does not fit ends that
/// run's share, and the next run goes on from the same column), and the cut
/// stops at the width. When the line was cut short of its full width
/// (`text`), an ellipsis takes one more column if one is left; blank
/// padding fills the rest, so the side is always exactly `width` columns.
pub fn clip_side<S: Copy>(runs: &Vec<(S, String)>, text: &str, width: usize) -> (r: ClippedSide<S>)
    ensures
        (chunks_view(r.chunks@), r.ellipsis, r.pad as nat) == clip_side_spec(
            runs_view(runs@),
            text@,
            width as nat,
        ),
        runs_cols(chunks_view(r.chunks@)) + (if r.ellipsis { 1nat } else { 0nat }) + r.pad
            == width,
{
    let ghost rv = runs_view(runs@);
    let mut chunks: Vec<(S, String)> = Vec::new();
    let mut used: usize = 0;
    let mut i: usize = 0;
    proof {
        assert(rv.subrange(0, rv.len() as int) =~= rv);
        assert(chunks_view(chunks@) =~= Seq::<(S, Seq<char>)>::empty());
    }
    while i < runs.len() && used < width
        invariant
            i <= runs.len(),
            used <= width,
            rv == runs_view(runs@),
            clip_runs(rv, width as nat, 0) == (chunks_view(chunks@) + clip_runs(
                rv.subrange(i as int, rv.len() as int),
                width as nat,
                used as nat,
            ).0, clip_runs(rv.subrange(i as int, rv.len() as int), width as nat, used as nat).1),
        decreases runs.len() - i,
    {
        let ghost rest = rv.subrange(i as int, rv.len() as int);
        proof {
            assert(rest[0] == (runs@[i as int].0, runs@[i as int].1@));
            assert(rest.drop_first() =~= rv.subrange(i + 1, rv.len() as int));
        }
        let st = runs[i].0;
        let (chunk, u) = clip_text(runs[i].1.as_str(), width, used);
        let ghost before = chunks_view(chunks@);
        if !chunk.as_str().is_empty() {
            let ghost cv = chunk@;
            chunks.push((st, chunk));
            proof {
                assert(cv.len() > 0);
                assert(chunks_view(chunks@) =~= before + seq![(st, cv)]);
            }
        }
        proof {
            let cc = clip_chars(rest[0].1, width as nat, used as nat);
            let tail = clip_runs(rest.drop_first(), width as nat, u as nat);
            assert(chunks_view(chunks@) + tail.0 =~= before + ((if cc.0.len() > 0 {
                seq![(st, cc.0)]
            } else {
                Seq::empty()
            }) + tail.0));
        }
        used = u;
        i = i + 1;
    }
    proof {
        if i == runs.len() {
            assert(rv.subrange(i as int, rv.len() as int) =~= Seq::<(S, Seq<char>)>::empty());
        }
        assert(chunks_view(chunks@) + Seq::<(S, Seq<char>)>::empty() =~= chunks_view(chunks@));
        lemma_clip_runs(rv, width as nat, 0);
    }
    let text_w = str_width(text);
    let ellipsis = used < text_w && width > 0 && used < width;
    let end = if ellipsis { used + 1 } else { used };
    let pad = if end < width { width - end } else { 0 };
    ClippedSide { chunks, ellipsis, pad }
}

/// `s` right-aligned in a field of `w` columns (left-padded with blanks).
pub open spec fn right_aligned(s: Seq<char>, w: nat) -> Seq<char> {
    if s.len() < w {
        spaces((w - s.len()) as nat) + s
    } else {
        s
    }
}

/// The line-number gutter of a split side: the number right-aligned in five
/// columns and a blank, or six blanks for a side without a number.
pub fn side_gutter(line_no: Option<u32>) -> (r: String)
    ensures
        r@ == match line_no {
            Some(n) => right_aligned(decimal(n as nat), 5) + " "@,
            None => spaces(6),
        },
{
    match line_no {
        Some(_) => {
            let mut r = number_field(line_no);
            r.append(" ");
            r
        },
        None => space_string(6),
    }
}

/// A side with no line: blanks across the gutter, the sign column and the
/// code column, so the divider stays aligned.
pub fn empty_side(width: usize) -> (r: String)
    requires
        width + 7 <= usize::MAX,
    ensures
        r@ == spaces((width + 7) as nat),
{
    space_string(width + 7)
}


/// The code columns each side of a split row gets in a pane `width`
/// columns wide: what is left after two six-column gutters, two sign
/// columns and the three-column divider, halved. Two sides with their
/// gutters, signs and the divider never take more than the pane.
pub fn split_column_width(width: u16) -> (r: usize)
    ensures
        r == (if width >= 17 { ((width - 17) / 2) as usize } else { 0 }),
        width >= 17 ==> 2 * r + 17 <= width,
{
    let w = width as usize;
    let left = if w >= 2 * (6 + 1) + 3 { w - (2 * (6 + 1) + 3) } else { 0 };
    left / 2
}


/// The unified layout's line-number gutter: ` old new ` with each number
/// right-aligned in five columns (blank for a side without one).
pub fn line_number_gutter(old_no: Option<u32>, new_no: Option<u32>) -> (r: String)
    ensures
        r@ == " "@ + (match old_no {
            Some(n) => right_aligned(decimal(n as nat), 5),
            None => spaces(5),
        }) + " "@ + (match new_no {
            Some(n) => right_aligned(decimal(n as nat), 5),
            None => spaces(5),
        }) + " "@,
{
    let mut r = owned(" ");
    r.append(number_field(old_no).as_str());
    r.append(" ");
    r.append(number_field(new_no).as_str());
    r.append(" ");
    r
}

/// A line number right-aligned in five columns, or five blanks.
fn number_field(n: Option<u32>) -> (r: String)
    ensures
        r@ == match n {
            Some(n) => right_aligned(decimal(n as nat), 5),
            None => spaces(5),
        },
{
    match n {
        Some(n) => {
            let digits = u64_to_string(n as u64);
            let len = str_chars(digits.as_str()).len();
            let mut r = if len < 5 { space_string(5 - len) } else { String::new() };
            r.append(digits.as_str());
            proof {
                if len >= 5 {
                    assert(r@ =~= decimal(n as nat));
                }
            }
            r
        },
        None => space_string(5),
    }
}

/// The marker row of a collapsed run of unchanged lines.
pub fn unchanged_marker(count: usize) -> (r: String)
    ensures
        r@ == "  ··· "@ + decimal(count as nat) + " unchanged lines ···"@,
{
    let mut r = owned("  ··· ");
    r.append(u64_to_string(count as u64).as_str());
    r.append(" unchanged lines ···");
    r
}

} // verus!
