//! Agent attention marks (`highlight add`): a character range on one
//! new-side line of a file, painted in a tone over the line's own styling.

use vstd::prelude::*;
use crate::server::highlight_range_error;
use crate::text::{decimal, owned, str_chars, str_eq, u64_to_string};
use crate::view::{map_raw_range, map_raw_range_spec};

verus! {

/// One attention mark: `[start, end)` (1-based characters, raw diff
/// columns) on new-side line `line` of `file`, in a tone.
#[derive(Debug, Clone, PartialEq, Eq)]
pub struct HighlightMark {
    pub id: String,
    pub file: String,
    pub line: u32,
    pub start: usize,
    pub end: usize,
    pub tone: String,
}

/// The marks of a rendered line, in order: those on new-side line `line`
/// of `path`, each as its range in rendered columns (mapped through the
/// tab expansion when the line had tabs, `raw` being its text before) and
/// its tone.
pub open spec fn line_marks_spec(
    marks: Seq<HighlightMark>,
    path: Seq<char>,
    line: u32,
    raw: Option<Seq<char>>,
    tab_width: nat,
) -> Seq<(nat, nat, Seq<char>)>
    decreases marks.len(),
{
    if marks.len() == 0 {
        Seq::empty()
    } else {
        let before = line_marks_spec(marks.drop_last(), path, line, raw, tab_width);
        let m = marks.last();
        if m.file@ == path && m.line == line {
            let r = match raw {
                Some(t) => map_raw_range_spec(t, tab_width, m.start as nat, m.end as nat),
                None => (m.start as nat, m.end as nat),
            };
            before.push((r.0, r.1, m.tone@))
        } else {
            before
        }
    }
}

pub open spec fn ranges3_view(v: Seq<(usize, usize, String)>) -> Seq<(nat, nat, Seq<char>)> {
    v.map_values(|x: (usize, usize, String)| (x.0 as nat, x.1 as nat, x.2@))
}

/// The marks to paint on a rendered line: none for a line without a
/// new-side number, else those on that line of `path`, in order, with
/// their ranges in rendered columns and their tones.
pub fn line_marks(
    marks: &Vec<HighlightMark>,
    path: &str,
    line: Option<u32>,
    raw: Option<&str>,
    tab_width: usize,
) -> (r: Vec<(usize, usize, String)>)
    requires
        raw matches Some(t) ==> t@.len() * tab_width < usize::MAX,
    ensures
        ranges3_view(r@) == match line {
            Some(n) => line_marks_spec(
                marks@,
                path@,
                n,
                match raw {
                    Some(t) => Some(t@),
                    None => None,
                },
                tab_width as nat,
            ),
            None => Seq::empty(),
        },
{
    let mut out: Vec<(usize, usize, String)> = Vec::new();
    let n = match line {
        Some(n) => n,
        None => {
            proof {
                assert(ranges3_view(out@) =~= Seq::<(nat, nat, Seq<char>)>::empty());
            }
            return out;
        },
    };
    let ghost rv: Option<Seq<char>> = match raw {
        Some(t) => Some(t@),
        None => None,
    };
    let mut i: usize = 0;
    while i < marks.len()
        invariant
            i <= marks.len(),
            raw matches Some(t) ==> t@.len() * tab_width < usize::MAX,
            rv == match raw {
                Some(t) => Some(t@),
                None => None::<Seq<char>>,
            },
            ranges3_view(out@) == line_marks_spec(
                marks@.subrange(0, i as int),
                path@,
                n,
                rv,
                tab_width as nat,
            ),
        decreases marks.len() - i,
    {
        let m = &marks[i];
        proof {
            assert(marks@.subrange(0, i + 1).drop_last() =~= marks@.subrange(0, i as int));
            assert(marks@.subrange(0, i + 1).last() == *m);
        }
        if m.line == n && str_eq(m.file.as_str(), path) {
            let (s, e) = match raw {
                Some(t) => map_raw_range(t, tab_width, m.start, m.end),
                None => (m.start, m.end),
            };
            let ghost before = ranges3_view(out@);
            out.push((s, e, m.tone.clone()));
            proof {
                assert(ranges3_view(out@) =~= before.push((s as nat, e as nat, m.tone@)));
            }
        }
        i = i + 1;
    }
    proof {
        assert(marks@.subrange(0, marks@.len() as int) =~= marks@);
    }
    out
}

/// A new mark from `highlight add`: the range must run forward from
/// character 1 (else the complaint); an empty tone means `warning`; the id
/// is `hl` and the number of marks already painted.
pub fn new_highlight_mark(
    file: String,
    line: u32,
    start: usize,
    end: usize,
    tone: String,
    painted: usize,
) -> (r: Result<HighlightMark, String>)
    ensures
        r is Err <==> !(start >= 1 && end > start),
        r matches Ok(m) ==> {
            &&& m.id@ == "hl"@ + decimal(painted as nat)
            &&& m.file == file
            &&& m.line == line
            &&& m.start == start
            &&& m.end == end
            &&& m.tone@ == (if tone@.len() == 0 { "warning"@ } else { tone@ })
        },
{
    if let Some(e) = highlight_range_error(start, end) {
        return Err(e);
    }
    let tone = if str_chars(tone.as_str()).len() == 0 { owned("warning") } else { tone };
    let mut id = owned("hl");
    id.append(u64_to_string(painted as u64).as_str());
    Ok(HighlightMark { id, file, line, start, end, tone })
}

/// The marks `highlight clear` keeps: with `--file`, the other files'
/// marks; without, none.
pub open spec fn kept_marks(marks: Seq<HighlightMark>, file: Option<Seq<char>>) -> Seq<HighlightMark>
    decreases marks.len(),
{
    if marks.len() == 0 {
        Seq::empty()
    } else {
        let before = kept_marks(marks.drop_last(), file);
        match file {
            Some(f) => if marks.last().file@ != f {
                before.push(marks.last())
            } else {
                before
            },
            None => before,
        }
    }
}

/// `highlight clear`: drop the marks in scope (all, or one file's), keeping
/// the others in order; how many went.
pub fn clear_highlights(marks: &mut Vec<HighlightMark>, file: Option<&str>) -> (removed: usize)
    ensures
        final(marks)@ == kept_marks(
            old(marks)@,
            match file {
                Some(f) => Some(f@),
                None => None,
            },
        ),
        removed == old(marks)@.len() - final(marks)@.len(),
{
    let ghost fv: Option<Seq<char>> = match file {
        Some(f) => Some(f@),
        None => None,
    };
    let total = marks.len();
    let mut rest: Vec<HighlightMark> = Vec::new();
    std::mem::swap(&mut rest, marks);
    let ghost all = rest@;
    assert(all.len() == total);
    let mut kept: Vec<HighlightMark> = Vec::new();
    let mut i: usize = 0;
    while rest.len() > 0
        invariant
            i + rest@.len() == all.len(),
            all.len() == total,
            rest@ == all.subrange(i as int, all.len() as int),
            kept@ == kept_marks(all.subrange(0, i as int), fv),
            kept@.len() <= i,
            fv == match file {
                Some(f) => Some(f@),
                None => None::<Seq<char>>,
            },
        decreases rest@.len(),
    {
        let m = rest.remove(0);
        proof {
            assert(m == all[i as int]);
            assert(all.subrange(0, i + 1).drop_last() =~= all.subrange(0, i as int));
            assert(all.subrange(0, i + 1).last() == m);
            assert(rest@ =~= all.subrange(i + 1, all.len() as int));
        }
        let keep = match file {
            Some(f) => !str_eq(m.file.as_str(), f),
            None => false,
        };
        if keep {
            kept.push(m);
        }
        i = i + 1;
    }
    proof {
        assert(all.subrange(0, all.len() as int) =~= all);
    }
    let removed = total - kept.len();
    *marks = kept;
    removed
}

} // verus!
