//! The file-header rule of the stream: a change chip, the path (and the
//! old path of a rename), and a right-aligned `+ins ██ ██ −del` tally with
//! a proportional mini bar, tied off with a `─` rule that fills the pane.
//!
//! Columns here are counted in characters. How many of the bar's cells go
//! to each side is worked out by the caller (it is a rounded proportion).

use vstd::prelude::*;
use crate::text::{decimal, owned, str_chars, u64_to_string};
use crate::view::{kind_letter, ChangeKind};

verus! {

/// How a piece of the header is painted.
#[derive(Debug, Clone, Copy, PartialEq, Eq, Structural)]
pub enum HeaderStyle {
    /// The `─` rule (dim).
    Rule,
    /// The change chip, colored by the change kind.
    Chip(ChangeKind),
    /// The path (header color, bold).
    Path,
    /// The old path of a rename (dim).
    Origin,
    /// A plain blank.
    Gap,
    /// The `+N ` insert count and its bar cells (add color; the count bold).
    Plus,
    PlusBar,
    /// The delete bar cells and the ` −N` count (delete color; the count bold).
    MinusBar,
    Minus,
}

/// `n` copies of `c`.
pub open spec fn repeat_char(c: char, n: nat) -> Seq<char> {
    Seq::new(n, |i: int| c)
}

pub open spec fn header_piece_if(b: bool, st: HeaderStyle, text: Seq<char>) -> Seq<(HeaderStyle, Seq<char>)> {
    if b {
        seq![(st, text)]
    } else {
        Seq::empty()
    }
}

/// The ` (from old)` note of a rename; nothing for other changes.
pub open spec fn header_origin(kind: ChangeKind, old_path: Option<Seq<char>>) -> Seq<char> {
    match old_path {
        Some(old) => if kind == ChangeKind::Renamed {
            " (from "@ + old + ")"@
        } else {
            Seq::empty()
        },
        None => Seq::empty(),
    }
}

/// The tally as one text, for measuring: `+N `, the insert cells, a blank
/// between the two sides, the delete cells, ` −M`.
pub open spec fn header_stats(inserts: u64, deletes: u64, ins_cells: nat, del_cells: nat) -> Seq<char> {
    (if inserts > 0 { "+"@ + decimal(inserts as nat) + " "@ } else { Seq::empty() }) + repeat_char(
        '█',
        ins_cells,
    ) + (if inserts > 0 && deletes > 0 { " "@ } else { Seq::empty() }) + repeat_char('█', del_cells)
        + (if deletes > 0 { " −"@ + decimal(deletes as nat) } else { Seq::empty() })
}

/// The `─` run that right-aligns the tally: what the pane leaves after the
/// lead rule, chip, path, origin and tally (with two columns to spare), or
/// two cells when it leaves nothing.
pub open spec fn header_fill(
    path: Seq<char>,
    origin: Seq<char>,
    stats: Seq<char>,
    width: nat,
) -> nat {
    let used = 4 + 1 + 1 + path.len() + origin.len() + 1;
    let stats_w = stats.len() + 2;
    if width > used + stats_w + 2 {
        (width - used - stats_w - 2) as nat
    } else {
        2
    }
}

/// The lead rule, the change chip, the path and a rename's old path.
pub open spec fn header_head(path: Seq<char>, old_path: Option<Seq<char>>, kind: ChangeKind) -> Seq<
    (HeaderStyle, Seq<char>),
> {
    let origin = header_origin(kind, old_path);
    seq![
        (HeaderStyle::Rule, "─── "@),
        (HeaderStyle::Chip(kind), seq![kind_letter(kind)]),
        (HeaderStyle::Path, " "@ + path + " "@),
    ] + header_piece_if(origin.len() > 0, HeaderStyle::Origin, origin)
}

/// The rule that right-aligns the tally, and the tally; a short rule for a
/// file without changed lines.
pub open spec fn header_tail(
    path: Seq<char>,
    origin: Seq<char>,
    inserts: u64,
    deletes: u64,
    width: nat,
    ins_cells: nat,
    del_cells: nat,
) -> Seq<(HeaderStyle, Seq<char>)> {
    if inserts > 0 || deletes > 0 {
        let stats = header_stats(inserts, deletes, ins_cells, del_cells);
        seq![
            (HeaderStyle::Rule, repeat_char('─', header_fill(path, origin, stats, width))),
            (HeaderStyle::Gap, " "@),
        ] + (if inserts > 0 {
            seq![
                (HeaderStyle::Plus, "+"@ + decimal(inserts as nat) + " "@),
                (HeaderStyle::PlusBar, repeat_char('█', ins_cells)),
            ]
        } else {
            Seq::empty()
        }) + header_piece_if(inserts > 0 && deletes > 0, HeaderStyle::Gap, " "@) + (if deletes > 0 {
            seq![
                (HeaderStyle::MinusBar, repeat_char('█', del_cells)),
                (HeaderStyle::Minus, " −"@ + decimal(deletes as nat)),
            ]
        } else {
            Seq::empty()
        })
    } else {
        seq![(HeaderStyle::Rule, "───"@)]
    }
}

/// The whole header, piece by piece.
pub open spec fn file_header_spec(
    path: Seq<char>,
    old_path: Option<Seq<char>>,
    kind: ChangeKind,
    inserts: u64,
    deletes: u64,
    width: nat,
    ins_cells: nat,
    del_cells: nat,
) -> Seq<(HeaderStyle, Seq<char>)> {
    header_head(path, old_path, kind) + header_tail(
        path,
        header_origin(kind, old_path),
        inserts,
        deletes,
        width,
        ins_cells,
        del_cells,
    )
}

pub open spec fn header_view(v: Seq<(HeaderStyle, String)>) -> Seq<(HeaderStyle, Seq<char>)> {
    v.map_values(|p: (HeaderStyle, String)| (p.0, p.1@))
}

/// `n` copies of `c`, as a string.
fn repeat_string(c: char, n: usize) -> (r: String)
    ensures
        r@ == repeat_char(c, n as nat),
{
    let mut s = String::new();
    let mut k: usize = 0;
    while k < n
        invariant
            k <= n,
            s@ == repeat_char(c, k as nat),
        decreases n - k,
    {
        s.push(c);
        proof {
            assert(s@ =~= repeat_char(c, (k + 1) as nat));
        }
        k = k + 1;
    }
    s
}

/// `a + b`, or `usize::MAX` when that does not fit.
fn sum_or_max(a: usize, b: usize) -> (r: usize)
    ensures
        r == (if a + b <= usize::MAX { (a + b) as usize } else { usize::MAX }),
{
    if a <= usize::MAX - b { a + b } else { usize::MAX }
}

/// The lead rule, chip, path and origin, and the origin's length.
fn header_head_pieces(path: &str, old_path: Option<&str>, kind: ChangeKind) -> (r: (
    Vec<(HeaderStyle, String)>,
    usize,
))
    ensures
        header_view(r.0@) == header_head(
            path@,
            match old_path {
                Some(o) => Some(o@),
                None => None,
            },
            kind,
        ),
        r.1 == header_origin(
            kind,
            match old_path {
                Some(o) => Some(o@),
                None => None,
            },
        ).len(),
{
    let ghost old_v: Option<Seq<char>> = match old_path {
        Some(o) => Some(o@),
        None => None,
    };
    let mut out: Vec<(HeaderStyle, String)> = Vec::new();
    out.push((HeaderStyle::Rule, owned("─── ")));
    let mut chip = String::new();
    chip.push(kind.letter());
    out.push((HeaderStyle::Chip(kind), chip));
    let mut shown = owned(" ");
    shown.append(path);
    shown.append(" ");
    out.push((HeaderStyle::Path, shown));
    let mut origin = String::new();
    match old_path {
        Some(old) => {
            if kind == ChangeKind::Renamed {
                origin.append(" (from ");
                origin.append(old);
                origin.append(")");
            }
        },
        None => {},
    }
    proof {
        assert(origin@ =~= header_origin(kind, old_v));
    }
    let origin_len = str_chars(origin.as_str()).len();
    let ghost org = origin@;
    let ghost three = header_view(out@);
    if origin_len > 0 {
        out.push((HeaderStyle::Origin, origin));
    }
    proof {
        assert(three =~= seq![
            (HeaderStyle::Rule, "─── "@),
            (HeaderStyle::Chip(kind), seq![kind_letter(kind)]),
            (HeaderStyle::Path, " "@ + path@ + " "@),
        ]);
        assert(header_view(out@) =~= three + header_piece_if(org.len() > 0, HeaderStyle::Origin, org));
    }
    (out, origin_len)
}

/// The tally text, as measured for alignment.
fn header_stats_text(inserts: u64, deletes: u64, ins_cells: usize, del_cells: usize) -> (r: String)
    ensures
        r@ == header_stats(inserts, deletes, ins_cells as nat, del_cells as nat),
{
    let mut stats = String::new();
    if inserts > 0 {
        stats.append("+");
        stats.append(u64_to_string(inserts).as_str());
        stats.append(" ");
    }
    stats.append(repeat_string('█', ins_cells).as_str());
    if inserts > 0 && deletes > 0 {
        stats.append(" ");
    }
    stats.append(repeat_string('█', del_cells).as_str());
    if deletes > 0 {
        stats.append(" −");
        stats.append(u64_to_string(deletes).as_str());
    }
    proof {
        assert(stats@ =~= header_stats(inserts, deletes, ins_cells as nat, del_cells as nat));
    }
    stats
}

/// The tally pieces after the aligning rule.
fn header_tally_pieces(inserts: u64, deletes: u64, ins_cells: usize, del_cells: usize) -> (r: Vec<
    (HeaderStyle, String),
>)
    ensures
        header_view(r@) == (if inserts > 0 {
            seq![
                (HeaderStyle::Plus, "+"@ + decimal(inserts as nat) + " "@),
                (HeaderStyle::PlusBar, repeat_char('█', ins_cells as nat)),
            ]
        } else {
            Seq::<(HeaderStyle, Seq<char>)>::empty()
        }) + header_piece_if(inserts > 0 && deletes > 0, HeaderStyle::Gap, " "@) + (if deletes > 0 {
            seq![
                (HeaderStyle::MinusBar, repeat_char('█', del_cells as nat)),
                (HeaderStyle::Minus, " −"@ + decimal(deletes as nat)),
            ]
        } else {
            Seq::empty()
        }),
{
    let mut out: Vec<(HeaderStyle, String)> = Vec::new();
    if inserts > 0 {
        let mut plus = owned("+");
        plus.append(u64_to_string(inserts).as_str());
        plus.append(" ");
        out.push((HeaderStyle::Plus, plus));
        out.push((HeaderStyle::PlusBar, repeat_string('█', ins_cells)));
    }
    let ghost after_plus = header_view(out@);
    proof {
        assert(after_plus =~= (if inserts > 0 {
            seq![
                (HeaderStyle::Plus, "+"@ + decimal(inserts as nat) + " "@),
                (HeaderStyle::PlusBar, repeat_char('█', ins_cells as nat)),
            ]
        } else {
            Seq::<(HeaderStyle, Seq<char>)>::empty()
        }));
    }
    if inserts > 0 && deletes > 0 {
        out.push((HeaderStyle::Gap, owned(" ")));
    }
    let ghost after_gap = header_view(out@);
    proof {
        assert(after_gap =~= after_plus + header_piece_if(inserts > 0 && deletes > 0, HeaderStyle::Gap, " "@));
    }
    if deletes > 0 {
        out.push((HeaderStyle::MinusBar, repeat_string('█', del_cells)));
        let mut minus = owned(" −");
        minus.append(u64_to_string(deletes).as_str());
        out.push((HeaderStyle::Minus, minus));
    }
    proof {
        assert(header_view(out@) =~= after_gap + (if deletes > 0 {
            seq![
                (HeaderStyle::MinusBar, repeat_char('█', del_cells as nat)),
                (HeaderStyle::Minus, " −"@ + decimal(deletes as nat)),
            ]
        } else {
            Seq::empty()
        }));
    }
    out
}

/// Lay out the header rule of a file: the lead rule and change chip, the
/// path, a rename's old path, then (for a file with changed lines) the rule
/// that right-aligns the tally in a `width`-wide pane, and the tally itself
/// with `ins_cells` and `del_cells` bar cells; a file without changed lines
/// ends with a short rule instead.
pub fn file_header(
    path: &str,
    old_path: Option<&str>,
    kind: ChangeKind,
    inserts: u64,
    deletes: u64,
    width: usize,
    ins_cells: usize,
    del_cells: usize,
) -> (r: Vec<(HeaderStyle, String)>)
    ensures
        header_view(r@) == file_header_spec(
            path@,
            match old_path {
                Some(o) => Some(o@),
                None => None,
            },
            kind,
            inserts,
            deletes,
            width as nat,
            ins_cells as nat,
            del_cells as nat,
        ),
{
    let ghost old_v: Option<Seq<char>> = match old_path {
        Some(o) => Some(o@),
        None => None,
    };
    let ghost org = header_origin(kind, old_v);
    let (mut out, origin_len) = header_head_pieces(path, old_path, kind);
    let ghost head = header_view(out@);
    let mut tail: Vec<(HeaderStyle, String)> = Vec::new();
    if inserts > 0 || deletes > 0 {
        let stats = header_stats_text(inserts, deletes, ins_cells, del_cells);
        let stats_w = sum_or_max(str_chars(stats.as_str()).len(), 2);
        let used = sum_or_max(sum_or_max(7, str_chars(path).len()), origin_len);
        let need = sum_or_max(sum_or_max(used, stats_w), 2);
        let fill = if width > need { width - need } else { 2 };
        proof {
            assert(fill == header_fill(path@, org, stats@, width as nat));
        }
        tail.push((HeaderStyle::Rule, repeat_string('─', fill)));
        tail.push((HeaderStyle::Gap, owned(" ")));
        let ghost two = header_view(tail@);
        let mut rest = header_tally_pieces(inserts, deletes, ins_cells, del_cells);
        let ghost rv = header_view(rest@);
        tail.append(&mut rest);
        proof {
            assert(header_view(tail@) =~= two + rv);
        }
    } else {
        tail.push((HeaderStyle::Rule, owned("───")));
    }
    proof {
        assert(header_view(tail@) =~= header_tail(
            path@,
            org,
            inserts,
            deletes,
            width as nat,
            ins_cells as nat,
            del_cells as nat,
        ));
    }
    let ghost tv = header_view(tail@);
    out.append(&mut tail);
    proof {
        assert(header_view(out@) =~= head + tv);
    }
    out
}

} // verus!
