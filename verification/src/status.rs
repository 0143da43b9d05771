//! The status bar: location and tallies on the left, the badges of active
//! view transforms and run modes in the middle, the status message on the
//! right. A transient message owns the right edge: the path gives up its
//! columns first, and the left side is cut only when even a four-column
//! path does not leave the message room.

use vstd::prelude::*;
use crate::app::{Search, Toast, ToastKind};
use crate::text::{decimal, owned, u64_to_string};
use crate::view::{
    is_printable_ascii, sat_add, space_string, spaces, status_path, status_path_spec, str_width,
    str_width_of, truncate_to_width, truncate_to_width_spec,
};

verus! {

/// The layout the stream is drawn in, as far as the status bar reports it.
#[derive(Debug, Clone, Copy, PartialEq, Eq, Structural)]
pub enum LayoutBadge {
    /// Unified (or auto resolving to it): no badge.
    Flow,
    /// Side by side.
    Split,
    /// Stacked.
    Stack,
}

/// How a piece of the status bar is painted.
#[derive(Debug, Clone, Copy, PartialEq, Eq, Structural)]
pub enum StatusStyle {
    /// The path, file number, position and file tally (bold).
    Location,
    /// The review's totals (dim).
    Totals,
    /// The search indicator (active-match colors).
    SearchMatch,
    /// A view-transform badge (edit-mode color).
    Badge,
    /// The select-mode badge (edit-mode color, bold).
    Select,
    /// The watch and serve badges and the banner note (note color).
    Note,
    /// Blank columns that push the message to the right edge.
    Fill,
    /// The status message, colored by its severity.
    Message(ToastKind),
}

/// What the status bar shows.
pub struct StatusBar {
    /// Columns available.
    pub width: u16,
    /// Rows of the stream, and the top row on screen.
    pub virtual_len: usize,
    pub scroll_y: usize,
    /// The selected file (0-based) and its `+inserts/−deletes`, if any.
    pub selected_file: usize,
    pub file_tally: Option<(u64, u64)>,
    /// The review's total inserts and deletes.
    pub total_inserts: u64,
    pub total_deletes: u64,
    /// The selected file's display path.
    pub current_path: String,
    /// The status message.
    pub status: Toast,
    /// The text of the first banner note, if any.
    pub banner: Option<String>,
    pub search: Search,
    /// The armed first key of a two-key sequence.
    pub pending_prefix: Option<char>,
    pub layout: LayoutBadge,
    pub highlight_on: bool,
    pub ignore_ws: bool,
    pub word_diff_on: bool,
    pub collapse_on: bool,
    pub wrap_on: bool,
    pub select_mode: bool,
    pub watch_mode: bool,
    pub serve_mode: bool,
}

/// The position in the stream: `top/rows`, or `0/0` for an empty stream.
pub open spec fn status_pos(virtual_len: nat, scroll_y: nat) -> Seq<char> {
    if virtual_len == 0 {
        "0/0"@
    } else {
        decimal(scroll_y + 1) + "/"@ + decimal(virtual_len)
    }
}

/// What follows the path: `  [N]  pos  +i/−d HL `.
pub open spec fn status_suffix(bar: StatusBar) -> Seq<char> {
    let tally = match bar.file_tally {
        Some((i, d)) => "+"@ + decimal(i as nat) + "/−"@ + decimal(d as nat),
        None => Seq::empty(),
    };
    "  ["@ + decimal((bar.selected_file + 1) as nat) + "]  "@ + status_pos(
        bar.virtual_len as nat,
        bar.scroll_y as nat,
    ) + "  "@ + tally + (if bar.highlight_on { " HL"@ } else { Seq::empty() }) + " "@
}

/// The review's totals: ` Σ +i/−d `.
pub open spec fn status_totals(bar: StatusBar) -> Seq<char> {
    " Σ +"@ + decimal(bar.total_inserts as nat) + "/−"@ + decimal(bar.total_deletes as nat) + " "@
}

/// A piece when `b` holds, nothing otherwise.
pub open spec fn piece_if(b: bool, st: StatusStyle, text: Seq<char>) -> Seq<(StatusStyle, Seq<char>)> {
    if b {
        seq![(st, text)]
    } else {
        Seq::empty()
    }
}

/// The search indicator: the query (cut to 12 columns), the current match
/// and the number of matches, while a search with matches is active.
pub open spec fn mid_search(bar: StatusBar) -> Seq<(StatusStyle, Seq<char>)> {
    piece_if(
        bar.search.active && bar.search.matches@.len() > 0,
        StatusStyle::SearchMatch,
        " /"@ + truncate_to_width_spec(bar.search.query@, 12) + " "@ + decimal(
            (bar.search.current + 1) as nat,
        ) + "/"@ + decimal(bar.search.matches@.len()) + " "@,
    )
}

/// The badges of the view transforms in effect, the armed prefix and the
/// layout.
pub open spec fn mid_transforms(bar: StatusBar) -> Seq<(StatusStyle, Seq<char>)> {
    piece_if(bar.ignore_ws, StatusStyle::Badge, " WS"@) + piece_if(
        !bar.word_diff_on,
        StatusStyle::Badge,
        " wd−"@,
    ) + piece_if(!bar.collapse_on, StatusStyle::Badge, " zx−"@) + piece_if(
        bar.wrap_on,
        StatusStyle::Badge,
        " wrap"@,
    ) + (match bar.pending_prefix {
        Some(p) => seq![(StatusStyle::Badge, seq![' ', p, '…'])],
        None => Seq::empty(),
    }) + piece_if(bar.layout == LayoutBadge::Split, StatusStyle::Badge, " split"@) + piece_if(
        bar.layout == LayoutBadge::Stack,
        StatusStyle::Badge,
        " stack"@,
    )
}

/// The run-mode badges and the banner note.
pub open spec fn mid_modes(bar: StatusBar) -> Seq<(StatusStyle, Seq<char>)> {
    piece_if(bar.select_mode, StatusStyle::Select, " SELECT "@) + piece_if(
        bar.watch_mode,
        StatusStyle::Note,
        " WATCH "@,
    ) + piece_if(bar.serve_mode, StatusStyle::Note, " SERVE "@) + (match bar.banner {
        Some(b) => seq![(StatusStyle::Note, " 💬 "@ + b@ + " "@)],
        None => Seq::empty(),
    })
}

/// The middle of the bar: search indicator, transform badges, the armed
/// prefix, the layout, the run modes and the banner note.
pub open spec fn status_mid(bar: StatusBar) -> Seq<(StatusStyle, Seq<char>)> {
    mid_search(bar) + mid_transforms(bar) + mid_modes(bar)
}

/// The columns all the pieces take, each measured on its own.
pub open spec fn piece_cols(p: Seq<(StatusStyle, Seq<char>)>) -> nat
    decreases p.len(),
{
    if p.len() == 0 {
        0
    } else {
        (str_width_of(p[0].1) + piece_cols(p.drop_first())) as nat
    }
}

/// `a - b`, or 0 when `b` is larger.
pub open spec fn minus_or_zero(a: int, b: int) -> nat {
    if a > b {
        (a - b) as nat
    } else {
        0
    }
}

/// A transient message (stamped and not empty) owns the right edge.
pub open spec fn is_transient(t: Toast) -> bool {
    t.set_at is Some && t.message@.len() > 0
}

/// The columns the path may take: half the bar (at least 12), but no more
/// than what the rest of the line leaves, and never under 4.
#[verifier::opaque]
pub open spec fn status_path_budget(bar: StatusBar) -> nat {
    let width = bar.width as int;
    let mid_w = piece_cols(status_mid(bar));
    let right = " "@ + bar.status.message@ + " "@;
    let toast_w: int = if is_transient(bar.status) { str_width_of(right) as int } else { 0 };
    let room = minus_or_zero(width, mid_w + toast_w + str_width_of(status_totals(bar)) + 1);
    let half = if width / 2 > 12 { width / 2 } else { 12 };
    let rest = minus_or_zero(room as int, str_width_of(status_suffix(bar)) as int);
    let floor = if rest > 4 { rest as int } else { 4 };
    (if half < floor { half } else { floor }) as nat
}

/// The left part: the shortened path and what follows it, cut to what
/// the rest leaves when a transient message would not fit otherwise.
#[verifier::opaque]
pub open spec fn status_left(bar: StatusBar) -> Seq<char> {
    let width = bar.width as int;
    let mid_w = piece_cols(status_mid(bar));
    let totals_w = str_width_of(status_totals(bar)) as int;
    let right = " "@ + bar.status.message@ + " "@;
    let transient = is_transient(bar.status);
    let toast_w: int = if transient { str_width_of(right) as int } else { 0 };
    let left = " "@ + status_path_spec(bar.current_path@, status_path_budget(bar)) + status_suffix(
        bar,
    );
    if transient && str_width_of(left) + totals_w + mid_w + toast_w > width {
        let keep = minus_or_zero(width, mid_w + totals_w + toast_w);
        truncate_to_width_spec(left, if keep > 1 { keep } else { 1 })
    } else {
        left
    }
}

/// The whole bar, piece by piece.
#[verifier::opaque]
pub open spec fn status_spec(bar: StatusBar) -> Seq<(StatusStyle, Seq<char>)> {
    let width = bar.width as int;
    let mid = status_mid(bar);
    let totals = status_totals(bar);
    let right = " "@ + bar.status.message@ + " "@;
    let transient = is_transient(bar.status);
    let toast_w: int = if transient { str_width_of(right) as int } else { 0 };
    let left = status_left(bar);
    let used = str_width_of(left) + str_width_of(totals) + piece_cols(mid);
    seq![(StatusStyle::Location, left), (StatusStyle::Totals, totals)] + mid + piece_if(
        transient && used + toast_w <= width,
        StatusStyle::Fill,
        spaces(minus_or_zero(width, used + toast_w)),
    ) + seq![(StatusStyle::Message(bar.status.kind), right)]
}


pub open spec fn status_view(v: Seq<(StatusStyle, String)>) -> Seq<(StatusStyle, Seq<char>)> {
    v.map_values(|p: (StatusStyle, String)| (p.0, p.1@))
}

/// `n` in decimal.
fn num(n: u64) -> (r: String)
    ensures
        r@ == decimal(n as nat),
{
    u64_to_string(n)
}

fn status_suffix_text(bar: &StatusBar) -> (r: String)
    requires
        bar.selected_file < usize::MAX,
        bar.scroll_y < usize::MAX,
    ensures
        r@ == status_suffix(*bar),
{
    let mut pos = String::new();
    if bar.virtual_len == 0 {
        pos.append("0/0");
    } else {
        pos.append(num((bar.scroll_y + 1) as u64).as_str());
        pos.append("/");
        pos.append(num(bar.virtual_len as u64).as_str());
    }
    proof {
        assert(pos@ =~= status_pos(bar.virtual_len as nat, bar.scroll_y as nat));
    }
    let mut tally = String::new();
    match bar.file_tally {
        Some((i, d)) => {
            tally.append("+");
            tally.append(num(i).as_str());
            tally.append("/−");
            tally.append(num(d).as_str());
        },
        None => {},
    }
    let mut r = owned("  [");
    r.append(num((bar.selected_file + 1) as u64).as_str());
    r.append("]  ");
    r.append(pos.as_str());
    r.append("  ");
    r.append(tally.as_str());
    if bar.highlight_on {
        r.append(" HL");
    }
    r.append(" ");
    proof {
        assert(r@ =~= status_suffix(*bar));
    }
    r
}

fn status_totals_text(bar: &StatusBar) -> (r: String)
    ensures
        r@ == status_totals(*bar),
{
    let mut r = owned(" Σ +");
    r.append(num(bar.total_inserts).as_str());
    r.append("/−");
    r.append(num(bar.total_deletes).as_str());
    r.append(" ");
    r
}

/// Append a fixed badge when `b` holds.
fn push_if(out: &mut Vec<(StatusStyle, String)>, b: bool, st: StatusStyle, text: &str)
    ensures
        status_view(final(out)@) == status_view(old(out)@) + piece_if(b, st, text@),
{
    let ghost before = status_view(out@);
    if b {
        out.push((st, owned(text)));
        proof {
            assert(status_view(out@) =~= before + piece_if(b, st, text@));
        }
    } else {
        proof {
            assert(status_view(out@) =~= before + piece_if(b, st, text@));
        }
    }
}

fn mid_search_pieces(bar: &StatusBar) -> (r: Vec<(StatusStyle, String)>)
    requires
        bar.search.current < usize::MAX,
    ensures
        status_view(r@) == mid_search(*bar),
{
    let mut out: Vec<(StatusStyle, String)> = Vec::new();
    if bar.search.active && bar.search.matches.len() > 0 {
        let mut ind = owned(" /");
        ind.append(truncate_to_width(bar.search.query.as_str(), 12).as_str());
        ind.append(" ");
        ind.append(num((bar.search.current + 1) as u64).as_str());
        ind.append("/");
        ind.append(num(bar.search.matches.len() as u64).as_str());
        ind.append(" ");
        out.push((StatusStyle::SearchMatch, ind));
    }
    proof {
        assert(status_view(out@) =~= mid_search(*bar));
    }
    out
}

fn mid_transform_pieces(bar: &StatusBar) -> (r: Vec<(StatusStyle, String)>)
    ensures
        status_view(r@) == mid_transforms(*bar),
{
    let mut out: Vec<(StatusStyle, String)> = Vec::new();
    proof {
        assert(status_view(out@) =~= Seq::<(StatusStyle, Seq<char>)>::empty());
    }
    push_if(&mut out, bar.ignore_ws, StatusStyle::Badge, " WS");
    proof {
        assert(status_view(out@) =~= piece_if(bar.ignore_ws, StatusStyle::Badge, " WS"@));
    }
    push_if(&mut out, !bar.word_diff_on, StatusStyle::Badge, " wd−");
    push_if(&mut out, !bar.collapse_on, StatusStyle::Badge, " zx−");
    push_if(&mut out, bar.wrap_on, StatusStyle::Badge, " wrap");
    let ghost g1 = status_view(out@);
    match bar.pending_prefix {
        Some(p) => {
            let mut t = String::new();
            t.push(' ');
            t.push(p);
            t.push('…');
            proof {
                assert(t@ =~= seq![' ', p, '…']);
            }
            out.push((StatusStyle::Badge, t));
        },
        None => {},
    }
    proof {
        assert(status_view(out@) =~= g1 + match bar.pending_prefix {
            Some(p) => seq![(StatusStyle::Badge, seq![' ', p, '…'])],
            None => Seq::empty(),
        });
    }
    push_if(&mut out, bar.layout == LayoutBadge::Split, StatusStyle::Badge, " split");
    push_if(&mut out, bar.layout == LayoutBadge::Stack, StatusStyle::Badge, " stack");
    out
}

fn mid_mode_pieces(bar: &StatusBar) -> (r: Vec<(StatusStyle, String)>)
    ensures
        status_view(r@) == mid_modes(*bar),
{
    let mut out: Vec<(StatusStyle, String)> = Vec::new();
    proof {
        assert(status_view(out@) =~= Seq::<(StatusStyle, Seq<char>)>::empty());
    }
    push_if(&mut out, bar.select_mode, StatusStyle::Select, " SELECT ");
    proof {
        assert(status_view(out@) =~= piece_if(bar.select_mode, StatusStyle::Select, " SELECT "@));
    }
    push_if(&mut out, bar.watch_mode, StatusStyle::Note, " WATCH ");
    push_if(&mut out, bar.serve_mode, StatusStyle::Note, " SERVE ");
    let ghost g2 = status_view(out@);
    match &bar.banner {
        Some(b) => {
            let mut t = owned(" 💬 ");
            t.append(b.as_str());
            t.append(" ");
            out.push((StatusStyle::Note, t));
        },
        None => {},
    }
    proof {
        assert(status_view(out@) =~= g2 + match bar.banner {
            Some(b) => seq![(StatusStyle::Note, " 💬 "@ + b@ + " "@)],
            None => Seq::empty(),
        });
    }
    out
}

fn status_mid_pieces(bar: &StatusBar) -> (r: Vec<(StatusStyle, String)>)
    requires
        bar.search.current < usize::MAX,
    ensures
        status_view(r@) == status_mid(*bar),
{
    let mut out = mid_search_pieces(bar);
    let mut t = mid_transform_pieces(bar);
    let mut m = mid_mode_pieces(bar);
    let ghost (a, b, c) = (out@, t@, m@);
    out.append(&mut t);
    out.append(&mut m);
    proof {
        assert(status_view(out@) =~= status_view(a) + status_view(b) + status_view(c));
    }
    out
}

/// The columns of the pieces, or `usize::MAX` when that does not fit.
fn pieces_cols(v: &Vec<(StatusStyle, String)>) -> (r: usize)
    ensures
        r == (if piece_cols(status_view(v@)) <= usize::MAX {
            piece_cols(status_view(v@)) as usize
        } else {
            usize::MAX
        }),
{
    let ghost sv = status_view(v@);
    let mut w: usize = 0;
    let mut i: usize = 0;
    proof {
        assert(sv.subrange(0, sv.len() as int) =~= sv);
    }
    while i < v.len()
        invariant
            i <= v.len(),
            sv == status_view(v@),
            piece_cols(sv) >= piece_cols(sv.subrange(i as int, sv.len() as int)),
            w == (if piece_cols(sv) - piece_cols(sv.subrange(i as int, sv.len() as int))
                <= usize::MAX {
                (piece_cols(sv) - piece_cols(sv.subrange(i as int, sv.len() as int))) as usize
            } else {
                usize::MAX
            }),
        decreases v.len() - i,
    {
        let ghost rest = sv.subrange(i as int, sv.len() as int);
        proof {
            assert(rest[0] == (v@[i as int].0, v@[i as int].1@));
            assert(rest.drop_first() =~= sv.subrange(i + 1, sv.len() as int));
        }
        w = sat_add(w, str_width(v[i].1.as_str()));
        i = i + 1;
    }
    proof {
        assert(sv.subrange(v@.len() as int, sv.len() as int) =~= Seq::<(StatusStyle, Seq<char>)>::empty());
    }
    w
}

/// `n` blank columns.
fn fill_text(n: usize) -> (r: String)
    ensures
        r@ == spaces(n as nat),
        str_width_of(r@) == n,
{
    let fill = space_string(n);
    let w = str_width(fill.as_str());
    proof {
        assert forall|i: int| 0 <= i < fill@.len() implies is_printable_ascii(#[trigger] fill@[i]) by {
            assert(fill@[i] == ' ');
        }
    }
    fill
}

/// The left part of the bar, given the widths of the other parts.
#[verifier::rlimit(30)]
fn status_left_text(
    bar: &StatusBar,
    suffix: &String,
    totals_w: usize,
    mid_w: usize,
    toast_w: usize,
    transient: bool,
) -> (left: String)
    requires
        suffix@ == status_suffix(*bar),
        totals_w == str_width_of(status_totals(*bar)),
        mid_w == (if piece_cols(status_mid(*bar)) <= usize::MAX {
            piece_cols(status_mid(*bar)) as usize
        } else {
            usize::MAX
        }),
        transient == is_transient(bar.status),
        toast_w == (if transient { str_width_of(" "@ + bar.status.message@ + " "@) } else { 0 }),
    ensures
        left@ == status_left(*bar),
{
    let width = bar.width as usize;
    let need = sat_add(sat_add(sat_add(mid_w, toast_w), totals_w), 1);
    let room = if width > need { width - need } else { 0 };
    let half = if width / 2 > 12 { width / 2 } else { 12 };
    let suffix_w = str_width(suffix.as_str());
    let rest = if room > suffix_w { room - suffix_w } else { 0 };
    let floor = if rest > 4 { rest } else { 4 };
    let budget = if half < floor { half } else { floor };
    proof {
        reveal(status_path_budget);
        assert(budget == status_path_budget(*bar));
    }
    let mut left = owned(" ");
    left.append(status_path(bar.current_path.as_str(), budget).as_str());
    left.append(suffix.as_str());
    let used0 = sat_add(sat_add(str_width(left.as_str()), totals_w), mid_w);
    if transient && sat_add(used0, toast_w) > width {
        let furniture = sat_add(sat_add(mid_w, totals_w), toast_w);
        let keep0 = if width > furniture { width - furniture } else { 0 };
        let keep = if keep0 > 1 { keep0 } else { 1 };
        left = truncate_to_width(left.as_str(), keep);
    }
    proof {
        reveal(status_left);
    }
    left
}


/// Lay out the status bar: the left part (path, file number, position,
/// file tally) in bold, the totals dim, the badges, then the message. A
/// transient message is pushed to the right edge with blank fill; to make
/// it room the path shrinks first (down to 4 columns), and only then is the
/// left part cut.
#[verifier::rlimit(30)]
pub fn status_line(bar: &StatusBar) -> (r: Vec<(StatusStyle, String)>)
    requires
        bar.selected_file < usize::MAX,
        bar.scroll_y < usize::MAX,
        bar.search.current < usize::MAX,
    ensures
        status_view(r@) == status_spec(*bar),
        is_transient(bar.status) && piece_cols(status_view(r@)) <= bar.width ==> piece_cols(
            status_view(r@),
        ) == bar.width,
{
    let width = bar.width as usize;
    let suffix = status_suffix_text(bar);
    let totals = status_totals_text(bar);
    let mut right = owned(" ");
    right.append(bar.status.message.as_str());
    right.append(" ");
    let mid = status_mid_pieces(bar);
    let mid_w = pieces_cols(&mid);
    let transient = bar.status.set_at.is_some() && bar.status.is_empty() == false;
    let toast_w = if transient { str_width(right.as_str()) } else { 0 };
    let totals_w = str_width(totals.as_str());
    let left = status_left_text(bar, &suffix, totals_w, mid_w, toast_w, transient);
    let used = sat_add(sat_add(str_width(left.as_str()), totals_w), mid_w);
    let mut out: Vec<(StatusStyle, String)> = Vec::new();
    out.push((StatusStyle::Location, left));
    out.push((StatusStyle::Totals, totals));
    let ghost g0 = status_view(out@);
    let mut mid = mid;
    let ghost mv = mid@;
    out.append(&mut mid);
    proof {
        assert(status_view(out@) =~= g0 + status_view(mv));
    }
    let ghost g1 = status_view(out@);
    let fits = transient && sat_add(used, toast_w) <= width;
    if fits {
        out.push((StatusStyle::Fill, fill_text(width - used - toast_w)));
    }
    proof {
        assert(status_view(out@) =~= g1 + piece_if(
            fits,
            StatusStyle::Fill,
            spaces(minus_or_zero(width as int, used + toast_w)),
        ));
    }
    let ghost g2 = status_view(out@);
    out.push((StatusStyle::Message(bar.status.kind), right));
    proof {
        reveal(status_spec);
        assert(status_view(out@) =~= status_spec(*bar));
        let msg = seq![(StatusStyle::Message(bar.status.kind), right@)];
        assert(status_view(out@) =~= g2 + msg);
        lemma_piece_cols_concat(g2, msg);
        lemma_piece_cols_concat(g0, status_view(mv));
        lemma_piece_cols_one(msg[0]);
        let two = seq![(StatusStyle::Location, left@), (StatusStyle::Totals, totals@)];
        assert(g0 =~= two);
        assert(two =~= seq![two[0]] + seq![two[1]]);
        lemma_piece_cols_concat(seq![two[0]], seq![two[1]]);
        lemma_piece_cols_one(two[0]);
        lemma_piece_cols_one(two[1]);
        assert(piece_cols(g0) == str_width_of(left@) + str_width_of(totals@));
        if fits {
            let f = seq![(StatusStyle::Fill, spaces((width - used - toast_w) as nat))];
            assert(g2 =~= g1 + f);
            lemma_piece_cols_concat(g1, f);
            lemma_piece_cols_one(f[0]);
        } else {
            assert(g2 =~= g1);
        }
    }
    out
}

proof fn lemma_piece_cols_concat(a: Seq<(StatusStyle, Seq<char>)>, b: Seq<(StatusStyle, Seq<char>)>)
    ensures
        piece_cols(a + b) == piece_cols(a) + piece_cols(b),
    decreases a.len(),
{
    if a.len() == 0 {
        assert(a + b =~= b);
    } else {
        assert((a + b).drop_first() =~= a.drop_first() + b);
        lemma_piece_cols_concat(a.drop_first(), b);
    }
}

proof fn lemma_piece_cols_one(x: (StatusStyle, Seq<char>))
    ensures
        piece_cols(seq![x]) == str_width_of(x.1),
{
    let e = seq![x].drop_first();
    assert(e =~= Seq::<(StatusStyle, Seq<char>)>::empty());
    assert(piece_cols(e) == 0);
    assert(seq![x][0] == x);
}

} // verus!
