//! Text shaping for the review screen: display-width truncation of paths
//! and hints, tab expansion with column mapping, and the per-file chips of
//! the rail.
//!
//! Widths are display columns as `unicode-width` measures them: a CJK
//! character costs two columns, so truncation never paints past its budget.

use vstd::prelude::*;
use crate::keymap::{action_description, action_name, keys_for_spec, Action, KeySpec, Keymap};
use crate::app::{max_int, min_int, sat_sub, InputMode, Search};
use crate::theme::{Rgb, Theme};
use crate::text::{
    decimal, join_strings, join_with, opt_str_view, opt_string_view, owned, str_chars, str_eq,
    str_trim, string_views, trim_seq, u64_to_string,
};

verus! {

/// The display width `unicode-width` gives a single character (`None` for a
/// control character).
pub uninterp spec fn char_width_of(c: char) -> Option<usize>;

/// The display width `unicode-width` gives a string.
pub uninterp spec fn str_width_of(s: Seq<char>) -> usize;

/// Printable ASCII: U+0020 through U+007E.
pub open spec fn is_printable_ascii(c: char) -> bool {
    '\u{20}' <= c && c < '\u{7F}'
}

/// `UnicodeWidthChar::width`. The crate's table lookup is not restated
/// here; what is stated is the part of its definition that does not go
/// through the tables: printable ASCII is one column, the C0 and C1 control
/// ranges have no width, and every character from U+00A0 on has one.
#[verifier::external_body]
fn char_width(c: char) -> (r: Option<usize>)
    ensures
        r == char_width_of(c),
        is_printable_ascii(c) ==> r == Some(1usize),
        c < '\u{20}' || ('\u{7F}' <= c && c < '\u{A0}') ==> r is None,
        '\u{A0}' <= c ==> r is Some,
{
    unicode_width::UnicodeWidthChar::width(c)
}

/// `UnicodeWidthStr::width`. The crate's ligature and emoji rules are not
/// restated here; what is stated is that the empty string is zero columns
/// and a string of printable ASCII is one column per character.
#[verifier::external_body]
pub(crate) fn str_width(s: &str) -> (r: usize)
    ensures
        r == str_width_of(s@),
        s@.len() == 0 ==> r == 0,
        (forall|i: int| 0 <= i < s@.len() ==> is_printable_ascii(#[trigger] s@[i])) ==> r == s@.len(),
{
    unicode_width::UnicodeWidthStr::width(s)
}

/// The columns a character takes when it is truncated by [`truncate_to_width`]
/// (a control character counts as zero).
pub open spec fn char_cols(c: char) -> nat {
    match char_width_of(c) {
        Some(w) => w as nat,
        None => 0,
    }
}

/// The longest prefix of `cs` whose characters fit in `budget` columns,
/// stopping at the first one that does not fit.
pub open spec fn fit_prefix(cs: Seq<char>, budget: nat) -> Seq<char>
    decreases cs.len(),
{
    if cs.len() == 0 {
        cs
    } else if char_cols(cs[0]) > budget {
        Seq::empty()
    } else {
        seq![cs[0]] + fit_prefix(cs.drop_first(), (budget - char_cols(cs[0])) as nat)
    }
}

/// `s` cut to `width` display columns: unchanged when it fits, else the
/// prefix that fits in `width - 1` columns and a trailing `…` (nothing at
/// all for a zero width).
pub open spec fn truncate_to_width_spec(s: Seq<char>, width: nat) -> Seq<char> {
    if str_width_of(s) <= width {
        s
    } else if width == 0 {
        Seq::empty()
    } else {
        fit_prefix(s, (width - 1) as nat).push('…')
    }
}

/// Truncated text fits: what is kept of a string too wide for `width`
/// columns takes at most `width - 1` columns, counted character by
/// character, and a single `…` follows it.
pub proof fn law_truncated_text_fits(s: Seq<char>, width: nat)
    requires
        str_width_of(s) > width,
        width > 0,
    ensures
        truncate_to_width_spec(s, width).last() == '…',
        cols_sum(truncate_to_width_spec(s, width).drop_last()) <= width - 1,
{
    law_fit_prefix_fits(s, (width - 1) as nat);
    assert(truncate_to_width_spec(s, width).drop_last() =~= fit_prefix(s, (width - 1) as nat));
}

/// Truncate `s` to fit within `width` display columns, appending a single
/// trailing `…` when it would overflow. `width == 0` yields empty.
pub fn truncate_to_width(s: &str, width: usize) -> (r: String)
    ensures
        r@ == truncate_to_width_spec(s@, width as nat),
{
    if str_width(s) <= width {
        return owned(s);
    }
    if width == 0 {
        return String::new();
    }
    let budget = width - 1;
    let cs = str_chars(s);
    let mut out = String::new();
    let mut used: usize = 0;
    let mut i: usize = 0;
    let mut done = false;
    proof {
        assert(cs@.subrange(0, cs@.len() as int) =~= cs@);
    }
    while i < cs.len() && !done
        invariant
            0 <= i <= cs.len(),
            cs@ == s@,
            used <= budget,
            budget == width - 1,
            fit_prefix(s@, budget as nat) == out@ + (if done {
                Seq::empty()
            } else {
                fit_prefix(cs@.subrange(i as int, cs@.len() as int), (budget - used) as nat)
            }),
        decreases cs.len() - i, (if done { 0int } else { 1int }),
    {
        let ghost rest = cs@.subrange(i as int, cs@.len() as int);
        proof {
            assert(rest[0] == cs@[i as int]);
            assert(rest.drop_first() =~= cs@.subrange(i + 1, cs@.len() as int));
        }
        let w = match char_width(cs[i]) {
            Some(w) => w,
            None => 0,
        };
        if w > budget - used {
            done = true;
        } else {
            let ghost before = out@;
            out.push(cs[i]);
            proof {
                assert(out@ == before + seq![cs@[i as int]]);
                assert(before + (seq![cs@[i as int]] + fit_prefix(
                    rest.drop_first(),
                    (budget - used - w) as nat,
                )) =~= out@ + fit_prefix(rest.drop_first(), (budget - used - w) as nat));
            }
            used = used + w;
            i = i + 1;
        }
    }
    proof {
        if !done {
            assert(cs@.subrange(i as int, cs@.len() as int) =~= Seq::<char>::empty());
        }
        assert(out@ + Seq::<char>::empty() =~= out@);
    }
    out.push('…');
    out
}

/// The columns a single character takes as a one-character string.
pub open spec fn char_str_cols(c: char) -> nat {
    str_width_of(seq![c]) as nat
}

/// The longest suffix of `cs` whose characters fit in `budget` columns,
/// taken from the end and stopping at the first one that does not fit.
pub open spec fn fit_suffix(cs: Seq<char>, budget: nat) -> Seq<char>
    decreases cs.len(),
{
    if cs.len() == 0 {
        cs
    } else if char_str_cols(cs.last()) > budget {
        Seq::empty()
    } else {
        fit_suffix(cs.drop_last(), (budget - char_str_cols(cs.last())) as nat).push(cs.last())
    }
}

/// A leading `…` and the trailing `max_cols - 1` columns of `s`.
pub open spec fn truncate_tail_spec(s: Seq<char>, max_cols: nat) -> Seq<char> {
    seq!['…'] + fit_suffix(s, if max_cols >= 1 { (max_cols - 1) as nat } else { 0 })
}

/// The display width of one character, measured as a one-character string.
pub(crate) fn one_char_width(c: char) -> (r: usize)
    ensures
        r == char_str_cols(c),
{
    let mut one = String::new();
    one.push(c);
    proof {
        assert(one@ =~= seq![c]);
    }
    str_width(one.as_str())
}

/// Keep the trailing `max_cols - 1` display columns of `s` behind a leading
/// ellipsis, cutting only at char boundaries. `max_cols <= 1` yields just the
/// ellipsis.
pub fn truncate_tail_width(s: &str, max_cols: usize) -> (r: String)
    ensures
        r@ == truncate_tail_spec(s@, max_cols as nat),
{
    let budget: usize = if max_cols >= 1 { max_cols - 1 } else { 0 };
    let cs = str_chars(s);
    let n = cs.len();
    let mut taken: usize = 0;
    let mut start: usize = n;
    let mut done = false;
    proof {
        assert(cs@.subrange(0, n as int) =~= cs@);
        assert(cs@.subrange(n as int, n as int) =~= Seq::<char>::empty());
    }
    while start > 0 && !done
        invariant
            0 <= start <= n,
            n == cs.len(),
            cs@ == s@,
            taken <= budget,
            fit_suffix(s@, budget as nat) == (if done {
                Seq::empty()
            } else {
                fit_suffix(cs@.subrange(0, start as int), (budget - taken) as nat)
            }) + cs@.subrange(start as int, n as int),
        decreases start, (if done { 0int } else { 1int }),
    {
        let ghost pre = cs@.subrange(0, start as int);
        proof {
            assert(pre.last() == cs@[start - 1]);
            assert(pre.drop_last() =~= cs@.subrange(0, start - 1));
        }
        let w = one_char_width(cs[start - 1]);
        if w > budget - taken {
            done = true;
        } else {
            proof {
                assert(fit_suffix(cs@.subrange(0, start - 1), (budget - taken - w) as nat).push(
                    cs@[start - 1],
                ) + cs@.subrange(start as int, n as int) =~= fit_suffix(
                    cs@.subrange(0, start - 1),
                    (budget - taken - w) as nat,
                ) + cs@.subrange(start - 1, n as int));
            }
            taken = taken + w;
            start = start - 1;
        }
    }
    proof {
        if !done {
            assert(cs@.subrange(0, 0) =~= Seq::<char>::empty());
        }
    }
    let mut out = String::new();
    out.push('…');
    let mut k: usize = start;
    while k < n
        invariant
            start <= k <= n,
            n == cs.len(),
            out@ == seq!['…'] + cs@.subrange(start as int, k as int),
        decreases n - k,
    {
        out.push(cs[k]);
        proof {
            assert(out@ =~= seq!['…'] + cs@.subrange(start as int, k + 1));
        }
        k = k + 1;
    }
    proof {
        assert(Seq::<char>::empty() + cs@.subrange(start as int, n as int) =~= cs@.subrange(
            start as int,
            n as int,
        ));
    }
    out
}

/// The part of `s` after its last `/`, if it has one.
pub open spec fn after_last_slash(s: Seq<char>) -> Option<Seq<char>>
    decreases s.len(),
{
    if s.len() == 0 {
        None
    } else if s.last() == '/' {
        Some(Seq::empty())
    } else {
        match after_last_slash(s.drop_last()) {
            Some(t) => Some(t.push(s.last())),
            None => None,
        }
    }
}

proof fn lemma_after_last_slash(s: Seq<char>, i: int)
    requires
        0 <= i < s.len(),
        s[i] == '/',
        forall|t: int| i < t < s.len() ==> s[t] != '/',
    ensures
        after_last_slash(s) == Some(s.subrange(i + 1, s.len() as int)),
    decreases s.len(),
{
    if i < s.len() - 1 {
        let d = s.drop_last();
        assert forall|t: int| i < t < d.len() implies d[t] != '/' by {
            assert(d[t] == s[t]);
        }
        lemma_after_last_slash(d, i);
        assert(s.subrange(i + 1, d.len() as int).push(s.last()) =~= s.subrange(i + 1, s.len() as int));
    } else {
        assert(s.subrange(i + 1, s.len() as int) =~= Seq::<char>::empty());
    }
}

proof fn lemma_no_slash(s: Seq<char>)
    requires
        forall|t: int| 0 <= t < s.len() ==> s[t] != '/',
    ensures
        after_last_slash(s) is None,
    decreases s.len(),
{
    if s.len() > 0 {
        let d = s.drop_last();
        assert forall|t: int| 0 <= t < d.len() implies d[t] != '/' by {
            assert(d[t] == s[t]);
        }
        lemma_no_slash(d);
    }
}

/// The position of the last `/` among `cs`, if any.
fn last_slash(cs: &Vec<char>) -> (r: Option<usize>)
    ensures
        match r {
            Some(i) => i < cs@.len() && after_last_slash(cs@) == Some(
                cs@.subrange(i + 1, cs@.len() as int),
            ),
            None => after_last_slash(cs@) is None,
        },
{
    let mut j: usize = cs.len();
    while j > 0
        invariant
            0 <= j <= cs.len(),
            forall|t: int| j <= t < cs@.len() ==> cs@[t] != '/',
        decreases j,
    {
        if cs[j - 1] == '/' {
            proof {
                lemma_after_last_slash(cs@, j - 1);
            }
            return Some(j - 1);
        }
        j = j - 1;
    }
    proof {
        lemma_no_slash(cs@);
    }
    None
}

/// The characters of `cs` from `from` on, as a string.
fn chars_from(cs: &Vec<char>, from: usize) -> (r: String)
    requires
        from <= cs.len(),
    ensures
        r@ == cs@.subrange(from as int, cs@.len() as int),
{
    let mut out = String::new();
    let mut k: usize = from;
    while k < cs.len()
        invariant
            from <= k <= cs.len(),
            out@ == cs@.subrange(from as int, k as int),
        decreases cs.len() - k,
    {
        out.push(cs[k]);
        proof {
            assert(out@ =~= cs@.subrange(from as int, k + 1));
        }
        k = k + 1;
    }
    out
}

/// `…/` followed by `name`.
fn ellipsis_slash(name: &str) -> (r: String)
    ensures
        r@ == "…/"@ + name@,
{
    let mut out = owned("…/");
    out.append(name);
    out
}

/// Whether `w + 2 <= max_cols`, without overflow.
fn fits_with_two(w: usize, max_cols: usize) -> (b: bool)
    ensures
        b == (w + 2 <= max_cols),
{
    max_cols >= 2 && w <= max_cols - 2
}

/// A path cut to `max_cols` columns for the rail: unchanged when it fits;
/// else `…/<basename>` when that fits, else the tail of the basename (of the
/// whole path when it has no `/`).
pub open spec fn short_path_spec(path: Seq<char>, max_cols: nat) -> Seq<char> {
    if max_cols == 0 || str_width_of(path) <= max_cols {
        path
    } else {
        match after_last_slash(path) {
            Some(last) => if str_width_of(last) + 2 <= max_cols {
                "…/"@ + last
            } else {
                truncate_tail_spec(last, max_cols)
            },
            None => truncate_tail_spec(path, max_cols),
        }
    }
}

/// Truncate a path for the rail, capped at `max_cols` display columns and
/// biased toward the trailing filename.
pub fn short_path(path: &str, max_cols: usize) -> (r: String)
    ensures
        r@ == short_path_spec(path@, max_cols as nat),
{
    if max_cols == 0 || str_width(path) <= max_cols {
        return owned(path);
    }
    let cs = str_chars(path);
    match last_slash(&cs) {
        Some(i) => {
            assert(cs@.len() == cs.len());
            let last = chars_from(&cs, i + 1);
            if fits_with_two(str_width(last.as_str()), max_cols) {
                ellipsis_slash(last.as_str())
            } else {
                truncate_tail_width(last.as_str(), max_cols)
            }
        },
        None => truncate_tail_width(path, max_cols),
    }
}

/// A path cut to `max_cols` columns for the status bar: unchanged when it
/// fits; else `…/<basename>` when that fits, else the tail of the whole path.
pub open spec fn status_path_spec(path: Seq<char>, max_cols: nat) -> Seq<char> {
    if max_cols == 0 || str_width_of(path) <= max_cols {
        path
    } else {
        match after_last_slash(path) {
            Some(base) if str_width_of(base) + 2 <= max_cols => "…/"@ + base,
            _ => truncate_tail_spec(path, max_cols),
        }
    }
}

/// Truncate a path for the status bar, capped at `max_cols` display columns
/// and biased toward keeping the trailing filename.
pub fn status_path(path: &str, max_cols: usize) -> (r: String)
    ensures
        r@ == status_path_spec(path@, max_cols as nat),
{
    if max_cols == 0 || str_width(path) <= max_cols {
        return owned(path);
    }
    let cs = str_chars(path);
    match last_slash(&cs) {
        Some(i) => {
            assert(cs@.len() == cs.len());
            let base = chars_from(&cs, i + 1);
            if fits_with_two(str_width(base.as_str()), max_cols) {
                return ellipsis_slash(base.as_str());
            }
        },
        None => {},
    }
    truncate_tail_width(path, max_cols)
}

/// The two halves of a file's change tally for the rail: `+N` and `−M`
/// (Unicode minus), each empty when its count is zero.
pub fn file_stats_tail(inserts: u64, deletes: u64) -> (r: (String, String))
    ensures
        r.0@ == (if inserts > 0 { "+"@ + decimal(inserts as nat) } else { Seq::empty() }),
        r.1@ == (if deletes > 0 { "−"@ + decimal(deletes as nat) } else { Seq::empty() }),
{
    let plus = if inserts > 0 {
        let mut s = owned("+");
        let n = u64_to_string(inserts);
        s.append(n.as_str());
        s
    } else {
        String::new()
    };
    let minus = if deletes > 0 {
        let mut s = owned("−");
        let n = u64_to_string(deletes);
        s.append(n.as_str());
        s
    } else {
        String::new()
    };
    (plus, minus)
}

/// The one-letter chip of a change kind.
pub open spec fn kind_letter(k: ChangeKind) -> char {
    match k {
        ChangeKind::Added => 'A',
        ChangeKind::Modified => 'M',
        ChangeKind::Deleted => 'D',
        ChangeKind::Renamed => 'R',
    }
}

/// The head of a rail row: the 1-based file number, as ` N. `.
pub open spec fn rail_head(index: nat) -> Seq<char> {
    " "@ + decimal(index + 1) + ". "@
}

/// The note badge of a rail row: `💬N` for a file with notes, else nothing.
pub open spec fn rail_badge(notes: nat) -> Seq<char> {
    if notes > 0 {
        "💬"@ + decimal(notes)
    } else {
        Seq::empty()
    }
}

/// The columns the right-aligned tally and badge of a rail row take.
pub open spec fn rail_tail_cols(inserts: u64, deletes: u64, notes: nat) -> nat {
    let plus = if inserts > 0 { "+"@ + decimal(inserts as nat) } else { Seq::<char>::empty() };
    let minus = if deletes > 0 { "−"@ + decimal(deletes as nat) } else { Seq::<char>::empty() };
    (str_width_of(plus) + str_width_of(minus) + str_width_of(rail_badge(notes))) as nat
}

/// Two separating columns before the tally, when there is one.
pub open spec fn rail_sep(tail: nat) -> nat {
    if tail > 0 { 2 } else { 0 }
}

/// The columns left for the path: the row's inner width less the head, the
/// kind chip and fold chevron (four columns), the separator and the tally,
/// kept between 4 and 22 columns.
pub open spec fn rail_path_budget(index: nat, tail: nat, inner: nat) -> nat {
    let want = str_width_of(rail_head(index)) + 4 + rail_sep(tail) + tail;
    let left: nat = if inner > want { (inner - want) as nat } else { 0 };
    if left < 4 { 4 } else if left > 22 { 22 } else { left }
}

/// The padding that right-aligns the tally: what the row leaves after the
/// head, chip, chevron, path, separator and tally.
pub open spec fn rail_pad(index: nat, path: Seq<char>, tail: nat, inner: nat) -> nat {
    let used = str_width_of(rail_head(index)) + 4 + str_width_of(path) + rail_sep(tail) + tail;
    if inner > used { (inner - used) as nat } else { 0 }
}

/// One row of the file rail, as text: number, kind chip, fold chevron,
/// shortened path and, when the file has a tally or notes, the padding that
/// right-aligns them followed by `+N`, `−M` and the note badge.
pub struct RailRow {
    pub head: String,
    pub chip: String,
    pub chevron: String,
    pub path: String,
    pub pad: Option<usize>,
    pub plus: String,
    pub minus: String,
    pub badge: String,
}

/// `a + b`, or `usize::MAX` when that does not fit.
pub(crate) fn sat_add(a: usize, b: usize) -> (r: usize)
    ensures
        r == (if a + b <= usize::MAX { (a + b) as usize } else { usize::MAX }),
{
    if a <= usize::MAX - b { a + b } else { usize::MAX }
}

/// Lay out the rail row of file number `index` (0-based) in a rail
/// `area_width` columns wide (one of them its border): the path is cut to
/// the budget the other parts leave, and the tally right-aligned.
pub fn rail_row(
    index: usize,
    kind: ChangeKind,
    inserts: u64,
    deletes: u64,
    notes: usize,
    display_path: &str,
    area_width: u16,
    folded: bool,
) -> (r: RailRow)
    requires
        index < u64::MAX,
    ensures
        r.head@ == rail_head(index as nat),
        r.chip@ == seq![kind_letter(kind), ' '],
        r.chevron@ == (if folded { "▸ "@ } else { "▾ "@ }),
        r.plus@ == (if inserts > 0 { "+"@ + decimal(inserts as nat) } else { Seq::empty() }),
        r.minus@ == (if deletes > 0 { "−"@ + decimal(deletes as nat) } else { Seq::empty() }),
        r.badge@ == rail_badge(notes as nat),
        ({
            let inner: nat = if area_width >= 1 { (area_width - 1) as nat } else { 0 };
            let tail = rail_tail_cols(inserts, deletes, notes as nat);
            &&& r.path@ == short_path_spec(
                display_path@,
                rail_path_budget(index as nat, tail, inner),
            )
            &&& r.pad == (if tail > 0 {
                Some(rail_pad(index as nat, r.path@, tail, inner) as usize)
            } else {
                None
            })
        }),
{
    let inner: usize = if area_width >= 1 { (area_width - 1) as usize } else { 0 };
    let mut head = owned(" ");
    let num = u64_to_string(index as u64 + 1);
    head.append(num.as_str());
    head.append(". ");
    let mut chip = String::new();
    chip.push(kind.letter());
    chip.push(' ');
    proof {
        assert(chip@ =~= seq![kind_letter(kind), ' ']);
    }
    let chevron = if folded { owned("▸ ") } else { owned("▾ ") };
    let (plus, minus) = file_stats_tail(inserts, deletes);
    let badge = if notes > 0 {
        let mut b = owned("💬");
        let n = u64_to_string(notes as u64);
        b.append(n.as_str());
        b
    } else {
        String::new()
    };
    let head_w = str_width(head.as_str());
    let tail = sat_add(sat_add(str_width(plus.as_str()), str_width(minus.as_str())), str_width(badge.as_str()));
    let ghost tail_n = rail_tail_cols(inserts, deletes, notes as nat);
    let sep: usize = if tail > 0 { 2 } else { 0 };
    let want = sat_add(sat_add(sat_add(head_w, 4), sep), tail);
    let left = if inner > want { inner - want } else { 0 };
    let budget = if left < 4 { 4 } else if left > 22 { 22 } else { left };
    let path = short_path(display_path, budget);
    let pad = if tail > 0 {
        let used = sat_add(sat_add(sat_add(sat_add(head_w, 4), str_width(path.as_str())), sep), tail);
        Some(if inner > used { inner - used } else { 0 })
    } else {
        None
    };
    RailRow { head, chip, chevron, path, pad, plus, minus, badge }
}

/// The rail's title: `Files`, or `Files (shown/total)` while a path filter
/// is active.
pub fn rail_title(path_filter: &str, visible: usize, total: usize) -> (t: String)
    ensures
        t@ == (if trim_seq(path_filter@).len() == 0 {
            "Files"@
        } else {
            "Files ("@ + decimal(visible as nat) + "/"@ + decimal(total as nat) + ")"@
        }),
{
    if str_chars(str_trim(path_filter)).len() == 0 {
        return owned("Files");
    }
    let mut t = owned("Files (");
    t.append(u64_to_string(visible as u64).as_str());
    t.append("/");
    t.append(u64_to_string(total as u64).as_str());
    t.append(")");
    t
}

/// The next tab stop after column `col`.
pub open spec fn tab_stop(col: nat, tw: nat) -> nat {
    ((col / tw + 1) * tw) as nat
}

/// The column reached after rendering `cs`, tabs expanded to `tw`-wide stops.
pub open spec fn tab_col(cs: Seq<char>, tw: nat) -> nat
    decreases cs.len(),
{
    if cs.len() == 0 {
        0
    } else if cs.last() == '\t' {
        tab_stop(tab_col(cs.drop_last(), tw), tw)
    } else {
        tab_col(cs.drop_last(), tw) + 1
    }
}

/// `n` spaces.
pub open spec fn spaces(n: nat) -> Seq<char> {
    Seq::new(n, |i: int| ' ')
}

/// `cs` with every tab replaced by the spaces that reach the next stop.
pub open spec fn expand_seq(cs: Seq<char>, tw: nat) -> Seq<char>
    decreases cs.len(),
{
    if cs.len() == 0 {
        Seq::empty()
    } else if cs.last() == '\t' {
        expand_seq(cs.drop_last(), tw) + spaces(
            (tab_col(cs, tw) - tab_col(cs.drop_last(), tw)) as nat,
        )
    } else {
        expand_seq(cs.drop_last(), tw).push(cs.last())
    }
}

/// The rendered text of a line: unchanged when it has no tab or the tab
/// width is zero, else tab-expanded.
pub open spec fn expand_tabs_spec(text: Seq<char>, tw: nat) -> Seq<char> {
    if tw == 0 || !text.contains('\t') {
        text
    } else {
        expand_seq(text, tw)
    }
}

proof fn lemma_tab_col_bound(cs: Seq<char>, tw: nat)
    requires
        tw > 0,
    ensures
        tab_col(cs, tw) <= cs.len() * tw,
        tab_col(cs, tw) == expand_seq(cs, tw).len(),
    decreases cs.len(),
{
    if cs.len() > 0 {
        let d = cs.drop_last();
        lemma_tab_col_bound(d, tw);
        let c0 = tab_col(d, tw);
        assert((c0 / tw) * tw <= c0) by (nonlinear_arith)
            requires
                tw > 0,
        ;
        assert((c0 / tw + 1) * tw == (c0 / tw) * tw + tw) by (nonlinear_arith);
        assert((c0 / tw + 1) * tw > c0) by (nonlinear_arith)
            requires
                tw > 0,
        ;
        assert(d.len() * tw + tw == cs.len() * tw) by (nonlinear_arith)
            requires
                d.len() + 1 == cs.len(),
        ;
        assert(tw >= 1 ==> d.len() * tw + 1 <= cs.len() * tw) by (nonlinear_arith)
            requires
                d.len() + 1 == cs.len(),
        ;
    }
}

/// Whether `cs` holds a tab.
fn has_tab(cs: &Vec<char>) -> (b: bool)
    ensures
        b == cs@.contains('\t'),
{
    let mut i: usize = 0;
    while i < cs.len()
        invariant
            0 <= i <= cs.len(),
            forall|t: int| 0 <= t < i ==> cs@[t] != '\t',
        decreases cs.len() - i,
    {
        if cs[i] == '\t' {
            return true;
        }
        i = i + 1;
    }
    false
}

/// Expand tabs to `tab_width`-column stops. Returns the input unchanged when
/// the text has no tab (or the width is zero).
pub fn expand_tabs(text: &str, tab_width: usize) -> (r: String)
    requires
        text@.len() * tab_width <= usize::MAX,
    ensures
        r@ == expand_tabs_spec(text@, tab_width as nat),
{
    let cs = str_chars(text);
    if tab_width == 0 || !has_tab(&cs) {
        return owned(text);
    }
    let mut out = String::new();
    let mut col: usize = 0;
    let mut i: usize = 0;
    proof {
        assert(cs@.subrange(0, 0) =~= Seq::<char>::empty());
    }
    while i < cs.len()
        invariant
            0 <= i <= cs.len(),
            cs@ == text@,
            tab_width > 0,
            cs@.len() * tab_width <= usize::MAX,
            col == tab_col(cs@.subrange(0, i as int), tab_width as nat),
            out@ == expand_seq(cs@.subrange(0, i as int), tab_width as nat),
        decreases cs.len() - i,
    {
        let ghost pre = cs@.subrange(0, i + 1);
        proof {
            assert(pre.drop_last() =~= cs@.subrange(0, i as int));
            assert(pre.last() == cs@[i as int]);
            lemma_tab_col_bound(pre, tab_width as nat);
            assert(pre.len() * tab_width <= cs@.len() * tab_width) by (nonlinear_arith)
                requires
                    pre.len() <= cs@.len(),
            ;
        }
        if cs[i] == '\t' {
            proof {
                assert(tab_col(pre, tab_width as nat) == tab_stop(col as nat, tab_width as nat));
                assert((col / tab_width + 1) * tab_width == tab_stop(col as nat, tab_width as nat));
                assert((col / tab_width + 1) * tab_width > col) by (nonlinear_arith)
                    requires
                        tab_width > 0,
                ;
            }
            let next = (col / tab_width + 1) * tab_width;
            let ghost before = out@;
            let mut k: usize = col;
            while k < next
                invariant
                    col <= k <= next,
                    out@ == before + spaces((k - col) as nat),
                decreases next - k,
            {
                out.push(' ');
                proof {
                    assert(out@ =~= before + spaces((k + 1 - col) as nat));
                }
                k = k + 1;
            }
            col = next;
        } else {
            out.push(cs[i]);
            col = col + 1;
        }
        i = i + 1;
    }
    proof {
        assert(cs@.subrange(0, cs@.len() as int) =~= cs@);
    }
    out
}

/// The rendered columns of a 1-based half-open raw character range: each
/// end moves to the column where that raw character lands after tab
/// expansion (an end past the line maps to the line's end).
pub open spec fn map_raw_range_spec(raw: Seq<char>, tw: nat, start: nat, end: nat) -> (nat, nat) {
    if tw == 0 || !raw.contains('\t') {
        (start, end)
    } else {
        let n = raw.len();
        let s = if start >= 1 { (start - 1) as nat } else { 0 };
        let e = if end >= 1 { (end - 1) as nat } else { 0 };
        let s = if s < n { s } else { n };
        let e = if e < n { e } else { n };
        (tab_col(raw.subrange(0, s as int), tw) + 1, tab_col(raw.subrange(0, e as int), tw) + 1)
    }
}

/// Map a char range (1-based, half-open) from the raw diff text onto the
/// tab-expanded rendered text. The returned pair stays 1-based half-open.
pub fn map_raw_range(raw: &str, tab_width: usize, start: usize, end: usize) -> (r: (usize, usize))
    requires
        raw@.len() * tab_width < usize::MAX,
    ensures
        (r.0 as nat, r.1 as nat) == map_raw_range_spec(raw@, tab_width as nat, start as nat, end as nat),
{
    let cs = str_chars(raw);
    if tab_width == 0 || !has_tab(&cs) {
        return (start, end);
    }
    let mut starts: Vec<usize> = Vec::new();
    let mut col: usize = 0;
    let mut i: usize = 0;
    proof {
        assert(cs@.subrange(0, 0) =~= Seq::<char>::empty());
    }
    while i < cs.len()
        invariant
            0 <= i <= cs.len(),
            cs@ == raw@,
            tab_width > 0,
            cs@.len() * tab_width < usize::MAX,
            col == tab_col(cs@.subrange(0, i as int), tab_width as nat),
            starts@.len() == i,
            forall|t: int| 0 <= t < i ==> starts@[t] == tab_col(cs@.subrange(0, t), tab_width as nat),
        decreases cs.len() - i,
    {
        let ghost pre = cs@.subrange(0, i + 1);
        proof {
            assert(pre.drop_last() =~= cs@.subrange(0, i as int));
            assert(pre.last() == cs@[i as int]);
            lemma_tab_col_bound(pre, tab_width as nat);
            assert(pre.len() * tab_width <= cs@.len() * tab_width) by (nonlinear_arith)
                requires
                    pre.len() <= cs@.len(),
            ;
        }
        starts.push(col);
        if cs[i] == '\t' {
            proof {
                assert(tab_col(pre, tab_width as nat) == tab_stop(col as nat, tab_width as nat));
                assert((col / tab_width + 1) * tab_width == tab_stop(col as nat, tab_width as nat));
                assert(tab_col(pre, tab_width as nat) <= pre.len() * tab_width);
                assert(pre.len() * tab_width <= cs@.len() * tab_width);
                assert((col / tab_width + 1) * tab_width <= usize::MAX);
                assert(col / tab_width + 1 <= (col / tab_width + 1) * tab_width) by (nonlinear_arith)
                    requires
                        tab_width > 0,
                ;
            }
            col = (col / tab_width + 1) * tab_width;
        } else {
            col = col + 1;
        }
        i = i + 1;
    }
    starts.push(col);
    proof {
        assert(cs@.subrange(0, cs@.len() as int) =~= cs@);
        lemma_tab_col_bound(cs@, tab_width as nat);
    }
    let n = cs.len();
    let s0: usize = if start >= 1 { start - 1 } else { 0 };
    let e0: usize = if end >= 1 { end - 1 } else { 0 };
    let s = if s0 < n { s0 } else { n };
    let e = if e0 < n { e0 } else { n };
    proof {
        assert(starts@[s as int] == tab_col(cs@.subrange(0, s as int), tab_width as nat));
        assert(starts@[e as int] == tab_col(cs@.subrange(0, e as int), tab_width as nat));
        lemma_tab_col_bound(cs@.subrange(0, s as int), tab_width as nat);
        lemma_tab_col_bound(cs@.subrange(0, e as int), tab_width as nat);
        assert(s * tab_width <= cs@.len() * tab_width) by (nonlinear_arith)
            requires
                s <= cs@.len(),
        ;
        assert(e * tab_width <= cs@.len() * tab_width) by (nonlinear_arith)
            requires
                e <= cs@.len(),
        ;
    }
    (starts[s] + 1, starts[e] + 1)
}

/// File-level change classification, from the file's old and new paths.
#[derive(Debug, Clone, Copy, PartialEq, Eq, Structural)]
pub enum ChangeKind {
    Added,
    Modified,
    Deleted,
    Renamed,
}

/// A path side counts only when present and not `/dev/null`.
pub open spec fn real_path(p: Option<Seq<char>>) -> Option<Seq<char>> {
    match p {
        Some(s) => if s == "/dev/null"@ {
            None
        } else {
            Some(s)
        },
        None => None,
    }
}

pub open spec fn change_kind_spec(old: Option<Seq<char>>, new: Option<Seq<char>>) -> ChangeKind {
    match (real_path(old), real_path(new)) {
        (None, Some(_)) => ChangeKind::Added,
        (Some(_), None) => ChangeKind::Deleted,
        (Some(o), Some(n)) => if o != n {
            ChangeKind::Renamed
        } else {
            ChangeKind::Modified
        },
        (None, None) => ChangeKind::Modified,
    }
}


impl ChangeKind {
    /// The one-letter rail/header chip.
    pub fn letter(self) -> (c: char)
        ensures
            c == match self {
                ChangeKind::Added => 'A',
                ChangeKind::Modified => 'M',
                ChangeKind::Deleted => 'D',
                ChangeKind::Renamed => 'R',
            },
    {
        match self {
            ChangeKind::Added => 'A',
            ChangeKind::Modified => 'M',
            ChangeKind::Deleted => 'D',
            ChangeKind::Renamed => 'R',
        }
    }

    /// Classify a file from its old and new paths. Unified diffs mark absent
    /// sides as `/dev/null`; those count as absent.
    pub fn from_file(old_path: Option<&str>, new_path: Option<&str>) -> (k: ChangeKind)
        ensures
            k == change_kind_spec(opt_str_view(old_path), opt_str_view(new_path)),
    {
        let old = match old_path {
            Some(p) => if str_eq(p, "/dev/null") {
                None
            } else {
                Some(p)
            },
            None => None,
        };
        let new = match new_path {
            Some(p) => if str_eq(p, "/dev/null") {
                None
            } else {
                Some(p)
            },
            None => None,
        };
        match (old, new) {
            (None, Some(_)) => ChangeKind::Added,
            (Some(_), None) => ChangeKind::Deleted,
            (Some(o), Some(n)) => if !str_eq(o, n) {
                ChangeKind::Renamed
            } else {
                ChangeKind::Modified
            },
            (None, None) => ChangeKind::Modified,
        }
    }
}

/// The view states the help overlay reports for its toggle actions.
#[derive(Debug, Clone, Copy, PartialEq, Eq, Structural)]
pub struct ToggleFlags {
    pub highlight_on: bool,
    pub line_numbers_on: bool,
    pub word_diff_on: bool,
    pub ignore_ws: bool,
    pub wrap_on: bool,
    pub collapse_on: bool,
    pub show_rail: bool,
}

pub open spec fn on_off(b: bool) -> Seq<char> {
    if b {
        "on"@
    } else {
        "off"@
    }
}

/// The live on/off label of a toggle action; none for the other actions.
pub open spec fn toggle_state_spec(f: ToggleFlags, a: Action) -> Option<Seq<char>> {
    match a {
        Action::ToggleHighlight => Some(on_off(f.highlight_on)),
        Action::ToggleLineNumbers => Some(on_off(f.line_numbers_on)),
        Action::ToggleWordDiff => Some(on_off(f.word_diff_on)),
        Action::ToggleIgnoreWhitespace => Some(on_off(f.ignore_ws)),
        Action::ToggleWrap => Some(on_off(f.wrap_on)),
        Action::ToggleContextCollapse => Some(on_off(f.collapse_on)),
        Action::ToggleRail => Some(on_off(f.show_rail)),
        _ => None,
    }
}

fn on_off_str(b: bool) -> (r: &'static str)
    ensures
        r@ == on_off(b),
{
    if b {
        "on"
    } else {
        "off"
    }
}

/// The live on/off label for toggle actions, shown in the help overlay.
/// `None` for actions without a stateful aspect.
pub fn toggle_state(flags: &ToggleFlags, a: Action) -> (r: Option<&'static str>)
    ensures
        opt_str_view(r) == toggle_state_spec(*flags, a),
{
    match a {
        Action::ToggleHighlight => Some(on_off_str(flags.highlight_on)),
        Action::ToggleLineNumbers => Some(on_off_str(flags.line_numbers_on)),
        Action::ToggleWordDiff => Some(on_off_str(flags.word_diff_on)),
        Action::ToggleIgnoreWhitespace => Some(on_off_str(flags.ignore_ws)),
        Action::ToggleWrap => Some(on_off_str(flags.wrap_on)),
        Action::ToggleContextCollapse => Some(on_off_str(flags.collapse_on)),
        Action::ToggleRail => Some(on_off_str(flags.show_rail)),
        _ => None,
    }
}

/// One help row: a single action (its keys come from the live keymap;
/// unbound actions are omitted), a pair sharing a description, or a static
/// non-remappable entry.
#[derive(Debug, Clone, Copy)]
pub enum HelpRow {
    Action(Action),
    Pair(Action, Action, &'static str),
    Static(&'static str, &'static str),
}

/// The keys of an action as one help cell, or none when it has no key.
pub open spec fn joined_keys(ks: Seq<Seq<char>>) -> Option<Seq<char>> {
    if ks.len() == 0 {
        None
    } else {
        Some(join_with(ks, " / "@))
    }
}

/// The (keys, description) line of one help row, if it shows.
pub open spec fn help_row_spec(m: Map<KeySpec, Action>, f: ToggleFlags, row: HelpRow) -> Option<(Seq<char>, Seq<char>)> {
    match row {
        HelpRow::Action(a) => match joined_keys(keys_for_spec(m, a)) {
            Some(k) => Some(
                (
                    k,
                    match toggle_state_spec(f, a) {
                        Some(st) => action_description(a) + " ("@ + st + ")"@,
                        None => action_description(a),
                    },
                ),
            ),
            None => None,
        },
        HelpRow::Pair(a, b, desc) => match (
            joined_keys(keys_for_spec(m, a)),
            joined_keys(keys_for_spec(m, b)),
        ) {
            (Some(ka), Some(kb)) => Some((ka + " / "@ + kb, desc@)),
            (Some(ka), None) => Some((ka, desc@)),
            (None, Some(kb)) => Some((kb, desc@)),
            (None, None) => None,
        },
        HelpRow::Static(k, d) => Some((k@, d@)),
    }
}

/// The help lines of a list of rows, in order.
pub open spec fn help_rows_spec(m: Map<KeySpec, Action>, f: ToggleFlags, rows: Seq<HelpRow>) -> Seq<(Seq<char>, Seq<char>)>
    decreases rows.len(),
{
    if rows.len() == 0 {
        Seq::empty()
    } else {
        let prev = help_rows_spec(m, f, rows.drop_last());
        match help_row_spec(m, f, rows.last()) {
            Some(x) => prev.push(x),
            None => prev,
        }
    }
}

pub open spec fn pair_views(v: Seq<(String, String)>) -> Seq<(Seq<char>, Seq<char>)> {
    v.map_values(|p: (String, String)| (p.0@, p.1@))
}

/// The keys of `a` joined with ` / `, or none when it has no key.
fn keys_cell(keymap: &Keymap, a: Action) -> (r: Option<String>)
    ensures
        opt_string_view(r) == joined_keys(keys_for_spec(keymap@, a)),
{
    let k = keymap.keys_for(a);
    if k.len() == 0 {
        None
    } else {
        Some(join_strings(&k, " / "))
    }
}

/// Materialize help rows against `keymap`: action keys are looked up live so
/// the overlay always reflects the user's `[keybindings]`; toggles carry
/// their live state, e.g. "toggle syntax highlighting (on)".
pub fn help_rows(keymap: &Keymap, flags: &ToggleFlags, rows: &[HelpRow]) -> (r: Vec<(String, String)>)
    ensures
        pair_views(r@) == help_rows_spec(keymap@, *flags, rows@),
{
    let mut out: Vec<(String, String)> = Vec::new();
    let mut i: usize = 0;
    proof {
        assert(pair_views(out@) =~= help_rows_spec(keymap@, *flags, rows@.subrange(0, 0)));
    }
    while i < rows.len()
        invariant
            0 <= i <= rows.len(),
            pair_views(out@) == help_rows_spec(keymap@, *flags, rows@.subrange(0, i as int)),
        decreases rows.len() - i,
    {
        proof {
            assert(rows@.subrange(0, i + 1).drop_last() =~= rows@.subrange(0, i as int));
            assert(rows@.subrange(0, i + 1).last() == rows@[i as int]);
        }
        let ghost before = out@;
        match rows[i] {
            HelpRow::Action(a) => {
                match keys_cell(keymap, a) {
                    Some(k) => {
                        let desc = match toggle_state(flags, a) {
                            Some(state) => {
                                let mut d = owned(a.describe());
                                d.append(" (");
                                d.append(state);
                                d.append(")");
                                d
                            },
                            None => owned(a.describe()),
                        };
                        out.push((k, desc));
                        proof {
                            assert(pair_views(out@) =~= pair_views(before).push((k@, desc@)));
                        }
                    },
                    None => {},
                }
            },
            HelpRow::Pair(a, b, desc) => {
                match (keys_cell(keymap, a), keys_cell(keymap, b)) {
                    (Some(ka), Some(kb)) => {
                        let mut k = ka;
                        k.append(" / ");
                        k.append(kb.as_str());
                        let d = owned(desc);
                        out.push((k, d));
                        proof {
                            assert(pair_views(out@) =~= pair_views(before).push((k@, d@)));
                        }
                    },
                    (Some(ka), None) => {
                        let d = owned(desc);
                        let ghost kv = ka@;
                        out.push((ka, d));
                        proof {
                            assert(pair_views(out@) =~= pair_views(before).push((kv, d@)));
                        }
                    },
                    (None, Some(kb)) => {
                        let d = owned(desc);
                        let ghost kv = kb@;
                        out.push((kb, d));
                        proof {
                            assert(pair_views(out@) =~= pair_views(before).push((kv, d@)));
                        }
                    },
                    (None, None) => {},
                }
            },
            HelpRow::Static(k, d) => {
                let ks = owned(k);
                let ds = owned(d);
                out.push((ks, ds));
                proof {
                    assert(pair_views(out@) =~= pair_views(before).push((ks@, ds@)));
                }
            },
        }
        i = i + 1;
    }
    proof {
        assert(rows@.subrange(0, rows@.len() as int) =~= rows@);
    }
    out
}

/// How a piece of help-overlay text is styled.
#[derive(Debug, Clone, Copy, PartialEq, Eq, Structural)]
pub enum HelpStyle {
    /// A section title.
    Head,
    /// A key list.
    Key,
    /// A description.
    Dim,
    /// Unstyled padding.
    Plain,
    /// The closing dismiss hint.
    Hint,
}

/// One line of the help overlay: its styled pieces, in order.
pub type HelpLine = Vec<(HelpStyle, String)>;

/// The number of help-overlay sections.
pub const HELP_SECTIONS: usize = 6;

/// The rows of the `i`th help-overlay section.
pub open spec fn help_section_rows(i: int) -> Seq<HelpRow> {
    if i == 0 {
        seq![
            HelpRow::Pair(Action::CursorDown, Action::CursorUp, "cursor down / up one row"),
            HelpRow::Pair(Action::HalfPageDown, Action::HalfPageUp, "cursor half a page down / up"),
            HelpRow::Pair(Action::PageForward, Action::PageBackward, "cursor a full page down / up"),
            HelpRow::Pair(Action::GotoTop, Action::GotoBottom, "jump to top / bottom"),
            HelpRow::Pair(Action::NextHunk, Action::PrevHunk, "next / previous hunk (wraps files)"),
            HelpRow::Pair(Action::NextFile, Action::PrevFile, "next / previous file"),
            HelpRow::Static("1-9", "jump to the Nth file (absolute index, even while filtered)"),
        ]
    } else if i == 1 {
        seq![
            HelpRow::Pair(Action::NextNote, Action::PrevNote, "next / previous note (💬 rows)"),
            HelpRow::Action(Action::ComposeNote),
            HelpRow::Action(Action::OpenEditor),
            HelpRow::Pair(Action::FoldFile, Action::UnfoldFile, "fold / unfold current file"),
            HelpRow::Action(Action::ToggleRail),
        ]
    } else if i == 2 {
        seq![
            HelpRow::Action(Action::ToggleHighlight),
            HelpRow::Action(Action::ToggleLineNumbers),
            HelpRow::Action(Action::ToggleWordDiff),
            HelpRow::Action(Action::ToggleIgnoreWhitespace),
            HelpRow::Action(Action::ToggleWrap),
            HelpRow::Action(Action::ToggleContextCollapse),
            HelpRow::Action(Action::CycleLayout),
            HelpRow::Action(Action::CycleThemeMode),
            HelpRow::Action(Action::CyclePalette),
        ]
    } else if i == 3 {
        seq![
            HelpRow::Action(Action::Search),
            HelpRow::Pair(Action::NextMatch, Action::PrevMatch, "next / previous match"),
            HelpRow::Action(Action::FilterPaths),
        ]
    } else if i == 4 {
        seq![
            HelpRow::Action(Action::Help),
            HelpRow::Action(Action::Quit),
        ]
    } else if i == 5 {
        seq![
            HelpRow::Action(Action::AcceptHunk),
            HelpRow::Action(Action::RejectHunk),
            HelpRow::Action(Action::UndecideHunk),
        ]
    } else {
        Seq::empty()
    }
}

/// The title of the `i`th help-overlay section.
pub open spec fn help_section_title(i: int) -> Seq<char> {
    if i == 0 {
        "Navigation"@
    } else if i == 1 {
        "Notes & files"@
    } else if i == 2 {
        "View"@
    } else if i == 3 {
        "Search & filter"@
    } else if i == 4 {
        "Session"@
    } else {
        "Agent (--select)"@
    }
}

fn section_rows(i: usize) -> (r: Vec<HelpRow>)
    requires
        i < HELP_SECTIONS,
    ensures
        r@ == help_section_rows(i as int),
{
    let r = match i {
        0 => vec![
            HelpRow::Pair(Action::CursorDown, Action::CursorUp, "cursor down / up one row"),
            HelpRow::Pair(Action::HalfPageDown, Action::HalfPageUp, "cursor half a page down / up"),
            HelpRow::Pair(Action::PageForward, Action::PageBackward, "cursor a full page down / up"),
            HelpRow::Pair(Action::GotoTop, Action::GotoBottom, "jump to top / bottom"),
            HelpRow::Pair(Action::NextHunk, Action::PrevHunk, "next / previous hunk (wraps files)"),
            HelpRow::Pair(Action::NextFile, Action::PrevFile, "next / previous file"),
            HelpRow::Static("1-9", "jump to the Nth file (absolute index, even while filtered)"),
        ],
        1 => vec![
            HelpRow::Pair(Action::NextNote, Action::PrevNote, "next / previous note (💬 rows)"),
            HelpRow::Action(Action::ComposeNote),
            HelpRow::Action(Action::OpenEditor),
            HelpRow::Pair(Action::FoldFile, Action::UnfoldFile, "fold / unfold current file"),
            HelpRow::Action(Action::ToggleRail),
        ],
        2 => vec![
            HelpRow::Action(Action::ToggleHighlight),
            HelpRow::Action(Action::ToggleLineNumbers),
            HelpRow::Action(Action::ToggleWordDiff),
            HelpRow::Action(Action::ToggleIgnoreWhitespace),
            HelpRow::Action(Action::ToggleWrap),
            HelpRow::Action(Action::ToggleContextCollapse),
            HelpRow::Action(Action::CycleLayout),
            HelpRow::Action(Action::CycleThemeMode),
            HelpRow::Action(Action::CyclePalette),
        ],
        3 => vec![
            HelpRow::Action(Action::Search),
            HelpRow::Pair(Action::NextMatch, Action::PrevMatch, "next / previous match"),
            HelpRow::Action(Action::FilterPaths),
        ],
        4 => vec![
            HelpRow::Action(Action::Help),
            HelpRow::Action(Action::Quit),
        ],
        5 => vec![
            HelpRow::Action(Action::AcceptHunk),
            HelpRow::Action(Action::RejectHunk),
            HelpRow::Action(Action::UndecideHunk),
        ],
        _ => vec![],
    };
    proof {
        assert(r@ =~= help_section_rows(i as int));
    }
    r
}

fn section_title(i: usize) -> (r: &'static str)
    requires
        i < HELP_SECTIONS,
    ensures
        r@ == help_section_title(i as int),
{
    match i {
        0 => "Navigation",
        1 => "Notes & files",
        2 => "View",
        3 => "Search & filter",
        4 => "Session",
        _ => "Agent (--select)",
    }
}

/// The widest key cell of a section, in characters.
pub open spec fn widest_key(rows: Seq<(Seq<char>, Seq<char>)>) -> nat
    decreases rows.len(),
{
    if rows.len() == 0 {
        0
    } else {
        let w = widest_key(rows.drop_last());
        if rows.last().0.len() > w {
            rows.last().0.len()
        } else {
            w
        }
    }
}

/// The key column width of a section: its widest key, kept within 16–24.
pub open spec fn key_column(rows: Seq<(Seq<char>, Seq<char>)>) -> nat {
    let w = widest_key(rows);
    if w < 16 {
        16
    } else if w > 24 {
        24
    } else {
        w
    }
}

/// The lines of the rows of a section: a key list wider than the column
/// takes its own line, with the description indented below it.
pub open spec fn row_lines(rows: Seq<(Seq<char>, Seq<char>)>, kw: nat) -> Seq<Seq<(HelpStyle, Seq<char>)>>
    decreases rows.len(),
{
    if rows.len() == 0 {
        Seq::empty()
    } else {
        let (k, d) = rows.last();
        row_lines(rows.drop_last(), kw) + if k.len() > kw {
            seq![
                seq![(HelpStyle::Key, "  "@ + k)],
                seq![(HelpStyle::Plain, spaces(kw + 3)), (HelpStyle::Dim, d)],
            ]
        } else {
            seq![
                seq![
                    (HelpStyle::Key, "  "@ + k + spaces((kw - k.len()) as nat) + " "@),
                    (HelpStyle::Dim, d),
                ],
            ]
        }
    }
}

/// A titled section: the title line, the row lines, then a blank line.
pub open spec fn section_lines(title: Seq<char>, rows: Seq<(Seq<char>, Seq<char>)>) -> Seq<Seq<(HelpStyle, Seq<char>)>> {
    seq![seq![(HelpStyle::Head, " "@ + title)]] + row_lines(rows, key_column(rows)) + seq![
        Seq::empty(),
    ]
}

/// The lines of the first `n` help-overlay sections.
pub open spec fn help_sections_spec(m: Map<KeySpec, Action>, f: ToggleFlags, n: int) -> Seq<Seq<(HelpStyle, Seq<char>)>>
    decreases n,
{
    if n <= 0 {
        Seq::empty()
    } else {
        help_sections_spec(m, f, n - 1) + section_lines(
            help_section_title(n - 1),
            help_rows_spec(m, f, help_section_rows(n - 1)),
        )
    }
}

/// The text of the keybinding overlay: every section against the live
/// keymap and toggle states, then a blank line and the dismiss hint.
pub open spec fn help_overlay_spec(m: Map<KeySpec, Action>, f: ToggleFlags) -> Seq<Seq<(HelpStyle, Seq<char>)>> {
    help_sections_spec(m, f, HELP_SECTIONS as int) + seq![
        Seq::empty(),
        seq![(HelpStyle::Hint, " j/k scroll · ? / Esc / q / Enter / Space  dismiss this help"@)],
    ]
}

pub open spec fn line_view(l: Seq<(HelpStyle, String)>) -> Seq<(HelpStyle, Seq<char>)> {
    l.map_values(|p: (HelpStyle, String)| (p.0, p.1@))
}

pub open spec fn lines_view(ls: Seq<HelpLine>) -> Seq<Seq<(HelpStyle, Seq<char>)>> {
    ls.map_values(|l: HelpLine| line_view(l@))
}

/// `n` spaces, as a string.
pub(crate) fn space_string(n: usize) -> (r: String)
    ensures
        r@ == spaces(n as nat),
{
    let mut out = String::new();
    let mut i: usize = 0;
    while i < n
        invariant
            0 <= i <= n,
            out@ == spaces(i as nat),
        decreases n - i,
    {
        out.push(' ');
        proof {
            assert(out@ =~= spaces((i + 1) as nat));
        }
        i = i + 1;
    }
    out
}

/// The number of characters of a string.
fn char_count(s: &str) -> (n: usize)
    ensures
        n == s@.len(),
{
    str_chars(s).len()
}

fn one_span(style: HelpStyle, text: String) -> (l: HelpLine)
    ensures
        line_view(l@) == seq![(style, text@)],
{
    let mut l: HelpLine = Vec::new();
    l.push((style, text));
    proof {
        assert(line_view(l@) =~= seq![(style, text@)]);
    }
    l
}

fn two_spans(s1: HelpStyle, t1: String, s2: HelpStyle, t2: String) -> (l: HelpLine)
    ensures
        line_view(l@) == seq![(s1, t1@), (s2, t2@)],
{
    let mut l: HelpLine = Vec::new();
    l.push((s1, t1));
    l.push((s2, t2));
    proof {
        assert(line_view(l@) =~= seq![(s1, t1@), (s2, t2@)]);
    }
    l
}

/// Append a titled group of help rows to `lines`.
fn push_help_section(lines: &mut Vec<HelpLine>, title: &str, rows: &Vec<(String, String)>)
    ensures
        lines_view(final(lines)@) == lines_view(old(lines)@) + section_lines(title@, pair_views(rows@)),
{
    let ghost rv = pair_views(rows@);
    let mut widest: usize = 0;
    let mut i: usize = 0;
    proof {
        assert(rv.subrange(0, 0) =~= Seq::<(Seq<char>, Seq<char>)>::empty());
    }
    while i < rows.len()
        invariant
            0 <= i <= rows.len(),
            rv == pair_views(rows@),
            widest == widest_key(rv.subrange(0, i as int)),
        decreases rows.len() - i,
    {
        proof {
            assert(rv.subrange(0, i + 1).drop_last() =~= rv.subrange(0, i as int));
            assert(rv.subrange(0, i + 1).last() == rv[i as int]);
        }
        let n = char_count(rows[i].0.as_str());
        if n > widest {
            widest = n;
        }
        i = i + 1;
    }
    proof {
        assert(rv.subrange(0, rv.len() as int) =~= rv);
    }
    let key_w: usize = if widest < 16 {
        16
    } else if widest > 24 {
        24
    } else {
        widest
    };
    let ghost start = lines_view(lines@);
    let mut head = owned(" ");
    head.append(title);
    let l = one_span(HelpStyle::Head, head);
    lines.push(l);
    proof {
        assert(lines_view(lines@) =~= start + seq![seq![(HelpStyle::Head, " "@ + title@)]]);
    }
    let ghost top = lines_view(lines@);
    let mut j: usize = 0;
    proof {
        assert(top + row_lines(rv.subrange(0, 0), key_w as nat) =~= top);
    }
    while j < rows.len()
        invariant
            0 <= j <= rows.len(),
            rv == pair_views(rows@),
            16 <= key_w <= 24,
            lines_view(lines@) == top + row_lines(rv.subrange(0, j as int), key_w as nat),
        decreases rows.len() - j,
    {
        proof {
            assert(rv.subrange(0, j + 1).drop_last() =~= rv.subrange(0, j as int));
            assert(rv.subrange(0, j + 1).last() == rv[j as int]);
        }
        let ghost before = lines_view(lines@);
        let k = rows[j].0.as_str();
        let d = rows[j].1.as_str();
        let n = char_count(k);
        if n > key_w {
            let mut kt = owned("  ");
            kt.append(k);
            let l1 = one_span(HelpStyle::Key, kt);
            lines.push(l1);
            let l2 = two_spans(HelpStyle::Plain, space_string(key_w + 3), HelpStyle::Dim, owned(d));
            lines.push(l2);
            proof {
                assert(lines_view(lines@) =~= before + seq![
                    seq![(HelpStyle::Key, "  "@ + k@)],
                    seq![(HelpStyle::Plain, spaces((key_w + 3) as nat)), (HelpStyle::Dim, d@)],
                ]);
            }
        } else {
            let mut kt = owned("  ");
            kt.append(k);
            let pad = space_string(key_w - n);
            kt.append(pad.as_str());
            kt.append(" ");
            let l = two_spans(HelpStyle::Key, kt, HelpStyle::Dim, owned(d));
            lines.push(l);
            proof {
                assert(lines_view(lines@) =~= before + seq![
                    seq![
                        (HelpStyle::Key, "  "@ + k@ + spaces((key_w - n) as nat) + " "@),
                        (HelpStyle::Dim, d@),
                    ],
                ]);
            }
        }
        j = j + 1;
    }
    let blank: HelpLine = Vec::new();
    let ghost mid = lines_view(lines@);
    lines.push(blank);
    proof {
        assert(line_view(blank@) =~= Seq::<(HelpStyle, Seq<char>)>::empty());
        assert(lines_view(lines@) =~= mid.push(Seq::empty()));
        assert(rv.subrange(0, rows@.len() as int) =~= rv);
        assert(lines_view(lines@) =~= start + section_lines(title@, rv));
    }
}

/// The text of the keybinding overlay, line by line and styled piece by
/// piece: every section's rows against the live keymap and toggle states
/// (unbound actions omitted), then a blank line and the dismiss hint.
pub fn help_overlay_lines(keymap: &Keymap, flags: &ToggleFlags) -> (r: Vec<HelpLine>)
    ensures
        lines_view(r@) == help_overlay_spec(keymap@, *flags),
{
    let mut lines: Vec<HelpLine> = Vec::new();
    let mut i: usize = 0;
    proof {
        assert(lines_view(lines@) =~= help_sections_spec(keymap@, *flags, 0));
    }
    while i < HELP_SECTIONS
        invariant
            0 <= i <= HELP_SECTIONS,
            lines_view(lines@) == help_sections_spec(keymap@, *flags, i as int),
        decreases HELP_SECTIONS - i,
    {
        let rows = section_rows(i);
        let cells = help_rows(keymap, flags, rows.as_slice());
        push_help_section(&mut lines, section_title(i), &cells);
        i = i + 1;
    }
    let ghost body = lines_view(lines@);
    let blank: HelpLine = Vec::new();
    lines.push(blank);
    let hint = one_span(
        HelpStyle::Hint,
        owned(" j/k scroll · ? / Esc / q / Enter / Space  dismiss this help"),
    );
    lines.push(hint);
    proof {
        assert(line_view(blank@) =~= Seq::<(HelpStyle, Seq<char>)>::empty());
        assert(lines_view(lines@) =~= help_overlay_spec(keymap@, *flags));
    }
    lines
}

/// The pieces one styled run splits into for a marked char range
/// `[lo, hi)` (0-based), the run starting at char `at`: up to three pieces,
/// each flagged when it lies inside the range. A run that misses the range,
/// or is empty, stays whole and unflagged.
pub open spec fn run_pieces<S>(st: S, text: Seq<char>, lo: nat, hi: nat, at: nat) -> Seq<(S, bool, Seq<char>)> {
    let len = text.len();
    if at + len <= lo || at >= hi || len == 0 {
        seq![(st, false, text)]
    } else {
        let ilo = (if lo > at { lo } else { at }) - at;
        let ihi = (if hi < at + len { hi } else { at + len }) - at;
        (if ilo > 0 {
            seq![(st, false, text.subrange(0, ilo))]
        } else {
            Seq::empty()
        }) + (if ihi > ilo {
            seq![(st, true, text.subrange(ilo, ihi))]
        } else {
            Seq::empty()
        }) + (if len > ihi {
            seq![(st, false, text.subrange(ihi, len as int))]
        } else {
            Seq::empty()
        })
    }
}

/// The pieces of the runs from char `at` on.
pub open spec fn overlay_pieces<S>(runs: Seq<(S, Seq<char>)>, lo: nat, hi: nat, at: nat) -> Seq<(S, bool, Seq<char>)>
    decreases runs.len(),
{
    if runs.len() == 0 {
        Seq::empty()
    } else {
        run_pieces(runs[0].0, runs[0].1, lo, hi, at) + overlay_pieces(
            runs.drop_first(),
            lo,
            hi,
            at + runs[0].1.len(),
        )
    }
}

/// The 0-based half-open range a 1-based `[start, end)` mark covers.
pub open spec fn mark_bounds(start: nat, end: nat) -> (nat, nat) {
    let lo = if start >= 1 { (start - 1) as nat } else { 0 };
    let e = if end >= 1 { (end - 1) as nat } else { 0 };
    (lo, if e > lo { e } else { lo })
}

/// The number of characters of all the runs.
pub open spec fn total_chars<S>(runs: Seq<(S, Seq<char>)>) -> nat
    decreases runs.len(),
{
    if runs.len() == 0 {
        0
    } else {
        runs[0].1.len() + total_chars(runs.drop_first())
    }
}

pub open spec fn runs_view<S>(runs: Seq<(S, String)>) -> Seq<(S, Seq<char>)> {
    runs.map_values(|r: (S, String)| (r.0, r.1@))
}

pub open spec fn pieces_view<S>(p: Seq<(S, bool, String)>) -> Seq<(S, bool, Seq<char>)> {
    p.map_values(|r: (S, bool, String)| (r.0, r.1, r.2@))
}

/// The characters `cs[a..b]` as a string.
fn chars_range(cs: &Vec<char>, a: usize, b: usize) -> (r: String)
    requires
        a <= b <= cs.len(),
    ensures
        r@ == cs@.subrange(a as int, b as int),
{
    let mut out = String::new();
    let mut k: usize = a;
    while k < b
        invariant
            a <= k <= b,
            b <= cs.len(),
            out@ == cs@.subrange(a as int, k as int),
        decreases b - k,
    {
        out.push(cs[k]);
        proof {
            assert(out@ =~= cs@.subrange(a as int, k + 1));
        }
        k = k + 1;
    }
    out
}

/// Split styled runs so the char range `[start, end)` (1-based, `end`
/// exclusive) is its own pieces, flagged for the mark's style; chars outside
/// the range keep their run's style unflagged, so syntax colors stay
/// visible around the mark. Multiple marks compose by calling this once per
/// mark (the caller patches the flagged pieces' style).
pub fn overlay_runs_with_range<S: Copy>(runs: &Vec<(S, String)>, start: usize, end: usize) -> (r: Vec<(S, bool, String)>)
    requires
        total_chars(runs_view(runs@)) <= usize::MAX,
    ensures
        pieces_view(r@) == overlay_pieces(
            runs_view(runs@),
            mark_bounds(start as nat, end as nat).0,
            mark_bounds(start as nat, end as nat).1,
            0,
        ),
{
    let lo: usize = if start >= 1 { start - 1 } else { 0 };
    let e: usize = if end >= 1 { end - 1 } else { 0 };
    let hi: usize = if e > lo { e } else { lo };
    let ghost rv = runs_view(runs@);
    let mut out: Vec<(S, bool, String)> = Vec::new();
    let mut cursor: usize = 0;
    let mut i: usize = 0;
    proof {
        assert(rv.subrange(0, rv.len() as int) =~= rv);
        assert(pieces_view(out@) =~= Seq::<(S, bool, Seq<char>)>::empty());
    }
    while i < runs.len()
        invariant
            0 <= i <= runs.len(),
            rv == runs_view(runs@),
            lo as nat == mark_bounds(start as nat, end as nat).0,
            hi as nat == mark_bounds(start as nat, end as nat).1,
            overlay_pieces(rv, lo as nat, hi as nat, 0) == pieces_view(out@) + overlay_pieces(
                rv.subrange(i as int, rv.len() as int),
                lo as nat,
                hi as nat,
                cursor as nat,
            ),
            cursor + total_chars(rv.subrange(i as int, rv.len() as int)) == total_chars(rv),
            total_chars(rv) <= usize::MAX,
        decreases runs.len() - i,
    {
        let st = runs[i].0;
        let text = runs[i].1.as_str();
        let chars = str_chars(text);
        let len = chars.len();
        let ghost rest = rv.subrange(i as int, rv.len() as int);
        proof {
            assert(rest[0] == (st, text@));
            assert(rest.drop_first() =~= rv.subrange(i + 1, rv.len() as int));
        }
        let run_lo = cursor;
        let run_hi = cursor + len;
        let ghost before = pieces_view(out@);
        if run_hi <= lo || run_lo >= hi || len == 0 {
            out.push((st, false, runs[i].1.clone()));
            proof {
                assert(pieces_view(out@) =~= before + run_pieces(st, text@, lo as nat, hi as nat, cursor as nat));
            }
        } else {
            let inter_lo = (if lo > run_lo { lo } else { run_lo }) - run_lo;
            let inter_hi = (if hi < run_hi { hi } else { run_hi }) - run_lo;
            if inter_lo > 0 {
                out.push((st, false, chars_range(&chars, 0, inter_lo)));
            }
            let ghost mid1 = pieces_view(out@);
            if inter_hi > inter_lo {
                out.push((st, true, chars_range(&chars, inter_lo, inter_hi)));
            }
            let ghost mid2 = pieces_view(out@);
            if len > inter_hi {
                out.push((st, false, chars_range(&chars, inter_hi, len)));
            }
            proof {
                let p1 = if inter_lo > 0 {
                    seq![(st, false, text@.subrange(0, inter_lo as int))]
                } else {
                    Seq::empty()
                };
                let p2 = if inter_hi > inter_lo {
                    seq![(st, true, text@.subrange(inter_lo as int, inter_hi as int))]
                } else {
                    Seq::empty()
                };
                let p3 = if len > inter_hi {
                    seq![(st, false, text@.subrange(inter_hi as int, len as int))]
                } else {
                    Seq::empty()
                };
                assert(mid1 =~= before + p1);
                assert(mid2 =~= before + p1 + p2);
                assert(pieces_view(out@) =~= before + p1 + p2 + p3);
                assert(run_pieces(st, text@, lo as nat, hi as nat, cursor as nat) =~= p1 + p2 + p3);
            }
        }
        proof {
            assert(pieces_view(out@) + overlay_pieces(rest.drop_first(), lo as nat, hi as nat, run_hi as nat)
                =~= before + overlay_pieces(rest, lo as nat, hi as nat, cursor as nat));
        }
        cursor = run_hi;
        i = i + 1;
    }
    proof {
        assert(rv.subrange(runs@.len() as int, rv.len() as int) =~= Seq::<(S, Seq<char>)>::empty());
        assert(pieces_view(out@) + Seq::<(S, bool, Seq<char>)>::empty() =~= pieces_view(out@));
    }
    out
}

/// The text of a list of runs, in order.
pub open spec fn run_text<S>(runs: Seq<(S, Seq<char>)>) -> Seq<char>
    decreases runs.len(),
{
    if runs.len() == 0 {
        Seq::empty()
    } else {
        runs[0].1 + run_text(runs.drop_first())
    }
}

/// The text of a list of pieces, in order.
pub open spec fn piece_text<S>(p: Seq<(S, bool, Seq<char>)>) -> Seq<char>
    decreases p.len(),
{
    if p.len() == 0 {
        Seq::empty()
    } else {
        p[0].2 + piece_text(p.drop_first())
    }
}

pub proof fn lemma_piece_text_concat<S>(a: Seq<(S, bool, Seq<char>)>, b: Seq<(S, bool, Seq<char>)>)
    ensures
        piece_text(a + b) == piece_text(a) + piece_text(b),
    decreases a.len(),
{
    if a.len() == 0 {
        assert(a + b =~= b);
        assert(Seq::<char>::empty() + piece_text(b) =~= piece_text(b));
    } else {
        assert((a + b).drop_first() =~= a.drop_first() + b);
        lemma_piece_text_concat(a.drop_first(), b);
        assert(piece_text(a) + piece_text(b) =~= a[0].2 + (piece_text(a.drop_first()) + piece_text(b)));
    }
}

pub proof fn lemma_piece_text_one<S>(x: (S, bool, Seq<char>))
    ensures
        piece_text(seq![x]) == x.2,
{
    let e = seq![x].drop_first();
    assert(e.len() == 0);
    assert(piece_text(e) == Seq::<char>::empty());
    assert(seq![x][0] == x);
    assert(x.2 + Seq::<char>::empty() =~= x.2);
}

/// Marking a range never changes the text: the pieces spell out exactly
/// the runs' text.
pub proof fn law_overlay_keeps_text<S>(runs: Seq<(S, Seq<char>)>, lo: nat, hi: nat, at: nat)
    requires
        lo <= hi,
    ensures
        piece_text(overlay_pieces(runs, lo, hi, at)) == run_text(runs),
    decreases runs.len(),
{
    if runs.len() > 0 {
        let (st, text) = runs[0];
        let here = run_pieces(st, text, lo, hi, at);
        law_overlay_keeps_text(runs.drop_first(), lo, hi, at + text.len());
        lemma_piece_text_concat(here, overlay_pieces(runs.drop_first(), lo, hi, at + text.len()));
        let len = text.len();
        if at + len <= lo || at >= hi || len == 0 {
            lemma_piece_text_one((st, false, text));
        } else {
            let ilo = (if lo > at { lo } else { at }) - at;
            let ihi = (if hi < at + len { hi } else { at + len }) - at;
            let p1: Seq<(S, bool, Seq<char>)> = if ilo > 0 {
                seq![(st, false, text.subrange(0, ilo))]
            } else {
                Seq::empty()
            };
            let p2: Seq<(S, bool, Seq<char>)> = if ihi > ilo {
                seq![(st, true, text.subrange(ilo, ihi))]
            } else {
                Seq::empty()
            };
            let p3: Seq<(S, bool, Seq<char>)> = if len > ihi {
                seq![(st, false, text.subrange(ihi, len as int))]
            } else {
                Seq::empty()
            };
            assert(here == p1 + p2 + p3);
            lemma_piece_text_concat(p1 + p2, p3);
            lemma_piece_text_concat(p1, p2);
            if ilo > 0 {
                lemma_piece_text_one((st, false, text.subrange(0, ilo)));
            } else {
                assert(piece_text(p1) =~= text.subrange(0, ilo));
            }
            if ihi > ilo {
                lemma_piece_text_one((st, true, text.subrange(ilo, ihi)));
            } else {
                assert(piece_text(p2) =~= text.subrange(ilo, ihi));
            }
            if len > ihi {
                lemma_piece_text_one((st, false, text.subrange(ihi, len as int)));
            } else {
                assert(piece_text(p3) =~= text.subrange(ihi, len as int));
            }
            assert(piece_text(here) =~= text);
        }
    }
}

/// The background and foreground of an attention-mark tone, as theme slots:
/// `danger`, `info` and `accent` fill with the delete, hunk-header and add
/// colors under the on-accent ink; `warning` and anything else use the
/// active-match gold and its ink.
pub open spec fn tone_colors_spec(theme: Theme, tone: Seq<char>) -> (Rgb, Rgb) {
    if tone == "danger"@ {
        (theme.delete, theme.on_accent)
    } else if tone == "info"@ {
        (theme.hunk_header, theme.on_accent)
    } else if tone == "accent"@ {
        (theme.add, theme.on_accent)
    } else {
        (theme.match_active_bg, theme.match_active_fg)
    }
}

/// The (background, foreground) colors of an attention-mark tone; the mark
/// is drawn underlined in them.
pub fn tone_overlay(theme: &Theme, tone: &str) -> (r: (Rgb, Rgb))
    ensures
        r == tone_colors_spec(*theme, tone@),
{
    if str_eq(tone, "danger") {
        (theme.delete, theme.on_accent)
    } else if str_eq(tone, "info") {
        (theme.hunk_header, theme.on_accent)
    } else if str_eq(tone, "accent") {
        (theme.add, theme.on_accent)
    } else {
        (theme.match_active_bg, theme.match_active_fg)
    }
}

/// The columns a list of characters takes, each as [`truncate_to_width`]
/// counts it.
pub open spec fn cols_sum(cs: Seq<char>) -> nat
    decreases cs.len(),
{
    if cs.len() == 0 {
        0
    } else {
        char_cols(cs[0]) + cols_sum(cs.drop_first())
    }
}

/// The columns a list of characters takes, each as a one-character string.
pub open spec fn str_cols_sum(cs: Seq<char>) -> nat
    decreases cs.len(),
{
    if cs.len() == 0 {
        0
    } else {
        str_cols_sum(cs.drop_last()) + char_str_cols(cs.last())
    }
}

/// What [`truncate_to_width`] keeps of a string is a prefix of it that fits
/// the budget.
pub proof fn law_fit_prefix_fits(cs: Seq<char>, budget: nat)
    ensures
        fit_prefix(cs, budget).len() <= cs.len(),
        fit_prefix(cs, budget) == cs.subrange(0, fit_prefix(cs, budget).len() as int),
        cols_sum(fit_prefix(cs, budget)) <= budget,
    decreases cs.len(),
{
    if cs.len() > 0 && char_cols(cs[0]) <= budget {
        let rest = cs.drop_first();
        let b = (budget - char_cols(cs[0])) as nat;
        law_fit_prefix_fits(rest, b);
        let f = fit_prefix(cs, budget);
        assert(f == seq![cs[0]] + fit_prefix(rest, b));
        assert(f.drop_first() =~= fit_prefix(rest, b));
        assert(f =~= cs.subrange(0, f.len() as int));
    } else if cs.len() > 0 {
        assert(fit_prefix(cs, budget) =~= cs.subrange(0, 0));
    }
}

/// What [`truncate_tail_width`] keeps of a string is a suffix of it that
/// fits the budget.
pub proof fn law_fit_suffix_fits(cs: Seq<char>, budget: nat)
    ensures
        fit_suffix(cs, budget).len() <= cs.len(),
        fit_suffix(cs, budget) == cs.subrange(
            cs.len() - fit_suffix(cs, budget).len(),
            cs.len() as int,
        ),
        str_cols_sum(fit_suffix(cs, budget)) <= budget,
    decreases cs.len(),
{
    if cs.len() > 0 && char_str_cols(cs.last()) <= budget {
        let rest = cs.drop_last();
        let b = (budget - char_str_cols(cs.last())) as nat;
        law_fit_suffix_fits(rest, b);
        let f = fit_suffix(cs, budget);
        assert(f == fit_suffix(rest, b).push(cs.last()));
        assert(f.drop_last() =~= fit_suffix(rest, b));
        assert(f =~= cs.subrange(cs.len() - f.len(), cs.len() as int));
    } else if cs.len() > 0 {
        assert(fit_suffix(cs, budget) =~= cs.subrange(cs.len() as int, cs.len() as int));
    }
}

/// Tab expansion leaves no tab, and the rendered text is exactly as long as
/// the column it reaches.
pub proof fn law_expansion_has_no_tabs(cs: Seq<char>, tw: nat)
    requires
        tw > 0,
    ensures
        !expand_seq(cs, tw).contains('\t'),
        expand_seq(cs, tw).len() == tab_col(cs, tw),
    decreases cs.len(),
{
    lemma_tab_col_bound(cs, tw);
    if cs.len() > 0 {
        let d = cs.drop_last();
        law_expansion_has_no_tabs(d, tw);
        let e = expand_seq(cs, tw);
        let pe = expand_seq(d, tw);
        if e.contains('\t') {
            let i = choose|i: int| 0 <= i < e.len() && e[i] == '\t';
            if i < pe.len() {
                assert(pe[i] == '\t');
            }
        }
    }
}

proof fn lemma_expand_prefix(cs: Seq<char>, tw: nat, i: int)
    requires
        tw > 0,
        0 <= i <= cs.len(),
    ensures
        expand_seq(cs.subrange(0, i), tw).len() <= expand_seq(cs, tw).len(),
        expand_seq(cs, tw).subrange(0, expand_seq(cs.subrange(0, i), tw).len() as int) == expand_seq(
            cs.subrange(0, i),
            tw,
        ),
    decreases cs.len() - i,
{
    if i == cs.len() {
        assert(cs.subrange(0, i) =~= cs);
        assert(expand_seq(cs, tw).subrange(0, expand_seq(cs, tw).len() as int) =~= expand_seq(cs, tw));
    } else {
        let d = cs.drop_last();
        assert(d.subrange(0, i) =~= cs.subrange(0, i));
        lemma_expand_prefix(d, tw, i);
        let pe = expand_seq(d, tw);
        let e = expand_seq(cs, tw);
        let k = expand_seq(cs.subrange(0, i), tw).len() as int;
        assert(pe.len() <= e.len());
        assert(e.subrange(0, pe.len() as int) =~= pe);
        assert(e.subrange(0, k) =~= pe.subrange(0, k));
    }
}

/// A raw character position maps to the rendered column where that
/// character's expansion begins: the rendered text up to that column is
/// the expansion of the raw text before the character.
pub proof fn law_raw_column_maps_to_expansion(cs: Seq<char>, tw: nat, i: int)
    requires
        tw > 0,
        0 <= i <= cs.len(),
    ensures
        tab_col(cs.subrange(0, i), tw) <= expand_seq(cs, tw).len(),
        expand_seq(cs, tw).subrange(0, tab_col(cs.subrange(0, i), tw) as int) == expand_seq(
            cs.subrange(0, i),
            tw,
        ),
{
    lemma_tab_col_bound(cs.subrange(0, i), tw);
    lemma_expand_prefix(cs, tw, i);
}

/// The key shown for an action in the hint line: its first key, or its name
/// when it has none (still discoverable, never blank).
pub open spec fn first_key(m: Map<KeySpec, Action>, a: Action) -> Seq<char> {
    let ks = keys_for_spec(m, a);
    if ks.len() > 0 {
        ks[0]
    } else {
        action_name(a)
    }
}

/// The number of hints in the hint line.
pub open spec fn hint_count(select_mode: bool) -> nat {
    if select_mode {
        9
    } else {
        21
    }
}

/// The `i`th hint of the hint line: its actions and label. In `--select`
/// mode the decision keys lead.
pub open spec fn hint_item_at(select_mode: bool, i: int) -> (Seq<Action>, Seq<char>) {
    if select_mode {
        if i == 0 {
            (seq![Action::AcceptHunk], "accept"@)
        } else if i == 1 {
            (seq![Action::RejectHunk], "reject"@)
        } else if i == 2 {
            (seq![Action::UndecideHunk], "undecided"@)
        } else if i == 3 {
            (seq![Action::NextHunk, Action::PrevHunk], "hunk"@)
        } else if i == 4 {
            (seq![Action::CursorDown, Action::CursorUp], "cursor"@)
        } else if i == 5 {
            (seq![Action::ComposeNote], "note"@)
        } else if i == 6 {
            (seq![Action::Search], "search"@)
        } else if i == 7 {
            (seq![Action::Help], "help"@)
        } else {
            (seq![Action::Quit], "quit"@)
        }
    } else {
        if i == 0 {
            (seq![Action::CursorDown, Action::CursorUp], "cursor"@)
        } else if i == 1 {
            (seq![Action::HalfPageDown, Action::HalfPageUp], "half-page"@)
        } else if i == 2 {
            (seq![Action::GotoTop, Action::GotoBottom], "top/bottom"@)
        } else if i == 3 {
            (seq![Action::NextHunk, Action::PrevHunk], "hunk"@)
        } else if i == 4 {
            (seq![Action::NextNote, Action::PrevNote], "note"@)
        } else if i == 5 {
            (seq![Action::ComposeNote], "note here"@)
        } else if i == 6 {
            (seq![Action::FoldFile, Action::UnfoldFile], "fold"@)
        } else if i == 7 {
            (seq![Action::ToggleContextCollapse], "ctx"@)
        } else if i == 8 {
            (seq![Action::NextFile], "file"@)
        } else if i == 9 {
            (seq![Action::ToggleRail], "rail"@)
        } else if i == 10 {
            (seq![Action::Search], "search"@)
        } else if i == 11 {
            (seq![Action::FilterPaths], "filter"@)
        } else if i == 12 {
            (seq![Action::OpenEditor], "open"@)
        } else if i == 13 {
            (seq![Action::ToggleHighlight], "hl"@)
        } else if i == 14 {
            (seq![Action::ToggleLineNumbers], "lines"@)
        } else if i == 15 {
            (seq![Action::ToggleWordDiff], "word"@)
        } else if i == 16 {
            (seq![Action::ToggleIgnoreWhitespace], "ws"@)
        } else if i == 17 {
            (seq![Action::ToggleWrap], "wrap"@)
        } else if i == 18 {
            (seq![Action::CycleThemeMode], "theme"@)
        } else if i == 19 {
            (seq![Action::Help], "help"@)
        } else {
            (seq![Action::Quit], "quit"@)
        }
    }
}

/// The actions and labels of the hint line, in order.
pub open spec fn hint_items(select_mode: bool) -> Seq<(Seq<Action>, Seq<char>)> {
    Seq::new(hint_count(select_mode), |i: int| hint_item_at(select_mode, i))
}

pub open spec fn keys_of_actions(m: Map<KeySpec, Action>, acts: Seq<Action>) -> Seq<Seq<char>> {
    acts.map_values(|a: Action| first_key(m, a))
}

/// One hint: the actions' keys joined with `/`, a space, the label.
pub open spec fn hint_item(m: Map<KeySpec, Action>, item: (Seq<Action>, Seq<char>)) -> Seq<char> {
    join_with(keys_of_actions(m, item.0), "/"@) + " "@ + item.1
}

pub open spec fn hint_texts(m: Map<KeySpec, Action>, items: Seq<(Seq<Action>, Seq<char>)>) -> Seq<Seq<char>> {
    items.map_values(|it: (Seq<Action>, Seq<char>)| hint_item(m, it))
}

/// The normal-mode hint line, driven by the live keymap.
pub open spec fn hint_line(m: Map<KeySpec, Action>, select_mode: bool) -> Seq<char> {
    " "@ + join_with(hint_texts(m, hint_items(select_mode)), " · "@) + " "@
}

fn hint_item_exec(select_mode: bool, i: usize) -> (r: (Vec<Action>, &'static str))
    requires
        i < hint_count(select_mode),
    ensures
        (r.0@, r.1@) == hint_item_at(select_mode, i as int),
{
    let r = if select_mode {
        match i {
            0 => (vec![Action::AcceptHunk], "accept"),
            1 => (vec![Action::RejectHunk], "reject"),
            2 => (vec![Action::UndecideHunk], "undecided"),
            3 => (vec![Action::NextHunk, Action::PrevHunk], "hunk"),
            4 => (vec![Action::CursorDown, Action::CursorUp], "cursor"),
            5 => (vec![Action::ComposeNote], "note"),
            6 => (vec![Action::Search], "search"),
            7 => (vec![Action::Help], "help"),
            _ => (vec![Action::Quit], "quit"),
        }
    } else {
        match i {
            0 => (vec![Action::CursorDown, Action::CursorUp], "cursor"),
            1 => (vec![Action::HalfPageDown, Action::HalfPageUp], "half-page"),
            2 => (vec![Action::GotoTop, Action::GotoBottom], "top/bottom"),
            3 => (vec![Action::NextHunk, Action::PrevHunk], "hunk"),
            4 => (vec![Action::NextNote, Action::PrevNote], "note"),
            5 => (vec![Action::ComposeNote], "note here"),
            6 => (vec![Action::FoldFile, Action::UnfoldFile], "fold"),
            7 => (vec![Action::ToggleContextCollapse], "ctx"),
            8 => (vec![Action::NextFile], "file"),
            9 => (vec![Action::ToggleRail], "rail"),
            10 => (vec![Action::Search], "search"),
            11 => (vec![Action::FilterPaths], "filter"),
            12 => (vec![Action::OpenEditor], "open"),
            13 => (vec![Action::ToggleHighlight], "hl"),
            14 => (vec![Action::ToggleLineNumbers], "lines"),
            15 => (vec![Action::ToggleWordDiff], "word"),
            16 => (vec![Action::ToggleIgnoreWhitespace], "ws"),
            17 => (vec![Action::ToggleWrap], "wrap"),
            18 => (vec![Action::CycleThemeMode], "theme"),
            19 => (vec![Action::Help], "help"),
            _ => (vec![Action::Quit], "quit"),
        }
    };
    proof {
        assert(r.0@ =~= hint_item_at(select_mode, i as int).0);
    }
    r
}

fn first_key_of(keymap: &Keymap, a: Action) -> (r: String)
    ensures
        r@ == first_key(keymap@, a),
{
    let ks = keymap.keys_for(a);
    if ks.len() > 0 {
        ks[0].clone()
    } else {
        owned(a.name())
    }
}

fn hint_item_text(keymap: &Keymap, acts: &Vec<Action>, label: &str) -> (r: String)
    ensures
        r@ == hint_item(keymap@, (acts@, label@)),
{
    let mut keys: Vec<String> = Vec::new();
    let mut i: usize = 0;
    proof {
        assert(string_views(keys@) =~= keys_of_actions(keymap@, acts@.subrange(0, 0)));
    }
    while i < acts.len()
        invariant
            0 <= i <= acts.len(),
            string_views(keys@) == keys_of_actions(keymap@, acts@.subrange(0, i as int)),
        decreases acts.len() - i,
    {
        let ghost before = string_views(keys@);
        let k = first_key_of(keymap, acts[i]);
        keys.push(k);
        proof {
            assert(string_views(keys@) =~= before.push(k@));
            assert(keys_of_actions(keymap@, acts@.subrange(0, i + 1)) =~= keys_of_actions(
                keymap@,
                acts@.subrange(0, i as int),
            ).push(first_key(keymap@, acts@[i as int])));
        }
        i = i + 1;
    }
    proof {
        assert(acts@.subrange(0, acts@.len() as int) =~= acts@);
    }
    let mut out = if keys.len() > 0 {
        join_strings(&keys, "/")
    } else {
        proof {
            assert(string_views(keys@) =~= Seq::<Seq<char>>::empty());
        }
        String::new()
    };
    out.append(" ");
    out.append(label);
    out
}

/// The normal-mode hint line: the live first key of each action.
pub fn hint_line_text(keymap: &Keymap, select_mode: bool) -> (r: String)
    ensures
        r@ == hint_line(keymap@, select_mode),
{
    let n: usize = if select_mode { 9 } else { 21 };
    let ghost items = hint_items(select_mode);
    let mut texts: Vec<String> = Vec::new();
    let mut i: usize = 0;
    proof {
        assert(string_views(texts@) =~= hint_texts(keymap@, items.subrange(0, 0)));
    }
    while i < n
        invariant
            0 <= i <= n,
            n == hint_count(select_mode),
            items == hint_items(select_mode),
            string_views(texts@) == hint_texts(keymap@, items.subrange(0, i as int)),
        decreases n - i,
    {
        let ghost before = string_views(texts@);
        let (acts, label) = hint_item_exec(select_mode, i);
        let t = hint_item_text(keymap, &acts, label);
        texts.push(t);
        proof {
            assert(items[i as int] == (acts@, label@));
            assert(string_views(texts@) =~= before.push(t@));
            assert(hint_texts(keymap@, items.subrange(0, i + 1)) =~= hint_texts(
                keymap@,
                items.subrange(0, i as int),
            ).push(hint_item(keymap@, items[i as int])));
        }
        i = i + 1;
    }
    proof {
        assert(items.subrange(0, n as int) =~= items);
    }
    let mut out = owned(" ");
    let body = join_strings(&texts, " · ");
    out.append(body.as_str());
    out.append(" ");
    out
}

/// A draft split at the prompt cursor (clamped to the draft's length).
pub open spec fn caret_split(d: Seq<char>, cursor: nat) -> (Seq<char>, Seq<char>) {
    let c = if cursor < d.len() { cursor } else { d.len() };
    (d.subrange(0, c as int), d.subrange(c as int, d.len() as int))
}

/// The live feedback of an incremental search while typing.
pub open spec fn search_live(query: Seq<char>, n_matches: nat, current: nat) -> Seq<char> {
    if trim_seq(query).len() == 0 {
        Seq::empty()
    } else if n_matches == 0 {
        " · no match"@
    } else {
        " · match "@ + decimal(current + 1) + "/"@ + decimal(n_matches)
    }
}

/// The bottom line's text: the input prompt of the mode being edited (the
/// draft with a `▌` caret, and what Enter and Esc do), or the keymap-driven
/// hint line in normal mode.
pub open spec fn prompt_text(
    mode: InputMode,
    query: Seq<char>,
    n_matches: nat,
    current: nat,
    path_filter: Seq<char>,
    note_draft: Seq<char>,
    cursor: nat,
    m: Map<KeySpec, Action>,
    select_mode: bool,
) -> Seq<char> {
    match mode {
        InputMode::Search => {
            let (head, tail) = caret_split(query, cursor);
            "/"@ + head + "▌"@ + tail + "  (Enter confirm · Esc cancel · Ctrl-U/W edit"@
                + search_live(query, n_matches, current) + ")"@
        },
        InputMode::Filter => {
            let (head, tail) = caret_split(path_filter, cursor);
            "filter: "@ + head + "▌"@ + tail
                + "  (path substring · Enter confirm · Esc cancel · Ctrl-U/W edit)"@
        },
        InputMode::Note => {
            let (head, tail) = caret_split(note_draft, cursor);
            "note: "@ + head + "▌"@ + tail
                + "  (anchored to the cursor row · Enter save · Esc cancel · Ctrl-U/W edit)"@
        },
        InputMode::Normal => hint_line(m, select_mode),
    }
}

/// `draft` with the `▌` caret at `cursor`, between `before` and `after`.
fn with_caret(before: &str, draft: &str, cursor: usize, after: &str) -> (r: String)
    ensures
        r@ == before@ + caret_split(draft@, cursor as nat).0 + "▌"@ + caret_split(
            draft@,
            cursor as nat,
        ).1 + after@,
{
    let cs = str_chars(draft);
    let c = if cursor < cs.len() { cursor } else { cs.len() };
    let mut out = owned(before);
    let head = chars_range(&cs, 0, c);
    let tail = chars_range(&cs, c, cs.len());
    out.append(head.as_str());
    out.append("▌");
    out.append(tail.as_str());
    out.append(after);
    out
}

fn search_live_text(query: &str, n_matches: usize, current: usize) -> (r: String)
    requires
        current < usize::MAX,
    ensures
        r@ == search_live(query@, n_matches as nat, current as nat),
{
    if str_trim(query).is_empty() {
        String::new()
    } else if n_matches == 0 {
        owned(" · no match")
    } else {
        let mut out = owned(" · match ");
        let a = u64_to_string((current + 1) as u64);
        out.append(a.as_str());
        out.append("/");
        let b = u64_to_string(n_matches as u64);
        out.append(b.as_str());
        out
    }
}

/// Render the bottom line: the input prompt when editing search, filter or
/// note, else the hint line; cut to `width` columns with a trailing `…`.
pub fn help_or_prompt(
    mode: InputMode,
    search: &Search,
    path_filter: &str,
    note_draft: &str,
    prompt_cursor: usize,
    keymap: &Keymap,
    select_mode: bool,
    width: usize,
) -> (r: String)
    requires
        mode == InputMode::Search ==> search.current < usize::MAX,
    ensures
        r@ == truncate_to_width_spec(
            prompt_text(
                mode,
                search.query@,
                search.matches@.len(),
                search.current as nat,
                path_filter@,
                note_draft@,
                prompt_cursor as nat,
                keymap@,
                select_mode,
            ),
            width as nat,
        ),
{
    let content = match mode {
        InputMode::Search => {
            let live = search_live_text(search.query.as_str(), search.matches.len(), search.current);
            let mut after = owned("  (Enter confirm · Esc cancel · Ctrl-U/W edit");
            after.append(live.as_str());
            after.append(")");
            with_caret("/", search.query.as_str(), prompt_cursor, after.as_str())
        },
        InputMode::Filter => with_caret(
            "filter: ",
            path_filter,
            prompt_cursor,
            "  (path substring · Enter confirm · Esc cancel · Ctrl-U/W edit)",
        ),
        InputMode::Note => with_caret(
            "note: ",
            note_draft,
            prompt_cursor,
            "  (anchored to the cursor row · Enter save · Esc cancel · Ctrl-U/W edit)",
        ),
        InputMode::Normal => hint_line_text(keymap, select_mode),
    };
    proof {
        let (head, tail) = caret_split(search.query@, prompt_cursor as nat);
        if mode == InputMode::Search {
            assert(content@ =~= "/"@ + head + "▌"@ + tail + "  (Enter confirm · Esc cancel · Ctrl-U/W edit"@
                + search_live(search.query@, search.matches@.len(), search.current as nat) + ")"@);
        }
    }
    truncate_to_width(content.as_str(), width)
}

/// The pieces of one styled run (starting at char `a`) that fall in each
/// word region (the regions starting at char `c`), in order: the run's style,
/// whether the region is a changed one, and the overlapping text.
pub open spec fn region_pieces<S>(st: S, text: Seq<char>, a: nat, regions: Seq<(bool, Seq<char>)>, c: nat) -> Seq<(S, bool, Seq<char>)>
    decreases regions.len(),
{
    if regions.len() == 0 {
        Seq::empty()
    } else {
        let d = c + regions[0].1.len();
        let lo = if a > c { a } else { c };
        let hi = if a + text.len() < d { a + text.len() } else { d };
        (if lo < hi {
            seq![(st, regions[0].0, text.subrange(lo - a, hi - a))]
        } else {
            Seq::empty()
        }) + region_pieces(st, text, a, regions.drop_first(), d)
    }
}

/// The pieces of the runs from char `a` on, run by run.
pub open spec fn refine_pieces<S>(runs: Seq<(S, Seq<char>)>, a: nat, regions: Seq<(bool, Seq<char>)>) -> Seq<(S, bool, Seq<char>)>
    decreases runs.len(),
{
    if runs.len() == 0 {
        Seq::empty()
    } else {
        region_pieces(runs[0].0, runs[0].1, a, regions, 0) + refine_pieces(
            runs.drop_first(),
            a + runs[0].1.len(),
            regions,
        )
    }
}

/// The runs as unflagged pieces.
pub open spec fn unflagged<S>(runs: Seq<(S, Seq<char>)>) -> Seq<(S, bool, Seq<char>)> {
    runs.map_values(|r: (S, Seq<char>)| (r.0, false, r.1))
}

/// Syntax runs refined by word regions: every non-empty overlap of a run
/// with a region, in text order, flagged when the region is a changed one;
/// when the regions do not cover the runs' text, the runs unchanged and
/// unflagged (never lose content).
pub open spec fn refine_spec<S>(runs: Seq<(S, Seq<char>)>, regions: Seq<(bool, Seq<char>)>) -> Seq<(S, bool, Seq<char>)> {
    if total_chars(regions) < total_chars(runs) {
        unflagged(runs)
    } else {
        refine_pieces(runs, 0, regions)
    }
}

fn count_chars<S>(v: &[(S, String)]) -> (n: usize)
    requires
        total_chars(runs_view(v@)) <= usize::MAX,
    ensures
        n == total_chars(runs_view(v@)),
{
    let ghost rv = runs_view(v@);
    let mut n: usize = 0;
    let mut i: usize = 0;
    proof {
        assert(rv.subrange(0, rv.len() as int) =~= rv);
    }
    while i < v.len()
        invariant
            0 <= i <= v.len(),
            rv == runs_view(v@),
            total_chars(rv) <= usize::MAX,
            n + total_chars(rv.subrange(i as int, rv.len() as int)) == total_chars(rv),
        decreases v.len() - i,
    {
        let ghost rest = rv.subrange(i as int, rv.len() as int);
        proof {
            assert(rest.drop_first() =~= rv.subrange(i + 1, rv.len() as int));
            assert(rest[0].1 == v@[i as int].1@);
        }
        let k = str_chars(v[i].1.as_str()).len();
        n = n + k;
        i = i + 1;
    }
    n
}

/// Refine syntax-highlight runs with word-level change regions: each
/// piece keeps its run's style and is flagged when it falls inside a
/// `Changed` region (the caller emphasizes flagged pieces and merges
/// neighbours that end up with the same style). When the regions do not
/// cover the text the runs come back unchanged, so content is never lost.
pub fn refine_with_word_regions<S: Copy>(hl_runs: &[(S, String)], regions: &[(bool, String)]) -> (r: Vec<(S, bool, String)>)
    requires
        total_chars(runs_view(hl_runs@)) <= usize::MAX,
        total_chars(runs_view(regions@)) <= usize::MAX,
    ensures
        pieces_view(r@) == refine_spec(runs_view(hl_runs@), runs_view(regions@)),
{
    let ghost rv = runs_view(hl_runs@);
    let ghost gv = runs_view(regions@);
    let total = count_chars(hl_runs);
    let total_reg = count_chars(regions);
    let mut out: Vec<(S, bool, String)> = Vec::new();
    if total_reg < total {
        let mut i: usize = 0;
        while i < hl_runs.len()
            invariant
                0 <= i <= hl_runs.len(),
                rv == runs_view(hl_runs@),
                pieces_view(out@) == unflagged(rv.subrange(0, i as int)),
            decreases hl_runs.len() - i,
        {
            let ghost before = pieces_view(out@);
            let t = hl_runs[i].1.clone();
            out.push((hl_runs[i].0, false, t));
            proof {
                assert(rv[i as int] == (hl_runs@[i as int].0, hl_runs@[i as int].1@));
                assert(pieces_view(out@) =~= before.push((hl_runs@[i as int].0, false, t@)));
                assert(unflagged(rv.subrange(0, i + 1)) =~= unflagged(rv.subrange(0, i as int)).push(
                    (rv[i as int].0, false, rv[i as int].1),
                ));
            }
            i = i + 1;
        }
        proof {
            assert(rv.subrange(0, rv.len() as int) =~= rv);
        }
        return out;
    }
    let mut a: usize = 0;
    let mut i: usize = 0;
    proof {
        assert(rv.subrange(0, rv.len() as int) =~= rv);
        assert(pieces_view(out@) + refine_pieces(rv, 0, gv) =~= refine_pieces(rv, 0, gv));
    }
    while i < hl_runs.len()
        invariant
            0 <= i <= hl_runs.len(),
            rv == runs_view(hl_runs@),
            gv == runs_view(regions@),
            total_chars(gv) <= usize::MAX,
            a + total_chars(rv.subrange(i as int, rv.len() as int)) == total_chars(rv),
            total_chars(rv) <= usize::MAX,
            refine_pieces(rv, 0, gv) == pieces_view(out@) + refine_pieces(
                rv.subrange(i as int, rv.len() as int),
                a as nat,
                gv,
            ),
        decreases hl_runs.len() - i,
    {
        let st = hl_runs[i].0;
        let text = hl_runs[i].1.as_str();
        let chars = str_chars(text);
        let len = chars.len();
        let ghost rest = rv.subrange(i as int, rv.len() as int);
        proof {
            assert(rest[0] == (st, text@));
            assert(rest.drop_first() =~= rv.subrange(i + 1, rv.len() as int));
        }
        let b = a + len;
        let ghost run_start = pieces_view(out@);
        let mut c: usize = 0;
        let mut j: usize = 0;
        proof {
            assert(gv.subrange(0, gv.len() as int) =~= gv);
            assert(run_start + region_pieces(st, text@, a as nat, gv, 0) =~= run_start
                + region_pieces(st, text@, a as nat, gv.subrange(0, gv.len() as int), 0));
        }
        while j < regions.len()
            invariant
                0 <= j <= regions.len(),
                gv == runs_view(regions@),
                chars@ == text@,
                len == chars@.len(),
                b == a + len,
                c + total_chars(gv.subrange(j as int, gv.len() as int)) == total_chars(gv),
                total_chars(gv) <= usize::MAX,
                run_start + region_pieces(st, text@, a as nat, gv, 0) == pieces_view(out@)
                    + region_pieces(st, text@, a as nat, gv.subrange(j as int, gv.len() as int), c as nat),
            decreases regions.len() - j,
        {
            let changed = regions[j].0;
            let rlen = str_chars(regions[j].1.as_str()).len();
            let ghost grest = gv.subrange(j as int, gv.len() as int);
            proof {
                assert(grest[0] == (changed, regions@[j as int].1@));
                assert(grest.drop_first() =~= gv.subrange(j + 1, gv.len() as int));
            }
            let d = c + rlen;
            let lo = if a > c { a } else { c };
            let hi = if b < d { b } else { d };
            let ghost before = pieces_view(out@);
            if lo < hi {
                let piece = chars_range(&chars, lo - a, hi - a);
                out.push((st, changed, piece));
                proof {
                    assert(pieces_view(out@) =~= before + seq![(st, changed, text@.subrange(lo - a, hi - a))]);
                }
            }
            proof {
                let here: Seq<(S, bool, Seq<char>)> = if lo < hi {
                    seq![(st, changed, text@.subrange(lo - a, hi - a))]
                } else {
                    Seq::empty()
                };
                assert(pieces_view(out@) =~= before + here);
                assert(region_pieces(st, text@, a as nat, grest, c as nat) =~= here + region_pieces(
                    st,
                    text@,
                    a as nat,
                    grest.drop_first(),
                    d as nat,
                ));
                assert(before + (here + region_pieces(st, text@, a as nat, grest.drop_first(), d as nat))
                    =~= pieces_view(out@) + region_pieces(st, text@, a as nat, grest.drop_first(), d as nat));
            }
            c = d;
            j = j + 1;
        }
        proof {
            assert(gv.subrange(regions@.len() as int, gv.len() as int) =~= Seq::<(bool, Seq<char>)>::empty());
            assert(pieces_view(out@) + Seq::<(S, bool, Seq<char>)>::empty() =~= pieces_view(out@));
            assert(refine_pieces(rest, a as nat, gv) == region_pieces(st, text@, a as nat, gv, 0)
                + refine_pieces(rest.drop_first(), b as nat, gv));
            assert(run_start + (region_pieces(st, text@, a as nat, gv, 0) + refine_pieces(
                rest.drop_first(),
                b as nat,
                gv,
            )) =~= pieces_view(out@) + refine_pieces(rest.drop_first(), b as nat, gv));
        }
        a = b;
        i = i + 1;
    }
    proof {
        assert(rv.subrange(hl_runs@.len() as int, rv.len() as int) =~= Seq::<(S, Seq<char>)>::empty());
        assert(pieces_view(out@) + Seq::<(S, bool, Seq<char>)>::empty() =~= pieces_view(out@));
    }
    out
}

/// `x` clamped into `[0, n]`.
pub open spec fn clamp_to(x: int, n: int) -> int {
    if x < 0 {
        0
    } else if x > n {
        n
    } else {
        x
    }
}

proof fn lemma_region_pieces_text<S>(st: S, text: Seq<char>, a: nat, regions: Seq<(bool, Seq<char>)>, c: nat)
    ensures
        piece_text(region_pieces(st, text, a, regions, c)) == text.subrange(
            clamp_to(c - a, text.len() as int),
            max_int(
                clamp_to(c - a, text.len() as int),
                clamp_to(c + total_chars(regions) - a, text.len() as int),
            ),
        ),
    decreases regions.len(),
{
    let n = text.len() as int;
    if regions.len() == 0 {
        assert(text.subrange(clamp_to(c - a, n), clamp_to(c - a, n)) =~= Seq::<char>::empty());
    } else {
        let d = c + regions[0].1.len();
        let lo = if a > c { a } else { c };
        let hi = if a + text.len() < d { a + text.len() } else { d };
        let here: Seq<(S, bool, Seq<char>)> = if lo < hi {
            seq![(st, regions[0].0, text.subrange(lo - a, hi - a))]
        } else {
            Seq::empty()
        };
        let rest = region_pieces(st, text, a, regions.drop_first(), d);
        lemma_region_pieces_text(st, text, a, regions.drop_first(), d);
        lemma_piece_text_concat(here, rest);
        assert(region_pieces(st, text, a, regions, c) == here + rest);
        let x0 = clamp_to(c - a, n);
        let x1 = clamp_to(d - a, n);
        let x2 = clamp_to(c + total_chars(regions) - a, n);
        assert(total_chars(regions) == regions[0].1.len() + total_chars(regions.drop_first()));
        if lo < hi {
            lemma_piece_text_one((st, regions[0].0, text.subrange(lo - a, hi - a)));
            assert(lo - a == x0 && hi - a == x1);
        } else {
            assert(piece_text(here) =~= Seq::<char>::empty());
            assert(x1 <= x0);
        }
        assert(piece_text(here) + text.subrange(x1, max_int(x1, x2)) =~= text.subrange(
            x0,
            max_int(x0, x2),
        ));
    }
}

proof fn lemma_refine_pieces_text<S>(runs: Seq<(S, Seq<char>)>, a: nat, regions: Seq<(bool, Seq<char>)>)
    requires
        a + total_chars(runs) <= total_chars(regions),
    ensures
        piece_text(refine_pieces(runs, a, regions)) == run_text(runs),
    decreases runs.len(),
{
    if runs.len() > 0 {
        let (st, text) = runs[0];
        lemma_region_pieces_text(st, text, a, regions, 0);
        lemma_refine_pieces_text(runs.drop_first(), a + text.len(), regions);
        lemma_piece_text_concat(
            region_pieces(st, text, a, regions, 0),
            refine_pieces(runs.drop_first(), a + text.len(), regions),
        );
        assert(text.subrange(0, text.len() as int) =~= text);
    }
}

proof fn lemma_unflagged_text<S>(runs: Seq<(S, Seq<char>)>)
    ensures
        piece_text(unflagged(runs)) == run_text(runs),
    decreases runs.len(),
{
    if runs.len() > 0 {
        lemma_unflagged_text(runs.drop_first());
        assert(unflagged(runs).drop_first() =~= unflagged(runs.drop_first()));
    }
}

/// Refining by word regions never loses or changes text: the pieces spell
/// out exactly the runs' text.
pub proof fn law_refine_keeps_text<S>(runs: Seq<(S, Seq<char>)>, regions: Seq<(bool, Seq<char>)>)
    ensures
        piece_text(refine_spec(runs, regions)) == run_text(runs),
{
    if total_chars(regions) < total_chars(runs) {
        lemma_unflagged_text(runs);
    } else {
        lemma_refine_pieces_text(runs, 0, regions);
    }
}

/// The change bar's split of `total` cells between inserts and deletes,
/// given the insert share already rounded to whole cells (`rounded`): the
/// insert side leaves one cell for deletes when there are any, and each
/// nonzero side keeps at least one cell.
pub open spec fn change_bar_spec(inserts: u64, deletes: u64, total: usize, rounded: usize) -> (usize, usize) {
    if inserts + deletes == 0 {
        (0, 0)
    } else {
        let cap = sat_sub(total as int, if deletes > 0 { 1 } else { 0 });
        let ins = if inserts > 0 { max_int(min_int(rounded as int, cap), 1) } else { 0 };
        let del = if deletes > 0 { max_int(sat_sub(total as int, ins), 1) } else { 0 };
        (ins as usize, del as usize)
    }
}

/// Split the change bar's cells; `rounded` is `inserts / (inserts +
/// deletes) * total` rounded to the nearest whole cell.
pub fn change_bar_split(inserts: u64, deletes: u64, total: usize, rounded: usize) -> (r: (usize, usize))
    requires
        inserts + deletes <= u64::MAX,
    ensures
        r == change_bar_spec(inserts, deletes, total, rounded),
{
    if inserts + deletes == 0 {
        return (0, 0);
    }
    let cap: usize = if deletes > 0 {
        if total >= 1 { total - 1 } else { 0 }
    } else {
        total
    };
    let capped = if rounded < cap { rounded } else { cap };
    let ins: usize = if inserts > 0 {
        if capped >= 1 { capped } else { 1 }
    } else {
        0
    };
    let del: usize = if deletes > 0 {
        let rest = if total >= ins { total - ins } else { 0 };
        if rest >= 1 { rest } else { 1 }
    } else {
        0
    };
    (ins, del)
}

} // verus!
