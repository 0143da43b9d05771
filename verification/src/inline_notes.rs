//! Notes on a stream row: placed inline at the right edge of the row when
//! they fit with a blank column to spare, else on dedicated rows below it,
//! the row's tint then stretched to the frame edge.

use vstd::prelude::*;
use crate::text::{join_strings, join_with, owned, string_views};
use crate::view::{str_width, str_width_of};

verus! {

/// The columns of a row's pieces, each measured on its own.
pub open spec fn texts_cols(ts: Seq<Seq<char>>) -> nat
    decreases ts.len(),
{
    if ts.len() == 0 {
        0
    } else {
        (str_width_of(ts[0]) + texts_cols(ts.drop_first())) as nat
    }
}

/// The inline annotation: ` 💬 ` and the notes joined with ` · `.
pub open spec fn inline_note_text(notes: Seq<Seq<char>>) -> Seq<char> {
    " 💬 "@ + join_with(notes, " · "@)
}

/// Where the notes go on a row whose pieces are `line`, in a frame `width`
/// columns wide: `Some((pad, note))` places the annotation after `pad`
/// blank columns, ending at the frame edge; `None` when the annotation and
/// one blank column of separation do not fit beside the code.
pub open spec fn inline_note_spec(line: Seq<Seq<char>>, notes: Seq<Seq<char>>, width: nat) -> Option<
    (nat, Seq<char>),
> {
    let note = inline_note_text(notes);
    let used = texts_cols(line);
    let free: nat = if width > used { (width - used) as nat } else { 0 };
    if str_width_of(note) + 1 > free {
        None
    } else {
        Some(((free - str_width_of(note)) as nat, note))
    }
}

/// The columns of the pieces, or `usize::MAX` when that does not fit.
fn line_cols(line: &Vec<String>) -> (r: usize)
    ensures
        r == (if texts_cols(string_views(line@)) <= usize::MAX {
            texts_cols(string_views(line@)) as usize
        } else {
            usize::MAX
        }),
{
    let ghost lv = string_views(line@);
    let mut w: usize = 0;
    let mut i: usize = 0;
    proof {
        assert(lv.subrange(0, lv.len() as int) =~= lv);
    }
    while i < line.len()
        invariant
            i <= line.len(),
            lv == string_views(line@),
            texts_cols(lv) >= texts_cols(lv.subrange(i as int, lv.len() as int)),
            w == (if texts_cols(lv) - texts_cols(lv.subrange(i as int, lv.len() as int))
                <= usize::MAX {
                (texts_cols(lv) - texts_cols(lv.subrange(i as int, lv.len() as int))) as usize
            } else {
                usize::MAX
            }),
        decreases line.len() - i,
    {
        let ghost rest = lv.subrange(i as int, lv.len() as int);
        proof {
            assert(rest[0] == line@[i as int]@);
            assert(rest.drop_first() =~= lv.subrange(i + 1, lv.len() as int));
        }
        let cw = str_width(line[i].as_str());
        w = if w <= usize::MAX - cw { w + cw } else { usize::MAX };
        i = i + 1;
    }
    proof {
        assert(lv.subrange(line@.len() as int, lv.len() as int) =~= Seq::<Seq<char>>::empty());
    }
    w
}

/// Try to place a row's notes as a right-aligned inline annotation
/// (` 💬 text · text`) on the row whose pieces are `line`: the blank
/// padding and the annotation, which then ends exactly at the frame's
/// right edge; `None` when they do not fit with one blank column of
/// separation, and the caller puts them on rows of their own.
pub fn inline_note(line: &Vec<String>, notes: &Vec<String>, width: usize) -> (r: Option<(usize, String)>)
    ensures
        match r {
            None => inline_note_spec(string_views(line@), string_views(notes@), width as nat) is None,
            Some((pad, note)) => inline_note_spec(string_views(line@), string_views(notes@), width as nat)
                == Some((pad as nat, note@)),
        },
        r matches Some((pad, note)) ==> texts_cols(string_views(line@)) + pad + str_width_of(note@)
            == width,
{
    let mut note = owned(" 💬 ");
    note.append(join_strings(notes, " · ").as_str());
    let note_w = str_width(note.as_str());
    let used = line_cols(line);
    let free = if width > used { width - used } else { 0 };
    if note_w >= free {
        return None;
    }
    Some((free - note_w, note))
}

/// The text of a dedicated note row: an elbow and the note.
pub open spec fn note_row_text(note: Seq<char>) -> Seq<char> {
    "  ╰─ 💬 "@ + note
}

/// What follows a row whose notes did not go inline: the blank columns
/// that stretch its tint to the frame edge (when it is tinted, and short of
/// the edge), and one row per note.
pub open spec fn note_fallback_spec(line: Seq<Seq<char>>, notes: Seq<Seq<char>>, fill_to: Option<usize>) -> (
    Option<nat>,
    Seq<Seq<char>>,
) {
    let fill = match fill_to {
        Some(width) => if width > texts_cols(line) {
            Some((width - texts_cols(line)) as nat)
        } else {
            None
        },
        None => None,
    };
    (fill, notes.map_values(|n: Seq<char>| note_row_text(n)))
}

/// The tint stretch and the note rows for a row whose notes did not go
/// inline (`fill_to` is the frame width when the row is tinted).
pub fn note_fallback(line: &Vec<String>, notes: &Vec<String>, fill_to: Option<usize>) -> (r: (
    Option<usize>,
    Vec<String>,
))
    ensures
        (match r.0 {
            Some(n) => Some(n as nat),
            None => None,
        }, string_views(r.1@)) == note_fallback_spec(string_views(line@), string_views(notes@), fill_to),
{
    let fill = match fill_to {
        Some(width) => {
            let used = line_cols(line);
            if width > used {
                Some(width - used)
            } else {
                None
            }
        },
        None => None,
    };
    let mut rows: Vec<String> = Vec::new();
    let mut i: usize = 0;
    while i < notes.len()
        invariant
            i <= notes.len(),
            string_views(rows@) == string_views(notes@).subrange(0, i as int).map_values(
                |n: Seq<char>| note_row_text(n),
            ),
        decreases notes.len() - i,
    {
        let mut row = owned("  ╰─ 💬 ");
        row.append(notes[i].as_str());
        let ghost prev = string_views(rows@);
        proof {
            assert(row@ == note_row_text(string_views(notes@)[i as int]));
        }
        rows.push(row);
        proof {
            assert(string_views(rows@) =~= prev.push(row@));
            assert(string_views(notes@).subrange(0, i + 1) =~= string_views(notes@).subrange(0, i as int).push(
                string_views(notes@)[i as int],
            ));
            assert(string_views(rows@) =~= string_views(notes@).subrange(0, i + 1).map_values(
                |n: Seq<char>| note_row_text(n),
            ));
        }
        i = i + 1;
    }
    proof {
        assert(string_views(notes@).subrange(0, notes@.len() as int) =~= string_views(notes@));
    }
    (fill, rows)
}

} // verus!
