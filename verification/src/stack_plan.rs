//! The stacked layout: each file's on-screen rows become an `old` block
//! (context and deleted lines, and the markers of collapsed unchanged runs)
//! followed by a `new` block (context and added lines), under a title.

use vstd::prelude::*;

verus! {

/// The kind of a diff line.
#[derive(Debug, Clone, Copy, PartialEq, Eq, Structural)]
pub enum LineKind {
    Add,
    Delete,
    Context,
    Meta,
}

/// What an on-screen stream row is, as far as the stacked layout cares.
#[derive(Debug, Clone, Copy, PartialEq, Eq, Structural)]
pub enum StackRow {
    FileHeader,
    HunkHeader,
    Line(LineKind),
    Unchanged,
    Pair,
}

/// One line of the stacked layout: a file's title, a block label, a
/// collapsed-run marker or a diff line (both by their index among the rows).
#[derive(Debug, Clone, Copy, PartialEq, Eq, Structural)]
pub enum StackItem {
    Title(usize),
    OldLabel,
    NewLabel,
    Unchanged(usize),
    Row(usize),
}

/// The first `n` rows grouped by file: file headers are left out, and a
/// row joins the last group when it belongs to the same file, else starts a
/// new one. Each group lists its rows by index.
pub open spec fn stack_groups(rows: Seq<(usize, StackRow)>, n: nat) -> Seq<(usize, Seq<usize>)>
    decreases n,
{
    if n == 0 || n > rows.len() {
        Seq::empty()
    } else {
        let g = stack_groups(rows, (n - 1) as nat);
        let (f, k) = rows[n - 1];
        if k == StackRow::FileHeader {
            g
        } else if g.len() > 0 && g.last().0 == f {
            g.drop_last().push((f, g.last().1.push((n - 1) as usize)))
        } else {
            g.push((f, seq![(n - 1) as usize]))
        }
    }
}

/// The old block of a group: collapsed-run markers, and every diff line
/// but the added ones.
pub open spec fn old_items(rows: Seq<(usize, StackRow)>, idxs: Seq<usize>) -> Seq<StackItem>
    decreases idxs.len(),
{
    if idxs.len() == 0 {
        Seq::empty()
    } else {
        let rest = old_items(rows, idxs.drop_last());
        let i = idxs.last();
        match rows[i as int].1 {
            StackRow::Unchanged => rest.push(StackItem::Unchanged(i)),
            StackRow::Line(k) => if k != LineKind::Add {
                rest.push(StackItem::Row(i))
            } else {
                rest
            },
            _ => rest,
        }
    }
}

/// The new block of a group: every diff line but the deleted ones.
pub open spec fn new_items(rows: Seq<(usize, StackRow)>, idxs: Seq<usize>) -> Seq<StackItem>
    decreases idxs.len(),
{
    if idxs.len() == 0 {
        Seq::empty()
    } else {
        let rest = new_items(rows, idxs.drop_last());
        let i = idxs.last();
        match rows[i as int].1 {
            StackRow::Line(k) => if k != LineKind::Delete {
                rest.push(StackItem::Row(i))
            } else {
                rest
            },
            _ => rest,
        }
    }
}

/// The lines of one file's group.
pub open spec fn group_block(rows: Seq<(usize, StackRow)>, g: (usize, Seq<usize>)) -> Seq<StackItem> {
    seq![StackItem::Title(g.0), StackItem::OldLabel] + old_items(rows, g.1) + seq![StackItem::NewLabel]
        + new_items(rows, g.1)
}

/// The lines of the groups, in order.
pub open spec fn blocks(rows: Seq<(usize, StackRow)>, groups: Seq<(usize, Seq<usize>)>) -> Seq<StackItem>
    decreases groups.len(),
{
    if groups.len() == 0 {
        Seq::empty()
    } else {
        blocks(rows, groups.drop_last()) + group_block(rows, groups.last())
    }
}

/// The stacked layout of the rows.
pub open spec fn stack_plan_spec(rows: Seq<(usize, StackRow)>) -> Seq<StackItem> {
    blocks(rows, stack_groups(rows, rows.len()))
}

pub open spec fn groups_view(v: Seq<(usize, Vec<usize>)>) -> Seq<(usize, Seq<usize>)> {
    v.map_values(|g: (usize, Vec<usize>)| (g.0, g.1@))
}

/// The rows grouped by file, file headers left out.
fn group_rows(rows: &Vec<(usize, StackRow)>) -> (r: Vec<(usize, Vec<usize>)>)
    ensures
        groups_view(r@) == stack_groups(rows@, rows@.len()),
        forall|j: int, k: int|
            0 <= j < r@.len() && 0 <= k < r@[j].1@.len() ==> (#[trigger] r@[j].1@[k]) < rows@.len(),
{
    let mut done: Vec<(usize, Vec<usize>)> = Vec::new();
    let mut cur_file: usize = 0;
    let mut cur: Vec<usize> = Vec::new();
    let mut open: bool = false;
    let mut i: usize = 0;
    while i < rows.len()
        invariant
            i <= rows.len(),
            open ==> cur@.len() > 0,
            groups_view(done@) + (if open {
                seq![(cur_file, cur@)]
            } else {
                Seq::<(usize, Seq<usize>)>::empty()
            }) == stack_groups(rows@, i as nat),
            !open ==> done@.len() == 0,
            forall|j: int, k: int|
                0 <= j < done@.len() && 0 <= k < done@[j].1@.len() ==> (#[trigger] done@[j].1@[k])
                    < i,
            forall|k: int| 0 <= k < cur@.len() ==> #[trigger] cur@[k] < i,
        decreases rows.len() - i,
    {
        let (f, k) = rows[i];
        let ghost g = stack_groups(rows@, i as nat);
        let ghost dv = groups_view(done@);
        let ghost next = stack_groups(rows@, (i + 1) as nat);
        proof {
            assert(rows@[(i + 1) - 1] == (f, k));
            assert(next == (if k == StackRow::FileHeader {
                g
            } else if g.len() > 0 && g.last().0 == f {
                g.drop_last().push((f, g.last().1.push(i)))
            } else {
                g.push((f, seq![i]))
            }));
            if open {
                assert(g.last() == (cur_file, cur@));
                assert(g.drop_last() =~= dv);
            } else {
                assert(g =~= dv);
            }
        }
        if k == StackRow::FileHeader {
        } else if open && cur_file == f {
            cur.push(i);
            proof {
                assert(dv + seq![(cur_file, cur@)] =~= g.drop_last().push((f, g.last().1.push(i))));
            }
        } else {
            if open {
                done.push((cur_file, cur));
                proof {
                    assert(groups_view(done@) =~= g);
                }
            }
            cur = Vec::new();
            cur.push(i);
            cur_file = f;
            open = true;
            proof {
                assert(cur@ =~= seq![i]);
                assert(groups_view(done@) + seq![(cur_file, cur@)] =~= g.push((f, seq![i])));
            }
        }
        i = i + 1;
    }
    if open {
        done.push((cur_file, cur));
        proof {
            assert(groups_view(done@) =~= stack_groups(rows@, rows@.len()));
        }
    } else {
        proof {
            assert(groups_view(done@) =~= stack_groups(rows@, rows@.len()));
        }
    }
    done
}

/// Lay out on-screen rows in the stacked layout: for each file (in the
/// order its rows come, file headers left out) its title, the `old` label
/// and block, then the `new` label and block. Hunk headers and side-by-side
/// pairs have no line in this layout.
pub fn stack_plan(rows: &Vec<(usize, StackRow)>) -> (r: Vec<StackItem>)
    ensures
        r@ == stack_plan_spec(rows@),
{
    let groups = group_rows(rows);
    let ghost gv = groups_view(groups@);
    let mut out: Vec<StackItem> = Vec::new();
    let mut j: usize = 0;
    while j < groups.len()
        invariant
            j <= groups.len(),
            gv == groups_view(groups@),
            gv == stack_groups(rows@, rows@.len()),
            forall|a: int, b: int|
                0 <= a < groups@.len() && 0 <= b < groups@[a].1@.len() ==> (#[trigger] groups@[a].1@[b])
                    < rows@.len(),
            out@ == blocks(rows@, gv.subrange(0, j as int)),
        decreases groups.len() - j,
    {
        let f = groups[j].0;
        let idxs = &groups[j].1;
        let ghost before = out@;
        out.push(StackItem::Title(f));
        out.push(StackItem::OldLabel);
        let ghost head = out@;
        let mut k: usize = 0;
        while k < idxs.len()
            invariant
                k <= idxs.len(),
                *idxs == groups@[j as int].1,
                forall|b: int| 0 <= b < idxs@.len() ==> #[trigger] idxs@[b] < rows@.len(),
                out@ == head + old_items(rows@, idxs@.subrange(0, k as int)),
            decreases idxs.len() - k,
        {
            let i = idxs[k];
            let ghost prev = out@;
            proof {
                assert(idxs@.subrange(0, k + 1).drop_last() =~= idxs@.subrange(0, k as int));
                assert(idxs@.subrange(0, k + 1).last() == i);
            }
            match rows[i].1 {
                StackRow::Unchanged => {
                    out.push(StackItem::Unchanged(i));
                },
                StackRow::Line(lk) => {
                    if lk != LineKind::Add {
                        out.push(StackItem::Row(i));
                    }
                },
                _ => {},
            }
            proof {
                assert(out@ =~= head + old_items(rows@, idxs@.subrange(0, k + 1)));
            }
            k = k + 1;
        }
        out.push(StackItem::NewLabel);
        let ghost mid = out@;
        let mut k: usize = 0;
        while k < idxs.len()
            invariant
                k <= idxs.len(),
                *idxs == groups@[j as int].1,
                forall|b: int| 0 <= b < idxs@.len() ==> #[trigger] idxs@[b] < rows@.len(),
                out@ == mid + new_items(rows@, idxs@.subrange(0, k as int)),
            decreases idxs.len() - k,
        {
            let i = idxs[k];
            proof {
                assert(idxs@.subrange(0, k + 1).drop_last() =~= idxs@.subrange(0, k as int));
                assert(idxs@.subrange(0, k + 1).last() == i);
            }
            match rows[i].1 {
                StackRow::Line(lk) => {
                    if lk != LineKind::Delete {
                        out.push(StackItem::Row(i));
                    }
                },
                _ => {},
            }
            proof {
                assert(out@ =~= mid + new_items(rows@, idxs@.subrange(0, k + 1)));
            }
            k = k + 1;
        }
        proof {
            assert(idxs@.subrange(0, idxs@.len() as int) =~= idxs@);
            assert(gv.subrange(0, j + 1).drop_last() =~= gv.subrange(0, j as int));
            assert(gv.subrange(0, j + 1).last() == gv[j as int]);
            assert(gv[j as int] == (f, idxs@));
            assert(out@ =~= before + group_block(rows@, (f, idxs@)));
        }
        j = j + 1;
    }
    proof {
        assert(gv.subrange(0, groups@.len() as int) =~= gv);
    }
    out
}

} // verus!
