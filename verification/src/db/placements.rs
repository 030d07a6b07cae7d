//! Placements: rows that put a value on a cell, at most one live row per cell.

use std::collections::BTreeMap;
use vstd::prelude::*;
use vstd::std_specs::cmp::OrdSpec;
use vstd::std_specs::iter::IteratorSpec;
use crate::db::records::Placement;
use crate::extent::lemma_keys_ordered;

verus! {

/// Whether key `a` comes before key `b`: by owner, then by x, then by y.
pub open spec fn key_lt(a: (u32, u32, u32), b: (u32, u32, u32)) -> bool {
    a.0 < b.0 || (a.0 == b.0 && (a.1 < b.1 || (a.1 == b.1 && a.2 < b.2)))
}

/// The last row of `rows` with the given owner and cell, if there is one.
pub open spec fn last_at<V>(rows: Seq<Placement<V>>, key: (u32, u32, u32)) -> Option<Placement<V>>
    decreases rows.len(),
{
    if rows.len() == 0 {
        None
    } else if rows.last().key() == key {
        Some(rows.last())
    } else {
        last_at(rows.drop_last(), key)
    }
}

/// Whether the keys of `rows` ascend strictly.
pub open spec fn ascending<V>(rows: Seq<Placement<V>>) -> bool {
    forall|i: int, j: int|
        0 <= i < j < rows.len() ==> key_lt((#[trigger] rows[i]).key(), (#[trigger] rows[j]).key())
}

/// Whether `out` is `input` with one row kept per owner and cell: the last
/// one written, the rows in ascending order of owner, x and y.
pub open spec fn is_compaction<V>(input: Seq<Placement<V>>, out: Seq<Placement<V>>) -> bool {
    &&& ascending(out)
    &&& forall|i: int|
        0 <= i < out.len() ==> last_at(input, (#[trigger] out[i]).key()) == Some(out[i])
    &&& forall|k: (u32, u32, u32)|
        (#[trigger] last_at(input, k)) is Some ==> exists|i: int|
            0 <= i < out.len() && (#[trigger] out[i]).key() == k
}

/// What `last_at` finds has the key that was asked for and is a row of `rows`.
pub proof fn lemma_last_at_found<V>(rows: Seq<Placement<V>>, key: (u32, u32, u32))
    ensures
        last_at(rows, key) is Some ==> last_at(rows, key).unwrap().key() == key && exists|i: int|
            0 <= i < rows.len() && rows[i] == last_at(rows, key).unwrap(),
        last_at(rows, key) is None ==> forall|i: int|
            0 <= i < rows.len() ==> (#[trigger] rows[i]).key() != key,
    decreases rows.len(),
{
    if rows.len() > 0 {
        let front = rows.drop_last();
        lemma_last_at_found(front, key);
        if rows.last().key() == key {
            assert(rows[rows.len() - 1] == last_at(rows, key).unwrap());
        } else {
            if last_at(rows, key) is Some {
                let i = choose|i: int| 0 <= i < front.len() && front[i] == last_at(front, key).unwrap();
                assert(rows[i] == front[i]);
            } else {
                assert forall|i: int| 0 <= i < rows.len() implies (#[trigger] rows[i]).key()
                    != key by {
                    if i < front.len() {
                        assert(rows[i] == front[i]);
                    }
                }
            }
        }
    }
}

/// Keys that an ordered map hands out in ascending order ascend by owner, x and y.
proof fn lemma_ascending_keys(s: Seq<&(u32, u32, u32)>)
    requires
        vstd::std_specs::btree::increasing_seq(s),
    ensures
        forall|i: int, j: int| 0 <= i < j < s.len() ==> key_lt(*#[trigger] s[i], *#[trigger] s[j]),
{
    broadcast use vstd::laws_cmp::group_laws_cmp;
    broadcast use vstd::std_specs::btree::group_btree_axioms;
    assert(vstd::laws_cmp::obeys_cmp::<(u32, u32, u32)>());
    assert(vstd::laws_cmp::obeys_cmp::<&(u32, u32, u32)>());
    assert forall|i: int, j: int| 0 <= i < j < s.len() implies key_lt(
        *#[trigger] s[i],
        *#[trigger] s[j],
    ) by {
        assert(OrdSpec::cmp_spec(&s[i], &s[j]) is Less);
    }
}

/// Keeps one row per owner and cell, the last one written, and orders the
/// rows by owner, x and y.
pub fn compact<V: Copy>(rows: &Vec<Placement<V>>) -> (out: Vec<Placement<V>>)
    ensures
        is_compaction(rows@, out@),
        out@ == compacted(rows@),
{
    proof {
        lemma_keys_ordered();
    }
    let mut latest: BTreeMap<(u32, u32, u32), (u32, V)> = BTreeMap::new();
    let mut i: usize = 0;
    while i < rows.len()
        invariant
            i <= rows.len(),
            forall|k: (u32, u32, u32)|
                latest@.contains_key(k) <==> (#[trigger] last_at(rows@.take(i as int), k)) is Some,
            forall|k: (u32, u32, u32)| #[trigger]
                latest@.contains_key(k) ==> latest@[k] == (
                    last_at(rows@.take(i as int), k).unwrap().id,
                    last_at(rows@.take(i as int), k).unwrap().value,
                ),
        decreases rows.len() - i,
    {
        let row = rows[i];
        let ghost old_latest = latest@;
        proof {
            lemma_keys_ordered();
            assert(rows@.take(i + 1).drop_last() =~= rows@.take(i as int));
            assert(rows@.take(i + 1).last() == row);
        }
        latest.insert((row.owner_id, row.x, row.y), (row.id, row.value));
        i += 1;
        proof {
            assert forall|k: (u32, u32, u32)|
                latest@.contains_key(k) <==> (#[trigger] last_at(rows@.take(i as int), k)) is Some by {
                assert(last_at(rows@.take(i - 1), k) is Some <==> old_latest.contains_key(k));
            }
        }
    }
    proof {
        assert(rows@.take(rows.len() as int) =~= rows@);
    }
    let mut out: Vec<Placement<V>> = Vec::new();
    for k in it: latest.keys()
        invariant
            it.seq() == vstd::std_specs::btree::spec_keys_iter(&latest).remaining(),
            out.len() == it.index(),
            forall|j: int| 0 <= j < out.len() ==> (#[trigger] out[j]).key() == *it.seq()[j],
            forall|j: int| 0 <= j < out.len() ==> last_at(rows@, (#[trigger] out[j]).key()) == Some(out[j]),
            forall|k: (u32, u32, u32)|
                latest@.contains_key(k) <==> (#[trigger] last_at(rows@, k)) is Some,
            forall|k: (u32, u32, u32)| #[trigger]
                latest@.contains_key(k) ==> latest@[k] == (
                    last_at(rows@, k).unwrap().id,
                    last_at(rows@, k).unwrap().value,
                ),
    {
        proof {
            lemma_keys_ordered();
        }
        match latest.get(k) {
            Some(v) => {
                proof {
                    lemma_last_at_found(rows@, *k);
                    assert(latest@.contains_key(*k));
                }
                out.push(Placement { id: v.0, owner_id: k.0, value: v.1, x: k.1, y: k.2 });
            },
            None => {
                assert(false);
            },
        }
    }
    proof {
        let keys = vstd::std_specs::btree::spec_keys_iter(&latest).remaining();
        lemma_ascending_keys(keys);
        assert forall|k: (u32, u32, u32)| (#[trigger] last_at(rows@, k)) is Some implies exists|
            i: int,
        |
            0 <= i < out.len() && (#[trigger] out[i]).key() == k by {
            assert(latest@.dom().contains(k));
            assert(keys.unref().to_set().contains(k));
            let i = choose|i: int| 0 <= i < keys.unref().len() && keys.unref()[i] == k;
            assert(out[i].key() == k);
        }
        lemma_compacted(rows@, out@);
    }
    out
}

/// The rows that belong to `owner`.
pub open spec fn owned_by<V>(owner: u32) -> spec_fn(Placement<V>) -> bool {
    |p: Placement<V>| p.owner_id == owner
}

/// The rows that do not sit on the cell that `key` names.
pub open spec fn off_cell<V>(key: (u32, u32, u32)) -> spec_fn(Placement<V>) -> bool {
    |p: Placement<V>| p.key() != key
}

/// The grid that `rows` describe: each cell holds the value of the last row
/// that names it. The owner is not looked at.
pub open spec fn cells<V>(rows: Seq<Placement<V>>) -> Map<(u32, u32), V>
    decreases rows.len(),
{
    if rows.len() == 0 {
        Map::empty()
    } else {
        cells(rows.drop_last()).insert((rows.last().x, rows.last().y), rows.last().value)
    }
}

/// The grid of one owner: what `rows` put on each of its cells.
pub open spec fn cells_of<V>(rows: Seq<Placement<V>>, owner: u32) -> Map<(u32, u32), V> {
    cells(rows.filter(owned_by(owner)))
}

/// How `filter` treats the last element of a sequence.
pub proof fn lemma_filter_last<S>(rows: Seq<S>, keep: spec_fn(S) -> bool)
    requires
        rows.len() > 0,
    ensures
        rows.filter(keep) == if keep(rows.last()) {
            rows.drop_last().filter(keep).push(rows.last())
        } else {
            rows.drop_last().filter(keep)
        },
{
    reveal(Seq::filter);
}

/// The filter of no rows is no rows.
pub proof fn lemma_filter_none<S>(rows: Seq<S>, keep: spec_fn(S) -> bool)
    requires
        rows.len() == 0,
    ensures
        rows.filter(keep) == rows,
{
    reveal(Seq::filter);
}

/// A cell of an owner's grid holds the value of the last row written for it,
/// and is empty where no row was.
pub proof fn lemma_cells_of<V>(rows: Seq<Placement<V>>, owner: u32, cell: (u32, u32))
    ensures
        cells_of(rows, owner).contains_key(cell) <==> last_at(rows, (owner, cell.0, cell.1)) is Some,
        cells_of(rows, owner).contains_key(cell) ==> cells_of(rows, owner)[cell] == last_at(
            rows,
            (owner, cell.0, cell.1),
        ).unwrap().value,
    decreases rows.len(),
{
    let keep = owned_by::<V>(owner);
    if rows.len() == 0 {
        lemma_filter_none(rows, keep);
    } else {
        let front = rows.drop_last();
        lemma_cells_of(front, owner, cell);
        lemma_filter_last(rows, keep);
        if keep(rows.last()) {
            assert(front.filter(keep).push(rows.last()).drop_last() =~= front.filter(keep));
        }
    }
}

/// Writing a row makes it the last one for its cell and leaves the others as they were.
pub proof fn lemma_last_at_push<V>(rows: Seq<Placement<V>>, row: Placement<V>, key: (u32, u32, u32))
    ensures
        last_at(rows.push(row), key) == if row.key() == key {
            Some(row)
        } else {
            last_at(rows, key)
        },
{
    assert(rows.push(row).drop_last() =~= rows);
}

/// Dropping the rows of one cell empties it and leaves the others as they were.
pub proof fn lemma_last_at_off_cell<V>(
    rows: Seq<Placement<V>>,
    gone: (u32, u32, u32),
    key: (u32, u32, u32),
)
    ensures
        last_at(rows.filter(off_cell(gone)), key) == if key == gone {
            None
        } else {
            last_at(rows, key)
        },
    decreases rows.len(),
{
    let keep = off_cell::<V>(gone);
    if rows.len() == 0 {
        lemma_filter_none(rows, keep);
    } else {
        let front = rows.drop_last();
        lemma_last_at_off_cell(front, gone, key);
        lemma_filter_last(rows, keep);
        if keep(rows.last()) {
            assert(front.filter(keep).push(rows.last()).drop_last() =~= front.filter(keep));
        }
    }
}

/// A compaction keeps, for every owner and cell, the row that was written last.
pub proof fn lemma_compaction_last_at<V>(
    input: Seq<Placement<V>>,
    out: Seq<Placement<V>>,
    key: (u32, u32, u32),
)
    requires
        is_compaction(input, out),
    ensures
        last_at(out, key) == last_at(input, key),
{
    lemma_last_at_found(out, key);
    lemma_last_at_found(input, key);
    if last_at(out, key) is Some {
        let i = choose|i: int| 0 <= i < out.len() && out[i] == last_at(out, key).unwrap();
        assert(last_at(input, out[i].key()) == Some(out[i]));
    } else if last_at(input, key) is Some {
        let i = choose|i: int| 0 <= i < out.len() && (#[trigger] out[i]).key() == key;
        assert(false);
    }
}

/// A compaction shows every owner the grid it had before.
pub proof fn lemma_compaction_keeps_cells<V>(
    input: Seq<Placement<V>>,
    out: Seq<Placement<V>>,
    owner: u32,
)
    requires
        is_compaction(input, out),
    ensures
        cells_of(out, owner) == cells_of(input, owner),
{
    let before = cells_of(input, owner);
    let after = cells_of(out, owner);
    assert forall|cell: (u32, u32)| #[trigger] after.dom().contains(cell) <==> before.dom().contains(cell) by {
        lemma_cells_of(out, owner, cell);
        lemma_cells_of(input, owner, cell);
        lemma_compaction_last_at(input, out, (owner, cell.0, cell.1));
    }
    assert forall|cell: (u32, u32)| #[trigger] after.dom().contains(cell) implies after[cell] == before[cell] by {
        lemma_cells_of(out, owner, cell);
        lemma_cells_of(input, owner, cell);
        lemma_compaction_last_at(input, out, (owner, cell.0, cell.1));
    }
    assert(cells_of(out, owner) =~= cells_of(input, owner));
}

/// A compaction holds no two rows for the same owner and cell.
pub proof fn lemma_compaction_one_row_per_cell<V>(
    input: Seq<Placement<V>>,
    out: Seq<Placement<V>>,
    i: int,
    j: int,
)
    requires
        is_compaction(input, out),
        0 <= i < out.len(),
        0 <= j < out.len(),
        out[i].key() == out[j].key(),
    ensures
        i == j,
{
    if i < j {
        assert(key_lt(out[i].key(), out[j].key()));
    } else if j < i {
        assert(key_lt(out[j].key(), out[i].key()));
    }
}

/// At most one sequence is the compaction of given rows.
pub proof fn lemma_compaction_unique<V>(
    input: Seq<Placement<V>>,
    a: Seq<Placement<V>>,
    b: Seq<Placement<V>>,
)
    requires
        is_compaction(input, a),
        is_compaction(input, b),
    ensures
        a == b,
{
    lemma_compaction_shares_rows(input, a, b);
    lemma_compaction_shares_rows(input, b, a);
    lemma_ascending_agree(a, b, a.len() as int);
    lemma_ascending_agree(b, a, b.len() as int);
    assert(a =~= b);
}

/// The compaction of `rows`: one row per owner and cell, the last one
/// written, in ascending order of owner, x and y.
pub open spec fn compacted<V>(rows: Seq<Placement<V>>) -> Seq<Placement<V>> {
    choose|out: Seq<Placement<V>>| is_compaction(rows, out)
}

/// Whatever is a compaction of `rows` is `compacted(rows)`.
pub proof fn lemma_compacted<V>(rows: Seq<Placement<V>>, out: Seq<Placement<V>>)
    requires
        is_compaction(rows, out),
    ensures
        compacted(rows) == out,
{
    lemma_compaction_unique(rows, compacted(rows), out);
}

/// Every row of one compaction is a row of any other compaction of the same rows.
proof fn lemma_compaction_shares_rows<V>(
    input: Seq<Placement<V>>,
    a: Seq<Placement<V>>,
    b: Seq<Placement<V>>,
)
    requires
        is_compaction(input, a),
        is_compaction(input, b),
    ensures
        forall|i: int| 0 <= i < a.len() ==> b.contains(#[trigger] a[i]),
{
    assert forall|i: int| 0 <= i < a.len() implies b.contains(#[trigger] a[i]) by {
        assert(last_at(input, a[i].key()) == Some(a[i]));
        let j = choose|j: int| 0 <= j < b.len() && (#[trigger] b[j]).key() == a[i].key();
        assert(last_at(input, b[j].key()) == Some(b[j]));
        assert(b[j] == a[i]);
    }
}

/// Two ascending sequences with the same rows agree on their first `n` rows.
proof fn lemma_ascending_agree<V>(a: Seq<Placement<V>>, b: Seq<Placement<V>>, n: int)
    requires
        ascending(a),
        ascending(b),
        0 <= n <= a.len(),
        forall|i: int| 0 <= i < a.len() ==> b.contains(#[trigger] a[i]),
        forall|i: int| 0 <= i < b.len() ==> a.contains(#[trigger] b[i]),
    ensures
        n <= b.len(),
        forall|i: int| 0 <= i < n ==> a[i] == b[i],
    decreases n,
{
    if n > 0 {
        lemma_ascending_agree(a, b, n - 1);
        let m = n - 1;
        assert(b.contains(a[m]));
        let j = choose|j: int| 0 <= j < b.len() && b[j] == a[m];
        if j < m {
            assert(a[j] == b[j]);
            assert(key_lt(a[j].key(), a[m].key()));
            assert(false);
        }
        assert(a.contains(b[m]));
        let k = choose|k: int| 0 <= k < a.len() && a[k] == b[m];
        if k < m {
            assert(a[k] == b[k]);
            assert(key_lt(b[k].key(), b[m].key()));
            assert(false);
        }
        if j > m && k > m {
            assert(key_lt(b[m].key(), b[j].key()));
            assert(key_lt(a[m].key(), a[k].key()));
            assert(false);
        }
    }
}

/// The rows of `rows` that belong to `owner`, in their order.
pub fn rows_of_owner<V: Copy>(rows: &Vec<Placement<V>>, owner: u32) -> (r: Vec<Placement<V>>)
    ensures
        r@ == rows@.filter(owned_by(owner)),
{
    let mut out: Vec<Placement<V>> = Vec::new();
    let mut i: usize = 0;
    proof {
        lemma_filter_none(rows@.take(0), owned_by::<V>(owner));
    }
    while i < rows.len()
        invariant
            i <= rows.len(),
            out@ == rows@.take(i as int).filter(owned_by(owner)),
        decreases rows.len() - i,
    {
        proof {
            assert(rows@.take(i + 1).drop_last() =~= rows@.take(i as int));
            lemma_filter_last(rows@.take(i + 1), owned_by::<V>(owner));
        }
        if rows[i].owner_id == owner {
            out.push(rows[i]);
        }
        i += 1;
    }
    proof {
        assert(rows@.take(rows.len() as int) =~= rows@);
    }
    out
}

/// The rows of `rows` but those on cell `(x, y)` of `owner`, in their order.
pub fn rows_off_cell<V: Copy>(rows: &Vec<Placement<V>>, owner: u32, x: u32, y: u32) -> (r: Vec<
    Placement<V>,
>)
    ensures
        r@ == rows@.filter(off_cell((owner, x, y))),
{
    let mut out: Vec<Placement<V>> = Vec::new();
    let mut i: usize = 0;
    proof {
        lemma_filter_none(rows@.take(0), off_cell::<V>((owner, x, y)));
    }
    while i < rows.len()
        invariant
            i <= rows.len(),
            out@ == rows@.take(i as int).filter(off_cell((owner, x, y))),
        decreases rows.len() - i,
    {
        proof {
            assert(rows@.take(i + 1).drop_last() =~= rows@.take(i as int));
            lemma_filter_last(rows@.take(i + 1), off_cell::<V>((owner, x, y)));
        }
        let row = rows[i];
        if !(row.owner_id == owner && row.x == x && row.y == y) {
            out.push(row);
        }
        i += 1;
    }
    proof {
        assert(rows@.take(rows.len() as int) =~= rows@);
    }
    out
}

/// The grid that `rows` describe, as an ordered map from cell to value.
pub fn collect_cells<V: Copy>(rows: &Vec<Placement<V>>) -> (r: BTreeMap<(u32, u32), V>)
    ensures
        r@ == cells(rows@),
{
    let mut grid: BTreeMap<(u32, u32), V> = BTreeMap::new();
    let mut i: usize = 0;
    while i < rows.len()
        invariant
            i <= rows.len(),
            grid@ == cells(rows@.take(i as int)),
        decreases rows.len() - i,
    {
        proof {
            lemma_keys_ordered();
            assert(rows@.take(i + 1).drop_last() =~= rows@.take(i as int));
        }
        let row = rows[i];
        grid.insert((row.x, row.y), row.value);
        i += 1;
    }
    proof {
        assert(rows@.take(rows.len() as int) =~= rows@);
    }
    grid
}

/// `out` with `row` put at the place of its key: in place of the row that
/// had that key, or between the rows with smaller and larger keys.
pub open spec fn placed<V>(out: Seq<Placement<V>>, row: Placement<V>) -> Seq<Placement<V>>
    decreases out.len(),
{
    if out.len() == 0 {
        seq![row]
    } else if key_lt(out.last().key(), row.key()) {
        out.push(row)
    } else if out.last().key() == row.key() {
        out.drop_last().push(row)
    } else {
        placed(out.drop_last(), row).push(out.last())
    }
}

/// The rows of `rows` placed one after the other, from the first to the last.
pub open spec fn placed_all<V>(rows: Seq<Placement<V>>) -> Seq<Placement<V>>
    decreases rows.len(),
{
    if rows.len() == 0 {
        Seq::empty()
    } else {
        placed(placed_all(rows.drop_last()), rows.last())
    }
}

/// Whether `row` is the last row of `input` written for its owner and cell.
pub open spec fn is_live<V>(input: Seq<Placement<V>>, row: Placement<V>) -> bool {
    last_at(input, row.key()) == Some(row)
}

/// Placing a row keeps the order, adds the row, and removes only the row
/// that had its key.
proof fn lemma_placed<V>(out: Seq<Placement<V>>, row: Placement<V>)
    requires
        ascending(out),
    ensures
        ascending(placed(out, row)),
        forall|r: Placement<V>| #[trigger]
            placed(out, row).contains(r) <==> (r == row || (out.contains(r) && r.key()
                != row.key())),
    decreases out.len(),
{
    let p = placed(out, row);
    if out.len() == 0 {
        assert(p[0] == row);
        assert forall|r: Placement<V>| #[trigger] p.contains(r) <==> (r == row || (out.contains(r)
            && r.key() != row.key())) by {
            if r == row {
                assert(p[0] == r);
            }
        }
    } else {
        let n = out.len() - 1;
        let front = out.drop_last();
        let last = out.last();
        assert(out[n] == last);
        assert forall|i: int| 0 <= i < n implies key_lt((#[trigger] out[i]).key(), last.key()) by {
            assert(key_lt(out[i].key(), out[n].key()));
        }
        assert forall|r: Placement<V>| #[trigger] out.contains(r) <==> (front.contains(r) || r == last) by {
            if out.contains(r) {
                let i = choose|i: int| 0 <= i < out.len() && out[i] == r;
                if i < n {
                    assert(front[i] == r);
                }
            }
            if front.contains(r) {
                let i = choose|i: int| 0 <= i < front.len() && front[i] == r;
                assert(out[i] == r);
            }
        }
        assert forall|r: Placement<V>| #[trigger] front.contains(r) implies key_lt(r.key(), last.key()) by {
            let i = choose|i: int| 0 <= i < front.len() && front[i] == r;
            assert(out[i] == r);
        }
        if key_lt(last.key(), row.key()) {
            assert forall|i: int, j: int| 0 <= i < j < p.len() implies key_lt(
                (#[trigger] p[i]).key(),
                (#[trigger] p[j]).key(),
            ) by {
                if j == n + 1 {
                    if i < n {
                        assert(key_lt(out[i].key(), last.key()));
                    }
                } else {
                    assert(key_lt(out[i].key(), out[j].key()));
                }
            }
            assert forall|r: Placement<V>| #[trigger] p.contains(r) <==> (r == row || (out.contains(
                r,
            ) && r.key() != row.key())) by {
                if p.contains(r) {
                    let i = choose|i: int| 0 <= i < p.len() && p[i] == r;
                    if i <= n {
                        assert(out[i] == r);
                    }
                }
                if r == row {
                    assert(p[n + 1] == r);
                }
                if out.contains(r) {
                    let i = choose|i: int| 0 <= i < out.len() && out[i] == r;
                    assert(p[i] == r);
                }
            }
        } else if last.key() == row.key() {
            assert forall|i: int, j: int| 0 <= i < j < p.len() implies key_lt(
                (#[trigger] p[i]).key(),
                (#[trigger] p[j]).key(),
            ) by {
                if j == n {
                    assert(key_lt(out[i].key(), last.key()));
                } else {
                    assert(key_lt(out[i].key(), out[j].key()));
                }
            }
            assert forall|r: Placement<V>| #[trigger] p.contains(r) <==> (r == row || (out.contains(
                r,
            ) && r.key() != row.key())) by {
                if p.contains(r) {
                    let i = choose|i: int| 0 <= i < p.len() && p[i] == r;
                    if i < n {
                        assert(front[i] == r);
                    }
                }
                if r == row {
                    assert(p[n] == r);
                }
                if front.contains(r) {
                    let i = choose|i: int| 0 <= i < front.len() && front[i] == r;
                    assert(p[i] == r);
                }
            }
        } else {
            assert(ascending(front)) by {
                assert forall|i: int, j: int| 0 <= i < j < front.len() implies key_lt(
                    (#[trigger] front[i]).key(),
                    (#[trigger] front[j]).key(),
                ) by {
                    assert(key_lt(out[i].key(), out[j].key()));
                }
            }
            lemma_placed(front, row);
            let q = placed(front, row);
            assert(p == q.push(last));
            assert forall|i: int, j: int| 0 <= i < j < p.len() implies key_lt(
                (#[trigger] p[i]).key(),
                (#[trigger] p[j]).key(),
            ) by {
                if j == q.len() {
                    assert(q.contains(q[i]));
                    assert(p[i] == q[i]);
                } else {
                    assert(key_lt(q[i].key(), q[j].key()));
                }
            }
            assert forall|r: Placement<V>| #[trigger] p.contains(r) <==> (r == row || (out.contains(
                r,
            ) && r.key() != row.key())) by {
                if p.contains(r) {
                    let i = choose|i: int| 0 <= i < p.len() && p[i] == r;
                    if i < q.len() {
                        assert(q[i] == r);
                        assert(q.contains(r));
                    }
                }
                if q.contains(r) {
                    let i = choose|i: int| 0 <= i < q.len() && q[i] == r;
                    assert(p[i] == r);
                }
                if r == last {
                    assert(p[q.len() as int] == r);
                }
            }
        }
    }
}

/// Ascending rows of which exactly the live rows of `input` are members are
/// a compaction of `input`.
proof fn lemma_compaction_by_members<V>(input: Seq<Placement<V>>, out: Seq<Placement<V>>)
    requires
        ascending(out),
        forall|r: Placement<V>| #[trigger] out.contains(r) <==> is_live(input, r),
    ensures
        is_compaction(input, out),
{
    assert forall|i: int| 0 <= i < out.len() implies last_at(input, (#[trigger] out[i]).key())
        == Some(out[i]) by {
        assert(out.contains(out[i]));
    }
    assert forall|k: (u32, u32, u32)| (#[trigger] last_at(input, k)) is Some implies exists|i: int|
        0 <= i < out.len() && (#[trigger] out[i]).key() == k by {
        lemma_last_at_found(input, k);
        let r = last_at(input, k).unwrap();
        assert(is_live(input, r));
        assert(out.contains(r));
        let i = choose|i: int| 0 <= i < out.len() && out[i] == r;
        assert(out[i].key() == k);
    }
}

/// Placing the rows one after the other gives a compaction.
proof fn lemma_placed_all<V>(rows: Seq<Placement<V>>)
    ensures
        ascending(placed_all(rows)),
        forall|r: Placement<V>| #[trigger] placed_all(rows).contains(r) <==> is_live(rows, r),
    decreases rows.len(),
{
    if rows.len() == 0 {
        assert forall|r: Placement<V>| #[trigger] placed_all(rows).contains(r) <==> is_live(rows, r) by {
        }
    } else {
        let front = rows.drop_last();
        let row = rows.last();
        lemma_placed_all(front);
        lemma_placed(placed_all(front), row);
        assert forall|r: Placement<V>| #[trigger] placed_all(rows).contains(r) <==> is_live(rows, r) by {
            assert(front.push(row) =~= rows);
            lemma_last_at_push(front, row, r.key());
        }
    }
}

/// Every table has a compaction, and `compacted` is it.
pub proof fn lemma_compaction_exists<V>(rows: Seq<Placement<V>>)
    ensures
        is_compaction(rows, compacted(rows)),
{
    lemma_placed_all(rows);
    lemma_compaction_by_members(rows, placed_all(rows));
}

/// A compaction of a table with one more row shows the owner of that row
/// its grid with the row's value on the row's cell.
pub proof fn lemma_cells_of_written<V>(
    rows: Seq<Placement<V>>,
    row: Placement<V>,
    out: Seq<Placement<V>>,
)
    requires
        is_compaction(rows.push(row), out),
    ensures
        cells_of(out, row.owner_id) == cells_of(rows, row.owner_id).insert((row.x, row.y), row.value),
{
    let owner = row.owner_id;
    let before = cells_of(rows, owner).insert((row.x, row.y), row.value);
    let after = cells_of(out, owner);
    assert forall|cell: (u32, u32)| #[trigger] after.dom().contains(cell) <==> before.dom().contains(cell) by {
        lemma_cells_of(out, owner, cell);
        lemma_cells_of(rows, owner, cell);
        lemma_compaction_last_at(rows.push(row), out, (owner, cell.0, cell.1));
        lemma_last_at_push(rows, row, (owner, cell.0, cell.1));
    }
    assert forall|cell: (u32, u32)| #[trigger] after.dom().contains(cell) implies after[cell] == before[cell] by {
        lemma_cells_of(out, owner, cell);
        lemma_cells_of(rows, owner, cell);
        lemma_compaction_last_at(rows.push(row), out, (owner, cell.0, cell.1));
        lemma_last_at_push(rows, row, (owner, cell.0, cell.1));
    }
    assert(after =~= before);
}

/// A table without the rows of one cell shows the owner of that cell its
/// grid with that cell empty.
pub proof fn lemma_cells_of_cleared<V>(rows: Seq<Placement<V>>, gone: (u32, u32, u32))
    ensures
        cells_of(rows.filter(off_cell(gone)), gone.0) == cells_of(rows, gone.0).remove(
            (gone.1, gone.2),
        ),
{
    let owner = gone.0;
    let out = rows.filter(off_cell(gone));
    let before = cells_of(rows, owner).remove((gone.1, gone.2));
    let after = cells_of(out, owner);
    assert forall|cell: (u32, u32)| #[trigger] after.dom().contains(cell) <==> before.dom().contains(cell) by {
        lemma_cells_of(out, owner, cell);
        lemma_cells_of(rows, owner, cell);
        lemma_last_at_off_cell(rows, gone, (owner, cell.0, cell.1));
    }
    assert forall|cell: (u32, u32)| #[trigger] after.dom().contains(cell) implies after[cell] == before[cell] by {
        lemma_cells_of(out, owner, cell);
        lemma_cells_of(rows, owner, cell);
        lemma_last_at_off_cell(rows, gone, (owner, cell.0, cell.1));
    }
    assert(after =~= before);
}

/// A compaction of a table with one more row holds that row, and no other
/// row for its owner and cell.
pub proof fn lemma_written_row_is_kept<V>(
    rows: Seq<Placement<V>>,
    row: Placement<V>,
    out: Seq<Placement<V>>,
)
    requires
        is_compaction(rows.push(row), out),
    ensures
        out.contains(row),
        forall|i: int| 0 <= i < out.len() && (#[trigger] out[i]).key() == row.key() ==> out[i] == row,
        forall|i: int, j: int|
            0 <= i < out.len() && 0 <= j < out.len() && (#[trigger] out[i]).key() == (
            #[trigger] out[j]).key() ==> i == j,
{
    let input = rows.push(row);
    lemma_last_at_push(rows, row, row.key());
    assert(last_at(input, row.key()) is Some);
    let i = choose|i: int| 0 <= i < out.len() && (#[trigger] out[i]).key() == row.key();
    assert(last_at(input, out[i].key()) == Some(out[i]));
    assert(out[i] == row);
    assert forall|i: int| 0 <= i < out.len() && (#[trigger] out[i]).key() == row.key() implies out[i]
        == row by {
        assert(last_at(input, out[i].key()) == Some(out[i]));
    }
    assert forall|i: int, j: int|
        0 <= i < out.len() && 0 <= j < out.len() && (#[trigger] out[i]).key() == (
        #[trigger] out[j]).key() implies i == j by {
        lemma_compaction_one_row_per_cell(input, out, i, j);
    }
}

/// Whether no two rows of `rows` share an owner and a cell.
pub open spec fn one_row_per_cell<V>(rows: Seq<Placement<V>>) -> bool {
    forall|i: int, j: int|
        0 <= i < rows.len() && 0 <= j < rows.len() && (#[trigger] rows[i]).key() == (
        #[trigger] rows[j]).key() ==> i == j
}

/// A compaction holds one row per owner and cell.
pub proof fn lemma_compacted_one_row_per_cell<V>(rows: Seq<Placement<V>>)
    ensures
        one_row_per_cell(compacted(rows)),
{
    lemma_compaction_exists(rows);
    let out = compacted(rows);
    assert forall|i: int, j: int|
        0 <= i < out.len() && 0 <= j < out.len() && (#[trigger] out[i]).key() == (
        #[trigger] out[j]).key() implies i == j by {
        lemma_compaction_one_row_per_cell(rows, out, i, j);
    }
}

/// Every row that a filter keeps is a row of the table, and a table with
/// one row per owner and cell keeps that property when rows are dropped.
pub proof fn lemma_filter_one_row_per_cell<V>(
    rows: Seq<Placement<V>>,
    keep: spec_fn(Placement<V>) -> bool,
)
    ensures
        forall|j: int| 0 <= j < rows.filter(keep).len() ==> rows.contains(#[trigger] rows.filter(keep)[j]),
        one_row_per_cell(rows) ==> one_row_per_cell(rows.filter(keep)),
    decreases rows.len(),
{
    let kept = rows.filter(keep);
    if rows.len() == 0 {
        lemma_filter_none(rows, keep);
    } else {
        let front = rows.drop_last();
        let last = rows.last();
        let n = front.len() as int;
        lemma_filter_last(rows, keep);
        lemma_filter_one_row_per_cell(front, keep);
        let inner = front.filter(keep);
        assert forall|j: int| 0 <= j < kept.len() implies rows.contains(#[trigger] kept[j]) by {
            if j < inner.len() {
                assert(kept[j] == inner[j]);
                assert(front.contains(inner[j]));
                let i = choose|i: int| 0 <= i < front.len() && front[i] == inner[j];
                assert(rows[i] == kept[j]);
            } else {
                assert(rows[n] == kept[j]);
            }
        }
        if one_row_per_cell(rows) {
            assert(one_row_per_cell(front)) by {
                assert forall|i: int, j: int|
                    0 <= i < front.len() && 0 <= j < front.len() && (#[trigger] front[i]).key() == (
                    #[trigger] front[j]).key() implies i == j by {
                    assert(rows[i].key() == rows[j].key());
                }
            }
            assert forall|i: int, j: int|
                0 <= i < kept.len() && 0 <= j < kept.len() && (#[trigger] kept[i]).key() == (
                #[trigger] kept[j]).key() implies i == j by {
                if i < inner.len() && j < inner.len() {
                    assert(inner[i].key() == inner[j].key());
                } else if i < inner.len() {
                    assert(front.contains(inner[i]));
                    let k = choose|k: int| 0 <= k < front.len() && front[k] == inner[i];
                    assert(rows[k].key() == rows[n].key());
                } else if j < inner.len() {
                    assert(front.contains(inner[j]));
                    let k = choose|k: int| 0 <= k < front.len() && front[k] == inner[j];
                    assert(rows[k].key() == rows[n].key());
                }
            }
        }
    }
}

/// A compaction of a table with one more row shows every other owner the
/// grid it had before.
pub proof fn lemma_cells_of_others_written<V>(
    rows: Seq<Placement<V>>,
    row: Placement<V>,
    out: Seq<Placement<V>>,
    owner: u32,
)
    requires
        is_compaction(rows.push(row), out),
        owner != row.owner_id,
    ensures
        cells_of(out, owner) == cells_of(rows, owner),
{
    let before = cells_of(rows, owner);
    let after = cells_of(out, owner);
    assert forall|cell: (u32, u32)| #[trigger] after.dom().contains(cell) <==> before.dom().contains(cell) by {
        lemma_cells_of(out, owner, cell);
        lemma_cells_of(rows, owner, cell);
        lemma_compaction_last_at(rows.push(row), out, (owner, cell.0, cell.1));
        lemma_last_at_push(rows, row, (owner, cell.0, cell.1));
    }
    assert forall|cell: (u32, u32)| #[trigger] after.dom().contains(cell) implies after[cell] == before[cell] by {
        lemma_cells_of(out, owner, cell);
        lemma_cells_of(rows, owner, cell);
        lemma_compaction_last_at(rows.push(row), out, (owner, cell.0, cell.1));
        lemma_last_at_push(rows, row, (owner, cell.0, cell.1));
    }
    assert(after =~= before);
}

/// A table without the rows of one cell shows every other owner the grid it
/// had before.
pub proof fn lemma_cells_of_others_cleared<V>(
    rows: Seq<Placement<V>>,
    gone: (u32, u32, u32),
    owner: u32,
)
    requires
        owner != gone.0,
    ensures
        cells_of(rows.filter(off_cell(gone)), owner) == cells_of(rows, owner),
{
    let out = rows.filter(off_cell(gone));
    let before = cells_of(rows, owner);
    let after = cells_of(out, owner);
    assert forall|cell: (u32, u32)| #[trigger] after.dom().contains(cell) <==> before.dom().contains(cell) by {
        lemma_cells_of(out, owner, cell);
        lemma_cells_of(rows, owner, cell);
        lemma_last_at_off_cell(rows, gone, (owner, cell.0, cell.1));
    }
    assert forall|cell: (u32, u32)| #[trigger] after.dom().contains(cell) implies after[cell] == before[cell] by {
        lemma_cells_of(out, owner, cell);
        lemma_cells_of(rows, owner, cell);
        lemma_last_at_off_cell(rows, gone, (owner, cell.0, cell.1));
    }
    assert(after =~= before);
}

} // verus!
