//! Grid extents: the larger of a hint and every coordinate in use.

use std::collections::BTreeMap;
use vstd::prelude::*;

verus! {

/// Whether `r` is the larger of `hint` and the x coordinate of every cell of `cells`.
pub open spec fn is_reach_x<V>(cells: Map<(u32, u32), V>, hint: u32, r: u32) -> bool {
    &&& hint <= r
    &&& forall|k: (u32, u32)| #[trigger] cells.contains_key(k) ==> k.0 <= r
    &&& (r == hint || exists|k: (u32, u32)| #[trigger] cells.contains_key(k) && k.0 == r)
}

/// Whether `r` is the larger of `hint` and the y coordinate of every cell of `cells`.
pub open spec fn is_reach_y<V>(cells: Map<(u32, u32), V>, hint: u32, r: u32) -> bool {
    &&& hint <= r
    &&& forall|k: (u32, u32)| #[trigger] cells.contains_key(k) ==> k.1 <= r
    &&& (r == hint || exists|k: (u32, u32)| #[trigger] cells.contains_key(k) && k.1 == r)
}

/// The larger of `hint` and the x coordinate of every cell of `cells`.
pub open spec fn reach_x<V>(cells: Map<(u32, u32), V>, hint: u32) -> u32 {
    choose|r: u32| is_reach_x(cells, hint, r)
}

/// The larger of `hint` and the y coordinate of every cell of `cells`.
pub open spec fn reach_y<V>(cells: Map<(u32, u32), V>, hint: u32) -> u32 {
    choose|r: u32| is_reach_y(cells, hint, r)
}

/// At most one value is the larger of a hint and all x coordinates.
pub proof fn lemma_reach_x_unique<V>(cells: Map<(u32, u32), V>, hint: u32, r: u32)
    requires
        is_reach_x(cells, hint, r),
    ensures
        reach_x(cells, hint) == r,
{
    let c = reach_x(cells, hint);
    assert(is_reach_x(cells, hint, c));
}

/// At most one value is the larger of a hint and all y coordinates.
pub proof fn lemma_reach_y_unique<V>(cells: Map<(u32, u32), V>, hint: u32, r: u32)
    requires
        is_reach_y(cells, hint, r),
    ensures
        reach_y(cells, hint) == r,
{
    let c = reach_y(cells, hint);
    assert(is_reach_y(cells, hint, c));
}

/// Pairs and triples of `u32` are totally ordered, as the ordered maps used here need.
pub proof fn lemma_keys_ordered()
    ensures
        vstd::laws_cmp::obeys_cmp::<(u32, u32)>(),
        vstd::laws_cmp::obeys_cmp::<(u32, u32, u32)>(),
        vstd::std_specs::btree::key_obeys_cmp_spec::<(u32, u32)>(),
        vstd::std_specs::btree::key_obeys_cmp_spec::<(u32, u32, u32)>(),
{
    broadcast use vstd::laws_cmp::group_laws_cmp;
    broadcast use vstd::std_specs::btree::group_btree_axioms;
    assert(vstd::laws_cmp::obeys_cmp::<(u32, u32)>());
    assert(vstd::laws_cmp::obeys_cmp::<(u32, u32, u32)>());
}

/// Folds the coordinates of `cells` into a pair of hints, keeping the larger each time.
pub fn grow_maxes<V>(cells: &BTreeMap<(u32, u32), V>, hint_x: u32, hint_y: u32) -> (r: (u32, u32))
    ensures
        r.0 == reach_x(cells@, hint_x),
        r.1 == reach_y(cells@, hint_y),
{
    proof {
        lemma_keys_ordered();
    }
    let mut max_x: u32 = hint_x;
    let mut max_y: u32 = hint_y;
    for kv in it: cells.iter()
        invariant
            hint_x <= max_x,
            hint_y <= max_y,
            forall|i: int| 0 <= i < it.index() ==> (*it.seq()[i].0).0 <= max_x,
            forall|i: int| 0 <= i < it.index() ==> (*it.seq()[i].0).1 <= max_y,
            max_x == hint_x || exists|i: int| 0 <= i < it.index() && (*it.seq()[i].0).0 == max_x,
            max_y == hint_y || exists|i: int| 0 <= i < it.index() && (*it.seq()[i].0).1 == max_y,
            forall|i: int| 0 <= i < it.seq().len() ==> cells@.contains_key(*it.seq()[i].0),
            forall|k: (u32, u32)| #[trigger]
                cells@.contains_key(k) ==> exists|i: int|
                    0 <= i < it.seq().len() && *it.seq()[i].0 == k,
    {
        let (k, _v) = kv;
        if k.0 > max_x {
            max_x = k.0;
        }
        if k.1 > max_y {
            max_y = k.1;
        }
    }
    proof {
        assert(is_reach_x(cells@, hint_x, max_x));
        assert(is_reach_y(cells@, hint_y, max_y));
        lemma_reach_x_unique(cells@, hint_x, max_x);
        lemma_reach_y_unique(cells@, hint_y, max_y);
    }
    (max_x, max_y)
}

/// Among coordinates that stay below `bound`, the larger of the hint and all
/// x coordinates exists.
proof fn lemma_reach_x_below<V>(cells: Map<(u32, u32), V>, hint: u32, bound: u32)
    requires
        hint <= bound,
        forall|k: (u32, u32)| #[trigger] cells.contains_key(k) ==> k.0 <= bound,
    ensures
        exists|r: u32| is_reach_x(cells, hint, r),
    decreases bound - hint,
{
    if bound == hint {
        assert(is_reach_x(cells, hint, hint));
    } else if exists|k: (u32, u32)| #[trigger] cells.contains_key(k) && k.0 == bound {
        assert(is_reach_x(cells, hint, bound));
    } else {
        lemma_reach_x_below(cells, hint, (bound - 1) as u32);
    }
}

/// Among coordinates that stay below `bound`, the larger of the hint and all
/// y coordinates exists.
proof fn lemma_reach_y_below<V>(cells: Map<(u32, u32), V>, hint: u32, bound: u32)
    requires
        hint <= bound,
        forall|k: (u32, u32)| #[trigger] cells.contains_key(k) ==> k.1 <= bound,
    ensures
        exists|r: u32| is_reach_y(cells, hint, r),
    decreases bound - hint,
{
    if bound == hint {
        assert(is_reach_y(cells, hint, hint));
    } else if exists|k: (u32, u32)| #[trigger] cells.contains_key(k) && k.1 == bound {
        assert(is_reach_y(cells, hint, bound));
    } else {
        lemma_reach_y_below(cells, hint, (bound - 1) as u32);
    }
}

/// `reach_x` is at least the hint and every x coordinate, and is one of them.
pub proof fn lemma_reach_x<V>(cells: Map<(u32, u32), V>, hint: u32)
    ensures
        is_reach_x(cells, hint, reach_x(cells, hint)),
{
    lemma_reach_x_below(cells, hint, u32::MAX);
}

/// `reach_y` is at least the hint and every y coordinate, and is one of them.
pub proof fn lemma_reach_y<V>(cells: Map<(u32, u32), V>, hint: u32)
    ensures
        is_reach_y(cells, hint, reach_y(cells, hint)),
{
    lemma_reach_y_below(cells, hint, u32::MAX);
}

/// The larger of two coordinates.
pub open spec fn larger(a: u32, b: u32) -> u32 {
    if a >= b {
        a
    } else {
        b
    }
}

/// A value put on a cell grows the reach to the coordinates of that cell,
/// and no further; a reach never shrinks when a cell is filled.
pub proof fn lemma_reach_insert<V>(cells: Map<(u32, u32), V>, hint_x: u32, hint_y: u32, cell: (u32, u32), v: V)
    ensures
        reach_x(cells.insert(cell, v), hint_x) == larger(reach_x(cells, hint_x), cell.0),
        reach_y(cells.insert(cell, v), hint_y) == larger(reach_y(cells, hint_y), cell.1),
{
    let grown = cells.insert(cell, v);
    lemma_reach_x(cells, hint_x);
    lemma_reach_y(cells, hint_y);
    let x = larger(reach_x(cells, hint_x), cell.0);
    let y = larger(reach_y(cells, hint_y), cell.1);
    assert(grown.contains_key(cell));
    assert(is_reach_x(grown, hint_x, x)) by {
        if x != hint_x && x != cell.0 {
            let k = choose|k: (u32, u32)| #[trigger] cells.contains_key(k) && k.0 == x;
            assert(grown.contains_key(k));
        }
    }
    assert(is_reach_y(grown, hint_y, y)) by {
        if y != hint_y && y != cell.1 {
            let k = choose|k: (u32, u32)| #[trigger] cells.contains_key(k) && k.1 == y;
            assert(grown.contains_key(k));
        }
    }
    lemma_reach_x_unique(grown, hint_x, x);
    lemma_reach_y_unique(grown, hint_y, y);
}

/// Emptying a cell whose x coordinate lies strictly inside the reach leaves
/// the reach along x as it was; emptying any cell never grows it.
pub proof fn lemma_reach_x_remove<V>(cells: Map<(u32, u32), V>, hint: u32, cell: (u32, u32))
    ensures
        reach_x(cells.remove(cell), hint) <= reach_x(cells, hint),
        cell.0 < reach_x(cells, hint) ==> reach_x(cells.remove(cell), hint) == reach_x(cells, hint),
{
    let rest = cells.remove(cell);
    lemma_reach_x(cells, hint);
    lemma_reach_x(rest, hint);
    let x = reach_x(cells, hint);
    let r = reach_x(rest, hint);
    if r != hint {
        let k = choose|k: (u32, u32)| #[trigger] rest.contains_key(k) && k.0 == r;
        assert(cells.contains_key(k));
    }
    if cell.0 < x {
        assert(is_reach_x(rest, hint, x)) by {
            if x != hint {
                let k = choose|k: (u32, u32)| #[trigger] cells.contains_key(k) && k.0 == x;
                assert(rest.contains_key(k));
            }
        }
        lemma_reach_x_unique(rest, hint, x);
    }
}

/// Emptying a cell whose y coordinate lies strictly inside the reach leaves
/// the reach along y as it was; emptying any cell never grows it.
pub proof fn lemma_reach_y_remove<V>(cells: Map<(u32, u32), V>, hint: u32, cell: (u32, u32))
    ensures
        reach_y(cells.remove(cell), hint) <= reach_y(cells, hint),
        cell.1 < reach_y(cells, hint) ==> reach_y(cells.remove(cell), hint) == reach_y(cells, hint),
{
    let rest = cells.remove(cell);
    lemma_reach_y(cells, hint);
    lemma_reach_y(rest, hint);
    let y = reach_y(cells, hint);
    let r = reach_y(rest, hint);
    if r != hint {
        let k = choose|k: (u32, u32)| #[trigger] rest.contains_key(k) && k.1 == r;
        assert(cells.contains_key(k));
    }
    if cell.1 < y {
        assert(is_reach_y(rest, hint, y)) by {
            if y != hint {
                let k = choose|k: (u32, u32)| #[trigger] cells.contains_key(k) && k.1 == y;
                assert(rest.contains_key(k));
            }
        }
        lemma_reach_y_unique(rest, hint, y);
    }
}

/// The reach over given cells is the larger of the hint and the reach of
/// those cells over no hint at all.
pub proof fn lemma_reach_x_of_hint<V>(cells: Map<(u32, u32), V>, hint: u32)
    ensures
        reach_x(cells, hint) == larger(hint, reach_x(cells, 0)),
{
    lemma_reach_x(cells, 0);
    let base = reach_x(cells, 0);
    let x = larger(hint, base);
    assert(is_reach_x(cells, hint, x)) by {
        if x != hint {
            let k = choose|k: (u32, u32)| #[trigger] cells.contains_key(k) && k.0 == base;
            assert(cells.contains_key(k) && k.0 == x);
        }
    }
    lemma_reach_x_unique(cells, hint, x);
}

/// The reach over given cells is the larger of the hint and the reach of
/// those cells over no hint at all.
pub proof fn lemma_reach_y_of_hint<V>(cells: Map<(u32, u32), V>, hint: u32)
    ensures
        reach_y(cells, hint) == larger(hint, reach_y(cells, 0)),
{
    lemma_reach_y(cells, 0);
    let base = reach_y(cells, 0);
    let y = larger(hint, base);
    assert(is_reach_y(cells, hint, y)) by {
        if y != hint {
            let k = choose|k: (u32, u32)| #[trigger] cells.contains_key(k) && k.1 == base;
            assert(cells.contains_key(k) && k.1 == y);
        }
    }
    lemma_reach_y_unique(cells, hint, y);
}

} // verus!
