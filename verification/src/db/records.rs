//! The rows of the four tables.

use vstd::prelude::*;
use crate::models::{Character, Terrain};

verus! {

/// A row with a numeric id.
pub trait Row: Copy {
    /// The id of this row.
    spec fn row_id(&self) -> u32;

    /// The id of this row.
    fn id_of(&self) -> (r: u32)
        ensures
            r == self.row_id(),
    ;
}

/// A row of the games table.
#[derive(Debug, Clone, Copy, PartialEq, Eq)]
pub struct DBGame {
    pub id: u32,
    pub map_id: u32,
    pub cursor_x: u32,
    pub cursor_y: u32,
}

/// A row of the maps table.
#[derive(Debug, Clone, Copy, PartialEq, Eq)]
pub struct DBMap {
    pub id: u32,
    pub default_terrain: Terrain,
    pub hint_max_x: u32,
    pub hint_max_y: u32,
}

/// A row that puts a value on one cell of one owner's grid.
///
/// For a tile override the owner is a map and the value a terrain; for a
/// character placement the owner is a game and the value a character.
#[derive(Debug, PartialEq, Eq)]
pub struct Placement<V> {
    pub id: u32,
    pub owner_id: u32,
    pub value: V,
    pub x: u32,
    pub y: u32,
}

impl<V: Copy> Clone for Placement<V> {
    fn clone(&self) -> (r: Self)
        ensures
            r == *self,
    {
        *self
    }
}

impl<V: Copy> Copy for Placement<V> {

}

/// A row of the tiles table: a terrain override on a cell of a map.
pub type DBTileLine = Placement<Terrain>;

/// A row of the characters table: a character on a cell of a game.
pub type DBCharacter = Placement<Character>;

impl Row for DBGame {
    open spec fn row_id(&self) -> u32 {
        self.id
    }

    fn id_of(&self) -> (r: u32) {
        self.id
    }
}

impl Row for DBMap {
    open spec fn row_id(&self) -> u32 {
        self.id
    }

    fn id_of(&self) -> (r: u32) {
        self.id
    }
}

impl<V: Copy> Row for Placement<V> {
    open spec fn row_id(&self) -> u32 {
        self.id
    }

    fn id_of(&self) -> (r: u32) {
        self.id
    }
}

impl<V> Placement<V> {
    /// The owner and cell of this placement: what at most one live row may share.
    pub open spec fn key(self) -> (u32, u32, u32) {
        (self.owner_id, self.x, self.y)
    }
}

/// The largest id among `rows`, or 0 where there are none.
pub open spec fn max_id<S: Row>(rows: Seq<S>) -> u32
    decreases rows.len(),
{
    if rows.len() == 0 {
        0
    } else {
        let rest = max_id(rows.drop_last());
        if rows.last().row_id() > rest {
            rows.last().row_id()
        } else {
            rest
        }
    }
}

/// The id that the next row added to `rows` gets: one more than the largest.
pub open spec fn next_id<S: Row>(rows: Seq<S>) -> int {
    max_id(rows) + 1
}

/// `max_id` is an upper bound of the ids, and is one of them unless there are none.
pub proof fn lemma_max_id<S: Row>(rows: Seq<S>)
    ensures
        forall|i: int| 0 <= i < rows.len() ==> (#[trigger] rows[i]).row_id() <= max_id(rows),
        rows.len() == 0 ==> max_id(rows) == 0,
        rows.len() > 0 ==> exists|i: int| 0 <= i < rows.len() && (#[trigger] rows[i]).row_id() == max_id(rows),
    decreases rows.len(),
{
    if rows.len() > 0 {
        let front = rows.drop_last();
        lemma_max_id(front);
        assert forall|i: int| 0 <= i < rows.len() implies (#[trigger] rows[i]).row_id() <= max_id(
            rows,
        ) by {
            if i < front.len() {
                assert(front[i] == rows[i]);
            }
        }
        if rows.last().row_id() > max_id(front) || front.len() == 0 {
            assert(rows[rows.len() - 1].row_id() == max_id(rows));
        } else {
            let i = choose|i: int| 0 <= i < front.len() && (#[trigger] front[i]).row_id() == max_id(front);
            assert(rows[i] == front[i]);
        }
    }
}

/// The id that a new row gets is used by no row already there.
pub proof fn lemma_next_id_fresh<S: Row>(rows: Seq<S>)
    ensures
        forall|i: int| 0 <= i < rows.len() ==> (#[trigger] rows[i]).row_id() != next_id(rows),
        rows.len() == 0 ==> next_id(rows) == 1,
{
    lemma_max_id(rows);
}

/// The largest id among `rows`, or 0 where there are none.
pub fn largest_id<S: Row>(rows: &Vec<S>) -> (r: u32)
    ensures
        r == max_id(rows@),
{
    let mut best: u32 = 0;
    let mut i: usize = 0;
    while i < rows.len()
        invariant
            i <= rows.len(),
            best == max_id(rows@.take(i as int)),
        decreases rows.len() - i,
    {
        proof {
            assert(rows@.take(i + 1).drop_last() =~= rows@.take(i as int));
        }
        let id = rows[i].id_of();
        if id > best {
            best = id;
        }
        i += 1;
    }
    proof {
        assert(rows@.take(rows.len() as int) =~= rows@);
    }
    best
}

/// A copy of the rows of a table, in the same order.
pub fn copy_rows<S: Copy>(rows: &Vec<S>) -> (r: Vec<S>)
    ensures
        r@ == rows@,
{
    let mut out: Vec<S> = Vec::new();
    let mut i: usize = 0;
    while i < rows.len()
        invariant
            i <= rows.len(),
            out@ == rows@.take(i as int),
        decreases rows.len() - i,
    {
        out.push(rows[i]);
        proof {
            assert(out@ =~= rows@.take(i + 1));
        }
        i += 1;
    }
    proof {
        assert(rows@.take(rows.len() as int) =~= rows@);
    }
    out
}

} // verus!
