//! What a page shows of a map or a game: image names and the grid of cells.

use std::collections::BTreeMap;
use vstd::prelude::*;
use crate::extent::lemma_keys_ordered;
use crate::models::{Character, Game, MapView, Terrain, TileMap};

verus! {

/// `vec` with the value of `maybe` at its end, if it has one.
pub fn maybe_append<T>(mut vec: Vec<T>, maybe: Option<T>) -> (r: Vec<T>)
    ensures
        r@ == match maybe {
            Some(v) => vec@.push(v),
            None => vec@,
        },
{
    match maybe {
        Some(v) => {
            vec.push(v);
            vec
        },
        None => vec,
    }
}

impl Terrain {
    /// The name of the image that shows this terrain, without its extension.
    pub fn image_name(&self) -> (r: String)
        ensures
            r@ == self.token(),
    {
        match self {
            Terrain::Grass => "grass".to_owned(),
            Terrain::Dirt => "dirt".to_owned(),
            Terrain::Rock => "rock".to_owned(),
        }
    }
}

impl Character {
    /// The name of the image that shows this character, without its extension.
    pub fn image_name(&self) -> (r: String)
        ensures
            r@ == self.token(),
    {
        match self {
            Character::Knight => "knight".to_owned(),
            Character::Mage => "mage".to_owned(),
            Character::Thief => "thief".to_owned(),
        }
    }
}

/// What one cell of the grid shows.
#[derive(Debug, Clone, Copy, PartialEq, Eq)]
pub struct GridCell {
    pub terrain: Terrain,
    pub character: Option<Character>,
    pub selected: bool,
}

/// What the cell `(x, y)` shows: the terrain of the map there, the character
/// that stands there, and whether the selection is on it.
pub open spec fn cell_at(
    map: MapView,
    characters: Map<(u32, u32), Character>,
    selection: Option<(u32, u32)>,
    x: u32,
    y: u32,
) -> GridCell {
    GridCell {
        terrain: map.at((x, y)),
        character: if characters.contains_key((x, y)) {
            Some(characters[(x, y)])
        } else {
            None
        },
        selected: selection == Some((x, y)),
    }
}

/// Whether `rows` is the grid of the given size, top row first: row `r`
/// holds the cells with `y == max_y - 1 - r`, from `x == 0` on.
pub open spec fn is_grid(
    rows: Seq<Vec<GridCell>>,
    map: MapView,
    characters: Map<(u32, u32), Character>,
    selection: Option<(u32, u32)>,
    max_x: u32,
    max_y: u32,
) -> bool {
    &&& rows.len() == max_y
    &&& forall|r: int| 0 <= r < rows.len() ==> (#[trigger] rows[r]).len() == max_x
    &&& forall|r: int, x: int|
        0 <= r < max_y && 0 <= x < max_x ==> (#[trigger] rows[r][x]) == cell_at(
            map,
            characters,
            selection,
            x as u32,
            (max_y - 1 - r) as u32,
        )
}

/// The grid of the given size, top row first.
pub fn grid_rows(
    map: &TileMap,
    characters: &BTreeMap<(u32, u32), Character>,
    selection: Option<(u32, u32)>,
    max_x: u32,
    max_y: u32,
) -> (rows: Vec<Vec<GridCell>>)
    ensures
        is_grid(rows@, map@, characters@, selection, max_x, max_y),
{
    let mut rows: Vec<Vec<GridCell>> = Vec::new();
    let mut r: u32 = 0;
    while r < max_y
        invariant
            r <= max_y,
            rows.len() == r,
            forall|k: int| 0 <= k < r ==> (#[trigger] rows@[k]).len() == max_x,
            forall|k: int, x: int|
                0 <= k < r && 0 <= x < max_x ==> (#[trigger] rows@[k][x]) == cell_at(
                    map@,
                    characters@,
                    selection,
                    x as u32,
                    (max_y - 1 - k) as u32,
                ),
        decreases max_y - r,
    {
        let y: u32 = max_y - 1 - r;
        let mut row: Vec<GridCell> = Vec::new();
        let mut x: u32 = 0;
        while x < max_x
            invariant
                x <= max_x,
                row.len() == x,
                forall|i: int|
                    0 <= i < x ==> (#[trigger] row@[i]) == cell_at(
                        map@,
                        characters@,
                        selection,
                        i as u32,
                        y,
                    ),
            decreases max_x - x,
        {
            proof {
                lemma_keys_ordered();
            }
            let here = (x, y);
            let character = match characters.get(&here) {
                Some(c) => Some(*c),
                None => None,
            };
            let selected = match selection {
                Some(s) => s.0 == x && s.1 == y,
                None => false,
            };
            row.push(GridCell { terrain: map.at(&here), character, selected });
            x += 1;
        }
        rows.push(row);
        r += 1;
    }
    rows
}

impl TileMap {
    /// The grid of this map alone, top row first: no characters, no selection.
    pub fn grid(&self) -> (rows: Vec<Vec<GridCell>>)
        ensures
            is_grid(rows@, self@, Map::empty(), None, self@.maxes().0, self@.maxes().1),
    {
        let (max_x, max_y) = self.maxes();
        let none: BTreeMap<(u32, u32), Character> = BTreeMap::new();
        grid_rows(self, &none, None, max_x, max_y)
    }
}

impl Game {
    /// The grid of this game, top row first, with its characters and its selection.
    pub fn grid(&self) -> (rows: Vec<Vec<GridCell>>)
        ensures
            is_grid(
                rows@,
                self@.map,
                self@.characters,
                Some(self@.current_selection),
                self@.maxes().0,
                self@.maxes().1,
            ),
    {
        let (max_x, max_y) = self.maxes();
        grid_rows(&self.map, &self.characters, Some(self.current_selection), max_x, max_y)
    }
}

} // verus!
