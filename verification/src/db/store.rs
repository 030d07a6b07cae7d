//! What the store holds and what each operation makes of it, as mathematical values.

use vstd::prelude::*;
use crate::db::common::DBErrorView;
use crate::db::engine::ensured;
use crate::db::placements::{cells, compacted, off_cell, owned_by};
use crate::db::records::{max_id, DBCharacter, DBGame, DBMap, DBTileLine, Placement};
use crate::models::{Character, GameView, MapView, Terrain};

verus! {

/// The first element of `rows` that `wanted` accepts, if there is one.
pub open spec fn first_match<S>(rows: Seq<S>, wanted: spec_fn(S) -> bool) -> Option<S>
    decreases rows.len(),
{
    if rows.len() == 0 {
        None
    } else if wanted(rows[0]) {
        Some(rows[0])
    } else {
        first_match(rows.drop_first(), wanted)
    }
}

/// `first_match` finds the element at `i` when that is the first one accepted.
pub proof fn lemma_first_match_at<S>(rows: Seq<S>, wanted: spec_fn(S) -> bool, i: int)
    requires
        0 <= i < rows.len(),
        wanted(rows[i]),
        forall|j: int| 0 <= j < i ==> !wanted(rows[j]),
    ensures
        first_match(rows, wanted) == Some(rows[i]),
    decreases i,
{
    if i > 0 {
        assert(!wanted(rows[0]));
        let rest = rows.drop_first();
        assert(rest[i - 1] == rows[i]);
        assert forall|j: int| 0 <= j < i - 1 implies !wanted(rest[j]) by {
            assert(rest[j] == rows[j + 1]);
        }
        lemma_first_match_at(rest, wanted, i - 1);
    }
}

/// `first_match` finds nothing exactly when no element is accepted.
pub proof fn lemma_first_match_none<S>(rows: Seq<S>, wanted: spec_fn(S) -> bool)
    ensures
        first_match(rows, wanted) is None <==> forall|j: int| 0 <= j < rows.len() ==> !wanted(rows[j]),
        first_match(rows, wanted) is Some ==> wanted(first_match(rows, wanted).unwrap()),
    decreases rows.len(),
{
    if rows.len() > 0 {
        let rest = rows.drop_first();
        lemma_first_match_none(rest, wanted);
        if !wanted(rows[0]) {
            if first_match(rest, wanted) is None {
                assert forall|j: int| 0 <= j < rows.len() implies !wanted(rows[j]) by {
                    if j > 0 {
                        assert(rest[j - 1] == rows[j]);
                    }
                }
            } else {
                let j = choose|j: int| 0 <= j < rest.len() && wanted(rest[j]);
                assert(rows[j + 1] == rest[j]);
            }
        }
    }
}

/// Where `first_match` finds an element, it stands at some index, is
/// accepted, and no element before it is.
pub proof fn lemma_first_match_index<S>(rows: Seq<S>, wanted: spec_fn(S) -> bool) -> (i: int)
    requires
        first_match(rows, wanted) is Some,
    ensures
        0 <= i < rows.len(),
        first_match(rows, wanted) == Some(rows[i]),
        wanted(rows[i]),
        forall|j: int| 0 <= j < i ==> !wanted(rows[j]),
    decreases rows.len(),
{
    if wanted(rows[0]) {
        0
    } else {
        let rest = rows.drop_first();
        let k = lemma_first_match_index(rest, wanted);
        assert(rest[k] == rows[k + 1]);
        assert forall|j: int| 0 <= j < k + 1 implies !wanted(rows[j]) by {
            if j > 0 {
                assert(rest[j - 1] == rows[j]);
            }
        }
        k + 1
    }
}

/// An element that `first_match` finds is still found when a row is added
/// at the end, and a row added at the end is found when no row before it
/// is accepted.
pub proof fn lemma_first_match_push<S>(rows: Seq<S>, wanted: spec_fn(S) -> bool, row: S)
    ensures
        first_match(rows, wanted) is Some ==> first_match(rows.push(row), wanted) == first_match(
            rows,
            wanted,
        ),
        first_match(rows, wanted) is None && wanted(row) ==> first_match(rows.push(row), wanted)
            == Some(row),
{
    let longer = rows.push(row);
    lemma_first_match_none(rows, wanted);
    if first_match(rows, wanted) is Some {
        let i = lemma_first_match_index(rows, wanted);
        assert(longer[i] == rows[i]);
        assert forall|j: int| 0 <= j < i implies !wanted(longer[j]) by {
            assert(longer[j] == rows[j]);
        }
        lemma_first_match_at(longer, wanted, i);
    } else if wanted(row) {
        let n = rows.len() as int;
        assert(longer[n] == row);
        assert forall|j: int| 0 <= j < n implies !wanted(longer[j]) by {
            assert(longer[j] == rows[j]);
        }
        lemma_first_match_at(longer, wanted, n);
    }
}

/// The map rows with the given id.
pub open spec fn map_row_has_id(id: u32) -> spec_fn(DBMap) -> bool {
    |m: DBMap| m.id == id
}

/// The game rows with the given id.
pub open spec fn game_row_has_id(id: u32) -> spec_fn(DBGame) -> bool {
    |g: DBGame| g.id == id
}

/// The maps with the given id.
pub open spec fn map_has_id(id: u32) -> spec_fn(MapView) -> bool {
    |m: MapView| m.id == id
}

/// The games with the given id.
pub open spec fn game_has_id(id: u32) -> spec_fn(GameView) -> bool {
    |g: GameView| g.id == id
}

/// The error of a lookup that found no record of the kind named.
pub open spec fn missing(kind: Seq<char>) -> DBErrorView {
    DBErrorView::FindingRecord(kind)
}

/// The map that a map row and its tile rows describe.
pub open spec fn map_view_from_db(m: DBMap, tiles: Seq<DBTileLine>) -> MapView {
    MapView {
        id: m.id,
        default_terrain: m.default_terrain,
        specified_terrain: cells(tiles),
        hint_max_x: m.hint_max_x,
        hint_max_y: m.hint_max_y,
    }
}

/// The game that a game row, its map row, the map's tile rows and the game's
/// character rows describe.
pub open spec fn game_view_from_db(
    g: DBGame,
    m: DBMap,
    tiles: Seq<DBTileLine>,
    characters: Seq<DBCharacter>,
) -> GameView {
    GameView {
        id: g.id,
        map: map_view_from_db(m, tiles),
        characters: cells(characters),
        current_selection: (g.cursor_x, g.cursor_y),
    }
}

/// The map row that a new game gets, with the given id.
pub open spec fn fresh_map(id: u32) -> DBMap {
    DBMap { id, default_terrain: Terrain::Grass, hint_max_x: 15, hint_max_y: 12 }
}

/// The game row that a new game gets, with the given id and map.
pub open spec fn fresh_game(id: u32, map_id: u32) -> DBGame {
    DBGame { id, map_id, cursor_x: 0, cursor_y: 0 }
}

/// A game row with its cursor moved to `cursor` if it has the id `id`.
pub open spec fn with_cursor(id: u32, cursor: (u32, u32)) -> spec_fn(DBGame) -> DBGame {
    |g: DBGame|
        if g.id == id {
            DBGame { cursor_x: cursor.0, cursor_y: cursor.1, ..g }
        } else {
            g
        }
}

/// The four tables of the store, each as its rows in order or its error.
pub struct DBView {
    pub games: Result<Seq<DBGame>, DBErrorView>,
    pub maps: Result<Seq<DBMap>, DBErrorView>,
    pub tiles: Result<Seq<DBTileLine>, DBErrorView>,
    pub characters: Result<Seq<DBCharacter>, DBErrorView>,
}

impl DBView {
    /// The store after each of its tables was made sure to exist.
    pub open spec fn ensured(self) -> DBView {
        DBView {
            games: ensured(self.games),
            maps: ensured(self.maps),
            tiles: ensured(self.tiles),
            characters: ensured(self.characters),
        }
    }

    /// The map row with the given id: the first one, where several share it.
    pub open spec fn db_map(self, map_id: u32) -> Result<DBMap, DBErrorView> {
        match self.maps {
            Err(e) => Err(e),
            Ok(rows) => match first_match(rows, map_row_has_id(map_id)) {
                Some(m) => Ok(m),
                None => Err(missing("maps"@)),
            },
        }
    }

    /// The tile rows of one map, in table order.
    pub open spec fn tiles_of(self, map_id: u32) -> Result<Seq<DBTileLine>, DBErrorView> {
        match self.tiles {
            Err(e) => Err(e),
            Ok(rows) => Ok(rows.filter(owned_by(map_id))),
        }
    }

    /// The character rows of one game, in table order.
    pub open spec fn characters_of(self, game_id: u32) -> Result<Seq<DBCharacter>, DBErrorView> {
        match self.characters {
            Err(e) => Err(e),
            Ok(rows) => Ok(rows.filter(owned_by(game_id))),
        }
    }

    /// The map that a map row stands for, with its tiles.
    pub open spec fn map_of(self, m: DBMap) -> Result<MapView, DBErrorView> {
        match self.tiles_of(m.id) {
            Err(e) => Err(e),
            Ok(tiles) => Ok(map_view_from_db(m, tiles)),
        }
    }

    /// The maps that the first rows of the maps table stand for, or the first
    /// error met on the way.
    pub open spec fn maps_from(self, rows: Seq<DBMap>) -> Result<Seq<MapView>, DBErrorView>
        decreases rows.len(),
    {
        if rows.len() == 0 {
            Ok(Seq::empty())
        } else {
            match self.maps_from(rows.drop_last()) {
                Err(e) => Err(e),
                Ok(front) => match self.map_of(rows.last()) {
                    Err(e) => Err(e),
                    Ok(m) => Ok(front.push(m)),
                },
            }
        }
    }

    /// Every map, in table order.
    pub open spec fn get_maps(self) -> Result<Seq<MapView>, DBErrorView> {
        match self.maps {
            Err(e) => Err(e),
            Ok(rows) => self.maps_from(rows),
        }
    }

    /// The map with the given id.
    pub open spec fn get_map(self, map_id: u32) -> Result<MapView, DBErrorView> {
        match self.get_maps() {
            Err(e) => Err(e),
            Ok(maps) => match first_match(maps, map_has_id(map_id)) {
                Some(m) => Ok(m),
                None => Err(missing("maps"@)),
            },
        }
    }

    /// The game that a game row stands for: its map is looked up first, then
    /// the map's tiles, then the game's characters.
    pub open spec fn game_of(self, g: DBGame) -> Result<GameView, DBErrorView> {
        match self.db_map(g.map_id) {
            Err(e) => Err(e),
            Ok(m) => match self.tiles_of(m.id) {
                Err(e) => Err(e),
                Ok(tiles) => match self.characters_of(g.id) {
                    Err(e) => Err(e),
                    Ok(characters) => Ok(game_view_from_db(g, m, tiles, characters)),
                },
            },
        }
    }

    /// The games that the given game rows stand for, or the first error met
    /// on the way.
    pub open spec fn games_from(self, rows: Seq<DBGame>) -> Result<Seq<GameView>, DBErrorView>
        decreases rows.len(),
    {
        if rows.len() == 0 {
            Ok(Seq::empty())
        } else {
            match self.games_from(rows.drop_last()) {
                Err(e) => Err(e),
                Ok(front) => match self.game_of(rows.last()) {
                    Err(e) => Err(e),
                    Ok(g) => Ok(front.push(g)),
                },
            }
        }
    }

    /// Every game, in table order.
    pub open spec fn get_games(self) -> Result<Seq<GameView>, DBErrorView> {
        match self.games {
            Err(e) => Err(e),
            Ok(rows) => self.games_from(rows),
        }
    }

    /// The game with the given id.
    pub open spec fn get_game(self, game_id: u32) -> Result<GameView, DBErrorView> {
        match self.get_games() {
            Err(e) => Err(e),
            Ok(games) => match first_match(games, game_has_id(game_id)) {
                Some(g) => Ok(g),
                None => Err(missing("games"@)),
            },
        }
    }

    /// Whether a new map row can be given an id.
    pub open spec fn map_id_fits(self) -> bool {
        self.maps is Ok ==> max_id(self.maps->Ok_0) < u32::MAX
    }

    /// Whether a new game, with its map, can be given ids.
    pub open spec fn game_id_fits(self) -> bool {
        &&& self.map_id_fits()
        &&& self.maps is Ok && self.games is Ok ==> max_id(self.games->Ok_0) < u32::MAX
    }

    /// Whether a new tile row for the given game can be given an id.
    pub open spec fn tile_id_fits(self, game_id: u32) -> bool {
        self.tiles is Ok && self.get_game(game_id) is Ok ==> max_id(self.tiles->Ok_0) < u32::MAX
    }

    /// Whether a new character row for the given game can be given an id.
    pub open spec fn character_id_fits(self, game_id: u32) -> bool {
        self.characters is Ok && self.get_game(game_id) is Ok ==> max_id(self.characters->Ok_0)
            < u32::MAX
    }

    /// Whether every table that can be read has an id left for a new row.
    pub open spec fn ids_left(self) -> bool {
        &&& self.games is Ok ==> max_id(self.games->Ok_0) < u32::MAX
        &&& self.maps is Ok ==> max_id(self.maps->Ok_0) < u32::MAX
        &&& self.tiles is Ok ==> max_id(self.tiles->Ok_0) < u32::MAX
        &&& self.characters is Ok ==> max_id(self.characters->Ok_0) < u32::MAX
    }

    /// Adding a map row: it gets the next id, grass everywhere and the
    /// default size hints.
    pub open spec fn add_db_map(self) -> (Result<DBMap, DBErrorView>, DBView) {
        match self.maps {
            Err(e) => (Err(e), self),
            Ok(rows) => {
                let m = fresh_map((max_id(rows) + 1) as u32);
                (Ok(m), DBView { maps: Ok(rows.push(m)), ..self })
            },
        }
    }

    /// Adding a game: a map row is added first, then a game row with the next
    /// game id, that map and the cursor at the origin. Where the games table
    /// cannot be read the new map row stays.
    pub open spec fn add_game(self) -> (Result<(), DBErrorView>, DBView) {
        match self.add_db_map() {
            (Err(e), _) => (Err(e), self),
            (Ok(m), with_map) => match with_map.games {
                Err(e) => (Err(e), with_map),
                Ok(rows) => (
                    Ok(()),
                    DBView {
                        games: Ok(rows.push(fresh_game((max_id(rows) + 1) as u32, m.id))),
                        ..with_map
                    },
                ),
            },
        }
    }

    /// Moving the cursor of every game row with the given id.
    pub open spec fn update_game_cursor(self, id: u32, cursor: (u32, u32)) -> (
        Result<(), DBErrorView>,
        DBView,
    ) {
        match self.games {
            Err(e) => (Err(e), self),
            Ok(rows) => (Ok(()), DBView { games: Ok(rows.map_values(with_cursor(id, cursor))), ..self }),
        }
    }

    /// The tile row that putting `terrain` under the cursor of `g` adds.
    pub open spec fn new_tile(self, g: GameView, terrain: Terrain) -> DBTileLine {
        Placement {
            id: (max_id(self.tiles->Ok_0) + 1) as u32,
            owner_id: g.map.id,
            value: terrain,
            x: g.current_selection.0,
            y: g.current_selection.1,
        }
    }

    /// The character row that putting `character` under the cursor of `g` adds.
    pub open spec fn new_character(self, g: GameView, character: Character) -> DBCharacter {
        Placement {
            id: (max_id(self.characters->Ok_0) + 1) as u32,
            owner_id: g.id,
            value: character,
            x: g.current_selection.0,
            y: g.current_selection.1,
        }
    }

    /// Putting a terrain on the cell under a game's cursor: the tiles table is
    /// read, then the game; the new row is appended and the table compacted.
    pub open spec fn update_game_terrain(self, game_id: u32, terrain: Terrain) -> (
        Result<(), DBErrorView>,
        DBView,
    ) {
        match self.tiles {
            Err(e) => (Err(e), self),
            Ok(rows) => match self.get_game(game_id) {
                Err(e) => (Err(e), self),
                Ok(g) => (
                    Ok(()),
                    DBView { tiles: Ok(compacted(rows.push(self.new_tile(g, terrain)))), ..self },
                ),
            },
        }
    }

    /// Putting a character on the cell under a game's cursor: the characters
    /// table is read, then the game; the new row is appended and the table
    /// compacted.
    pub open spec fn update_game_character(self, game_id: u32, character: Character) -> (
        Result<(), DBErrorView>,
        DBView,
    ) {
        match self.characters {
            Err(e) => (Err(e), self),
            Ok(rows) => match self.get_game(game_id) {
                Err(e) => (Err(e), self),
                Ok(g) => (
                    Ok(()),
                    DBView {
                        characters: Ok(compacted(rows.push(self.new_character(g, character)))),
                        ..self
                    },
                ),
            },
        }
    }

    /// Clearing the terrain override under a game's cursor: every tile row of
    /// that cell of the game's map leaves the table.
    pub open spec fn unset_game_terrain(self, game_id: u32) -> (Result<(), DBErrorView>, DBView) {
        match self.tiles {
            Err(e) => (Err(e), self),
            Ok(rows) => match self.get_game(game_id) {
                Err(e) => (Err(e), self),
                Ok(g) => (
                    Ok(()),
                    DBView {
                        tiles: Ok(
                            rows.filter(
                                off_cell((g.map.id, g.current_selection.0, g.current_selection.1)),
                            ),
                        ),
                        ..self
                    },
                ),
            },
        }
    }

    /// Clearing the character under a game's cursor: every character row of
    /// that cell of the game leaves the table.
    pub open spec fn unset_game_character(self, game_id: u32) -> (Result<(), DBErrorView>, DBView) {
        match self.characters {
            Err(e) => (Err(e), self),
            Ok(rows) => match self.get_game(game_id) {
                Err(e) => (Err(e), self),
                Ok(g) => (
                    Ok(()),
                    DBView {
                        characters: Ok(
                            rows.filter(
                                off_cell((g.id, g.current_selection.0, g.current_selection.1)),
                            ),
                        ),
                        ..self
                    },
                ),
            },
        }
    }
}

} // verus!
