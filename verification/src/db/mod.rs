//! The entity store: four tables of rows and the operations on them.

pub mod common;
pub mod consistency;
pub mod engine;
pub mod laws;
pub mod placements;
pub mod records;
pub mod store;

use vstd::prelude::*;
use crate::db::common::{DBError, DBErrorView};
use crate::db::engine::{outcome_rows, Engine};
use crate::db::placements::{collect_cells, compact, rows_of_owner, rows_off_cell};
use crate::db::records::{largest_id, max_id, DBCharacter, DBGame, DBMap, DBTileLine, Placement};
use crate::db::store::{
    game_has_id, game_view_from_db, lemma_first_match_at, lemma_first_match_none,
    map_has_id, map_row_has_id, map_view_from_db, missing, with_cursor, DBView,
};
use crate::models::{Character, Game, GameView, MapView, Terrain, TileMap};

verus! {

/// The store: the games, maps, tiles and characters tables.
pub struct DB {
    pub games: Engine<DBGame>,
    pub maps: Engine<DBMap>,
    pub tiles: Engine<DBTileLine>,
    pub characters: Engine<DBCharacter>,
}

impl View for DB {
    type V = DBView;

    open spec fn view(&self) -> DBView {
        DBView {
            games: self.games@,
            maps: self.maps@,
            tiles: self.tiles@,
            characters: self.characters@,
        }
    }
}

/// A result with its error as mathematical text.
pub open spec fn outcome<T>(r: Result<T, DBError>) -> Result<T, DBErrorView> {
    match r {
        Ok(v) => Ok(v),
        Err(e) => Err(e@),
    }
}

/// The maps of a sequence, each as mathematical values.
pub open spec fn map_views(maps: Seq<TileMap>) -> Seq<MapView> {
    Seq::new(maps.len(), |i: int| maps[i]@)
}

/// The games of a sequence, each as mathematical values.
pub open spec fn game_views(games: Seq<Game>) -> Seq<GameView> {
    Seq::new(games.len(), |i: int| games[i]@)
}

/// A map or an error, as mathematical values.
pub open spec fn outcome_map(r: Result<TileMap, DBError>) -> Result<MapView, DBErrorView> {
    match r {
        Ok(m) => Ok(m@),
        Err(e) => Err(e@),
    }
}

/// A game or an error, as mathematical values.
pub open spec fn outcome_game(r: Result<Game, DBError>) -> Result<GameView, DBErrorView> {
    match r {
        Ok(g) => Ok(g@),
        Err(e) => Err(e@),
    }
}

/// Maps or an error, as mathematical values.
pub open spec fn outcome_maps(r: Result<Vec<TileMap>, DBError>) -> Result<Seq<MapView>, DBErrorView> {
    match r {
        Ok(maps) => Ok(map_views(maps@)),
        Err(e) => Err(e@),
    }
}

/// Games or an error, as mathematical values.
pub open spec fn outcome_games(r: Result<Vec<Game>, DBError>) -> Result<Seq<GameView>, DBErrorView> {
    match r {
        Ok(games) => Ok(game_views(games@)),
        Err(e) => Err(e@),
    }
}

/// An error met while the first rows are turned into maps is the error of the whole.
pub proof fn lemma_maps_from_error(db: DBView, rows: Seq<DBMap>, n: int)
    requires
        0 <= n <= rows.len(),
        db.maps_from(rows.take(n)) is Err,
    ensures
        db.maps_from(rows) == db.maps_from(rows.take(n)),
    decreases rows.len(),
{
    if n == rows.len() {
        assert(rows.take(n) =~= rows);
    } else {
        assert(rows.drop_last().take(n) =~= rows.take(n));
        lemma_maps_from_error(db, rows.drop_last(), n);
    }
}

/// An error met while the first rows are turned into games is the error of the whole.
pub proof fn lemma_games_from_error(db: DBView, rows: Seq<DBGame>, n: int)
    requires
        0 <= n <= rows.len(),
        db.games_from(rows.take(n)) is Err,
    ensures
        db.games_from(rows) == db.games_from(rows.take(n)),
    decreases rows.len(),
{
    if n == rows.len() {
        assert(rows.take(n) =~= rows);
    } else {
        assert(rows.drop_last().take(n) =~= rows.take(n));
        lemma_games_from_error(db, rows.drop_last(), n);
    }
}

impl DB {
    /// A store whose four tables exist and are empty.
    pub fn new() -> (r: DB)
        ensures
            r@.games == Ok::<Seq<DBGame>, DBErrorView>(Seq::empty()),
            r@.maps == Ok::<Seq<DBMap>, DBErrorView>(Seq::empty()),
            r@.tiles == Ok::<Seq<DBTileLine>, DBErrorView>(Seq::empty()),
            r@.characters == Ok::<Seq<DBCharacter>, DBErrorView>(Seq::empty()),
    {
        DB {
            games: Engine::new(),
            maps: Engine::new(),
            tiles: Engine::new(),
            characters: Engine::new(),
        }
    }

    /// Makes sure that every table exists: those that could not be found
    /// are created empty.
    pub fn ensure_tables(&mut self)
        ensures
            final(self)@ == old(self)@.ensured(),
    {
        self.games.ensure_table();
        self.maps.ensure_table();
        self.tiles.ensure_table();
        self.characters.ensure_table();
    }

    /// Every game, in table order, each with its map and characters; or the
    /// first error met while reading.
    pub fn get_games(&self) -> (r: Result<Vec<Game>, DBError>)
        ensures
            outcome_games(r) == self@.get_games(),
    {
        let rows = match self.read_db_games() {
            Ok(rows) => rows,
            Err(e) => {
                return Err(e);
            },
        };
        let mut out: Vec<Game> = Vec::new();
        let mut i: usize = 0;
        proof {
            assert(game_views(out@) =~= Seq::<GameView>::empty());
        }
        while i < rows.len()
            invariant
                i <= rows.len(),
                self@.games == Ok::<Seq<DBGame>, DBErrorView>(rows@),
                self@.games_from(rows@.take(i as int)) == Ok::<Seq<GameView>, DBErrorView>(
                    game_views(out@),
                ),
            decreases rows.len() - i,
        {
            let x = rows[i];
            proof {
                assert(rows@.take(i + 1).drop_last() =~= rows@.take(i as int));
                assert(rows@.take(i + 1).last() == x);
            }
            let map = match self.get_db_map(x.map_id) {
                Ok(map) => map,
                Err(e) => {
                    proof {
                        lemma_games_from_error(self@, rows@, i + 1);
                    }
                    return Err(e);
                },
            };
            let tiles = match self.read_db_tile_lines_for_map_id(map.id) {
                Ok(tiles) => tiles,
                Err(e) => {
                    proof {
                        lemma_games_from_error(self@, rows@, i + 1);
                    }
                    return Err(e);
                },
            };
            let characters = match self.read_db_characters_for_game_id(x.id) {
                Ok(characters) => characters,
                Err(e) => {
                    proof {
                        lemma_games_from_error(self@, rows@, i + 1);
                    }
                    return Err(e);
                },
            };
            let ghost before = out@;
            let game = game_model_from_db(x, map, tiles, characters);
            out.push(game);
            proof {
                assert(game_views(out@) =~= game_views(before).push(game@));
            }
            i += 1;
        }
        proof {
            assert(rows@.take(rows.len() as int) =~= rows@);
        }
        Ok(out)
    }

    /// The first game with the given id.
    pub fn get_game(&self, game_id: u32) -> (r: Result<Game, DBError>)
        ensures
            outcome_game(r) == self@.get_game(game_id),
    {
        let games = match self.get_games() {
            Ok(games) => games,
            Err(e) => {
                return Err(e);
            },
        };
        let ghost all = games@;
        let found = |game: &Game| -> (b: bool)
            ensures
                b == (game.id == game_id),
            { game.id == game_id };
        let r = get_single_result(games, found, "games");
        proof {
            let views = game_views(all);
            match &r {
                Ok(x) => {
                    let i = choose|i: int|
                        0 <= i < all.len() && *x == all[i] && call_ensures(found, (&all[i],), true)
                            && forall|j: int| 0 <= j < i ==> call_ensures(found, (&all[j],), false);
                    assert forall|j: int| 0 <= j < i implies !game_has_id(game_id)(views[j]) by {
                        assert(call_ensures(found, (&all[j],), false));
                    }
                    lemma_first_match_at(views, game_has_id(game_id), i);
                },
                Err(e) => {
                    assert forall|j: int| 0 <= j < views.len() implies !game_has_id(game_id)(
                        views[j],
                    ) by {
                        assert(call_ensures(found, (&all[j],), false));
                    }
                    lemma_first_match_none(views, game_has_id(game_id));
                },
            }
        }
        r
    }

    /// Every row of the games table.
    pub fn read_db_games(&self) -> (r: Result<Vec<DBGame>, DBError>)
        ensures
            outcome_rows(r) == self@.games,
    {
        self.games.read_db_records()
    }

    /// Every map, in table order, each with its tiles; or the first error met
    /// while reading.
    pub fn get_maps(&self) -> (r: Result<Vec<TileMap>, DBError>)
        ensures
            outcome_maps(r) == self@.get_maps(),
    {
        let rows = match self.read_db_maps() {
            Ok(rows) => rows,
            Err(e) => {
                return Err(e);
            },
        };
        let mut out: Vec<TileMap> = Vec::new();
        let mut i: usize = 0;
        proof {
            assert(map_views(out@) =~= Seq::<MapView>::empty());
        }
        while i < rows.len()
            invariant
                i <= rows.len(),
                self@.maps == Ok::<Seq<DBMap>, DBErrorView>(rows@),
                self@.maps_from(rows@.take(i as int)) == Ok::<Seq<MapView>, DBErrorView>(
                    map_views(out@),
                ),
            decreases rows.len() - i,
        {
            let map = rows[i];
            proof {
                assert(rows@.take(i + 1).drop_last() =~= rows@.take(i as int));
                assert(rows@.take(i + 1).last() == map);
            }
            let tiles = match self.read_db_tile_lines_for_map_id(map.id) {
                Ok(tiles) => tiles,
                Err(e) => {
                    proof {
                        lemma_maps_from_error(self@, rows@, i + 1);
                    }
                    return Err(e);
                },
            };
            let ghost before = out@;
            let model = map_model_from_db(map, tiles);
            out.push(model);
            proof {
                assert(map_views(out@) =~= map_views(before).push(model@));
            }
            i += 1;
        }
        proof {
            assert(rows@.take(rows.len() as int) =~= rows@);
        }
        Ok(out)
    }

    /// The first map with the given id.
    pub fn get_map(&self, map_id: u32) -> (r: Result<TileMap, DBError>)
        ensures
            outcome_map(r) == self@.get_map(map_id),
    {
        let maps = match self.get_maps() {
            Ok(maps) => maps,
            Err(e) => {
                return Err(e);
            },
        };
        let ghost all = maps@;
        let found = |record: &TileMap| -> (b: bool)
            ensures
                b == (record.id == map_id),
            { record.id == map_id };
        let r = get_single_result(maps, found, "maps");
        proof {
            let views = map_views(all);
            match &r {
                Ok(x) => {
                    let i = choose|i: int|
                        0 <= i < all.len() && *x == all[i] && call_ensures(found, (&all[i],), true)
                            && forall|j: int| 0 <= j < i ==> call_ensures(found, (&all[j],), false);
                    assert forall|j: int| 0 <= j < i implies !map_has_id(map_id)(views[j]) by {
                        assert(call_ensures(found, (&all[j],), false));
                    }
                    lemma_first_match_at(views, map_has_id(map_id), i);
                },
                Err(e) => {
                    assert forall|j: int| 0 <= j < views.len() implies !map_has_id(map_id)(
                        views[j],
                    ) by {
                        assert(call_ensures(found, (&all[j],), false));
                    }
                    lemma_first_match_none(views, map_has_id(map_id));
                },
            }
        }
        r
    }

    /// Adds a game with a map of its own. Both get the next free id of their table.
    pub fn add_game(&mut self) -> (r: Result<(), DBError>)
        requires
            old(self)@.game_id_fits(),
        ensures
            (outcome(r), final(self)@) == old(self)@.add_game(),
    {
        let map = match self.add_db_map() {
            Ok(map) => map,
            Err(e) => {
                return Err(e);
            },
        };
        let mut records = match self.read_db_games() {
            Ok(records) => records,
            Err(e) => {
                return Err(e);
            },
        };
        let max_id = largest_id(&records);
        records.push(DBGame { id: max_id + 1, map_id: map.id, cursor_x: 0, cursor_y: 0 });
        self.games.write_replace_records(records)
    }

    /// Adds a map row with the next free id, grass everywhere and the default size hints.
    pub fn add_db_map(&mut self) -> (r: Result<DBMap, DBError>)
        requires
            old(self)@.map_id_fits(),
        ensures
            (outcome(r), final(self)@) == old(self)@.add_db_map(),
    {
        let mut records = match self.read_db_maps() {
            Ok(records) => records,
            Err(e) => {
                return Err(e);
            },
        };
        let max_id = largest_id(&records);
        let new_record = DBMap {
            id: max_id + 1,
            default_terrain: Terrain::Grass,
            hint_max_x: 15,
            hint_max_y: 12,
        };
        records.push(new_record);
        match self.maps.write_replace_records(records) {
            Ok(()) => Ok(new_record),
            Err(e) => Err(e),
        }
    }

    /// The first row of the maps table with the given id.
    pub fn get_db_map(&self, map_id: u32) -> (r: Result<DBMap, DBError>)
        ensures
            outcome(r) == self@.db_map(map_id),
    {
        let rows = match self.read_db_maps() {
            Ok(rows) => rows,
            Err(e) => {
                return Err(e);
            },
        };
        let ghost all = rows@;
        let found = |record: &DBMap| -> (b: bool)
            ensures
                b == (record.id == map_id),
            { record.id == map_id };
        let r = get_single_result(rows, found, "maps");
        proof {
            match &r {
                Ok(x) => {
                    let i = choose|i: int|
                        0 <= i < all.len() && *x == all[i] && call_ensures(found, (&all[i],), true)
                            && forall|j: int| 0 <= j < i ==> call_ensures(found, (&all[j],), false);
                    assert forall|j: int| 0 <= j < i implies !map_row_has_id(map_id)(all[j]) by {
                        assert(call_ensures(found, (&all[j],), false));
                    }
                    lemma_first_match_at(all, map_row_has_id(map_id), i);
                },
                Err(e) => {
                    assert forall|j: int| 0 <= j < all.len() implies !map_row_has_id(map_id)(
                        all[j],
                    ) by {
                        assert(call_ensures(found, (&all[j],), false));
                    }
                    lemma_first_match_none(all, map_row_has_id(map_id));
                },
            }
        }
        r
    }

    /// Every row of the maps table.
    pub fn read_db_maps(&self) -> (r: Result<Vec<DBMap>, DBError>)
        ensures
            outcome_rows(r) == self@.maps,
    {
        self.maps.read_db_records()
    }

    /// Moves the cursor of the game with the given id. Where no game has that
    /// id nothing changes, and that is no error.
    pub fn update_game_cursor(&mut self, id: u32, cursor: (u32, u32)) -> (r: Result<(), DBError>)
        ensures
            (outcome(r), final(self)@) == old(self)@.update_game_cursor(id, cursor),
    {
        let rows = match self.read_db_games() {
            Ok(rows) => rows,
            Err(e) => {
                return Err(e);
            },
        };
        let mut records: Vec<DBGame> = Vec::new();
        let mut i: usize = 0;
        while i < rows.len()
            invariant
                i <= rows.len(),
                records@ == rows@.take(i as int).map_values(with_cursor(id, cursor)),
            decreases rows.len() - i,
        {
            let mut record = rows[i];
            if record.id == id {
                record.cursor_x = cursor.0;
                record.cursor_y = cursor.1;
            }
            records.push(record);
            proof {
                assert(records@ =~= rows@.take(i + 1).map_values(with_cursor(id, cursor)));
            }
            i += 1;
        }
        proof {
            assert(rows@.take(rows.len() as int) =~= rows@);
        }
        self.games.write_replace_records(records)
    }

    /// The rows of the tiles table that belong to one map.
    pub fn read_db_tile_lines_for_map_id(&self, map_id: u32) -> (r: Result<Vec<DBTileLine>, DBError>)
        ensures
            outcome_rows(r) == self@.tiles_of(map_id),
    {
        match self.read_db_tile_lines() {
            Ok(rows) => Ok(rows_of_owner(&rows, map_id)),
            Err(e) => Err(e),
        }
    }

    /// Every row of the tiles table.
    pub fn read_db_tile_lines(&self) -> (r: Result<Vec<DBTileLine>, DBError>)
        ensures
            outcome_rows(r) == self@.tiles,
    {
        self.tiles.read_db_records()
    }

    /// The rows of the characters table that belong to one game.
    pub fn read_db_characters_for_game_id(&self, game_id: u32) -> (r: Result<
        Vec<DBCharacter>,
        DBError,
    >)
        ensures
            outcome_rows(r) == self@.characters_of(game_id),
    {
        match self.read_db_characters() {
            Ok(rows) => Ok(rows_of_owner(&rows, game_id)),
            Err(e) => Err(e),
        }
    }

    /// Every row of the characters table.
    pub fn read_db_characters(&self) -> (r: Result<Vec<DBCharacter>, DBError>)
        ensures
            outcome_rows(r) == self@.characters,
    {
        self.characters.read_db_records()
    }

    /// Puts `terrain` on the cell under the cursor of the given game, in
    /// place of any override that the cell of its map had.
    pub fn update_game_terrain(&mut self, game_id: u32, terrain: Terrain) -> (r: Result<(), DBError>)
        requires
            old(self)@.tile_id_fits(game_id),
        ensures
            (outcome(r), final(self)@) == old(self)@.update_game_terrain(game_id, terrain),
    {
        let mut records = match self.read_db_tile_lines() {
            Ok(records) => records,
            Err(e) => {
                return Err(e);
            },
        };
        let max_id = largest_id(&records);
        let game = match self.get_game(game_id) {
            Ok(game) => game,
            Err(e) => {
                return Err(e);
            },
        };
        let new_record = Placement {
            id: max_id + 1,
            owner_id: game.map.id,
            value: terrain,
            x: game.current_selection.0,
            y: game.current_selection.1,
        };
        records.push(new_record);
        let records = compact(&records);
        self.tiles.write_replace_records(records)
    }

    /// Puts `character` on the cell under the cursor of the given game, in
    /// place of any character that stood there.
    pub fn update_game_character(&mut self, game_id: u32, character: Character) -> (r: Result<
        (),
        DBError,
    >)
        requires
            old(self)@.character_id_fits(game_id),
        ensures
            (outcome(r), final(self)@) == old(self)@.update_game_character(game_id, character),
    {
        let mut records = match self.read_db_characters() {
            Ok(records) => records,
            Err(e) => {
                return Err(e);
            },
        };
        let max_id = largest_id(&records);
        let game = match self.get_game(game_id) {
            Ok(game) => game,
            Err(e) => {
                return Err(e);
            },
        };
        let new_record = Placement {
            id: max_id + 1,
            owner_id: game.id,
            value: character,
            x: game.current_selection.0,
            y: game.current_selection.1,
        };
        records.push(new_record);
        let records = compact(&records);
        self.characters.write_replace_records(records)
    }

    /// Removes the terrain override of the cell under the cursor of the given game.
    pub fn unset_game_terrain(&mut self, game_id: u32) -> (r: Result<(), DBError>)
        ensures
            (outcome(r), final(self)@) == old(self)@.unset_game_terrain(game_id),
    {
        let records = match self.read_db_tile_lines() {
            Ok(records) => records,
            Err(e) => {
                return Err(e);
            },
        };
        let game = match self.get_game(game_id) {
            Ok(game) => game,
            Err(e) => {
                return Err(e);
            },
        };
        let records = rows_off_cell(
            &records,
            game.map.id,
            game.current_selection.0,
            game.current_selection.1,
        );
        self.tiles.write_replace_records(records)
    }

    /// Removes the character from the cell under the cursor of the given game.
    pub fn unset_game_character(&mut self, game_id: u32) -> (r: Result<(), DBError>)
        ensures
            (outcome(r), final(self)@) == old(self)@.unset_game_character(game_id),
    {
        let records = match self.read_db_characters() {
            Ok(records) => records,
            Err(e) => {
                return Err(e);
            },
        };
        let game = match self.get_game(game_id) {
            Ok(game) => game,
            Err(e) => {
                return Err(e);
            },
        };
        let records = rows_off_cell(
            &records,
            game.id,
            game.current_selection.0,
            game.current_selection.1,
        );
        self.characters.write_replace_records(records)
    }

    /// Whether every table that can be read has an id left for a new row.
    /// Where this holds, every operation that adds a row may be called.
    pub fn ids_left(&self) -> (r: bool)
        ensures
            r == self@.ids_left(),
            r ==> self@.game_id_fits() && self@.map_id_fits(),
            r ==> forall|game_id: u32|
                #![trigger self@.tile_id_fits(game_id)]
                #![trigger self@.character_id_fits(game_id)]
                self@.tile_id_fits(game_id) && self@.character_id_fits(game_id),
    {
        let games = match &self.games.state {
            Ok(rows) => largest_id(rows) < u32::MAX,
            Err(_) => true,
        };
        let maps = match &self.maps.state {
            Ok(rows) => largest_id(rows) < u32::MAX,
            Err(_) => true,
        };
        let tiles = match &self.tiles.state {
            Ok(rows) => largest_id(rows) < u32::MAX,
            Err(_) => true,
        };
        let characters = match &self.characters.state {
            Ok(rows) => largest_id(rows) < u32::MAX,
            Err(_) => true,
        };
        games && maps && tiles && characters
    }
}

/// The game that a game row, its map row, the map's tiles and the game's
/// characters describe.
pub fn game_model_from_db(
    g: DBGame,
    m: DBMap,
    tiles: Vec<DBTileLine>,
    characters: Vec<DBCharacter>,
) -> (r: Game)
    ensures
        r@ == game_view_from_db(g, m, tiles@, characters@),
{
    Game {
        id: g.id,
        map: map_model_from_db(m, tiles),
        characters: collect_cells(&characters),
        current_selection: (g.cursor_x, g.cursor_y),
    }
}

/// The map that a map row and its tiles describe.
pub fn map_model_from_db(m: DBMap, tiles: Vec<DBTileLine>) -> (r: TileMap)
    ensures
        r@ == map_view_from_db(m, tiles@),
{
    TileMap {
        id: m.id,
        default_terrain: m.default_terrain,
        specified_terrain: collect_cells(&tiles),
        hint_max_x: m.hint_max_x,
        hint_max_y: m.hint_max_y,
    }
}

/// The first of `results` that `found` accepts, or an error that names the
/// kind of record looked for.
pub fn get_single_result<T, F: Fn(&T) -> bool>(results: Vec<T>, found: F, name: &'static str) -> (r:
    Result<T, DBError>)
    requires
        forall|i: int| 0 <= i < results.len() ==> call_requires(found, (&results[i],)),
    ensures
        match r {
            Ok(x) => exists|i: int|
                0 <= i < results.len() && x == results[i] && call_ensures(
                    found,
                    (&results[i],),
                    true,
                ) && forall|j: int| 0 <= j < i ==> call_ensures(found, (&results[j],), false),
            Err(e) => e@ == missing(name@) && forall|j: int|
                0 <= j < results.len() ==> call_ensures(found, (&results[j],), false),
        },
{
    let ghost all = results@;
    let mut rest = results;
    let mut i: usize = 0;
    while i < rest.len()
        invariant
            i <= rest.len(),
            rest@ == all,
            all == results@,
            forall|k: int| 0 <= k < all.len() ==> call_requires(found, (&all[k],)),
            forall|j: int| 0 <= j < i ==> call_ensures(found, (&all[j],), false),
        decreases rest.len() - i,
    {
        if found(&rest[i]) {
            let ghost at = i as int;
            let x = rest.remove(i);
            assert(0 <= at < results.len() && x == results[at] && call_ensures(
                found,
                (&results[at],),
                true,
            ) && forall|j: int| 0 <= j < at ==> call_ensures(found, (&results[j],), false));
            return Ok(x);
        }
        i += 1;
    }
    Err(DBError::FindingRecord(name.to_owned()))
}

} // verus!
