//! What holds of the store whatever it contains.

use vstd::prelude::*;
use crate::db::common::DBErrorView;
use crate::db::placements::{
    cells_of, compacted, lemma_cells_of_cleared, lemma_cells_of_written, lemma_compaction_exists,
    lemma_written_row_is_kept, off_cell,
};
use crate::db::records::{lemma_max_id, max_id, DBCharacter, DBGame, DBTileLine};
use crate::db::store::{
    first_match, fresh_game, game_has_id, game_row_has_id, lemma_first_match_at,
    lemma_first_match_index, lemma_first_match_none, missing, DBView,
};
use crate::extent::larger;
use crate::models::{
    lemma_override_grows_grid, lemma_unset_keeps_grid, Character, GameView, MapView, Terrain,
};

verus! {

/// The games of a table can be had exactly when each row's game can, and
/// then they are those games, in table order.
pub proof fn lemma_games_from_rows(db: DBView, rows: Seq<DBGame>)
    ensures
        db.games_from(rows) is Ok <==> forall|i: int|
            0 <= i < rows.len() ==> (#[trigger] db.game_of(rows[i])) is Ok,
        db.games_from(rows) is Ok ==> db.games_from(rows)->Ok_0.len() == rows.len(),
        db.games_from(rows) is Ok ==> forall|i: int|
            0 <= i < rows.len() ==> #[trigger] db.game_of(rows[i]) == Ok::<GameView, DBErrorView>(
                db.games_from(rows)->Ok_0[i],
            ),
    decreases rows.len(),
{
    if rows.len() > 0 {
        let front = rows.drop_last();
        lemma_games_from_rows(db, front);
        assert forall|i: int| 0 <= i < front.len() implies front[i] == rows[i] by {
        }
        if db.games_from(rows) is Ok {
            assert forall|i: int| 0 <= i < rows.len() implies (#[trigger] db.game_of(rows[i]))
                == Ok::<GameView, DBErrorView>(db.games_from(rows)->Ok_0[i]) by {
                if i < front.len() {
                    assert(front[i] == rows[i]);
                }
            }
        } else {
            if db.games_from(front) is Ok {
                assert(db.game_of(rows[rows.len() - 1]) is Err);
            } else {
                let i = choose|i: int| 0 <= i < front.len() && !((#[trigger] db.game_of(front[i])) is Ok);
                assert(front[i] == rows[i]);
                assert(!(db.game_of(rows[i]) is Ok));
            }
        }
    }
}

/// Where all games can be had, the game with a given id is the game of the
/// first row with that id.
pub proof fn lemma_get_game_by_row(db: DBView, game_id: u32)
    requires
        db.get_games() is Ok,
    ensures
        db.get_game(game_id) == match first_match(db.games->Ok_0, game_row_has_id(game_id)) {
            Some(row) => db.game_of(row),
            None => Err(missing("games"@)),
        },
{
    let rows = db.games->Ok_0;
    let games = db.get_games()->Ok_0;
    lemma_games_from_rows(db, rows);
    assert forall|i: int| 0 <= i < rows.len() implies (#[trigger] games[i]).id == rows[i].id by {
        assert(db.game_of(rows[i]) == Ok::<GameView, DBErrorView>(games[i]));
    }
    lemma_first_match_none(rows, game_row_has_id(game_id));
    lemma_first_match_none(games, game_has_id(game_id));
    if first_match(rows, game_row_has_id(game_id)) is Some {
        let i = lemma_first_match_index(rows, game_row_has_id(game_id));
        assert(game_has_id(game_id)(games[i]));
        assert forall|j: int| 0 <= j < i implies !game_has_id(game_id)(games[j]) by {
            assert(!game_row_has_id(game_id)(rows[j]));
        }
        lemma_first_match_at(games, game_has_id(game_id), i);
        assert(db.game_of(rows[i]) == Ok::<GameView, DBErrorView>(games[i]));
    } else {
        assert forall|j: int| 0 <= j < games.len() implies !game_has_id(game_id)(games[j]) by {
            assert(!game_row_has_id(game_id)(rows[j]));
        }
    }
}

/// A game that is found has the id that was asked for.
pub proof fn lemma_get_game_id(db: DBView, game_id: u32)
    requires
        db.get_game(game_id) is Ok,
    ensures
        db.get_game(game_id)->Ok_0.id == game_id,
{
    lemma_first_match_none(db.get_games()->Ok_0, game_has_id(game_id));
}

/// When the tiles table is replaced, a game that could be had before can
/// still be had; it is as it was, but that its map shows the new tiles.
pub proof fn lemma_tiles_replaced(db: DBView, tiles: Seq<DBTileLine>, game_id: u32)
    requires
        db.tiles is Ok,
        db.get_game(game_id) is Ok,
    ensures
        ({
            let before = db.get_game(game_id)->Ok_0;
            let after = DBView { tiles: Ok(tiles), ..db };
            after.get_game(game_id) == Ok::<GameView, DBErrorView>(
                GameView {
                    map: MapView { specified_terrain: cells_of(tiles, before.map.id), ..before.map },
                    ..before
                },
            )
        }),
{
    let after = DBView { tiles: Ok(tiles), ..db };
    let rows = db.games->Ok_0;
    lemma_games_from_rows(db, rows);
    lemma_games_from_rows(after, rows);
    assert forall|i: int| 0 <= i < rows.len() implies (#[trigger] after.game_of(rows[i])) is Ok by {
        assert(db.game_of(rows[i]) is Ok);
        assert(after.db_map(rows[i].map_id) == db.db_map(rows[i].map_id));
    }
    lemma_get_game_by_row(db, game_id);
    lemma_get_game_by_row(after, game_id);
    let row = first_match(rows, game_row_has_id(game_id))->Some_0;
    assert(after.db_map(row.map_id) == db.db_map(row.map_id));
}

/// When the characters table is replaced, a game that could be had before
/// can still be had; it is as it was, but that it shows the new characters.
pub proof fn lemma_characters_replaced(db: DBView, characters: Seq<DBCharacter>, game_id: u32)
    requires
        db.characters is Ok,
        db.get_game(game_id) is Ok,
    ensures
        ({
            let before = db.get_game(game_id)->Ok_0;
            let after = DBView { characters: Ok(characters), ..db };
            after.get_game(game_id) == Ok::<GameView, DBErrorView>(
                GameView { characters: cells_of(characters, before.id), ..before },
            )
        }),
{
    let after = DBView { characters: Ok(characters), ..db };
    let rows = db.games->Ok_0;
    lemma_games_from_rows(db, rows);
    lemma_games_from_rows(after, rows);
    assert forall|i: int| 0 <= i < rows.len() implies (#[trigger] after.game_of(rows[i])) is Ok by {
        assert(db.game_of(rows[i]) is Ok);
        assert(after.db_map(rows[i].map_id) == db.db_map(rows[i].map_id));
    }
    lemma_get_game_by_row(db, game_id);
    lemma_get_game_by_row(after, game_id);
    let row = first_match(rows, game_row_has_id(game_id))->Some_0;
    assert(after.db_map(row.map_id) == db.db_map(row.map_id));
}

/// A new game gets an id one more than the largest game id in the table, or
/// 1 where the table is empty; no game already there has that id, and the
/// rows already there stay as they were.
pub proof fn lemma_add_game_assigns_next_id(db: DBView)
    requires
        db.game_id_fits(),
        db.add_game().0 is Ok,
    ensures
        ({
            let before = db.games->Ok_0;
            let after = db.add_game().1.games->Ok_0;
            &&& db.games is Ok
            &&& after.len() == before.len() + 1
            &&& after.drop_last() == before
            &&& after.last().id == max_id(before) + 1
            &&& before.len() == 0 ==> after.last().id == 1
            &&& forall|i: int| 0 <= i < before.len() ==> (#[trigger] before[i]).id < after.last().id
            &&& after.last().cursor_x == 0 && after.last().cursor_y == 0
            &&& after.last().map_id == max_id(db.maps->Ok_0) + 1
        }),
{
    let before = db.games->Ok_0;
    lemma_max_id(before);
    let after = db.add_game().1.games->Ok_0;
    assert(after == before.push(fresh_game((max_id(before) + 1) as u32, (max_id(db.maps->Ok_0) + 1) as u32)));
    assert(after.drop_last() =~= before);
}

/// After a terrain is put under a game's cursor, the game read back shows
/// that terrain on that cell. Every other cell of its map, its characters
/// and its cursor are as before, and the map's grid has grown to the
/// cursor's coordinates where they lay beyond it.
pub proof fn lemma_terrain_set_then_read(db: DBView, game_id: u32, terrain: Terrain)
    requires
        db.update_game_terrain(game_id, terrain).0 is Ok,
    ensures
        ({
            let before = db.get_game(game_id)->Ok_0;
            let after = db.update_game_terrain(game_id, terrain).1.get_game(game_id);
            let cursor = before.current_selection;
            &&& db.get_game(game_id) is Ok
            &&& after is Ok
            &&& after->Ok_0 == GameView { map: before.map.with_override(cursor, terrain), ..before }
            &&& after->Ok_0.map.at(cursor) == terrain
            &&& forall|cell: (u32, u32)| cell != cursor ==> after->Ok_0.map.at(cell) == before.map.at(cell)
            &&& after->Ok_0.map.maxes() == (
                larger(before.map.maxes().0, cursor.0),
                larger(before.map.maxes().1, cursor.1),
            )
        }),
{
    let before = db.get_game(game_id)->Ok_0;
    let cursor = before.current_selection;
    let rows = db.tiles->Ok_0;
    let input = rows.push(db.new_tile(before, terrain));
    let out = compacted(input);
    lemma_compaction_exists(input);
    lemma_tiles_replaced(db, out, game_id);
    lemma_tiles_replaced(db, rows, game_id);
    assert(DBView { tiles: Ok(rows), ..db } == db);
    lemma_cells_of_written(rows, db.new_tile(before, terrain), out);
    lemma_override_grows_grid(before.map, cursor, terrain);
}

/// After the terrain under a game's cursor is cleared, the game read back
/// shows the map's default terrain on that cell. Every other cell of its
/// map, its characters and its cursor are as before, and where the cursor
/// lay inside the map's grid, the grid is as large as it was.
pub proof fn lemma_terrain_unset_then_read(db: DBView, game_id: u32)
    requires
        db.unset_game_terrain(game_id).0 is Ok,
    ensures
        ({
            let before = db.get_game(game_id)->Ok_0;
            let after = db.unset_game_terrain(game_id).1.get_game(game_id);
            let cursor = before.current_selection;
            &&& db.get_game(game_id) is Ok
            &&& after is Ok
            &&& after->Ok_0 == GameView { map: before.map.without_override(cursor), ..before }
            &&& after->Ok_0.map.at(cursor) == before.map.default_terrain
            &&& forall|cell: (u32, u32)| cell != cursor ==> after->Ok_0.map.at(cell) == before.map.at(cell)
            &&& cursor.0 < before.map.maxes().0 && cursor.1 < before.map.maxes().1
                ==> after->Ok_0.map.maxes() == before.map.maxes()
        }),
{
    let before = db.get_game(game_id)->Ok_0;
    let cursor = before.current_selection;
    let rows = db.tiles->Ok_0;
    let owner = before.map.id;
    let gone = (owner, cursor.0, cursor.1);
    let out = rows.filter(off_cell(gone));
    lemma_tiles_replaced(db, out, game_id);
    lemma_tiles_replaced(db, rows, game_id);
    assert(DBView { tiles: Ok(rows), ..db } == db);
    lemma_cells_of_cleared(rows, gone);
    if cursor.0 < before.map.maxes().0 && cursor.1 < before.map.maxes().1 {
        lemma_unset_keeps_grid(before.map, cursor);
    }
}

/// After a character is put under a game's cursor, the game read back shows
/// that character on that cell. Every other cell, its map and its cursor
/// are as before.
pub proof fn lemma_character_set_then_read(db: DBView, game_id: u32, character: Character)
    requires
        db.update_game_character(game_id, character).0 is Ok,
    ensures
        ({
            let before = db.get_game(game_id)->Ok_0;
            let after = db.update_game_character(game_id, character).1.get_game(game_id);
            let cursor = before.current_selection;
            &&& db.get_game(game_id) is Ok
            &&& after is Ok
            &&& after->Ok_0 == GameView {
                characters: before.characters.insert(cursor, character),
                ..before
            }
            &&& after->Ok_0.character_at(cursor) == Some(character)
            &&& forall|cell: (u32, u32)|
                cell != cursor ==> after->Ok_0.character_at(cell) == before.character_at(cell)
        }),
{
    let before = db.get_game(game_id)->Ok_0;
    let cursor = before.current_selection;
    let rows = db.characters->Ok_0;
    let input = rows.push(db.new_character(before, character));
    let out = compacted(input);
    lemma_compaction_exists(input);
    lemma_characters_replaced(db, out, game_id);
    lemma_characters_replaced(db, rows, game_id);
    assert(DBView { characters: Ok(rows), ..db } == db);
    let owner = before.id;
    lemma_cells_of_written(rows, db.new_character(before, character), out);
}

/// After the character under a game's cursor is removed, the game read back
/// shows no character on that cell. Every other cell, its map and its
/// cursor are as before.
pub proof fn lemma_character_unset_then_read(db: DBView, game_id: u32)
    requires
        db.unset_game_character(game_id).0 is Ok,
    ensures
        ({
            let before = db.get_game(game_id)->Ok_0;
            let after = db.unset_game_character(game_id).1.get_game(game_id);
            let cursor = before.current_selection;
            &&& db.get_game(game_id) is Ok
            &&& after is Ok
            &&& after->Ok_0 == GameView { characters: before.characters.remove(cursor), ..before }
            &&& after->Ok_0.character_at(cursor) == None::<Character>
            &&& forall|cell: (u32, u32)|
                cell != cursor ==> after->Ok_0.character_at(cell) == before.character_at(cell)
        }),
{
    let before = db.get_game(game_id)->Ok_0;
    let cursor = before.current_selection;
    let rows = db.characters->Ok_0;
    let owner = before.id;
    let gone = (owner, cursor.0, cursor.1);
    let out = rows.filter(off_cell(gone));
    lemma_characters_replaced(db, out, game_id);
    lemma_characters_replaced(db, rows, game_id);
    assert(DBView { characters: Ok(rows), ..db } == db);
    lemma_cells_of_cleared(rows, gone);
}

/// After a terrain is put under a game's cursor, the tiles table holds
/// exactly one row for that cell of the game's map, and it is the row just
/// written; and no two rows of the table share a map and a cell.
pub proof fn lemma_terrain_one_row_per_cell(db: DBView, game_id: u32, terrain: Terrain)
    requires
        db.update_game_terrain(game_id, terrain).0 is Ok,
    ensures
        ({
            let game = db.get_game(game_id)->Ok_0;
            let written = db.new_tile(game, terrain);
            let after = db.update_game_terrain(game_id, terrain).1.tiles->Ok_0;
            &&& after.contains(written)
            &&& forall|i: int| 0 <= i < after.len() && (#[trigger] after[i]).key() == written.key() ==> after[i] == written
            &&& forall|i: int, j: int|
                0 <= i < after.len() && 0 <= j < after.len() && (#[trigger] after[i]).key() == (
                #[trigger] after[j]).key() ==> i == j
        }),
{
    let game = db.get_game(game_id)->Ok_0;
    let written = db.new_tile(game, terrain);
    let input = db.tiles->Ok_0.push(written);
    let after = compacted(input);
    lemma_compaction_exists(input);
    lemma_written_row_is_kept(db.tiles->Ok_0, written, after);
}

/// After a character is put under a game's cursor, the characters table
/// holds exactly one row for that cell of the game, and it is the row just
/// written; and no two rows of the table share a game and a cell.
pub proof fn lemma_character_one_row_per_cell(db: DBView, game_id: u32, character: Character)
    requires
        db.update_game_character(game_id, character).0 is Ok,
    ensures
        ({
            let game = db.get_game(game_id)->Ok_0;
            let written = db.new_character(game, character);
            let after = db.update_game_character(game_id, character).1.characters->Ok_0;
            &&& after.contains(written)
            &&& forall|i: int| 0 <= i < after.len() && (#[trigger] after[i]).key() == written.key() ==> after[i] == written
            &&& forall|i: int, j: int|
                0 <= i < after.len() && 0 <= j < after.len() && (#[trigger] after[i]).key() == (
                #[trigger] after[j]).key() ==> i == j
        }),
{
    let game = db.get_game(game_id)->Ok_0;
    let written = db.new_character(game, character);
    let input = db.characters->Ok_0.push(written);
    let after = compacted(input);
    lemma_compaction_exists(input);
    lemma_written_row_is_kept(db.characters->Ok_0, written, after);
}

} // verus!
