//! The consistency of the store, and how every operation keeps it.

use vstd::prelude::*;
use crate::db::common::DBErrorView;
use crate::db::laws::lemma_get_game_by_row;
use crate::db::placements::{
    cells_of, compacted, lemma_cells_of_cleared, lemma_cells_of_others_cleared,
    lemma_cells_of_others_written, lemma_cells_of_written, lemma_compacted_one_row_per_cell,
    lemma_compaction_exists, lemma_filter_one_row_per_cell, off_cell, one_row_per_cell,
};
use crate::db::records::{lemma_max_id, max_id, DBCharacter, DBGame, DBMap, DBTileLine};
use crate::db::store::{
    first_match, fresh_game, fresh_map, game_row_has_id, lemma_first_match_index,
    lemma_first_match_none, lemma_first_match_push, map_row_has_id, DBView,
};
use crate::extent::{lemma_reach_x, lemma_reach_y};
use crate::models::{
    lemma_edit_under_cursor_keeps_grid, lemma_step_stays_on_grid, Character, Direction, GameView,
    MapView, Terrain,
};

verus! {

/// Whether no two game rows share an id.
pub open spec fn distinct_game_ids(rows: Seq<DBGame>) -> bool {
    forall|i: int, j: int|
        0 <= i < rows.len() && 0 <= j < rows.len() && (#[trigger] rows[i]).id == (
        #[trigger] rows[j]).id ==> i == j
}

/// Whether no two game rows share a map.
pub open spec fn distinct_game_maps(rows: Seq<DBGame>) -> bool {
    forall|i: int, j: int|
        0 <= i < rows.len() && 0 <= j < rows.len() && (#[trigger] rows[i]).map_id == (
        #[trigger] rows[j]).map_id ==> i == j
}

/// Whether the store is consistent: every table can be read; every game has
/// an id and a map of its own; the map of every game exists; the cursor of
/// every game stands on its grid; and no cell of a map holds two terrain
/// overrides, nor a cell of a game two characters.
pub open spec fn consistent(db: DBView) -> bool {
    &&& db.games is Ok
    &&& db.maps is Ok
    &&& db.tiles is Ok
    &&& db.characters is Ok
    &&& distinct_game_ids(db.games->Ok_0)
    &&& distinct_game_maps(db.games->Ok_0)
    &&& forall|i: int|
        0 <= i < db.games->Ok_0.len() ==> (#[trigger] db.game_of(db.games->Ok_0[i])) is Ok
            && db.game_of(db.games->Ok_0[i])->Ok_0.cursor_on_grid()
    &&& one_row_per_cell(db.tiles->Ok_0)
    &&& one_row_per_cell(db.characters->Ok_0)
}

/// What the game of a row is made of.
pub proof fn lemma_game_of(db: DBView, r: DBGame)
    requires
        db.game_of(r) is Ok,
    ensures
        db.maps is Ok,
        db.tiles is Ok,
        db.characters is Ok,
        db.db_map(r.map_id) is Ok,
        db.db_map(r.map_id)->Ok_0.id == r.map_id,
        db.game_of(r)->Ok_0 == (GameView {
            id: r.id,
            map: MapView {
                id: r.map_id,
                default_terrain: db.db_map(r.map_id)->Ok_0.default_terrain,
                specified_terrain: cells_of(db.tiles->Ok_0, r.map_id),
                hint_max_x: db.db_map(r.map_id)->Ok_0.hint_max_x,
                hint_max_y: db.db_map(r.map_id)->Ok_0.hint_max_y,
            },
            characters: cells_of(db.characters->Ok_0, r.id),
            current_selection: (r.cursor_x, r.cursor_y),
        }),
{
    lemma_first_match_none(db.maps->Ok_0, map_row_has_id(r.map_id));
}

/// The row of the game that a lookup by id finds.
pub proof fn lemma_target_row(db: DBView, game_id: u32) -> (i: int)
    requires
        db.get_game(game_id) is Ok,
    ensures
        db.games is Ok,
        0 <= i < db.games->Ok_0.len(),
        db.games->Ok_0[i].id == game_id,
        db.game_of(db.games->Ok_0[i]) == db.get_game(game_id),
{
    lemma_get_game_by_row(db, game_id);
    lemma_first_match_index(db.games->Ok_0, game_row_has_id(game_id))
}

/// A store with four empty tables is consistent.
pub proof fn lemma_empty_is_consistent(db: DBView)
    requires
        db.games == Ok::<Seq<DBGame>, DBErrorView>(Seq::empty()),
        db.maps == Ok::<Seq<DBMap>, DBErrorView>(Seq::empty()),
        db.tiles == Ok::<Seq<DBTileLine>, DBErrorView>(Seq::empty()),
        db.characters == Ok::<Seq<DBCharacter>, DBErrorView>(Seq::empty()),
    ensures
        consistent(db),
{
}

/// A consistent store stays consistent when its tiles are replaced by rows,
/// one per cell, that show every map but one the grid it had, and the game
/// of that one map a grid as large as it had.
pub proof fn lemma_tiles_changed(db: DBView, tiles: Seq<DBTileLine>, target: int)
    requires
        consistent(db),
        0 <= target < db.games->Ok_0.len(),
        one_row_per_cell(tiles),
        forall|owner: u32|
            owner != db.games->Ok_0[target].map_id ==> #[trigger] cells_of(tiles, owner) == cells_of(
                db.tiles->Ok_0,
                owner,
            ),
        ({
            let g = db.game_of(db.games->Ok_0[target])->Ok_0;
            (GameView {
                map: MapView { specified_terrain: cells_of(tiles, g.map.id), ..g.map },
                ..g
            }).maxes() == g.maxes()
        }),
    ensures
        consistent(DBView { tiles: Ok(tiles), ..db }),
{
    let after = DBView { tiles: Ok(tiles), ..db };
    let rows = db.games->Ok_0;
    assert forall|i: int| 0 <= i < rows.len() implies (#[trigger] after.game_of(rows[i])) is Ok
        && after.game_of(rows[i])->Ok_0.cursor_on_grid() by {
        assert(db.game_of(rows[i]) is Ok);
        lemma_game_of(db, rows[i]);
        assert(after.db_map(rows[i].map_id) == db.db_map(rows[i].map_id));
        lemma_game_of(after, rows[i]);
        if i != target {
            assert(rows[i].map_id != rows[target].map_id);
            assert(cells_of(tiles, rows[i].map_id) == cells_of(db.tiles->Ok_0, rows[i].map_id));
        } else {
            assert(db.game_of(rows[target])->Ok_0.cursor_on_grid());
        }
    }
}

/// A consistent store stays consistent when its characters are replaced by
/// rows, one per cell, that show every game but one the characters it had,
/// and that one game a grid as large as it had.
pub proof fn lemma_characters_changed(db: DBView, characters: Seq<DBCharacter>, target: int)
    requires
        consistent(db),
        0 <= target < db.games->Ok_0.len(),
        one_row_per_cell(characters),
        forall|owner: u32|
            owner != db.games->Ok_0[target].id ==> #[trigger] cells_of(characters, owner) == cells_of(
                db.characters->Ok_0,
                owner,
            ),
        ({
            let g = db.game_of(db.games->Ok_0[target])->Ok_0;
            (GameView { characters: cells_of(characters, g.id), ..g }).maxes() == g.maxes()
        }),
    ensures
        consistent(DBView { characters: Ok(characters), ..db }),
{
    let after = DBView { characters: Ok(characters), ..db };
    let rows = db.games->Ok_0;
    assert forall|i: int| 0 <= i < rows.len() implies (#[trigger] after.game_of(rows[i])) is Ok
        && after.game_of(rows[i])->Ok_0.cursor_on_grid() by {
        assert(db.game_of(rows[i]) is Ok);
        lemma_game_of(db, rows[i]);
        assert(after.db_map(rows[i].map_id) == db.db_map(rows[i].map_id));
        lemma_game_of(after, rows[i]);
        if i != target {
            assert(rows[i].id != rows[target].id);
            assert(cells_of(characters, rows[i].id) == cells_of(db.characters->Ok_0, rows[i].id));
        } else {
            assert(db.game_of(rows[target])->Ok_0.cursor_on_grid());
        }
    }
}

/// Putting a terrain under a game's cursor keeps the store consistent.
pub proof fn lemma_terrain_set_keeps_consistent(db: DBView, game_id: u32, terrain: Terrain)
    requires
        consistent(db),
    ensures
        consistent(db.update_game_terrain(game_id, terrain).1),
{
    if db.get_game(game_id) is Ok {
        let target = lemma_target_row(db, game_id);
        let g = db.get_game(game_id)->Ok_0;
        let rows = db.tiles->Ok_0;
        let written = db.new_tile(g, terrain);
        let out = compacted(rows.push(written));
        lemma_game_of(db, db.games->Ok_0[target]);
        lemma_compaction_exists(rows.push(written));
        lemma_compacted_one_row_per_cell(rows.push(written));
        lemma_cells_of_written(rows, written, out);
        assert forall|owner: u32| owner != db.games->Ok_0[target].map_id implies #[trigger] cells_of(
            out,
            owner,
        ) == cells_of(rows, owner) by {
            lemma_cells_of_others_written(rows, written, out, owner);
        }
        lemma_edit_under_cursor_keeps_grid(g, terrain, Character::Knight);
        lemma_tiles_changed(db, out, target);
    }
}

/// Clearing the terrain under a game's cursor keeps the store consistent.
pub proof fn lemma_terrain_unset_keeps_consistent(db: DBView, game_id: u32)
    requires
        consistent(db),
    ensures
        consistent(db.unset_game_terrain(game_id).1),
{
    if db.get_game(game_id) is Ok {
        let target = lemma_target_row(db, game_id);
        let g = db.get_game(game_id)->Ok_0;
        let rows = db.tiles->Ok_0;
        let gone = (g.map.id, g.current_selection.0, g.current_selection.1);
        let out = rows.filter(off_cell(gone));
        lemma_game_of(db, db.games->Ok_0[target]);
        lemma_filter_one_row_per_cell(rows, off_cell(gone));
        lemma_cells_of_cleared(rows, gone);
        assert forall|owner: u32| owner != db.games->Ok_0[target].map_id implies #[trigger] cells_of(
            out,
            owner,
        ) == cells_of(rows, owner) by {
            lemma_cells_of_others_cleared(rows, gone, owner);
        }
        lemma_edit_under_cursor_keeps_grid(g, Terrain::Grass, Character::Knight);
        lemma_tiles_changed(db, out, target);
    }
}

/// Putting a character under a game's cursor keeps the store consistent.
pub proof fn lemma_character_set_keeps_consistent(db: DBView, game_id: u32, character: Character)
    requires
        consistent(db),
    ensures
        consistent(db.update_game_character(game_id, character).1),
{
    if db.get_game(game_id) is Ok {
        let target = lemma_target_row(db, game_id);
        let g = db.get_game(game_id)->Ok_0;
        let rows = db.characters->Ok_0;
        let written = db.new_character(g, character);
        let out = compacted(rows.push(written));
        lemma_game_of(db, db.games->Ok_0[target]);
        lemma_compaction_exists(rows.push(written));
        lemma_compacted_one_row_per_cell(rows.push(written));
        lemma_cells_of_written(rows, written, out);
        assert forall|owner: u32| owner != db.games->Ok_0[target].id implies #[trigger] cells_of(
            out,
            owner,
        ) == cells_of(rows, owner) by {
            lemma_cells_of_others_written(rows, written, out, owner);
        }
        lemma_edit_under_cursor_keeps_grid(g, Terrain::Grass, character);
        lemma_characters_changed(db, out, target);
    }
}

/// Removing the character under a game's cursor keeps the store consistent.
pub proof fn lemma_character_unset_keeps_consistent(db: DBView, game_id: u32)
    requires
        consistent(db),
    ensures
        consistent(db.unset_game_character(game_id).1),
{
    if db.get_game(game_id) is Ok {
        let target = lemma_target_row(db, game_id);
        let g = db.get_game(game_id)->Ok_0;
        let rows = db.characters->Ok_0;
        let gone = (g.id, g.current_selection.0, g.current_selection.1);
        let out = rows.filter(off_cell(gone));
        lemma_game_of(db, db.games->Ok_0[target]);
        lemma_filter_one_row_per_cell(rows, off_cell(gone));
        lemma_cells_of_cleared(rows, gone);
        assert forall|owner: u32| owner != db.games->Ok_0[target].id implies #[trigger] cells_of(
            out,
            owner,
        ) == cells_of(rows, owner) by {
            lemma_cells_of_others_cleared(rows, gone, owner);
        }
        lemma_edit_under_cursor_keeps_grid(g, Terrain::Grass, Character::Knight);
        lemma_characters_changed(db, out, target);
    }
}

/// Storing the cursor of a game after one step on its grid keeps the store consistent.
pub proof fn lemma_step_keeps_consistent(db: DBView, game_id: u32, direction: Direction)
    requires
        consistent(db),
        db.get_game(game_id) is Ok,
    ensures
        ({
            let moved = db.get_game(game_id)->Ok_0.moved(direction);
            consistent(db.update_game_cursor(moved.id, moved.current_selection).1)
        }),
{
    let target = lemma_target_row(db, game_id);
    let g = db.get_game(game_id)->Ok_0;
    let moved = g.moved(direction);
    let rows = db.games->Ok_0;
    let after = db.update_game_cursor(moved.id, moved.current_selection).1;
    let new_rows = after.games->Ok_0;
    lemma_game_of(db, rows[target]);
    lemma_step_stays_on_grid(g.current_selection, direction, g.maxes());
    assert forall|i: int| 0 <= i < new_rows.len() implies (#[trigger] after.game_of(new_rows[i])) is Ok
        && after.game_of(new_rows[i])->Ok_0.cursor_on_grid() by {
        assert(db.game_of(rows[i]) is Ok);
        lemma_game_of(db, rows[i]);
        assert(after.db_map(new_rows[i].map_id) == db.db_map(rows[i].map_id));
        lemma_game_of(after, new_rows[i]);
        if i != target {
            assert(rows[i].id != rows[target].id);
            assert(new_rows[i] == rows[i]);
        }
    }
    assert(distinct_game_ids(new_rows)) by {
        assert forall|i: int, j: int|
            0 <= i < new_rows.len() && 0 <= j < new_rows.len() && (#[trigger] new_rows[i]).id == (
            #[trigger] new_rows[j]).id implies i == j by {
            assert(rows[i].id == rows[j].id);
        }
    }
    assert(distinct_game_maps(new_rows)) by {
        assert forall|i: int, j: int|
            0 <= i < new_rows.len() && 0 <= j < new_rows.len() && (#[trigger] new_rows[i]).map_id
                == (#[trigger] new_rows[j]).map_id implies i == j by {
            assert(rows[i].map_id == rows[j].map_id);
        }
    }
}

/// Adding a game to a consistent store succeeds and keeps it consistent.
pub proof fn lemma_add_game_keeps_consistent(db: DBView)
    requires
        consistent(db),
        db.game_id_fits(),
    ensures
        db.add_game().0 is Ok,
        consistent(db.add_game().1),
{
    let maps = db.maps->Ok_0;
    let rows = db.games->Ok_0;
    let m = fresh_map((max_id(maps) + 1) as u32);
    let g = fresh_game((max_id(rows) + 1) as u32, m.id);
    let after = db.add_game().1;
    let new_rows = rows.push(g);
    assert(after.games->Ok_0 == new_rows);
    assert(after.maps->Ok_0 == maps.push(m));
    lemma_max_id(maps);
    lemma_max_id(rows);
    // The map of every game already there has an id that is in use.
    assert forall|i: int| 0 <= i < rows.len() implies (#[trigger] rows[i]).map_id <= max_id(maps) by {
        assert(db.game_of(rows[i]) is Ok);
        lemma_game_of(db, rows[i]);
        let k = lemma_first_match_index(maps, map_row_has_id(rows[i].map_id));
        assert(maps[k].id == rows[i].map_id);
    }
    assert(distinct_game_ids(new_rows)) by {
        assert forall|i: int, j: int|
            0 <= i < new_rows.len() && 0 <= j < new_rows.len() && (#[trigger] new_rows[i]).id == (
            #[trigger] new_rows[j]).id implies i == j by {
            if i < rows.len() && j < rows.len() {
                assert(rows[i].id == rows[j].id);
            } else if i < rows.len() {
                assert(rows[i].id <= max_id(rows));
            } else if j < rows.len() {
                assert(rows[j].id <= max_id(rows));
            }
        }
    }
    assert(distinct_game_maps(new_rows)) by {
        assert forall|i: int, j: int|
            0 <= i < new_rows.len() && 0 <= j < new_rows.len() && (#[trigger] new_rows[i]).map_id
                == (#[trigger] new_rows[j]).map_id implies i == j by {
            if i < rows.len() && j < rows.len() {
                assert(rows[i].map_id == rows[j].map_id);
            } else if i < rows.len() {
                assert(rows[i].map_id <= max_id(maps));
            } else if j < rows.len() {
                assert(rows[j].map_id <= max_id(maps));
            }
        }
    }
    assert forall|i: int| 0 <= i < new_rows.len() implies (#[trigger] after.game_of(new_rows[i])) is Ok
        && after.game_of(new_rows[i])->Ok_0.cursor_on_grid() by {
        let r = new_rows[i];
        lemma_first_match_push(maps, map_row_has_id(r.map_id), m);
        if i < rows.len() {
            assert(r == rows[i]);
            assert(db.game_of(r) is Ok);
            lemma_game_of(db, r);
            assert(after.db_map(r.map_id) == db.db_map(r.map_id));
            lemma_game_of(after, r);
        } else {
            assert(r == g);
            lemma_first_match_none(maps, map_row_has_id(m.id));
            assert(first_match(maps, map_row_has_id(m.id)) is None) by {
                assert forall|j: int| 0 <= j < maps.len() implies !map_row_has_id(m.id)(maps[j]) by {
                    assert(maps[j].id <= max_id(maps));
                }
            }
            assert(after.db_map(m.id) == Ok::<DBMap, DBErrorView>(m));
            lemma_game_of(after, r);
            let made = after.game_of(r)->Ok_0;
            lemma_reach_x(made.map.specified_terrain, made.map.hint_max_x);
            lemma_reach_y(made.map.specified_terrain, made.map.hint_max_y);
            lemma_reach_x(made.characters, made.map.maxes().0);
            lemma_reach_y(made.characters, made.map.maxes().1);
        }
    }
}

} // verus!
