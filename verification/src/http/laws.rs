//! What holds of every reply.

use vstd::prelude::*;
use crate::db::consistency::{
    consistent, lemma_add_game_keeps_consistent, lemma_character_set_keeps_consistent,
    lemma_character_unset_keeps_consistent, lemma_step_keeps_consistent,
    lemma_terrain_set_keeps_consistent, lemma_terrain_unset_keeps_consistent,
};
use crate::db::common::DBErrorView;
use crate::db::laws::lemma_games_from_rows;
use crate::db::records::DBMap;
use crate::db::store::{missing, DBView};
use crate::http::routes::{respond_spec, room_for, RouteView};
use crate::http::util::{parse_id_spec, Status, TerrainOrCharacter};
use crate::models::{Character, Direction, GameView, MapView, Terrain};

verus! {

/// Whatever is asked of a consistent store, the store is consistent afterwards.
pub proof fn lemma_respond_keeps_consistent(db: DBView, route: RouteView)
    requires
        consistent(db),
        room_for(db, route),
    ensures
        consistent(respond_spec(db, route).1),
{
    match route {
        RouteView::GameCreate => {
            lemma_add_game_keeps_consistent(db);
        },
        RouteView::SetValue(id, kind, value) => {
            if parse_id_spec(id) is Some {
                let game_id = parse_id_spec(id)->Some_0;
                match kind {
                    TerrainOrCharacter::Terrain => {
                        if Terrain::parse_spec(value) is Some {
                            lemma_terrain_set_keeps_consistent(
                                db,
                                game_id,
                                Terrain::parse_spec(value)->Some_0,
                            );
                        }
                    },
                    TerrainOrCharacter::Character => {
                        if Character::parse_spec(value) is Some {
                            lemma_character_set_keeps_consistent(
                                db,
                                game_id,
                                Character::parse_spec(value)->Some_0,
                            );
                        }
                    },
                }
            }
        },
        RouteView::UnsetValue(id, kind) => {
            if parse_id_spec(id) is Some {
                let game_id = parse_id_spec(id)->Some_0;
                lemma_terrain_unset_keeps_consistent(db, game_id);
                lemma_character_unset_keeps_consistent(db, game_id);
            }
        },
        RouteView::CursorMove(id, direction, edit) => {
            if parse_id_spec(id) is Some {
                let game_id = parse_id_spec(id)->Some_0;
                if db.get_game(game_id) is Ok && Direction::parse_spec(direction) is Some {
                    lemma_step_keeps_consistent(
                        db,
                        game_id,
                        Direction::parse_spec(direction)->Some_0,
                    );
                }
            }
        },
        _ => {},
    }
}

/// Where the tiles can be read, every map can be had.
pub proof fn lemma_maps_can_be_had(db: DBView, rows: Seq<DBMap>)
    requires
        db.tiles is Ok,
    ensures
        db.maps_from(rows) is Ok,
    decreases rows.len(),
{
    if rows.len() > 0 {
        lemma_maps_can_be_had(db, rows.drop_last());
    }
}

/// Every read of a consistent store succeeds, but that a game or a map that
/// is looked up by its id may not exist.
pub proof fn lemma_consistent_reads(db: DBView, id: u32)
    requires
        consistent(db),
    ensures
        db.get_games() is Ok,
        db.get_maps() is Ok,
        db.get_game(id) is Ok || db.get_game(id) == Err::<GameView, DBErrorView>(missing("games"@)),
        db.get_map(id) is Ok || db.get_map(id) == Err::<MapView, DBErrorView>(missing("maps"@)),
{
    lemma_games_from_rows(db, db.games->Ok_0);
    lemma_maps_can_be_had(db, db.maps->Ok_0);
}

/// A consistent store never answers with a fault of the server: every reply
/// is a page, a bad request, or a record that was not found.
pub proof fn lemma_consistent_store_has_no_faults(db: DBView, route: RouteView)
    requires
        consistent(db),
        room_for(db, route),
    ensures
        respond_spec(db, route).0.status() != Status::InternalServerError,
{
    lemma_respond_keeps_consistent(db, route);
    let after = respond_spec(db, route).1;
    match route {
        RouteView::MapList => {
            lemma_consistent_reads(db, 0);
        },
        RouteView::GameList => {
            lemma_consistent_reads(db, 0);
        },
        RouteView::GameCreate => {
            lemma_add_game_keeps_consistent(db);
            lemma_consistent_reads(after, 0);
        },
        RouteView::MapSingle(id) => {
            if parse_id_spec(id) is Some {
                lemma_consistent_reads(db, parse_id_spec(id)->Some_0);
            }
        },
        RouteView::GameSingle(id) => {
            if parse_id_spec(id) is Some {
                lemma_consistent_reads(db, parse_id_spec(id)->Some_0);
            }
        },
        RouteView::GameEdit(id) => {
            if parse_id_spec(id) is Some {
                lemma_consistent_reads(db, parse_id_spec(id)->Some_0);
            }
        },
        RouteView::SetValue(id, kind, value) => {
            if parse_id_spec(id) is Some {
                lemma_consistent_reads(db, parse_id_spec(id)->Some_0);
                lemma_consistent_reads(after, parse_id_spec(id)->Some_0);
            }
        },
        RouteView::UnsetValue(id, kind) => {
            if parse_id_spec(id) is Some {
                lemma_consistent_reads(db, parse_id_spec(id)->Some_0);
                lemma_consistent_reads(after, parse_id_spec(id)->Some_0);
            }
        },
        RouteView::CursorMove(id, direction, edit) => {
            if parse_id_spec(id) is Some {
                lemma_consistent_reads(db, parse_id_spec(id)->Some_0);
            }
        },
        _ => {},
    }
}

} // verus!
