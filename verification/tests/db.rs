use map_editor::db::common::DBError;
use map_editor::db::engine::Engine;
use map_editor::db::placements::{compact, rows_of_owner, rows_off_cell};
use map_editor::db::records::{largest_id, DBCharacter, DBGame, DBMap, DBTileLine, Placement};
use map_editor::db::{game_model_from_db, get_single_result, map_model_from_db, DB};
use map_editor::models::{Character, Terrain};

fn tile(id: u32, map_id: u32, terrain: Terrain, x: u32, y: u32) -> DBTileLine {
    Placement { id, owner_id: map_id, value: terrain, x, y }
}

fn character(id: u32, game_id: u32, c: Character, x: u32, y: u32) -> DBCharacter {
    Placement { id, owner_id: game_id, value: c, x, y }
}

fn db_with_games(n: u32) -> DB {
    let mut db = DB::new();
    for _ in 0..n {
        assert!(db.ids_left());
        assert_eq!(db.add_game(), Ok(()));
    }
    db
}

#[test]
fn new_store_is_empty() {
    let db = DB::new();
    assert_eq!(db.read_db_games(), Ok(vec![]));
    assert_eq!(db.read_db_maps(), Ok(vec![]));
    assert_eq!(db.read_db_tile_lines(), Ok(vec![]));
    assert_eq!(db.read_db_characters(), Ok(vec![]));
    assert_eq!(db.get_games().map(|g| g.len()), Ok(0));
    assert_eq!(db.get_maps().map(|m| m.len()), Ok(0));
}

#[test]
fn first_game_gets_id_one() {
    let db = db_with_games(1);
    assert_eq!(
        db.read_db_games(),
        Ok(vec![DBGame { id: 1, map_id: 1, cursor_x: 0, cursor_y: 0 }])
    );
    assert_eq!(
        db.read_db_maps(),
        Ok(vec![DBMap { id: 1, default_terrain: Terrain::Grass, hint_max_x: 15, hint_max_y: 12 }])
    );
}

#[test]
fn next_game_gets_one_more_than_the_largest_id() {
    let mut db = DB::new();
    db.games = Engine::with_rows(vec![
        DBGame { id: 9, map_id: 4, cursor_x: 1, cursor_y: 2 },
        DBGame { id: 3, map_id: 4, cursor_x: 0, cursor_y: 0 },
    ]);
    db.maps = Engine::with_rows(vec![DBMap {
        id: 4,
        default_terrain: Terrain::Dirt,
        hint_max_x: 2,
        hint_max_y: 2,
    }]);
    assert_eq!(db.add_game(), Ok(()));
    let games = db.read_db_games().unwrap();
    assert_eq!(games.len(), 3);
    assert_eq!(games[2], DBGame { id: 10, map_id: 5, cursor_x: 0, cursor_y: 0 });
    assert_eq!(games[0], DBGame { id: 9, map_id: 4, cursor_x: 1, cursor_y: 2 });
    let maps = db.read_db_maps().unwrap();
    assert_eq!(
        maps[1],
        DBMap { id: 5, default_terrain: Terrain::Grass, hint_max_x: 15, hint_max_y: 12 }
    );
}

#[test]
fn largest_id_of_rows() {
    assert_eq!(largest_id::<DBGame>(&vec![]), 0);
    assert_eq!(
        largest_id(&vec![
            tile(4, 1, Terrain::Rock, 0, 0),
            tile(17, 1, Terrain::Rock, 0, 1),
            tile(5, 1, Terrain::Rock, 0, 2)
        ]),
        17
    );
}

#[test]
fn new_game_reads_back_with_its_map() {
    let db = db_with_games(2);
    let game = db.get_game(2).unwrap();
    assert_eq!(game.id, 2);
    assert_eq!(game.map.id, 2);
    assert_eq!(game.current_selection, (0, 0));
    assert_eq!(game.map.default_terrain, Terrain::Grass);
    assert_eq!(game.map.maxes(), (15, 12));
    assert!(game.map.specified_terrain.is_empty());
    assert!(game.characters.is_empty());
    assert_eq!(db.get_games().unwrap().len(), 2);
    assert_eq!(db.get_maps().unwrap().len(), 2);
    assert_eq!(db.get_map(1).unwrap().id, 1);
}

#[test]
fn missing_game_is_a_finding_record_error() {
    let db = db_with_games(1);
    assert_eq!(db.get_game(5).err(), Some(DBError::FindingRecord("games".to_string())));
    assert_eq!(db.get_map(5).err(), Some(DBError::FindingRecord("maps".to_string())));
    assert_eq!(db.get_db_map(5), Err(DBError::FindingRecord("maps".to_string())));
}

#[test]
fn game_without_its_map_fails_the_whole_listing() {
    let mut db = db_with_games(1);
    db.games = Engine::with_rows(vec![
        DBGame { id: 1, map_id: 1, cursor_x: 0, cursor_y: 0 },
        DBGame { id: 2, map_id: 8, cursor_x: 0, cursor_y: 0 },
    ]);
    assert_eq!(db.get_games().err(), Some(DBError::FindingRecord("maps".to_string())));
    assert_eq!(db.get_game(1).err(), Some(DBError::FindingRecord("maps".to_string())));
}

#[test]
fn unreadable_tables_give_their_error() {
    let mut db = db_with_games(1);
    db.tiles = Engine::failed(DBError::ParsingRecord("bad row".to_string()));
    assert_eq!(db.get_games().err(), Some(DBError::ParsingRecord("bad row".to_string())));
    assert_eq!(db.get_maps().err(), Some(DBError::ParsingRecord("bad row".to_string())));
    assert_eq!(
        db.update_game_terrain(1, Terrain::Rock),
        Err(DBError::ParsingRecord("bad row".to_string()))
    );
    assert_eq!(db.unset_game_terrain(1), Err(DBError::ParsingRecord("bad row".to_string())));

    let mut db = db_with_games(1);
    db.games = Engine::failed(DBError::FindingTable("gone".to_string()));
    assert_eq!(db.get_games().err(), Some(DBError::FindingTable("gone".to_string())));
    assert_eq!(db.update_game_cursor(1, (2, 2)), Err(DBError::FindingTable("gone".to_string())));
    assert_eq!(db.get_maps().map(|m| m.len()), Ok(1));
}

#[test]
fn errors_come_in_reading_order() {
    let mut db = db_with_games(1);
    db.maps = Engine::failed(DBError::FindingTable("maps gone".to_string()));
    db.tiles = Engine::failed(DBError::FindingTable("tiles gone".to_string()));
    db.characters = Engine::failed(DBError::FindingTable("characters gone".to_string()));
    assert_eq!(db.get_games().err(), Some(DBError::FindingTable("maps gone".to_string())));
    db.maps = Engine::with_rows(vec![DBMap {
        id: 1,
        default_terrain: Terrain::Grass,
        hint_max_x: 15,
        hint_max_y: 12,
    }]);
    assert_eq!(db.get_games().err(), Some(DBError::FindingTable("tiles gone".to_string())));
    db.tiles = Engine::new();
    assert_eq!(db.get_games().err(), Some(DBError::FindingTable("characters gone".to_string())));
    // With no game to assemble, the other tables are not read at all.
    db.games = Engine::new();
    db.maps = Engine::failed(DBError::FindingTable("maps gone".to_string()));
    assert_eq!(db.get_games().map(|g| g.len()), Ok(0));
}

#[test]
fn add_game_keeps_the_new_map_when_games_cannot_be_read() {
    let mut db = DB::new();
    db.games = Engine::failed(DBError::ParsingRecord("bad".to_string()));
    assert_eq!(db.add_game(), Err(DBError::ParsingRecord("bad".to_string())));
    assert_eq!(db.read_db_maps().unwrap().len(), 1);
    let mut db = DB::new();
    db.maps = Engine::failed(DBError::ParsingRecord("bad".to_string()));
    assert_eq!(db.add_game(), Err(DBError::ParsingRecord("bad".to_string())));
    assert_eq!(db.read_db_games().unwrap().len(), 0);
}

#[test]
fn cursor_update_touches_only_the_game_named() {
    let mut db = db_with_games(3);
    assert_eq!(db.update_game_cursor(2, (5, 6)), Ok(()));
    assert_eq!(db.get_game(1).unwrap().current_selection, (0, 0));
    assert_eq!(db.get_game(2).unwrap().current_selection, (5, 6));
    assert_eq!(db.get_game(3).unwrap().current_selection, (0, 0));
    // An id that no game has is no error and changes nothing.
    let before = db.read_db_games().unwrap();
    assert_eq!(db.update_game_cursor(44, (1, 1)), Ok(()));
    assert_eq!(db.read_db_games().unwrap(), before);
}

#[test]
fn terrain_set_reads_back_and_unset_reverts_to_default() {
    let mut db = db_with_games(2);
    db.update_game_cursor(2, (3, 4)).unwrap();
    assert_eq!(db.update_game_terrain(2, Terrain::Rock), Ok(()));
    let game = db.get_game(2).unwrap();
    assert_eq!(game.map.at(&(3, 4)), Terrain::Rock);
    assert_eq!(game.map.at(&(4, 3)), Terrain::Grass);
    assert_eq!(db.get_game(1).unwrap().map.at(&(3, 4)), Terrain::Grass);
    assert_eq!(db.read_db_tile_lines(), Ok(vec![tile(1, 2, Terrain::Rock, 3, 4)]));

    assert_eq!(db.unset_game_terrain(2), Ok(()));
    assert_eq!(db.get_game(2).unwrap().map.at(&(3, 4)), Terrain::Grass);
    assert_eq!(db.read_db_tile_lines(), Ok(vec![]));
}

#[test]
fn character_set_reads_back_and_unset_removes_it() {
    let mut db = db_with_games(2);
    db.update_game_cursor(1, (2, 5)).unwrap();
    assert_eq!(db.update_game_character(1, Character::Mage), Ok(()));
    let game = db.get_game(1).unwrap();
    assert_eq!(game.character_at(&(2, 5)), Some(Character::Mage));
    assert_eq!(game.character_at(&(5, 2)), None);
    assert_eq!(db.get_game(2).unwrap().character_at(&(2, 5)), None);
    assert_eq!(db.read_db_characters(), Ok(vec![character(1, 1, Character::Mage, 2, 5)]));

    assert_eq!(db.unset_game_character(1), Ok(()));
    assert_eq!(db.get_game(1).unwrap().character_at(&(2, 5)), None);
    assert_eq!(db.read_db_characters(), Ok(vec![]));
}

#[test]
fn characters_are_scoped_to_the_game_not_the_map() {
    let mut db = DB::new();
    db.maps = Engine::with_rows(vec![DBMap {
        id: 50,
        default_terrain: Terrain::Grass,
        hint_max_x: 15,
        hint_max_y: 12,
    }]);
    db.games = Engine::with_rows(vec![DBGame { id: 7, map_id: 50, cursor_x: 1, cursor_y: 1 }]);
    assert_eq!(db.update_game_character(7, Character::Thief), Ok(()));
    assert_eq!(db.read_db_characters(), Ok(vec![character(1, 7, Character::Thief, 1, 1)]));
    assert_eq!(db.get_game(7).unwrap().character_at(&(1, 1)), Some(Character::Thief));
    assert_eq!(db.update_game_terrain(7, Terrain::Dirt), Ok(()));
    assert_eq!(db.read_db_tile_lines(), Ok(vec![tile(1, 50, Terrain::Dirt, 1, 1)]));
}

#[test]
fn second_write_to_a_cell_wins_and_leaves_one_row() {
    let mut db = db_with_games(1);
    db.update_game_cursor(1, (3, 4)).unwrap();
    db.update_game_terrain(1, Terrain::Rock).unwrap();
    db.update_game_terrain(1, Terrain::Dirt).unwrap();
    assert_eq!(db.read_db_tile_lines(), Ok(vec![tile(2, 1, Terrain::Dirt, 3, 4)]));
    assert_eq!(db.get_game(1).unwrap().map.at(&(3, 4)), Terrain::Dirt);
    db.update_game_character(1, Character::Knight).unwrap();
    db.update_game_character(1, Character::Mage).unwrap();
    assert_eq!(db.read_db_characters(), Ok(vec![character(2, 1, Character::Mage, 3, 4)]));
}

#[test]
fn tiles_are_rewritten_in_order_of_map_and_cell() {
    let mut db = db_with_games(2);
    db.update_game_cursor(2, (1, 1)).unwrap();
    db.update_game_terrain(2, Terrain::Rock).unwrap();
    db.update_game_cursor(1, (5, 0)).unwrap();
    db.update_game_terrain(1, Terrain::Dirt).unwrap();
    db.update_game_cursor(1, (2, 9)).unwrap();
    db.update_game_terrain(1, Terrain::Rock).unwrap();
    db.update_game_cursor(1, (2, 3)).unwrap();
    db.update_game_terrain(1, Terrain::Grass).unwrap();
    assert_eq!(
        db.read_db_tile_lines(),
        Ok(vec![
            tile(4, 1, Terrain::Grass, 2, 3),
            tile(3, 1, Terrain::Rock, 2, 9),
            tile(2, 1, Terrain::Dirt, 5, 0),
            tile(1, 2, Terrain::Rock, 1, 1),
        ])
    );
}

#[test]
fn compact_keeps_the_last_row_of_each_cell() {
    let rows = vec![
        tile(1, 2, Terrain::Rock, 0, 0),
        tile(2, 1, Terrain::Rock, 7, 7),
        tile(3, 2, Terrain::Dirt, 0, 0),
        tile(4, 1, Terrain::Grass, 7, 6),
        tile(5, 1, Terrain::Dirt, 7, 7),
    ];
    assert_eq!(
        compact(&rows),
        vec![
            tile(4, 1, Terrain::Grass, 7, 6),
            tile(5, 1, Terrain::Dirt, 7, 7),
            tile(3, 2, Terrain::Dirt, 0, 0),
        ]
    );
    assert_eq!(compact::<Terrain>(&vec![]), vec![]);
}

#[test]
fn rows_are_filtered_by_owner_and_by_cell() {
    let rows = vec![
        tile(1, 2, Terrain::Rock, 0, 0),
        tile(2, 1, Terrain::Rock, 7, 7),
        tile(3, 2, Terrain::Dirt, 7, 7),
        tile(4, 1, Terrain::Grass, 7, 7),
    ];
    assert_eq!(
        rows_of_owner(&rows, 1),
        vec![tile(2, 1, Terrain::Rock, 7, 7), tile(4, 1, Terrain::Grass, 7, 7)]
    );
    assert_eq!(rows_of_owner(&rows, 3), vec![]);
    assert_eq!(
        rows_off_cell(&rows, 1, 7, 7),
        vec![tile(1, 2, Terrain::Rock, 0, 0), tile(3, 2, Terrain::Dirt, 7, 7)]
    );
    assert_eq!(rows_off_cell(&rows, 1, 7, 8), rows);
}

#[test]
fn unset_removes_every_row_of_the_cell_and_no_other() {
    let mut db = db_with_games(1);
    db.tiles = Engine::with_rows(vec![
        tile(1, 1, Terrain::Rock, 2, 2),
        tile(2, 1, Terrain::Dirt, 2, 3),
        tile(3, 1, Terrain::Dirt, 2, 2),
        tile(4, 9, Terrain::Dirt, 2, 2),
    ]);
    db.update_game_cursor(1, (2, 2)).unwrap();
    assert_eq!(db.get_game(1).unwrap().map.at(&(2, 2)), Terrain::Dirt);
    assert_eq!(db.unset_game_terrain(1), Ok(()));
    assert_eq!(
        db.read_db_tile_lines(),
        Ok(vec![tile(2, 1, Terrain::Dirt, 2, 3), tile(4, 9, Terrain::Dirt, 2, 2)])
    );
}

#[test]
fn override_beyond_the_hints_grows_the_grid() {
    let mut db = db_with_games(1);
    db.update_game_cursor(1, (40, 3)).unwrap();
    db.update_game_terrain(1, Terrain::Rock).unwrap();
    let game = db.get_game(1).unwrap();
    assert_eq!(game.map.maxes(), (40, 12));
    assert_eq!(game.map.at(&(40, 3)), Terrain::Rock);
    db.update_game_cursor(1, (4, 30)).unwrap();
    db.update_game_terrain(1, Terrain::Rock).unwrap();
    assert_eq!(db.get_game(1).unwrap().map.maxes(), (40, 30));
    assert_eq!(db.get_map(1).unwrap().maxes(), (40, 30));
}

#[test]
fn set_on_a_missing_game_changes_nothing() {
    let mut db = db_with_games(1);
    assert_eq!(
        db.update_game_terrain(3, Terrain::Rock),
        Err(DBError::FindingRecord("games".to_string()))
    );
    assert_eq!(
        db.update_game_character(3, Character::Mage),
        Err(DBError::FindingRecord("games".to_string()))
    );
    assert_eq!(db.unset_game_terrain(3), Err(DBError::FindingRecord("games".to_string())));
    assert_eq!(db.unset_game_character(3), Err(DBError::FindingRecord("games".to_string())));
    assert_eq!(db.read_db_tile_lines(), Ok(vec![]));
    assert_eq!(db.read_db_characters(), Ok(vec![]));
}

#[test]
fn written_rows_are_read_back_unchanged() {
    let mut table: Engine<DBTileLine> = Engine::failed(DBError::FindingTable("gone".to_string()));
    assert_eq!(table.read_db_records(), Err(DBError::FindingTable("gone".to_string())));
    let rows = vec![
        tile(3, 1, Terrain::Rock, 2, 2),
        tile(1, 1, Terrain::Dirt, 2, 3),
        tile(3, 1, Terrain::Rock, 2, 2),
    ];
    assert_eq!(table.write_replace_records(rows.clone()), Ok(()));
    assert_eq!(table.read_db_records(), Ok(rows));
    assert_eq!(table.write_replace_records(vec![]), Ok(()));
    assert_eq!(table.read_db_records(), Ok(vec![]));
    let fresh: Engine<DBGame> = Engine::new();
    assert_eq!(fresh.read_db_records(), Ok(vec![]));
}

#[test]
fn single_result_is_the_first_match() {
    let rows = vec![10u32, 21, 30, 41];
    assert_eq!(get_single_result(rows.clone(), |x: &u32| *x % 2 == 1, "odd"), Ok(21));
    assert_eq!(
        get_single_result(rows, |x: &u32| *x > 100, "large"),
        Err(DBError::FindingRecord("large".to_string()))
    );
    assert_eq!(
        get_single_result(Vec::<u32>::new(), |_x: &u32| true, "any"),
        Err(DBError::FindingRecord("any".to_string()))
    );
}

#[test]
fn models_are_assembled_from_rows() {
    let map_row = DBMap { id: 4, default_terrain: Terrain::Dirt, hint_max_x: 3, hint_max_y: 2 };
    let tiles = vec![
        tile(1, 4, Terrain::Rock, 0, 0),
        tile(2, 4, Terrain::Grass, 0, 0),
        tile(3, 4, Terrain::Rock, 5, 1),
    ];
    let map = map_model_from_db(map_row, tiles.clone());
    assert_eq!(map.id, 4);
    assert_eq!(map.at(&(0, 0)), Terrain::Grass);
    assert_eq!(map.at(&(5, 1)), Terrain::Rock);
    assert_eq!(map.at(&(1, 1)), Terrain::Dirt);
    assert_eq!(map.maxes(), (5, 2));
    let game = game_model_from_db(
        DBGame { id: 8, map_id: 4, cursor_x: 2, cursor_y: 1 },
        map_row,
        tiles,
        vec![character(1, 8, Character::Knight, 1, 1)],
    );
    assert_eq!(game.id, 8);
    assert_eq!(game.current_selection, (2, 1));
    assert_eq!(game.character_at(&(1, 1)), Some(Character::Knight));
    assert_eq!(game.map.at(&(0, 0)), Terrain::Grass);
}

#[test]
fn ids_run_out_at_the_largest_number() {
    let mut db = DB::new();
    assert!(db.ids_left());
    db.tiles = Engine::with_rows(vec![tile(u32::MAX, 1, Terrain::Rock, 0, 0)]);
    assert!(!db.ids_left());
    db.tiles = Engine::failed(DBError::FindingTable("gone".to_string()));
    assert!(db.ids_left());
}

#[test]
fn error_kinds() {
    assert!(DBError::FindingRecord("games".to_string()).is_missing_record());
    assert!(!DBError::FindingTable("x".to_string()).is_missing_record());
    assert!(!DBError::ParsingRecord("x".to_string()).is_missing_record());
    assert!(!DBError::Internal("x".to_string()).is_missing_record());
    let e = DBError::Internal("disk".to_string());
    assert_eq!(e.duplicate(), e);
}

#[test]
fn ensuring_creates_only_the_tables_that_could_not_be_found() {
    let mut db = DB::new();
    db.games = Engine::failed(DBError::FindingTable("gone".to_string()));
    db.maps = Engine::failed(DBError::ParsingRecord("bad".to_string()));
    db.tiles = Engine::with_rows(vec![tile(1, 1, Terrain::Rock, 0, 0)]);
    db.characters = Engine::failed(DBError::Internal("disk".to_string()));
    db.ensure_tables();
    assert_eq!(db.read_db_games(), Ok(vec![]));
    assert_eq!(db.read_db_maps(), Err(DBError::ParsingRecord("bad".to_string())));
    assert_eq!(db.read_db_tile_lines(), Ok(vec![tile(1, 1, Terrain::Rock, 0, 0)]));
    assert_eq!(db.read_db_characters(), Err(DBError::Internal("disk".to_string())));
    db.ensure_tables();
    assert_eq!(db.read_db_games(), Ok(vec![]));
    assert_eq!(db.read_db_maps(), Err(DBError::ParsingRecord("bad".to_string())));
    assert_eq!(db.read_db_tile_lines(), Ok(vec![tile(1, 1, Terrain::Rock, 0, 0)]));
}
