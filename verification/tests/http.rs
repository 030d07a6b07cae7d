use map_editor::db::common::DBError;
use map_editor::db::engine::Engine;
use map_editor::db::records::{DBGame, DBMap};
use map_editor::db::DB;
use map_editor::http::image_serve::{
    image_path, is_alpha_numeric_underscore, validate_file_name, ImageFileType, ImageRefusal,
};
use map_editor::http::routes::{db_error_page, respond, route, Method, Page, Route};
use map_editor::http::util::{db_error_status, parse_id, Status, TerrainOrCharacter};
use map_editor::models::{Character, Terrain};

fn frags(path: &str) -> Vec<String> {
    path.split('/').filter(|x| !x.is_empty()).map(|x| x.to_string()).collect()
}

fn one_game() -> DB {
    let mut db = DB::new();
    assert_eq!(db.add_game(), Ok(()));
    db
}

fn status_of(page: &Page) -> u16 {
    page.status().code()
}

#[test]
fn parse_id_reads_decimal_numbers() {
    assert_eq!(parse_id("0"), Some(0));
    assert_eq!(parse_id("7"), Some(7));
    assert_eq!(parse_id("0012"), Some(12));
    assert_eq!(parse_id("+12"), Some(12));
    assert_eq!(parse_id("4294967295"), Some(u32::MAX));
    assert_eq!(parse_id("4294967296"), None);
    assert_eq!(parse_id("99999999999999999999999999"), None);
    assert_eq!(parse_id(""), None);
    assert_eq!(parse_id("+"), None);
    assert_eq!(parse_id("-1"), None);
    assert_eq!(parse_id("++1"), None);
    assert_eq!(parse_id("1+"), None);
    assert_eq!(parse_id("12a"), None);
    assert_eq!(parse_id(" 12"), None);
    assert_eq!(parse_id("١٢"), None);
}

#[test]
fn parse_id_agrees_with_the_standard_parser() {
    for s in ["0", "1", "42", "+42", "007", "4294967295", "4294967296", "", "+", "-", "x", "1x", "+-1"]
    {
        assert_eq!(parse_id(s), s.parse::<u32>().ok());
    }
}

#[test]
fn status_codes() {
    assert_eq!(Status::Success.code(), 200);
    assert_eq!(Status::BadRequest.code(), 400);
    assert_eq!(Status::NotFound.code(), 404);
    assert_eq!(Status::InternalServerError.code(), 500);
}

#[test]
fn store_errors_map_to_statuses() {
    assert_eq!(db_error_status(&DBError::FindingRecord("games".to_string())), Status::NotFound);
    assert_eq!(
        db_error_status(&DBError::FindingTable("x".to_string())),
        Status::InternalServerError
    );
    assert_eq!(
        db_error_status(&DBError::ParsingRecord("x".to_string())),
        Status::InternalServerError
    );
    assert_eq!(db_error_status(&DBError::Internal("x".to_string())), Status::InternalServerError);
    assert_eq!(status_of(&db_error_page(DBError::FindingRecord("maps".to_string()))), 404);
    assert_eq!(status_of(&db_error_page(DBError::Internal("x".to_string()))), 500);
}

#[test]
fn image_extension() {
    assert_eq!(ImageFileType::PNG.extension(), "png");
}

#[test]
fn file_name_characters() {
    for c in ['a', 'z', 'A', 'Z', '0', '9', '_'] {
        assert!(is_alpha_numeric_underscore(c));
    }
    for c in ['-', '.', '/', ' ', 'é', '`', '{', '@', '[', ':'] {
        assert!(!is_alpha_numeric_underscore(c));
    }
    assert_eq!(validate_file_name("grass_01"), Ok(()));
    assert_eq!(validate_file_name("_"), Ok(()));
    assert_eq!(
        validate_file_name(""),
        Err("must contain only ascii alphanumeric and '_' characters")
    );
    assert_eq!(
        validate_file_name("../etc"),
        Err("must contain only ascii alphanumeric and '_' characters")
    );
    assert_eq!(
        validate_file_name("gräss"),
        Err("must contain only ascii alphanumeric and '_' characters")
    );
}

#[test]
fn image_paths() {
    assert_eq!(image_path("grass.png"), Ok("images/grass.png".to_string()));
    assert_eq!(image_path("marker_2.png"), Ok("images/marker_2.png".to_string()));
    assert_eq!(image_path(".png"), Err(ImageRefusal::Name));
    assert_eq!(image_path("grass"), Err(ImageRefusal::Shape));
    assert_eq!(image_path("grass.tar.png"), Err(ImageRefusal::Shape));
    assert_eq!(image_path(""), Err(ImageRefusal::Shape));
    assert_eq!(image_path("grass.jpg"), Err(ImageRefusal::FileType));
    assert_eq!(image_path("grass."), Err(ImageRefusal::FileType));
    assert_eq!(image_path("grass.PNG"), Err(ImageRefusal::FileType));
    assert_eq!(image_path("gr-ass.png"), Err(ImageRefusal::Name));
    assert_eq!(image_path("gr ass.png"), Err(ImageRefusal::Name));
    assert_eq!(ImageRefusal::Shape.message(), "images must be 'file.ext'");
    assert_eq!(ImageRefusal::FileType.message(), "only .png image file type is supported");
    assert_eq!(
        ImageRefusal::Name.message(),
        "image file invalid: must contain only ascii alphanumeric and '_' characters"
    );
}

#[test]
fn get_routes() {
    assert_eq!(route(Method::Get, &frags("/")), Route::Index);
    assert_eq!(route(Method::Get, &frags("/maps")), Route::MapList);
    assert_eq!(route(Method::Get, &frags("/maps/3")), Route::MapSingle("3".to_string()));
    assert_eq!(route(Method::Get, &frags("/games")), Route::GameList);
    assert_eq!(route(Method::Get, &frags("/games/x")), Route::GameSingle("x".to_string()));
    assert_eq!(route(Method::Get, &frags("/games/4/edit")), Route::GameEdit("4".to_string()));
    assert_eq!(
        route(Method::Get, &frags("/images/grass.png")),
        Route::Image("grass.png".to_string())
    );
    assert_eq!(route(Method::Get, &frags("/games/4/show")), Route::NotFound);
    assert_eq!(route(Method::Get, &frags("/maps/4/edit")), Route::NotFound);
    assert_eq!(route(Method::Get, &frags("/images")), Route::NotFound);
    assert_eq!(route(Method::Get, &frags("/nothing")), Route::NotFound);
    assert_eq!(route(Method::Get, &frags("/games/4/cursor/up")), Route::NotFound);
}

#[test]
fn post_routes() {
    assert_eq!(route(Method::Post, &frags("/games")), Route::GameCreate);
    assert_eq!(
        route(Method::Post, &frags("/games/4/edit/terrain/rock")),
        Route::SetValue("4".to_string(), TerrainOrCharacter::Terrain, "rock".to_string())
    );
    assert_eq!(
        route(Method::Post, &frags("/games/4/edit/character/mage")),
        Route::SetValue("4".to_string(), TerrainOrCharacter::Character, "mage".to_string())
    );
    assert_eq!(
        route(Method::Post, &frags("/games/4/edit/unset/terrain")),
        Route::UnsetValue("4".to_string(), TerrainOrCharacter::Terrain)
    );
    assert_eq!(
        route(Method::Post, &frags("/games/4/edit/unset/character")),
        Route::UnsetValue("4".to_string(), TerrainOrCharacter::Character)
    );
    assert_eq!(
        route(Method::Post, &frags("/games/4/edit/cursor/up")),
        Route::CursorMove("4".to_string(), "up".to_string(), true)
    );
    assert_eq!(
        route(Method::Post, &frags("/games/4/cursor/sideways")),
        Route::CursorMove("4".to_string(), "sideways".to_string(), false)
    );
    assert_eq!(route(Method::Post, &frags("/games/4/edit/unset/cursor")), Route::NotFound);
    assert_eq!(route(Method::Post, &frags("/games/4")), Route::NotFound);
    assert_eq!(route(Method::Post, &frags("/maps")), Route::NotFound);
    assert_eq!(route(Method::Post, &frags("/")), Route::NotFound);
    assert_eq!(route(Method::Other, &frags("/games")), Route::NotFound);
    assert_eq!(route(Method::Other, &frags("/")), Route::NotFound);
}

#[test]
fn index_and_unknown_routes() {
    let mut db = DB::new();
    assert!(matches!(respond(&mut db, &Route::Index), Page::Index));
    let page = respond(&mut db, &Route::NotFound);
    assert!(matches!(page, Page::NotFound));
    assert_eq!(status_of(&page), 404);
}

#[test]
fn creating_a_game_lists_the_games() {
    let mut db = DB::new();
    match respond(&mut db, &Route::GameCreate) {
        Page::GameList(games) => {
            assert_eq!(games.len(), 1);
            assert_eq!(games[0].id, 1);
        },
        _ => panic!("expected the list of games"),
    }
    match respond(&mut db, &Route::GameCreate) {
        Page::GameList(games) => {
            assert_eq!(games.len(), 2);
            assert_eq!(games[1].id, 2);
        },
        _ => panic!("expected the list of games"),
    }
    match respond(&mut db, &Route::MapList) {
        Page::MapList(maps) => assert_eq!(maps.len(), 2),
        _ => panic!("expected the list of maps"),
    }
    match respond(&mut db, &Route::MapSingle("2".to_string())) {
        Page::MapSingle(map) => assert_eq!(map.id, 2),
        _ => panic!("expected a map"),
    }
}

#[test]
fn bad_ids_are_bad_requests() {
    let mut db = one_game();
    match respond(&mut db, &Route::GameSingle("one".to_string())) {
        Page::BadRequest(m) => assert_eq!(m, "must supply game id as u32"),
        _ => panic!("expected a bad request"),
    }
    match respond(&mut db, &Route::MapSingle("".to_string())) {
        Page::BadRequest(m) => assert_eq!(m, "must supply map id as u32"),
        _ => panic!("expected a bad request"),
    }
    match respond(&mut db, &Route::GameEdit("-1".to_string())) {
        Page::BadRequest(m) => assert_eq!(m, "must supply map id as u32"),
        _ => panic!("expected a bad request"),
    }
    let page = respond(
        &mut db,
        &Route::SetValue("1".to_string(), TerrainOrCharacter::Terrain, "lava".to_string()),
    );
    assert_eq!(status_of(&page), 400);
    match page {
        Page::BadRequest(m) => assert_eq!(m, "terrain in path invalid"),
        _ => panic!("expected a bad request"),
    }
    match respond(
        &mut db,
        &Route::SetValue("1".to_string(), TerrainOrCharacter::Character, "rock".to_string()),
    ) {
        Page::BadRequest(m) => assert_eq!(m, "character in path invalid"),
        _ => panic!("expected a bad request"),
    }
    match respond(&mut db, &Route::CursorMove("1".to_string(), "north".to_string(), true)) {
        Page::BadRequest(m) => assert_eq!(m, "direction must be one of right, up, left, down"),
        _ => panic!("expected a bad request"),
    }
    assert_eq!(db.read_db_tile_lines(), Ok(vec![]));
    assert_eq!(db.read_db_characters(), Ok(vec![]));
}

#[test]
fn missing_records_are_not_found_and_faults_are_server_errors() {
    let mut db = one_game();
    assert!(matches!(respond(&mut db, &Route::GameSingle("9".to_string())), Page::NotFound));
    assert!(matches!(respond(&mut db, &Route::MapSingle("9".to_string())), Page::NotFound));
    assert!(matches!(
        respond(&mut db, &Route::UnsetValue("9".to_string(), TerrainOrCharacter::Terrain)),
        Page::NotFound
    ));
    assert!(matches!(
        respond(&mut db, &Route::CursorMove("9".to_string(), "up".to_string(), false)),
        Page::NotFound
    ));
    // The game is looked up before the direction is read.
    assert!(matches!(
        respond(&mut db, &Route::CursorMove("9".to_string(), "north".to_string(), false)),
        Page::NotFound
    ));
    db.tiles = Engine::failed(DBError::ParsingRecord("bad".to_string()));
    let page = respond(&mut db, &Route::GameList);
    assert!(matches!(page, Page::InternalServerError));
    assert_eq!(status_of(&page), 500);
    assert!(matches!(respond(&mut db, &Route::MapList), Page::InternalServerError));
    assert!(matches!(
        respond(&mut db, &Route::GameEdit("1".to_string())),
        Page::InternalServerError
    ));
}

#[test]
fn edits_show_the_changed_game() {
    let mut db = one_game();
    match respond(&mut db, &Route::CursorMove("1".to_string(), "right".to_string(), true)) {
        Page::GameEdit(game) => assert_eq!(game.current_selection, (1, 0)),
        _ => panic!("expected the edit page"),
    }
    match respond(&mut db, &Route::CursorMove("1".to_string(), "up".to_string(), false)) {
        Page::GameSingle(game) => assert_eq!(game.current_selection, (1, 1)),
        _ => panic!("expected the game page"),
    }
    assert_eq!(
        db.read_db_games(),
        Ok(vec![DBGame { id: 1, map_id: 1, cursor_x: 1, cursor_y: 1 }])
    );
    match respond(
        &mut db,
        &Route::SetValue("1".to_string(), TerrainOrCharacter::Terrain, "rock".to_string()),
    ) {
        Page::GameEdit(game) => {
            assert_eq!(game.map.at(&(1, 1)), Terrain::Rock);
            assert_eq!(game.map.at(&(0, 0)), Terrain::Grass);
        },
        _ => panic!("expected the edit page"),
    }
    match respond(
        &mut db,
        &Route::SetValue("+1".to_string(), TerrainOrCharacter::Character, "thief".to_string()),
    ) {
        Page::GameEdit(game) => assert_eq!(game.character_at(&(1, 1)), Some(Character::Thief)),
        _ => panic!("expected the edit page"),
    }
    match respond(&mut db, &Route::UnsetValue("1".to_string(), TerrainOrCharacter::Terrain)) {
        Page::GameEdit(game) => {
            assert_eq!(game.map.at(&(1, 1)), Terrain::Grass);
            assert_eq!(game.character_at(&(1, 1)), Some(Character::Thief));
        },
        _ => panic!("expected the edit page"),
    }
    match respond(&mut db, &Route::UnsetValue("1".to_string(), TerrainOrCharacter::Character)) {
        Page::GameEdit(game) => assert_eq!(game.character_at(&(1, 1)), None),
        _ => panic!("expected the edit page"),
    }
}

#[test]
fn cursor_saturates_through_the_handler() {
    let mut db = DB::new();
    db.maps = Engine::with_rows(vec![DBMap {
        id: 1,
        default_terrain: Terrain::Grass,
        hint_max_x: 3,
        hint_max_y: 2,
    }]);
    db.games = Engine::with_rows(vec![DBGame { id: 1, map_id: 1, cursor_x: 2, cursor_y: 0 }]);
    match respond(&mut db, &Route::CursorMove("1".to_string(), "right".to_string(), false)) {
        Page::GameSingle(game) => assert_eq!(game.current_selection, (2, 0)),
        _ => panic!("expected the game page"),
    }
    match respond(&mut db, &Route::CursorMove("1".to_string(), "down".to_string(), false)) {
        Page::GameSingle(game) => assert_eq!(game.current_selection, (2, 0)),
        _ => panic!("expected the game page"),
    }
    match respond(&mut db, &Route::CursorMove("1".to_string(), "left".to_string(), false)) {
        Page::GameSingle(game) => assert_eq!(game.current_selection, (1, 0)),
        _ => panic!("expected the game page"),
    }
}

#[test]
fn image_requests() {
    let mut db = DB::new();
    match respond(&mut db, &Route::Image("knight.png".to_string())) {
        Page::ImageFile(path) => assert_eq!(path, "images/knight.png"),
        _ => panic!("expected an image file"),
    }
    match respond(&mut db, &Route::Image("knight".to_string())) {
        Page::BadRequest(m) => assert_eq!(m, "images must be 'file.ext'"),
        _ => panic!("expected a bad request"),
    }
    match respond(&mut db, &Route::Image("knight.gif".to_string())) {
        Page::BadRequest(m) => assert_eq!(m, "only .png image file type is supported"),
        _ => panic!("expected a bad request"),
    }
}

fn assert_consistent(db: &DB) {
    let games = db.get_games().unwrap();
    for (i, a) in games.iter().enumerate() {
        let (max_x, max_y) = a.maxes();
        assert!(a.current_selection.0 < max_x && a.current_selection.1 < max_y);
        for b in games.iter().skip(i + 1) {
            assert_ne!(a.id, b.id);
            assert_ne!(a.map.id, b.map.id);
        }
    }
    let tiles = db.read_db_tile_lines().unwrap();
    for (i, a) in tiles.iter().enumerate() {
        for b in tiles.iter().skip(i + 1) {
            assert_ne!((a.owner_id, a.x, a.y), (b.owner_id, b.x, b.y));
        }
    }
    let characters = db.read_db_characters().unwrap();
    for (i, a) in characters.iter().enumerate() {
        for b in characters.iter().skip(i + 1) {
            assert_ne!((a.owner_id, a.x, a.y), (b.owner_id, b.x, b.y));
        }
    }
}

#[test]
fn store_stays_consistent_through_requests() {
    let mut db = DB::new();
    let requests = [
        (Method::Post, "/games"),
        (Method::Post, "/games"),
        (Method::Post, "/games/1/edit/cursor/right"),
        (Method::Post, "/games/1/edit/cursor/up"),
        (Method::Post, "/games/1/edit/terrain/rock"),
        (Method::Post, "/games/1/edit/character/mage"),
        (Method::Post, "/games/2/cursor/left"),
        (Method::Post, "/games/2/edit/terrain/dirt"),
        (Method::Post, "/games/1/edit/terrain/dirt"),
        (Method::Post, "/games/1/edit/unset/terrain"),
        (Method::Post, "/games/1/edit/unset/terrain"),
        (Method::Post, "/games/3/edit/unset/character"),
        (Method::Post, "/games/1/edit/character/thief"),
        (Method::Post, "/games/x/edit/character/thief"),
        (Method::Get, "/games/1"),
        (Method::Post, "/games"),
    ];
    for (method, path) in requests {
        assert!(db.ids_left());
        let page = respond(&mut db, &route(method, &frags(path)));
        assert_ne!(status_of(&page), 500);
        assert_consistent(&db);
    }
    assert_eq!(db.get_games().unwrap().len(), 3);
    assert_eq!(db.get_game(1).unwrap().character_at(&(1, 1)), Some(Character::Thief));
    assert_eq!(db.get_game(1).unwrap().map.at(&(1, 1)), Terrain::Grass);
    assert_eq!(db.get_game(2).unwrap().map.at(&(0, 0)), Terrain::Dirt);
}
