//! Routing: from a method and a path to a route, and from a route to a page.

use vstd::prelude::*;
use crate::db::common::{DBError, DBErrorView};
use crate::db::store::DBView;
use crate::db::{game_views, map_views, DB};
use crate::http::image_serve::{image_path, image_path_spec};
use crate::http::util::{
    db_error_status, db_error_status_spec, parse_id, parse_id_spec, Status, TerrainOrCharacter,
};
use crate::models::{Character, Direction, Game, GameView, MapView, Terrain, TileMap};
use crate::text::str_eq;

verus! {

/// The request methods that are told apart.
#[derive(Debug, Clone, Copy, PartialEq, Eq, Structural)]
pub enum Method {
    Get,
    Post,
    Other,
}

/// What a request asks for. Ids, values and directions are still text.
#[derive(Debug, PartialEq, Eq)]
pub enum Route {
    Index,
    MapList,
    MapSingle(String),
    GameList,
    GameCreate,
    GameSingle(String),
    GameEdit(String),
    SetValue(String, TerrainOrCharacter, String),
    UnsetValue(String, TerrainOrCharacter),
    CursorMove(String, String, bool),
    Image(String),
    NotFound,
}

/// A [`Route`] with its text as sequences of characters.
pub enum RouteView {
    Index,
    MapList,
    MapSingle(Seq<char>),
    GameList,
    GameCreate,
    GameSingle(Seq<char>),
    GameEdit(Seq<char>),
    SetValue(Seq<char>, TerrainOrCharacter, Seq<char>),
    UnsetValue(Seq<char>, TerrainOrCharacter),
    CursorMove(Seq<char>, Seq<char>, bool),
    Image(Seq<char>),
    NotFound,
}

impl View for Route {
    type V = RouteView;

    open spec fn view(&self) -> RouteView {
        match self {
            Route::Index => RouteView::Index,
            Route::MapList => RouteView::MapList,
            Route::MapSingle(id) => RouteView::MapSingle(id@),
            Route::GameList => RouteView::GameList,
            Route::GameCreate => RouteView::GameCreate,
            Route::GameSingle(id) => RouteView::GameSingle(id@),
            Route::GameEdit(id) => RouteView::GameEdit(id@),
            Route::SetValue(id, kind, value) => RouteView::SetValue(id@, *kind, value@),
            Route::UnsetValue(id, kind) => RouteView::UnsetValue(id@, *kind),
            Route::CursorMove(id, direction, edit) => RouteView::CursorMove(id@, direction@, *edit),
            Route::Image(name) => RouteView::Image(name@),
            Route::NotFound => RouteView::NotFound,
        }
    }
}

/// The segments of a path, each as a sequence of characters.
pub open spec fn segments(frags: Seq<String>) -> Seq<Seq<char>> {
    Seq::new(frags.len(), |i: int| frags[i]@)
}

/// The route of a request with the method `Get`.
pub open spec fn get_route(f: Seq<Seq<char>>) -> RouteView {
    if f.len() == 0 {
        RouteView::Index
    } else if f.len() == 1 && f[0] == "maps"@ {
        RouteView::MapList
    } else if f.len() == 2 && f[0] == "maps"@ {
        RouteView::MapSingle(f[1])
    } else if f.len() == 1 && f[0] == "games"@ {
        RouteView::GameList
    } else if f.len() == 2 && f[0] == "games"@ {
        RouteView::GameSingle(f[1])
    } else if f.len() == 3 && f[0] == "games"@ && f[2] == "edit"@ {
        RouteView::GameEdit(f[1])
    } else if f.len() == 2 && f[0] == "images"@ {
        RouteView::Image(f[1])
    } else {
        RouteView::NotFound
    }
}

/// The route of a request with the method `Post`.
pub open spec fn post_route(f: Seq<Seq<char>>) -> RouteView {
    if f.len() == 1 && f[0] == "games"@ {
        RouteView::GameCreate
    } else if f.len() == 5 && f[0] == "games"@ && f[2] == "edit"@ {
        if f[3] == "character"@ {
            RouteView::SetValue(f[1], TerrainOrCharacter::Character, f[4])
        } else if f[3] == "terrain"@ {
            RouteView::SetValue(f[1], TerrainOrCharacter::Terrain, f[4])
        } else if f[3] == "unset"@ && f[4] == "character"@ {
            RouteView::UnsetValue(f[1], TerrainOrCharacter::Character)
        } else if f[3] == "unset"@ && f[4] == "terrain"@ {
            RouteView::UnsetValue(f[1], TerrainOrCharacter::Terrain)
        } else if f[3] == "cursor"@ {
            RouteView::CursorMove(f[1], f[4], true)
        } else {
            RouteView::NotFound
        }
    } else if f.len() == 4 && f[0] == "games"@ && f[2] == "cursor"@ {
        RouteView::CursorMove(f[1], f[3], false)
    } else {
        RouteView::NotFound
    }
}

/// The route of a request, by its method and the non-empty segments of its path.
pub open spec fn route_spec(method: Method, f: Seq<Seq<char>>) -> RouteView {
    match method {
        Method::Get => get_route(f),
        Method::Post => post_route(f),
        Method::Other => RouteView::NotFound,
    }
}

/// The route of a request, by its method and the non-empty segments of its path.
pub fn route(method: Method, frags: &Vec<String>) -> (r: Route)
    ensures
        r@ == route_spec(method, segments(frags@)),
{
    let n = frags.len();
    let ghost f = segments(frags@);
    proof {
        assert forall|i: int| 0 <= i < n implies f[i] == frags[i]@ by {
        }
    }
    match method {
        Method::Get => {
            if n == 0 {
                Route::Index
            } else if n == 1 && str_eq(frags[0].as_str(), "maps") {
                Route::MapList
            } else if n == 2 && str_eq(frags[0].as_str(), "maps") {
                Route::MapSingle(frags[1].clone())
            } else if n == 1 && str_eq(frags[0].as_str(), "games") {
                Route::GameList
            } else if n == 2 && str_eq(frags[0].as_str(), "games") {
                Route::GameSingle(frags[1].clone())
            } else if n == 3 && str_eq(frags[0].as_str(), "games") && str_eq(
                frags[2].as_str(),
                "edit",
            ) {
                Route::GameEdit(frags[1].clone())
            } else if n == 2 && str_eq(frags[0].as_str(), "images") {
                Route::Image(frags[1].clone())
            } else {
                Route::NotFound
            }
        },
        Method::Post => {
            if n == 1 && str_eq(frags[0].as_str(), "games") {
                Route::GameCreate
            } else if n == 5 && str_eq(frags[0].as_str(), "games") && str_eq(
                frags[2].as_str(),
                "edit",
            ) {
                if str_eq(frags[3].as_str(), "character") {
                    Route::SetValue(
                        frags[1].clone(),
                        TerrainOrCharacter::Character,
                        frags[4].clone(),
                    )
                } else if str_eq(frags[3].as_str(), "terrain") {
                    Route::SetValue(frags[1].clone(), TerrainOrCharacter::Terrain, frags[4].clone())
                } else if str_eq(frags[3].as_str(), "unset") && str_eq(
                    frags[4].as_str(),
                    "character",
                ) {
                    Route::UnsetValue(frags[1].clone(), TerrainOrCharacter::Character)
                } else if str_eq(frags[3].as_str(), "unset") && str_eq(
                    frags[4].as_str(),
                    "terrain",
                ) {
                    Route::UnsetValue(frags[1].clone(), TerrainOrCharacter::Terrain)
                } else if str_eq(frags[3].as_str(), "cursor") {
                    Route::CursorMove(frags[1].clone(), frags[4].clone(), true)
                } else {
                    Route::NotFound
                }
            } else if n == 4 && str_eq(frags[0].as_str(), "games") && str_eq(
                frags[2].as_str(),
                "cursor",
            ) {
                Route::CursorMove(frags[1].clone(), frags[3].clone(), false)
            } else {
                Route::NotFound
            }
        },
        Method::Other => Route::NotFound,
    }
}

/// What is shown in reply to a request.
pub enum Page {
    Index,
    MapList(Vec<TileMap>),
    MapSingle(TileMap),
    GameList(Vec<Game>),
    GameSingle(Game),
    GameEdit(Game),
    /// The image file at the given path, relative to the working directory.
    ImageFile(String),
    NotFound,
    InternalServerError,
    BadRequest(String),
}

/// A [`Page`] as mathematical values.
pub enum PageView {
    Index,
    MapList(Seq<MapView>),
    MapSingle(MapView),
    GameList(Seq<GameView>),
    GameSingle(GameView),
    GameEdit(GameView),
    ImageFile(Seq<char>),
    NotFound,
    InternalServerError,
    BadRequest(Seq<char>),
}

impl PageView {
    /// The status that this page is sent with.
    pub open spec fn status(self) -> Status {
        match self {
            PageView::NotFound => Status::NotFound,
            PageView::InternalServerError => Status::InternalServerError,
            PageView::BadRequest(_) => Status::BadRequest,
            _ => Status::Success,
        }
    }
}

impl View for Page {
    type V = PageView;

    open spec fn view(&self) -> PageView {
        match self {
            Page::Index => PageView::Index,
            Page::MapList(maps) => PageView::MapList(map_views(maps@)),
            Page::MapSingle(map) => PageView::MapSingle(map@),
            Page::GameList(games) => PageView::GameList(game_views(games@)),
            Page::GameSingle(game) => PageView::GameSingle(game@),
            Page::GameEdit(game) => PageView::GameEdit(game@),
            Page::ImageFile(path) => PageView::ImageFile(path@),
            Page::NotFound => PageView::NotFound,
            Page::InternalServerError => PageView::InternalServerError,
            Page::BadRequest(message) => PageView::BadRequest(message@),
        }
    }
}

impl Page {
    /// The status that this page is sent with.
    pub fn status(&self) -> (r: Status)
        ensures
            r == self@.status(),
    {
        match self {
            Page::NotFound => Status::NotFound,
            Page::InternalServerError => Status::InternalServerError,
            Page::BadRequest(_) => Status::BadRequest,
            _ => Status::Success,
        }
    }
}

/// The page that a store error is answered with.
pub open spec fn error_page(e: DBErrorView) -> PageView {
    match db_error_status_spec(e) {
        Status::NotFound => PageView::NotFound,
        _ => PageView::InternalServerError,
    }
}

/// The page that a store error is answered with.
pub fn db_error_page(e: DBError) -> (r: Page)
    ensures
        r@ == error_page(e@),
{
    match db_error_status(&e) {
        Status::NotFound => Page::NotFound,
        _ => Page::InternalServerError,
    }
}

/// The page that lists every map.
pub open spec fn map_list_page(db: DBView) -> PageView {
    match db.get_maps() {
        Ok(maps) => PageView::MapList(maps),
        Err(e) => error_page(e),
    }
}

/// The page that shows one map.
pub open spec fn map_single_page(db: DBView, id: Seq<char>) -> PageView {
    match parse_id_spec(id) {
        None => PageView::BadRequest("must supply map id as u32"@),
        Some(map_id) => match db.get_map(map_id) {
            Ok(map) => PageView::MapSingle(map),
            Err(e) => error_page(e),
        },
    }
}

/// The page that lists every game.
pub open spec fn game_list_page(db: DBView) -> PageView {
    match db.get_games() {
        Ok(games) => PageView::GameList(games),
        Err(e) => error_page(e),
    }
}

/// The page that shows one game.
pub open spec fn game_single_page(db: DBView, id: Seq<char>) -> PageView {
    match parse_id_spec(id) {
        None => PageView::BadRequest("must supply game id as u32"@),
        Some(game_id) => match db.get_game(game_id) {
            Ok(game) => PageView::GameSingle(game),
            Err(e) => error_page(e),
        },
    }
}

/// The page on which one game is edited.
pub open spec fn game_edit_page(db: DBView, id: Seq<char>) -> PageView {
    match parse_id_spec(id) {
        None => PageView::BadRequest("must supply map id as u32"@),
        Some(game_id) => match db.get_game(game_id) {
            Ok(game) => PageView::GameEdit(game),
            Err(e) => error_page(e),
        },
    }
}

/// After a change to the store: the error page where the change failed,
/// else the page on which the game is edited, read from the changed store.
pub open spec fn after_edit(change: (Result<(), DBErrorView>, DBView), id: Seq<char>) -> (
    PageView,
    DBView,
) {
    match change.0 {
        Err(e) => (error_page(e), change.1),
        Ok(_) => (game_edit_page(change.1, id), change.1),
    }
}

/// Creating a game, then listing all games.
pub open spec fn create_game(db: DBView) -> (PageView, DBView) {
    let change = db.add_game();
    match change.0 {
        Err(e) => (error_page(e), change.1),
        Ok(_) => (game_list_page(change.1), change.1),
    }
}

/// Putting a terrain or a character on the cell under a game's cursor.
pub open spec fn set_value(db: DBView, id: Seq<char>, kind: TerrainOrCharacter, value: Seq<char>) -> (
    PageView,
    DBView,
) {
    match parse_id_spec(id) {
        None => (PageView::BadRequest("must supply map id as u32"@), db),
        Some(game_id) => match kind {
            TerrainOrCharacter::Terrain => match Terrain::parse_spec(value) {
                None => (PageView::BadRequest("terrain in path invalid"@), db),
                Some(terrain) => after_edit(db.update_game_terrain(game_id, terrain), id),
            },
            TerrainOrCharacter::Character => match Character::parse_spec(value) {
                None => (PageView::BadRequest("character in path invalid"@), db),
                Some(character) => after_edit(db.update_game_character(game_id, character), id),
            },
        },
    }
}

/// Clearing the terrain or the character of the cell under a game's cursor.
pub open spec fn unset_value(db: DBView, id: Seq<char>, kind: TerrainOrCharacter) -> (
    PageView,
    DBView,
) {
    match parse_id_spec(id) {
        None => (PageView::BadRequest("must supply map id as u32"@), db),
        Some(game_id) => match kind {
            TerrainOrCharacter::Terrain => after_edit(db.unset_game_terrain(game_id), id),
            TerrainOrCharacter::Character => after_edit(db.unset_game_character(game_id), id),
        },
    }
}

/// Moving a game's cursor one step: the game is read, the step taken on its
/// grid, and the new cursor stored; the page shows the game as moved.
pub open spec fn cursor_move(db: DBView, id: Seq<char>, direction: Seq<char>, edit: bool) -> (
    PageView,
    DBView,
) {
    match parse_id_spec(id) {
        None => (PageView::BadRequest("must supply map id as u32"@), db),
        Some(game_id) => match db.get_game(game_id) {
            Err(e) => (error_page(e), db),
            Ok(game) => match Direction::parse_spec(direction) {
                None => (
                    PageView::BadRequest("direction must be one of right, up, left, down"@),
                    db,
                ),
                Some(d) => {
                    let moved = game.moved(d);
                    let change = db.update_game_cursor(moved.id, moved.current_selection);
                    match change.0 {
                        Err(e) => (error_page(e), change.1),
                        Ok(_) => (
                            if edit {
                                PageView::GameEdit(moved)
                            } else {
                                PageView::GameSingle(moved)
                            },
                            change.1,
                        ),
                    }
                },
            },
        },
    }
}

/// The page that a request for an image is answered with.
pub open spec fn image_page(name: Seq<char>) -> PageView {
    match image_path_spec(name) {
        Ok(path) => PageView::ImageFile(path),
        Err(refusal) => PageView::BadRequest(refusal.message_spec()),
    }
}

/// Whether the row that a request to set a value adds can be given an id.
pub open spec fn room_to_set(
    db: DBView,
    id: Seq<char>,
    kind: TerrainOrCharacter,
    value: Seq<char>,
) -> bool {
    match parse_id_spec(id) {
        None => true,
        Some(game_id) => match kind {
            TerrainOrCharacter::Terrain => Terrain::parse_spec(value) is Some ==> db.tile_id_fits(
                game_id,
            ),
            TerrainOrCharacter::Character => Character::parse_spec(value) is Some
                ==> db.character_id_fits(game_id),
        },
    }
}

/// Whether every row that answering a route adds can be given an id.
pub open spec fn room_for(db: DBView, route: RouteView) -> bool {
    match route {
        RouteView::GameCreate => db.game_id_fits(),
        RouteView::SetValue(id, kind, value) => room_to_set(db, id, kind, value),
        _ => true,
    }
}

/// A store with an id left in every table has room for every route.
pub proof fn lemma_ids_left_is_room(db: DBView, route: RouteView)
    requires
        db.ids_left(),
    ensures
        room_for(db, route),
{
}

/// The page that a route is answered with, and the store afterwards.
pub open spec fn respond_spec(db: DBView, route: RouteView) -> (PageView, DBView) {
    match route {
        RouteView::Index => (PageView::Index, db),
        RouteView::MapList => (map_list_page(db), db),
        RouteView::MapSingle(id) => (map_single_page(db, id), db),
        RouteView::GameList => (game_list_page(db), db),
        RouteView::GameCreate => create_game(db),
        RouteView::GameSingle(id) => (game_single_page(db, id), db),
        RouteView::GameEdit(id) => (game_edit_page(db, id), db),
        RouteView::SetValue(id, kind, value) => set_value(db, id, kind, value),
        RouteView::UnsetValue(id, kind) => unset_value(db, id, kind),
        RouteView::CursorMove(id, direction, edit) => cursor_move(db, id, direction, edit),
        RouteView::Image(name) => (image_page(name), db),
        RouteView::NotFound => (PageView::NotFound, db),
    }
}

/// The page that lists every map.
pub fn map_list(db: &DB) -> (r: Page)
    ensures
        r@ == map_list_page(db@),
{
    match db.get_maps() {
        Ok(maps) => Page::MapList(maps),
        Err(e) => db_error_page(e),
    }
}

/// The page that shows one map.
pub fn map_single(db: &DB, map_id_str: &str) -> (r: Page)
    ensures
        r@ == map_single_page(db@, map_id_str@),
{
    let map_id = match parse_id(map_id_str) {
        Some(v) => v,
        None => {
            return Page::BadRequest("must supply map id as u32".to_owned());
        },
    };
    match db.get_map(map_id) {
        Ok(map) => Page::MapSingle(map),
        Err(e) => db_error_page(e),
    }
}

/// The page that lists every game.
pub fn game_list(db: &DB) -> (r: Page)
    ensures
        r@ == game_list_page(db@),
{
    match db.get_games() {
        Ok(games) => Page::GameList(games),
        Err(e) => db_error_page(e),
    }
}

/// The page that shows one game.
pub fn game_single(db: &DB, game_id_str: &str) -> (r: Page)
    ensures
        r@ == game_single_page(db@, game_id_str@),
{
    let game_id = match parse_id(game_id_str) {
        Some(v) => v,
        None => {
            return Page::BadRequest("must supply game id as u32".to_owned());
        },
    };
    match db.get_game(game_id) {
        Ok(game) => Page::GameSingle(game),
        Err(e) => db_error_page(e),
    }
}

/// The page on which one game is edited.
pub fn game_edit(db: &DB, game_id_str: &str) -> (r: Page)
    ensures
        r@ == game_edit_page(db@, game_id_str@),
{
    let game_id = match parse_id(game_id_str) {
        Some(v) => v,
        None => {
            return Page::BadRequest("must supply map id as u32".to_owned());
        },
    };
    match db.get_game(game_id) {
        Ok(game) => Page::GameEdit(game),
        Err(e) => db_error_page(e),
    }
}

/// Creates a game, then lists all games.
pub fn handle_post_game(db: &mut DB) -> (r: Page)
    requires
        old(db)@.game_id_fits(),
    ensures
        (r@, final(db)@) == create_game(old(db)@),
{
    match db.add_game() {
        Ok(()) => game_list(db),
        Err(e) => db_error_page(e),
    }
}

/// Puts a terrain or a character on the cell under a game's cursor, then
/// shows the page on which the game is edited.
pub fn handle_post_set_value(
    db: &mut DB,
    game_id_str: &str,
    value_type: TerrainOrCharacter,
    value_value: &str,
) -> (r: Page)
    requires
        room_to_set(old(db)@, game_id_str@, value_type, value_value@),
    ensures
        (r@, final(db)@) == set_value(old(db)@, game_id_str@, value_type, value_value@),
{
    let game_id = match parse_id(game_id_str) {
        Some(v) => v,
        None => {
            return Page::BadRequest("must supply map id as u32".to_owned());
        },
    };
    let changed = match value_type {
        TerrainOrCharacter::Terrain => {
            let terrain = match Terrain::parse_str(value_value) {
                Some(v) => v,
                None => {
                    return Page::BadRequest("terrain in path invalid".to_owned());
                },
            };
            db.update_game_terrain(game_id, terrain)
        },
        TerrainOrCharacter::Character => {
            let character = match Character::parse_str(value_value) {
                Some(v) => v,
                None => {
                    return Page::BadRequest("character in path invalid".to_owned());
                },
            };
            db.update_game_character(game_id, character)
        },
    };
    match changed {
        Ok(()) => game_edit(db, game_id_str),
        Err(e) => db_error_page(e),
    }
}

/// Clears the terrain or the character of the cell under a game's cursor,
/// then shows the page on which the game is edited.
pub fn handle_post_unset_value(db: &mut DB, game_id_str: &str, value_type: TerrainOrCharacter) -> (r:
    Page)
    ensures
        (r@, final(db)@) == unset_value(old(db)@, game_id_str@, value_type),
{
    let game_id = match parse_id(game_id_str) {
        Some(v) => v,
        None => {
            return Page::BadRequest("must supply map id as u32".to_owned());
        },
    };
    let changed = match value_type {
        TerrainOrCharacter::Terrain => db.unset_game_terrain(game_id),
        TerrainOrCharacter::Character => db.unset_game_character(game_id),
    };
    match changed {
        Ok(()) => game_edit(db, game_id_str),
        Err(e) => db_error_page(e),
    }
}

/// Moves a game's cursor one step and stores it, then shows the game.
pub fn handle_post_cursor(db: &mut DB, game_id_str: &str, direction_str: &str, edit: bool) -> (r:
    Page)
    ensures
        (r@, final(db)@) == cursor_move(old(db)@, game_id_str@, direction_str@, edit),
{
    let game_id = match parse_id(game_id_str) {
        Some(v) => v,
        None => {
            return Page::BadRequest("must supply map id as u32".to_owned());
        },
    };
    let mut game = match db.get_game(game_id) {
        Ok(game) => game,
        Err(e) => {
            return db_error_page(e);
        },
    };
    let direction = match Direction::parse(direction_str) {
        Some(d) => d,
        None => {
            return Page::BadRequest("direction must be one of right, up, left, down".to_owned());
        },
    };
    game.move_cursor(direction);
    match db.update_game_cursor(game.id, game.current_selection) {
        Ok(()) => (),
        Err(e) => {
            return db_error_page(e);
        },
    }
    if edit {
        Page::GameEdit(game)
    } else {
        Page::GameSingle(game)
    }
}

/// The page that a request for an image is answered with.
pub fn handle_get_image(file_name: &str) -> (r: Page)
    ensures
        r@ == image_page(file_name@),
{
    match image_path(file_name) {
        Ok(path) => Page::ImageFile(path),
        Err(refusal) => Page::BadRequest(refusal.message()),
    }
}

/// Answers a route: reads or changes the store and says which page to show.
pub fn respond(db: &mut DB, route: &Route) -> (r: Page)
    requires
        room_for(old(db)@, route@),
    ensures
        (r@, final(db)@) == respond_spec(old(db)@, route@),
{
    match route {
        Route::Index => Page::Index,
        Route::MapList => map_list(db),
        Route::MapSingle(id) => map_single(db, id.as_str()),
        Route::GameList => game_list(db),
        Route::GameCreate => handle_post_game(db),
        Route::GameSingle(id) => game_single(db, id.as_str()),
        Route::GameEdit(id) => game_edit(db, id.as_str()),
        Route::SetValue(id, kind, value) => handle_post_set_value(
            db,
            id.as_str(),
            *kind,
            value.as_str(),
        ),
        Route::UnsetValue(id, kind) => handle_post_unset_value(db, id.as_str(), *kind),
        Route::CursorMove(id, direction, edit) => handle_post_cursor(
            db,
            id.as_str(),
            direction.as_str(),
            *edit,
        ),
        Route::Image(name) => handle_get_image(name.as_str()),
        Route::NotFound => Page::NotFound,
    }
}

} // verus!
