use map_editor::html::links::{
    cursor_action, game_edit_link, game_link, id_text, map_link, path_of, set_character_action,
    set_terrain_action, unset_action,
};
use map_editor::http::routes::{route, Method, Route};
use map_editor::http::util::{parse_id, TerrainOrCharacter};
use map_editor::models::{Character, Direction, Terrain};

fn split(path: &str) -> Vec<String> {
    path.split('/').filter(|x| !x.is_empty()).map(|x| x.to_string()).collect()
}

#[test]
fn ids_are_written_in_base_ten() {
    assert_eq!(id_text(0), "0");
    assert_eq!(id_text(7), "7");
    assert_eq!(id_text(10), "10");
    assert_eq!(id_text(1203), "1203");
    assert_eq!(id_text(u32::MAX), "4294967295");
}

#[test]
fn written_ids_are_read_back() {
    for id in [0, 1, 9, 10, 99, 100, 65535, 4000000000, u32::MAX] {
        assert_eq!(parse_id(&id_text(id)), Some(id));
        assert_eq!(id_text(id), format!("{}", id));
    }
}

#[test]
fn paths_of_segments() {
    assert_eq!(path_of(&vec![]), "/");
    assert_eq!(path_of(&vec!["games".to_string()]), "/games");
    assert_eq!(path_of(&vec!["games".to_string(), "4".to_string()]), "/games/4");
    assert_eq!(path_of(&map_link(12)), "/maps/12");
    assert_eq!(path_of(&game_link(3)), "/games/3");
    assert_eq!(path_of(&game_edit_link(3)), "/games/3/edit");
    assert_eq!(path_of(&set_terrain_action(3, Terrain::Rock)), "/games/3/edit/terrain/rock");
    assert_eq!(
        path_of(&set_character_action(3, Character::Thief)),
        "/games/3/edit/character/thief"
    );
    assert_eq!(
        path_of(&unset_action(3, TerrainOrCharacter::Terrain)),
        "/games/3/edit/unset/terrain"
    );
    assert_eq!(
        path_of(&unset_action(3, TerrainOrCharacter::Character)),
        "/games/3/edit/unset/character"
    );
    assert_eq!(path_of(&cursor_action(3, Direction::Up, true)), "/games/3/edit/cursor/up");
    assert_eq!(path_of(&cursor_action(3, Direction::Left, false)), "/games/3/cursor/left");
}

#[test]
fn links_lead_to_their_routes() {
    assert_eq!(
        route(Method::Get, &split(&path_of(&map_link(12)))),
        Route::MapSingle("12".to_string())
    );
    assert_eq!(
        route(Method::Get, &split(&path_of(&game_link(3)))),
        Route::GameSingle("3".to_string())
    );
    assert_eq!(
        route(Method::Get, &split(&path_of(&game_edit_link(3)))),
        Route::GameEdit("3".to_string())
    );
    for t in Terrain::all_values() {
        assert_eq!(
            route(Method::Post, &set_terrain_action(3, t)),
            Route::SetValue("3".to_string(), TerrainOrCharacter::Terrain, t.url_frag_string())
        );
    }
    for c in Character::all_values() {
        assert_eq!(
            route(Method::Post, &set_character_action(3, c)),
            Route::SetValue("3".to_string(), TerrainOrCharacter::Character, c.url_frag_string())
        );
    }
    assert_eq!(
        route(Method::Post, &unset_action(3, TerrainOrCharacter::Character)),
        Route::UnsetValue("3".to_string(), TerrainOrCharacter::Character)
    );
    for d in [Direction::Right, Direction::Up, Direction::Left, Direction::Down] {
        assert_eq!(
            route(Method::Post, &cursor_action(3, d, true)),
            Route::CursorMove("3".to_string(), d.form_strings().0.to_string(), true)
        );
        assert_eq!(
            route(Method::Post, &cursor_action(3, d, false)),
            Route::CursorMove("3".to_string(), d.form_strings().0.to_string(), false)
        );
    }
}
