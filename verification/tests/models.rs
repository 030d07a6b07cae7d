use std::collections::BTreeMap;

use map_editor::models::{Character, Direction, Game, Terrain, TileMap};

fn empty_map(hint_x: u32, hint_y: u32) -> TileMap {
    TileMap {
        id: 1,
        default_terrain: Terrain::Grass,
        specified_terrain: BTreeMap::new(),
        hint_max_x: hint_x,
        hint_max_y: hint_y,
    }
}

fn game_on(map: TileMap, cursor: (u32, u32)) -> Game {
    Game { id: 7, map, characters: BTreeMap::new(), current_selection: cursor }
}

#[test]
fn direction_parse_knows_the_four_tokens() {
    assert_eq!(Direction::parse("right"), Some(Direction::Right));
    assert_eq!(Direction::parse("up"), Some(Direction::Up));
    assert_eq!(Direction::parse("left"), Some(Direction::Left));
    assert_eq!(Direction::parse("down"), Some(Direction::Down));
    assert_eq!(Direction::parse("Right"), None);
    assert_eq!(Direction::parse(""), None);
    assert_eq!(Direction::parse("rightt"), None);
}

#[test]
fn direction_form_strings_give_token_and_symbol() {
    assert_eq!(Direction::Right.form_strings(), ("right", ">"));
    assert_eq!(Direction::Up.form_strings(), ("up", "^"));
    assert_eq!(Direction::Left.form_strings(), ("left", "<"));
    assert_eq!(Direction::Down.form_strings(), ("down", "v"));
}

#[test]
fn direction_token_parses_back() {
    for d in [Direction::Right, Direction::Up, Direction::Left, Direction::Down] {
        assert_eq!(Direction::parse(d.form_strings().0), Some(d));
    }
}

#[test]
fn terrain_strings() {
    assert_eq!(Terrain::all_values(), vec![Terrain::Grass, Terrain::Dirt, Terrain::Rock]);
    assert_eq!(Terrain::parse_str("grass"), Some(Terrain::Grass));
    assert_eq!(Terrain::parse_str("dirt"), Some(Terrain::Dirt));
    assert_eq!(Terrain::parse_str("rock"), Some(Terrain::Rock));
    assert_eq!(Terrain::parse_str("Rock"), None);
    assert_eq!(Terrain::parse_str("lava"), None);
    assert_eq!(Terrain::Grass.url_frag_string(), "grass");
    assert_eq!(Terrain::Dirt.url_frag_string(), "dirt");
    assert_eq!(Terrain::Rock.url_frag_string(), "rock");
    assert_eq!(Terrain::Grass.display_string(), "Grass");
    assert_eq!(Terrain::Dirt.display_string(), "Dirt");
    assert_eq!(Terrain::Rock.display_string(), "Rock");
}

#[test]
fn terrain_token_parses_back() {
    for t in Terrain::all_values() {
        assert_eq!(Terrain::parse_str(&t.url_frag_string()), Some(t));
    }
}

#[test]
fn character_strings() {
    assert_eq!(
        Character::all_values(),
        vec![Character::Knight, Character::Mage, Character::Thief]
    );
    assert_eq!(Character::parse_str("knight"), Some(Character::Knight));
    assert_eq!(Character::parse_str("mage"), Some(Character::Mage));
    assert_eq!(Character::parse_str("thief"), Some(Character::Thief));
    assert_eq!(Character::parse_str("Thief"), None);
    assert_eq!(Character::parse_str(""), None);
    assert_eq!(Character::Knight.url_frag_string(), "knight");
    assert_eq!(Character::Mage.url_frag_string(), "mage");
    assert_eq!(Character::Thief.url_frag_string(), "thief");
    assert_eq!(Character::Knight.display_string(), "Knight");
    assert_eq!(Character::Mage.display_string(), "Mage");
    assert_eq!(Character::Thief.display_string(), "Thief");
}

#[test]
fn character_token_parses_back() {
    for c in Character::all_values() {
        assert_eq!(Character::parse_str(&c.url_frag_string()), Some(c));
    }
}

#[test]
fn maxes_of_a_map_without_overrides_are_its_hints() {
    assert_eq!(empty_map(15, 12).maxes(), (15, 12));
    assert_eq!(empty_map(0, 0).maxes(), (0, 0));
}

#[test]
fn maxes_grow_to_an_override_beyond_the_hints() {
    let mut map = empty_map(15, 12);
    map.specified_terrain.insert((3, 4), Terrain::Rock);
    assert_eq!(map.maxes(), (15, 12));
    map.specified_terrain.insert((20, 4), Terrain::Rock);
    assert_eq!(map.maxes(), (20, 12));
    map.specified_terrain.insert((2, 40), Terrain::Dirt);
    assert_eq!(map.maxes(), (20, 40));
    map.specified_terrain.insert((u32::MAX, u32::MAX), Terrain::Dirt);
    assert_eq!(map.maxes(), (u32::MAX, u32::MAX));
}

#[test]
fn at_gives_the_override_or_the_default() {
    let mut map = empty_map(15, 12);
    map.default_terrain = Terrain::Dirt;
    map.specified_terrain.insert((3, 4), Terrain::Rock);
    assert_eq!(map.at(&(3, 4)), Terrain::Rock);
    assert_eq!(map.at(&(4, 3)), Terrain::Dirt);
    assert_eq!(map.at(&(0, 0)), Terrain::Dirt);
}

#[test]
fn character_at_gives_the_character_or_none() {
    let mut game = game_on(empty_map(15, 12), (0, 0));
    game.characters.insert((1, 2), Character::Mage);
    assert_eq!(game.character_at(&(1, 2)), Some(Character::Mage));
    assert_eq!(game.character_at(&(2, 1)), None);
}

#[test]
fn game_maxes_cover_characters_too() {
    let mut game = game_on(empty_map(15, 12), (0, 0));
    assert_eq!(game.maxes(), (15, 12));
    game.characters.insert((30, 2), Character::Thief);
    assert_eq!(game.maxes(), (30, 12));
    game.map.specified_terrain.insert((1, 50), Terrain::Rock);
    assert_eq!(game.maxes(), (30, 50));
    assert_eq!(game.map.maxes(), (15, 50));
}

#[test]
fn cursor_moves_one_step_inside_the_grid() {
    let mut game = game_on(empty_map(15, 12), (3, 4));
    game.move_cursor(Direction::Right);
    assert_eq!(game.current_selection, (4, 4));
    game.move_cursor(Direction::Up);
    assert_eq!(game.current_selection, (4, 5));
    game.move_cursor(Direction::Left);
    assert_eq!(game.current_selection, (3, 5));
    game.move_cursor(Direction::Down);
    assert_eq!(game.current_selection, (3, 4));
}

#[test]
fn cursor_saturates_at_the_right_and_top_edges() {
    let mut game = game_on(empty_map(15, 12), (14, 11));
    game.move_cursor(Direction::Right);
    assert_eq!(game.current_selection, (14, 11));
    game.move_cursor(Direction::Up);
    assert_eq!(game.current_selection, (14, 11));
    let mut game = game_on(empty_map(15, 12), (13, 10));
    game.move_cursor(Direction::Right);
    game.move_cursor(Direction::Up);
    assert_eq!(game.current_selection, (14, 11));
}

#[test]
fn cursor_saturates_at_the_left_and_bottom_edges() {
    let mut game = game_on(empty_map(15, 12), (0, 0));
    game.move_cursor(Direction::Left);
    assert_eq!(game.current_selection, (0, 0));
    game.move_cursor(Direction::Down);
    assert_eq!(game.current_selection, (0, 0));
}

#[test]
fn cursor_stays_put_on_a_grid_without_room() {
    let mut game = game_on(empty_map(0, 0), (0, 0));
    game.move_cursor(Direction::Right);
    game.move_cursor(Direction::Up);
    assert_eq!(game.current_selection, (0, 0));
    let mut game = game_on(empty_map(1, 1), (0, 0));
    game.move_cursor(Direction::Right);
    game.move_cursor(Direction::Up);
    assert_eq!(game.current_selection, (0, 0));
    let mut game = game_on(empty_map(u32::MAX, u32::MAX), (u32::MAX, u32::MAX));
    game.move_cursor(Direction::Right);
    game.move_cursor(Direction::Up);
    assert_eq!(game.current_selection, (u32::MAX, u32::MAX));
}

#[test]
fn move_changes_nothing_but_the_cursor() {
    let mut game = game_on(empty_map(15, 12), (3, 4));
    game.characters.insert((1, 1), Character::Knight);
    game.map.specified_terrain.insert((2, 2), Terrain::Rock);
    game.move_cursor(Direction::Right);
    assert_eq!(game.id, 7);
    assert_eq!(game.map.id, 1);
    assert_eq!(game.character_at(&(1, 1)), Some(Character::Knight));
    assert_eq!(game.map.at(&(2, 2)), Terrain::Rock);
    assert_eq!(game.maxes(), (15, 12));
}
