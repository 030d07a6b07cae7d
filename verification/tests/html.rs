use std::collections::BTreeMap;

use map_editor::html::util::{grid_rows, maybe_append, GridCell};
use map_editor::models::{Character, Game, Terrain, TileMap};

fn small_map() -> TileMap {
    let mut specified_terrain = BTreeMap::new();
    specified_terrain.insert((0, 0), Terrain::Rock);
    specified_terrain.insert((2, 1), Terrain::Dirt);
    TileMap { id: 1, default_terrain: Terrain::Grass, specified_terrain, hint_max_x: 3, hint_max_y: 2 }
}

fn plain(terrain: Terrain) -> GridCell {
    GridCell { terrain, character: None, selected: false }
}

#[test]
fn maybe_append_adds_a_value_or_nothing() {
    assert_eq!(maybe_append(vec![1, 2], Some(3)), vec![1, 2, 3]);
    assert_eq!(maybe_append(vec![1, 2], None), vec![1, 2]);
    assert_eq!(maybe_append(Vec::<u8>::new(), Some(3)), vec![3]);
}

#[test]
fn image_names() {
    assert_eq!(Terrain::Grass.image_name(), "grass");
    assert_eq!(Terrain::Dirt.image_name(), "dirt");
    assert_eq!(Terrain::Rock.image_name(), "rock");
    assert_eq!(Character::Knight.image_name(), "knight");
    assert_eq!(Character::Mage.image_name(), "mage");
    assert_eq!(Character::Thief.image_name(), "thief");
}

#[test]
fn map_grid_has_the_top_row_first() {
    assert_eq!(
        small_map().grid(),
        vec![
            vec![plain(Terrain::Grass), plain(Terrain::Grass), plain(Terrain::Dirt)],
            vec![plain(Terrain::Rock), plain(Terrain::Grass), plain(Terrain::Grass)],
        ]
    );
}

#[test]
fn game_grid_shows_characters_and_the_selection() {
    let mut characters = BTreeMap::new();
    characters.insert((1, 0), Character::Mage);
    let game = Game { id: 1, map: small_map(), characters, current_selection: (1, 1) };
    assert_eq!(
        game.grid(),
        vec![
            vec![
                plain(Terrain::Grass),
                GridCell { terrain: Terrain::Grass, character: None, selected: true },
                plain(Terrain::Dirt)
            ],
            vec![
                plain(Terrain::Rock),
                GridCell { terrain: Terrain::Grass, character: Some(Character::Mage), selected: false },
                plain(Terrain::Grass)
            ],
        ]
    );
}

#[test]
fn grid_of_no_size_is_empty() {
    let map = TileMap {
        id: 1,
        default_terrain: Terrain::Grass,
        specified_terrain: BTreeMap::new(),
        hint_max_x: 0,
        hint_max_y: 0,
    };
    assert_eq!(map.grid(), Vec::<Vec<GridCell>>::new());
    assert_eq!(grid_rows(&map, &BTreeMap::new(), None, 2, 0), Vec::<Vec<GridCell>>::new());
    assert_eq!(
        grid_rows(&map, &BTreeMap::new(), Some((1, 0)), 2, 1),
        vec![vec![
            plain(Terrain::Grass),
            GridCell { terrain: Terrain::Grass, character: None, selected: true }
        ]]
    );
}
