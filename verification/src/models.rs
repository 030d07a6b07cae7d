//! The domain model: directions, terrain, characters, maps and games.

use std::collections::BTreeMap;
use vstd::prelude::*;
use crate::extent::{
    grow_maxes, larger, lemma_keys_ordered, lemma_reach_insert, lemma_reach_x,
    lemma_reach_x_of_hint, lemma_reach_x_remove, lemma_reach_y, lemma_reach_y_of_hint,
    lemma_reach_y_remove, reach_x, reach_y,
};
use crate::text::str_eq;

verus! {

/// A direction in which the cursor can be moved.
#[derive(Debug, Clone, Copy, PartialEq, Eq, Structural)]
pub enum Direction {
    Right,
    Up,
    Left,
    Down,
}

impl Direction {
    /// The token that names this direction in a request path.
    pub open spec fn token(self) -> Seq<char> {
        match self {
            Direction::Right => "right"@,
            Direction::Up => "up"@,
            Direction::Left => "left"@,
            Direction::Down => "down"@,
        }
    }

    /// The symbol shown on the button that moves the cursor this way.
    pub open spec fn symbol(self) -> Seq<char> {
        match self {
            Direction::Right => ">"@,
            Direction::Up => "^"@,
            Direction::Left => "<"@,
            Direction::Down => "v"@,
        }
    }

    /// The direction that a path token names, if any.
    pub open spec fn parse_spec(s: Seq<char>) -> Option<Direction> {
        if s == Direction::Right.token() {
            Some(Direction::Right)
        } else if s == Direction::Up.token() {
            Some(Direction::Up)
        } else if s == Direction::Left.token() {
            Some(Direction::Left)
        } else if s == Direction::Down.token() {
            Some(Direction::Down)
        } else {
            None
        }
    }

    /// The direction that a path token names, if any.
    pub fn parse(s: &str) -> (r: Option<Direction>)
        ensures
            r == Direction::parse_spec(s@),
    {
        if str_eq(s, "right") {
            Some(Direction::Right)
        } else if str_eq(s, "up") {
            Some(Direction::Up)
        } else if str_eq(s, "left") {
            Some(Direction::Left)
        } else if str_eq(s, "down") {
            Some(Direction::Down)
        } else {
            None
        }
    }

    /// The path token of this direction, and the symbol on its button.
    pub fn form_strings(&self) -> (r: (&'static str, &'static str))
        ensures
            r.0@ == self.token(),
            r.1@ == self.symbol(),
    {
        match self {
            Direction::Right => ("right", ">"),
            Direction::Up => ("up", "^"),
            Direction::Left => ("left", "<"),
            Direction::Down => ("down", "v"),
        }
    }

    /// Every direction is recovered from its own path token.
    pub proof fn lemma_parse_token(d: Direction)
        ensures
            Direction::parse_spec(d.token()) == Some(d),
    {
        reveal_strlit("right");
        reveal_strlit("up");
        reveal_strlit("left");
        reveal_strlit("down");
        assert("right"@.len() == 5 && "up"@.len() == 2 && "left"@.len() == 4 && "down"@.len() == 4);
        assert("left"@[0] == 'l' && "down"@[0] == 'd');
    }
}

/// The ground type of a grid cell.
#[derive(Debug, Clone, Copy, PartialEq, Eq, Structural)]
pub enum Terrain {
    Grass,
    Dirt,
    Rock,
}

impl Terrain {
    /// The lower-case token that names this terrain in a request path.
    pub open spec fn token(self) -> Seq<char> {
        match self {
            Terrain::Grass => "grass"@,
            Terrain::Dirt => "dirt"@,
            Terrain::Rock => "rock"@,
        }
    }

    /// The capitalised name shown to the user.
    pub open spec fn label(self) -> Seq<char> {
        match self {
            Terrain::Grass => "Grass"@,
            Terrain::Dirt => "Dirt"@,
            Terrain::Rock => "Rock"@,
        }
    }

    /// The terrain that a path token names, if any.
    pub open spec fn parse_spec(s: Seq<char>) -> Option<Terrain> {
        if s == Terrain::Grass.token() {
            Some(Terrain::Grass)
        } else if s == Terrain::Dirt.token() {
            Some(Terrain::Dirt)
        } else if s == Terrain::Rock.token() {
            Some(Terrain::Rock)
        } else {
            None
        }
    }

    /// Every terrain, in the order in which the buttons show them.
    pub fn all_values() -> (r: Vec<Terrain>)
        ensures
            r@ == seq![Terrain::Grass, Terrain::Dirt, Terrain::Rock],
    {
        vec![Terrain::Grass, Terrain::Dirt, Terrain::Rock]
    }

    /// The terrain that a path token names, if any.
    pub fn parse_str(s: &str) -> (r: Option<Terrain>)
        ensures
            r == Terrain::parse_spec(s@),
    {
        if str_eq(s, "grass") {
            Some(Terrain::Grass)
        } else if str_eq(s, "dirt") {
            Some(Terrain::Dirt)
        } else if str_eq(s, "rock") {
            Some(Terrain::Rock)
        } else {
            None
        }
    }

    /// The lower-case token that names this terrain in a request path.
    pub fn url_frag_string(&self) -> (r: String)
        ensures
            r@ == self.token(),
    {
        match self {
            Terrain::Grass => "grass".to_owned(),
            Terrain::Dirt => "dirt".to_owned(),
            Terrain::Rock => "rock".to_owned(),
        }
    }

    /// The capitalised name shown to the user.
    pub fn display_string(&self) -> (r: String)
        ensures
            r@ == self.label(),
    {
        match self {
            Terrain::Grass => "Grass".to_owned(),
            Terrain::Dirt => "Dirt".to_owned(),
            Terrain::Rock => "Rock".to_owned(),
        }
    }

    /// Every terrain is recovered from its own path token.
    pub proof fn lemma_parse_token(t: Terrain)
        ensures
            Terrain::parse_spec(t.token()) == Some(t),
    {
        reveal_strlit("grass");
        reveal_strlit("dirt");
        reveal_strlit("rock");
        assert("grass"@.len() == 5 && "dirt"@.len() == 4 && "rock"@.len() == 4);
        assert("dirt"@[0] == 'd' && "rock"@[0] == 'r');
    }
}

/// A unit that can stand on a grid cell.
#[derive(Debug, Clone, Copy, PartialEq, Eq, Structural)]
pub enum Character {
    Knight,
    Mage,
    Thief,
}

impl Character {
    /// The lower-case token that names this character in a request path.
    pub open spec fn token(self) -> Seq<char> {
        match self {
            Character::Knight => "knight"@,
            Character::Mage => "mage"@,
            Character::Thief => "thief"@,
        }
    }

    /// The capitalised name shown to the user.
    pub open spec fn label(self) -> Seq<char> {
        match self {
            Character::Knight => "Knight"@,
            Character::Mage => "Mage"@,
            Character::Thief => "Thief"@,
        }
    }

    /// The character that a path token names, if any.
    pub open spec fn parse_spec(s: Seq<char>) -> Option<Character> {
        if s == Character::Knight.token() {
            Some(Character::Knight)
        } else if s == Character::Mage.token() {
            Some(Character::Mage)
        } else if s == Character::Thief.token() {
            Some(Character::Thief)
        } else {
            None
        }
    }

    /// Every character, in the order in which the buttons show them.
    pub fn all_values() -> (r: Vec<Character>)
        ensures
            r@ == seq![Character::Knight, Character::Mage, Character::Thief],
    {
        vec![Character::Knight, Character::Mage, Character::Thief]
    }

    /// The character that a path token names, if any.
    pub fn parse_str(s: &str) -> (r: Option<Character>)
        ensures
            r == Character::parse_spec(s@),
    {
        if str_eq(s, "knight") {
            Some(Character::Knight)
        } else if str_eq(s, "mage") {
            Some(Character::Mage)
        } else if str_eq(s, "thief") {
            Some(Character::Thief)
        } else {
            None
        }
    }

    /// The lower-case token that names this character in a request path.
    pub fn url_frag_string(&self) -> (r: String)
        ensures
            r@ == self.token(),
    {
        match self {
            Character::Knight => "knight".to_owned(),
            Character::Mage => "mage".to_owned(),
            Character::Thief => "thief".to_owned(),
        }
    }

    /// The capitalised name shown to the user.
    pub fn display_string(&self) -> (r: String)
        ensures
            r@ == self.label(),
    {
        match self {
            Character::Knight => "Knight".to_owned(),
            Character::Mage => "Mage".to_owned(),
            Character::Thief => "Thief".to_owned(),
        }
    }

    /// Every character is recovered from its own path token.
    pub proof fn lemma_parse_token(c: Character)
        ensures
            Character::parse_spec(c.token()) == Some(c),
    {
        reveal_strlit("knight");
        reveal_strlit("mage");
        reveal_strlit("thief");
        assert("knight"@.len() == 6 && "mage"@.len() == 4 && "thief"@.len() == 5);
    }
}

/// What a [`TileMap`] holds, as mathematical values.
pub struct MapView {
    pub id: u32,
    pub default_terrain: Terrain,
    pub specified_terrain: Map<(u32, u32), Terrain>,
    pub hint_max_x: u32,
    pub hint_max_y: u32,
}

impl MapView {
    /// The grid size: the hints, grown to the furthest overridden coordinate.
    pub open spec fn maxes(self) -> (u32, u32) {
        (
            reach_x(self.specified_terrain, self.hint_max_x),
            reach_y(self.specified_terrain, self.hint_max_y),
        )
    }

    /// This map with `terrain` put on `cell`.
    pub open spec fn with_override(self, cell: (u32, u32), terrain: Terrain) -> MapView {
        MapView { specified_terrain: self.specified_terrain.insert(cell, terrain), ..self }
    }

    /// This map with the override of `cell` taken away.
    pub open spec fn without_override(self, cell: (u32, u32)) -> MapView {
        MapView { specified_terrain: self.specified_terrain.remove(cell), ..self }
    }

    /// The terrain at a cell: its override if it has one, else the default.
    pub open spec fn at(self, cell: (u32, u32)) -> Terrain {
        if self.specified_terrain.contains_key(cell) {
            self.specified_terrain[cell]
        } else {
            self.default_terrain
        }
    }
}

/// A terrain grid: a default fill, sparse overrides, and a minimum size.
pub struct TileMap {
    pub id: u32,
    pub default_terrain: Terrain,
    pub specified_terrain: BTreeMap<(u32, u32), Terrain>,
    pub hint_max_x: u32,
    pub hint_max_y: u32,
}

impl View for TileMap {
    type V = MapView;

    open spec fn view(&self) -> MapView {
        MapView {
            id: self.id,
            default_terrain: self.default_terrain,
            specified_terrain: self.specified_terrain@,
            hint_max_x: self.hint_max_x,
            hint_max_y: self.hint_max_y,
        }
    }
}

impl TileMap {
    /// The grid size of this map: its hints, grown to the furthest override.
    pub fn maxes(&self) -> (r: (u32, u32))
        ensures
            r == self@.maxes(),
    {
        grow_maxes(&self.specified_terrain, self.hint_max_x, self.hint_max_y)
    }

    /// The terrain at a cell: its override if it has one, else the default.
    pub fn at(&self, cursor: &(u32, u32)) -> (r: Terrain)
        ensures
            r == self@.at(*cursor),
    {
        proof {
            lemma_keys_ordered();
        }
        match self.specified_terrain.get(cursor) {
            Some(t) => *t,
            None => self.default_terrain,
        }
    }
}

/// What a [`Game`] holds, as mathematical values.
pub struct GameView {
    pub id: u32,
    pub map: MapView,
    pub characters: Map<(u32, u32), Character>,
    pub current_selection: (u32, u32),
}

/// Where the cursor stands after one step in `direction` on a grid of size `maxes`.
///
/// A step that would leave the grid is not taken.
pub open spec fn step(cursor: (u32, u32), direction: Direction, maxes: (u32, u32)) -> (u32, u32) {
    match direction {
        Direction::Right => if cursor.0 + 1 < maxes.0 {
            ((cursor.0 + 1) as u32, cursor.1)
        } else {
            cursor
        },
        Direction::Up => if cursor.1 + 1 < maxes.1 {
            (cursor.0, (cursor.1 + 1) as u32)
        } else {
            cursor
        },
        Direction::Left => if cursor.0 > 0 {
            ((cursor.0 - 1) as u32, cursor.1)
        } else {
            cursor
        },
        Direction::Down => if cursor.1 > 0 {
            (cursor.0, (cursor.1 - 1) as u32)
        } else {
            cursor
        },
    }
}

impl GameView {
    /// The grid size: the map's size, grown to the furthest character.
    pub open spec fn maxes(self) -> (u32, u32) {
        (
            reach_x(self.characters, self.map.maxes().0),
            reach_y(self.characters, self.map.maxes().1),
        )
    }

    /// The character on a cell, if one stands there.
    pub open spec fn character_at(self, cell: (u32, u32)) -> Option<Character> {
        if self.characters.contains_key(cell) {
            Some(self.characters[cell])
        } else {
            None
        }
    }

    /// This game with its cursor moved one step.
    pub open spec fn moved(self, direction: Direction) -> GameView {
        GameView { current_selection: step(self.current_selection, direction, self.maxes()), ..self }
    }

    /// Whether the cursor stands on the grid.
    pub open spec fn cursor_on_grid(self) -> bool {
        self.current_selection.0 < self.maxes().0 && self.current_selection.1 < self.maxes().1
    }
}

/// A play session: one map, the characters placed on it, and a cursor.
pub struct Game {
    pub id: u32,
    pub map: TileMap,
    pub characters: BTreeMap<(u32, u32), Character>,
    pub current_selection: (u32, u32),
}

impl View for Game {
    type V = GameView;

    open spec fn view(&self) -> GameView {
        GameView {
            id: self.id,
            map: self.map@,
            characters: self.characters@,
            current_selection: self.current_selection,
        }
    }
}

impl Game {
    /// The grid size of this game: the map's hints, grown to cover every
    /// terrain override and every character.
    pub fn maxes(&self) -> (r: (u32, u32))
        ensures
            r == self@.maxes(),
    {
        let (map_x, map_y) = self.map.maxes();
        grow_maxes(&self.characters, map_x, map_y)
    }

    /// The character on a cell, if one stands there.
    pub fn character_at(&self, cursor: &(u32, u32)) -> (r: Option<Character>)
        ensures
            r == self@.character_at(*cursor),
    {
        proof {
            lemma_keys_ordered();
        }
        match self.characters.get(cursor) {
            Some(c) => Some(*c),
            None => None,
        }
    }

    /// Moves the cursor one step; a step that would leave the grid is not taken.
    pub fn move_cursor(&mut self, direction: Direction)
        ensures
            final(self)@ == old(self)@.moved(direction),
    {
        let (max_x, max_y) = self.maxes();
        let (x, y) = self.current_selection;
        match direction {
            Direction::Right => {
                if x < u32::MAX && x + 1 < max_x {
                    self.current_selection = (x + 1, y);
                }
            },
            Direction::Up => {
                if y < u32::MAX && y + 1 < max_y {
                    self.current_selection = (x, y + 1);
                }
            },
            Direction::Left => {
                if x > 0 {
                    self.current_selection = (x - 1, y);
                }
            },
            Direction::Down => {
                if y > 0 {
                    self.current_selection = (x, y - 1);
                }
            },
        }
    }
}

/// A step to the right from the last column, or to the left from the first,
/// leaves the cursor where it is; so does a step up from the top row or down
/// from the bottom row.
pub proof fn lemma_step_saturates(cursor: (u32, u32), maxes: (u32, u32))
    ensures
        cursor.0 + 1 == maxes.0 ==> step(cursor, Direction::Right, maxes) == cursor,
        cursor.1 + 1 == maxes.1 ==> step(cursor, Direction::Up, maxes) == cursor,
        cursor.0 == 0 ==> step(cursor, Direction::Left, maxes) == cursor,
        cursor.1 == 0 ==> step(cursor, Direction::Down, maxes) == cursor,
{
}

/// A cursor on the grid stays on the grid, whichever way it steps, and moves
/// by at most one cell along one axis.
pub proof fn lemma_step_stays_on_grid(cursor: (u32, u32), direction: Direction, maxes: (u32, u32))
    requires
        cursor.0 < maxes.0,
        cursor.1 < maxes.1,
    ensures
        step(cursor, direction, maxes).0 < maxes.0,
        step(cursor, direction, maxes).1 < maxes.1,
        step(cursor, direction, maxes).0 - cursor.0 <= 1,
        cursor.0 - step(cursor, direction, maxes).0 <= 1,
        step(cursor, direction, maxes).1 - cursor.1 <= 1,
        cursor.1 - step(cursor, direction, maxes).1 <= 1,
{
}

/// The grid of a map is at least as large as its hints and reaches the
/// coordinates of every override.
pub proof fn lemma_maxes_cover(m: MapView, cell: (u32, u32))
    requires
        m.specified_terrain.contains_key(cell),
    ensures
        m.hint_max_x <= m.maxes().0,
        m.hint_max_y <= m.maxes().1,
        cell.0 <= m.maxes().0,
        cell.1 <= m.maxes().1,
{
    lemma_reach_x(m.specified_terrain, m.hint_max_x);
    lemma_reach_y(m.specified_terrain, m.hint_max_y);
}

/// An override put on a cell grows the grid to the coordinates of that cell
/// where they lie beyond it, and leaves it as it was where they do not.
pub proof fn lemma_override_grows_grid(m: MapView, cell: (u32, u32), terrain: Terrain)
    ensures
        m.with_override(cell, terrain).maxes() == (
            larger(m.maxes().0, cell.0),
            larger(m.maxes().1, cell.1),
        ),
        m.with_override(cell, terrain).at(cell) == terrain,
        cell.0 > m.hint_max_x ==> m.with_override(cell, terrain).maxes().0 > m.hint_max_x,
        cell.1 > m.hint_max_y ==> m.with_override(cell, terrain).maxes().1 > m.hint_max_y,
{
    lemma_reach_insert(m.specified_terrain, m.hint_max_x, m.hint_max_y, cell, terrain);
    lemma_reach_x(m.specified_terrain, m.hint_max_x);
    lemma_reach_y(m.specified_terrain, m.hint_max_y);
}

/// Taking the override from a cell that lies inside the grid leaves the grid
/// as large as it was, and shows the default terrain on that cell.
pub proof fn lemma_unset_keeps_grid(m: MapView, cell: (u32, u32))
    requires
        cell.0 < m.maxes().0,
        cell.1 < m.maxes().1,
    ensures
        m.without_override(cell).maxes() == m.maxes(),
        m.without_override(cell).at(cell) == m.default_terrain,
{
    lemma_reach_x_remove(m.specified_terrain, m.hint_max_x, cell);
    lemma_reach_y_remove(m.specified_terrain, m.hint_max_y, cell);
}

/// A game whose cursor stands in the last column does not move right, and
/// one whose cursor stands in the first column does not move left; the same
/// holds of the top and bottom rows.
pub proof fn lemma_move_saturates(g: GameView)
    ensures
        g.current_selection.0 + 1 == g.maxes().0 ==> g.moved(Direction::Right) == g,
        g.current_selection.1 + 1 == g.maxes().1 ==> g.moved(Direction::Up) == g,
        g.current_selection.0 == 0 ==> g.moved(Direction::Left) == g,
        g.current_selection.1 == 0 ==> g.moved(Direction::Down) == g,
{
}

/// A move changes nothing but the cursor, and a cursor on the grid stays on it.
pub proof fn lemma_move_keeps_grid(g: GameView, direction: Direction)
    ensures
        g.moved(direction).maxes() == g.maxes(),
        g.moved(direction).map == g.map,
        g.moved(direction).characters == g.characters,
        g.cursor_on_grid() ==> g.moved(direction).cursor_on_grid(),
{
}

/// The grid of a game is the larger, along each axis, of the map's hint, the
/// furthest terrain override and the furthest character.
pub proof fn lemma_game_maxes(g: GameView)
    ensures
        g.maxes().0 == larger(
            larger(g.map.hint_max_x, reach_x(g.map.specified_terrain, 0)),
            reach_x(g.characters, 0),
        ),
        g.maxes().1 == larger(
            larger(g.map.hint_max_y, reach_y(g.map.specified_terrain, 0)),
            reach_y(g.characters, 0),
        ),
{
    lemma_reach_x_of_hint(g.map.specified_terrain, g.map.hint_max_x);
    lemma_reach_y_of_hint(g.map.specified_terrain, g.map.hint_max_y);
    lemma_reach_x_of_hint(g.characters, g.map.maxes().0);
    lemma_reach_y_of_hint(g.characters, g.map.maxes().1);
}

/// Whatever is put on, or taken from, the cell under a cursor that stands on
/// the grid, the grid of the game stays as large as it was.
pub proof fn lemma_edit_under_cursor_keeps_grid(
    g: GameView,
    terrain: Terrain,
    character: Character,
)
    requires
        g.cursor_on_grid(),
    ensures
        (GameView { map: g.map.with_override(g.current_selection, terrain), ..g }).maxes()
            == g.maxes(),
        (GameView { map: g.map.without_override(g.current_selection), ..g }).maxes() == g.maxes(),
        (GameView { characters: g.characters.insert(g.current_selection, character), ..g }).maxes()
            == g.maxes(),
        (GameView { characters: g.characters.remove(g.current_selection), ..g }).maxes()
            == g.maxes(),
{
    let c = g.current_selection;
    let tiles = g.map.specified_terrain;
    let set = GameView { map: g.map.with_override(c, terrain), ..g };
    let unset = GameView { map: g.map.without_override(c), ..g };
    let put = GameView { characters: g.characters.insert(c, character), ..g };
    let taken = GameView { characters: g.characters.remove(c), ..g };
    lemma_game_maxes(g);
    lemma_game_maxes(set);
    lemma_game_maxes(unset);
    lemma_game_maxes(put);
    lemma_game_maxes(taken);
    lemma_reach_insert(tiles, 0, 0, c, terrain);
    lemma_reach_insert(g.characters, 0, 0, c, character);
    lemma_reach_x_remove(tiles, 0, c);
    lemma_reach_y_remove(tiles, 0, c);
    lemma_reach_x_remove(g.characters, 0, c);
    lemma_reach_y_remove(g.characters, 0, c);
}

} // verus!
