//! The links and form actions that the pages hold, and what they lead to.

use vstd::prelude::*;
use vstd::string::*;
use crate::db::store::DBView;
use crate::http::routes::{
    after_edit, cursor_move, game_edit_page, game_single_page, map_single_page, respond_spec,
    route_spec, segments, Method, RouteView,
};
use crate::http::util::{decimal, digits_of, is_digit, parse_id_spec, TerrainOrCharacter};
use crate::models::{Character, Direction, Terrain};

verus! {

/// The ASCII digit that writes a number below ten.
pub open spec fn digit_char(d: nat) -> char {
    if d == 0 {
        '0'
    } else if d == 1 {
        '1'
    } else if d == 2 {
        '2'
    } else if d == 3 {
        '3'
    } else if d == 4 {
        '4'
    } else if d == 5 {
        '5'
    } else if d == 6 {
        '6'
    } else if d == 7 {
        '7'
    } else if d == 8 {
        '8'
    } else {
        '9'
    }
}

/// A number as written in base ten, without leading zeros.
pub open spec fn decimal_text(n: nat) -> Seq<char>
    decreases n,
{
    if n < 10 {
        seq![digit_char(n)]
    } else {
        decimal_text(n / 10).push(digit_char(n % 10))
    }
}

/// The text of a number is made of digits and writes that number.
pub proof fn lemma_decimal_text(n: nat)
    ensures
        decimal_text(n).len() > 0,
        forall|i: int| 0 <= i < decimal_text(n).len() ==> is_digit(#[trigger] decimal_text(n)[i]),
        decimal(decimal_text(n)) == n,
    decreases n,
{
    let text = decimal_text(n);
    if n < 10 {
        assert(text.drop_last() =~= Seq::<char>::empty());
        assert(decimal(text.drop_last()) == 0);
        assert(text.last() == digit_char(n));
    } else {
        lemma_decimal_text(n / 10);
        assert(text.drop_last() =~= decimal_text(n / 10));
        assert(text.last() == digit_char(n % 10));
    }
}

/// An id written as text is read back as that id.
pub proof fn lemma_id_text_parses(id: u32)
    ensures
        parse_id_spec(decimal_text(id as nat)) == Some(id),
{
    lemma_decimal_text(id as nat);
    let text = decimal_text(id as nat);
    assert(is_digit(text[0]));
    assert(digits_of(text) == text);
}

/// The text of one digit.
fn digit_str(d: u32) -> (r: &'static str)
    requires
        d < 10,
    ensures
        r@ == seq![digit_char(d as nat)],
{
    proof {
        reveal_strlit("0");
        reveal_strlit("1");
        reveal_strlit("2");
        reveal_strlit("3");
        reveal_strlit("4");
        reveal_strlit("5");
        reveal_strlit("6");
        reveal_strlit("7");
        reveal_strlit("8");
        reveal_strlit("9");
    }
    let r = if d == 0 {
        "0"
    } else if d == 1 {
        "1"
    } else if d == 2 {
        "2"
    } else if d == 3 {
        "3"
    } else if d == 4 {
        "4"
    } else if d == 5 {
        "5"
    } else if d == 6 {
        "6"
    } else if d == 7 {
        "7"
    } else if d == 8 {
        "8"
    } else {
        "9"
    };
    proof {
        assert(r@ =~= seq![digit_char(d as nat)]);
    }
    r
}

/// An id as written in a link.
pub fn id_text(id: u32) -> (r: String)
    ensures
        r@ == decimal_text(id as nat),
    decreases id,
{
    if id < 10 {
        digit_str(id).to_owned()
    } else {
        let mut text = id_text(id / 10);
        text.append(digit_str(id % 10));
        proof {
            assert(text@ =~= decimal_text(id as nat));
        }
        text
    }
}

/// The path that a sequence of segments writes: each segment after a slash,
/// or a single slash where there is none.
pub open spec fn path_text(segs: Seq<Seq<char>>) -> Seq<char>
    decreases segs.len(),
{
    if segs.len() == 0 {
        "/"@
    } else if segs.len() == 1 {
        "/"@ + segs[0]
    } else {
        path_text(segs.drop_last()) + "/"@ + segs.last()
    }
}

/// The path that a sequence of segments writes.
pub fn path_of(segs: &Vec<String>) -> (r: String)
    ensures
        r@ == path_text(segments(segs@)),
{
    let mut path = "/".to_owned();
    if segs.len() == 0 {
        return path;
    }
    path.append(segs[0].as_str());
    let ghost all = segments(segs@);
    proof {
        assert(all.take(1).len() == 1);
        assert(all.take(1)[0] == segs[0]@);
    }
    let mut i: usize = 1;
    while i < segs.len()
        invariant
            1 <= i <= segs.len(),
            all == segments(segs@),
            path@ == path_text(all.take(i as int)),
        decreases segs.len() - i,
    {
        path.append("/");
        path.append(segs[i].as_str());
        proof {
            assert(all.take(i + 1).drop_last() =~= all.take(i as int));
            assert(all.take(i + 1).last() == segs[i as int]@);
        }
        i += 1;
    }
    proof {
        assert(all.take(segs.len() as int) =~= all);
    }
    path
}

/// The segments of the link to one map.
pub open spec fn map_link_spec(id: u32) -> Seq<Seq<char>> {
    seq!["maps"@, decimal_text(id as nat)]
}

/// The segments of the link to one game.
pub open spec fn game_link_spec(id: u32) -> Seq<Seq<char>> {
    seq!["games"@, decimal_text(id as nat)]
}

/// The segments of the link to the page on which a game is edited.
pub open spec fn game_edit_link_spec(id: u32) -> Seq<Seq<char>> {
    seq!["games"@, decimal_text(id as nat), "edit"@]
}

/// The segments of the action that puts a terrain under a game's cursor.
pub open spec fn set_terrain_action_spec(id: u32, terrain: Terrain) -> Seq<Seq<char>> {
    seq!["games"@, decimal_text(id as nat), "edit"@, "terrain"@, terrain.token()]
}

/// The segments of the action that puts a character under a game's cursor.
pub open spec fn set_character_action_spec(id: u32, character: Character) -> Seq<Seq<char>> {
    seq!["games"@, decimal_text(id as nat), "edit"@, "character"@, character.token()]
}

/// The segments of the action that clears a terrain or a character.
pub open spec fn unset_action_spec(id: u32, kind: TerrainOrCharacter) -> Seq<Seq<char>> {
    seq![
        "games"@,
        decimal_text(id as nat),
        "edit"@,
        "unset"@,
        match kind {
            TerrainOrCharacter::Terrain => "terrain"@,
            TerrainOrCharacter::Character => "character"@,
        },
    ]
}

/// The segments of the action that moves a game's cursor.
pub open spec fn cursor_action_spec(id: u32, direction: Direction, edit: bool) -> Seq<Seq<char>> {
    if edit {
        seq!["games"@, decimal_text(id as nat), "edit"@, "cursor"@, direction.token()]
    } else {
        seq!["games"@, decimal_text(id as nat), "cursor"@, direction.token()]
    }
}

/// The segments of the link to one map.
pub fn map_link(id: u32) -> (r: Vec<String>)
    ensures
        segments(r@) == map_link_spec(id),
{
    let r = vec!["maps".to_owned(), id_text(id)];
    proof {
        assert(segments(r@) =~= map_link_spec(id));
    }
    r
}

/// The segments of the link to one game.
pub fn game_link(id: u32) -> (r: Vec<String>)
    ensures
        segments(r@) == game_link_spec(id),
{
    let r = vec!["games".to_owned(), id_text(id)];
    proof {
        assert(segments(r@) =~= game_link_spec(id));
    }
    r
}

/// The segments of the link to the page on which a game is edited.
pub fn game_edit_link(id: u32) -> (r: Vec<String>)
    ensures
        segments(r@) == game_edit_link_spec(id),
{
    let r = vec!["games".to_owned(), id_text(id), "edit".to_owned()];
    proof {
        assert(segments(r@) =~= game_edit_link_spec(id));
    }
    r
}

/// The segments of the action that puts a terrain under a game's cursor.
pub fn set_terrain_action(id: u32, terrain: Terrain) -> (r: Vec<String>)
    ensures
        segments(r@) == set_terrain_action_spec(id, terrain),
{
    let r = vec![
        "games".to_owned(),
        id_text(id),
        "edit".to_owned(),
        "terrain".to_owned(),
        terrain.url_frag_string(),
    ];
    proof {
        assert(segments(r@) =~= set_terrain_action_spec(id, terrain));
    }
    r
}

/// The segments of the action that puts a character under a game's cursor.
pub fn set_character_action(id: u32, character: Character) -> (r: Vec<String>)
    ensures
        segments(r@) == set_character_action_spec(id, character),
{
    let r = vec![
        "games".to_owned(),
        id_text(id),
        "edit".to_owned(),
        "character".to_owned(),
        character.url_frag_string(),
    ];
    proof {
        assert(segments(r@) =~= set_character_action_spec(id, character));
    }
    r
}

/// The segments of the action that clears a terrain or a character.
pub fn unset_action(id: u32, kind: TerrainOrCharacter) -> (r: Vec<String>)
    ensures
        segments(r@) == unset_action_spec(id, kind),
{
    let what = match kind {
        TerrainOrCharacter::Terrain => "terrain".to_owned(),
        TerrainOrCharacter::Character => "character".to_owned(),
    };
    let r = vec!["games".to_owned(), id_text(id), "edit".to_owned(), "unset".to_owned(), what];
    proof {
        assert(segments(r@) =~= unset_action_spec(id, kind));
    }
    r
}

/// The segments of the action that moves a game's cursor.
pub fn cursor_action(id: u32, direction: Direction, edit: bool) -> (r: Vec<String>)
    ensures
        segments(r@) == cursor_action_spec(id, direction, edit),
{
    let token = direction.form_strings().0.to_owned();
    let r = if edit {
        vec!["games".to_owned(), id_text(id), "edit".to_owned(), "cursor".to_owned(), token]
    } else {
        vec!["games".to_owned(), id_text(id), "cursor".to_owned(), token]
    };
    proof {
        assert(segments(r@) =~= cursor_action_spec(id, direction, edit));
    }
    r
}

/// What the fixed words of the paths hold.
proof fn lemma_path_words()
    ensures
        "games"@ != "maps"@,
        "games"@ != "images"@,
        "maps"@ != "images"@,
        "edit"@ != "cursor"@,
        "terrain"@ != "character"@,
        "terrain"@ != "unset"@,
        "terrain"@ != "cursor"@,
        "character"@ != "unset"@,
        "character"@ != "cursor"@,
        "unset"@ != "cursor"@,
{
    reveal_strlit("games");
    reveal_strlit("maps");
    reveal_strlit("images");
    reveal_strlit("edit");
    reveal_strlit("cursor");
    reveal_strlit("terrain");
    reveal_strlit("character");
    reveal_strlit("unset");
    assert("games"@.len() == 5 && "maps"@.len() == 4 && "images"@.len() == 6);
    assert("edit"@.len() == 4 && "cursor"@.len() == 6);
    assert("terrain"@.len() == 7 && "character"@.len() == 9 && "unset"@.len() == 5);
}

/// The links to a map and to a game lead to the pages of that map and that
/// game, and the link to a game's edit page to that page.
pub proof fn lemma_links_lead_to_pages(db: DBView, id: u32)
    ensures
        respond_spec(db, route_spec(Method::Get, map_link_spec(id))).0 == map_single_page(
            db,
            decimal_text(id as nat),
        ),
        respond_spec(db, route_spec(Method::Get, game_link_spec(id))).0 == game_single_page(
            db,
            decimal_text(id as nat),
        ),
        respond_spec(db, route_spec(Method::Get, game_edit_link_spec(id))).0 == game_edit_page(
            db,
            decimal_text(id as nat),
        ),
        parse_id_spec(decimal_text(id as nat)) == Some(id),
{
    lemma_path_words();
    lemma_id_text_parses(id);
}

/// The action behind a terrain button puts that terrain under the cursor of
/// the game, and the action behind a character button that character.
pub proof fn lemma_set_actions_set(db: DBView, id: u32, terrain: Terrain, character: Character)
    ensures
        respond_spec(db, route_spec(Method::Post, set_terrain_action_spec(id, terrain)))
            == after_edit(db.update_game_terrain(id, terrain), decimal_text(id as nat)),
        respond_spec(db, route_spec(Method::Post, set_character_action_spec(id, character)))
            == after_edit(db.update_game_character(id, character), decimal_text(id as nat)),
{
    lemma_path_words();
    lemma_id_text_parses(id);
    Terrain::lemma_parse_token(terrain);
    Character::lemma_parse_token(character);
}

/// The action behind a delete button clears the terrain, or the character,
/// under the cursor of the game.
pub proof fn lemma_unset_actions_unset(db: DBView, id: u32)
    ensures
        respond_spec(
            db,
            route_spec(Method::Post, unset_action_spec(id, TerrainOrCharacter::Terrain)),
        ) == after_edit(db.unset_game_terrain(id), decimal_text(id as nat)),
        respond_spec(
            db,
            route_spec(Method::Post, unset_action_spec(id, TerrainOrCharacter::Character)),
        ) == after_edit(db.unset_game_character(id), decimal_text(id as nat)),
{
    lemma_path_words();
    lemma_id_text_parses(id);
}

/// The action behind a cursor button moves the cursor of the game one step
/// in the button's direction.
pub proof fn lemma_cursor_actions_move(db: DBView, id: u32, direction: Direction, edit: bool)
    ensures
        route_spec(Method::Post, cursor_action_spec(id, direction, edit)) == RouteView::CursorMove(
            decimal_text(id as nat),
            direction.token(),
            edit,
        ),
        parse_id_spec(decimal_text(id as nat)) == Some(id),
        Direction::parse_spec(direction.token()) == Some(direction),
        respond_spec(db, route_spec(Method::Post, cursor_action_spec(id, direction, edit)))
            == cursor_move(db, decimal_text(id as nat), direction.token(), edit),
{
    lemma_path_words();
    lemma_id_text_parses(id);
    Direction::lemma_parse_token(direction);
}

} // verus!
