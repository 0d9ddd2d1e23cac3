use vstd::prelude::*;

use crate::action::can_move_or_attack;
use crate::action::moved_or_attacked;
use crate::action::pick_item_up;
use crate::action::picked_up;
use crate::action::player_move_or_attack;
use crate::consts::PLAYER;
use crate::types::Game;
use crate::types::Object;
use crate::types::PlayerAction;

verus! {

/// The keys that the game tells apart.
#[derive(Clone, Copy, Debug, PartialEq, Eq, Structural)]
pub enum KeyCode {
    Enter,
    Escape,
    Up,
    Down,
    Left,
    Right,
    /// A key that types text, given in `Key::text`.
    Text,
    Other,
}

/// A key press.
#[derive(Debug)]
pub struct Key {
    pub code: KeyCode,
    pub alt: bool,
    pub text: String,
}

/// What a key press asks for.
#[derive(Clone, Copy, Debug, PartialEq, Eq, Structural)]
pub enum Command {
    ToggleFullscreen,
    Exit,
    Step { dx: i32, dy: i32 },
    Wait,
    PickUp,
    ShowInventory,
    Nothing,
}

/// The command of a key press with code `code`, the alt modifier `alt` and the
/// text `text`, while the player is alive or not.
pub open spec fn command_of(code: KeyCode, alt: bool, text: Seq<char>, alive: bool) -> Command {
    if code == KeyCode::Enter && alt {
        Command::ToggleFullscreen
    } else if code == KeyCode::Escape {
        Command::Exit
    } else if !alive {
        Command::Nothing
    } else {
        match code {
            KeyCode::Up => Command::Step { dx: 0, dy: -1i32 },
            KeyCode::Down => Command::Step { dx: 0, dy: 1 },
            KeyCode::Left => Command::Step { dx: -1i32, dy: 0 },
            KeyCode::Right => Command::Step { dx: 1, dy: 0 },
            KeyCode::Text => if text == "."@ {
                Command::Wait
            } else if text == "g"@ {
                Command::PickUp
            } else if text == "i"@ {
                Command::ShowInventory
            } else {
                Command::Nothing
            },
            _ => Command::Nothing,
        }
    }
}

/// The command that `key` asks for while the player is alive or not.
pub fn key_command(key: &Key, player_alive: bool) -> (c: Command)
    ensures
        c == command_of(key.code, key.alt, key.text@, player_alive),
{
    if key.code == KeyCode::Enter && key.alt {
        return Command::ToggleFullscreen;
    }
    if key.code == KeyCode::Escape {
        return Command::Exit;
    }
    if !player_alive {
        return Command::Nothing;
    }
    match key.code {
        KeyCode::Up => Command::Step { dx: 0, dy: -1 },
        KeyCode::Down => Command::Step { dx: 0, dy: 1 },
        KeyCode::Left => Command::Step { dx: -1, dy: 0 },
        KeyCode::Right => Command::Step { dx: 1, dy: 0 },
        KeyCode::Text => {
            if key.text == String::from_str(".") {
                Command::Wait
            } else if key.text == String::from_str("g") {
                Command::PickUp
            } else if key.text == String::from_str("i") {
                Command::ShowInventory
            } else {
                Command::Nothing
            }
        },
        _ => Command::Nothing,
    }
}

/// Whether `o` is an item lying at `(x, y)`.
pub open spec fn item_at(o: Object, x: int, y: int) -> bool {
    o.item.is_some() && o.x == x && o.y == y
}

/// The first index from `i` on of an item lying at `(x, y)`, if any.
pub open spec fn first_item_from(objects: Seq<Object>, x: int, y: int, i: int) -> Option<int>
    decreases objects.len() - i,
{
    if i < 0 || i >= objects.len() {
        None
    } else if item_at(objects[i], x, y) {
        Some(i)
    } else {
        first_item_from(objects, x, y, i + 1)
    }
}

proof fn lemma_first_item_from(objects: Seq<Object>, x: int, y: int, i: int)
    requires
        0 <= i,
    ensures
        first_item_from(objects, x, y, i) matches Some(t) ==> i <= t < objects.len() && item_at(
            objects[t],
            x,
            y,
        ),
    decreases objects.len() - i,
{
    if i < objects.len() && !item_at(objects[i], x, y) {
        lemma_first_item_from(objects, x, y, i + 1);
    }
}

/// The first index of an item lying where the player stands, if any.
pub open spec fn item_under_player(objects: Seq<Object>) -> Option<int> {
    first_item_from(objects, objects[PLAYER as int].x as int, objects[PLAYER as int].y as int, 0)
}

fn find_item_at(objects: &[Object], x: i32, y: i32) -> (r: Option<usize>)
    ensures
        match r {
            Some(i) => first_item_from(objects@, x as int, y as int, 0) == Some(i as int),
            None => first_item_from(objects@, x as int, y as int, 0).is_none(),
        },
{
    let mut i: usize = 0;
    while i < objects.len()
        invariant
            i <= objects@.len(),
            first_item_from(objects@, x as int, y as int, 0) == first_item_from(
                objects@,
                x as int,
                y as int,
                i as int,
            ),
        decreases objects@.len() - i,
    {
        if objects[i].item.is_some() && objects[i].x == x && objects[i].y == y {
            return Some(i);
        }
        i = i + 1;
    }
    None
}

/// Something that the screen has to do for a key press.
#[derive(Clone, Copy, Debug, PartialEq, Eq, Structural)]
pub enum UiRequest {
    Nothing,
    ToggleFullscreen,
    InventoryMenu,
}

/// What a key press came to: the player's action and what the screen is to do.
#[derive(Clone, Copy, Debug, PartialEq, Eq, Structural)]
pub struct KeyOutcome {
    pub action: PlayerAction,
    pub request: UiRequest,
}

/// Whether `handle_keys` can run for `key`: there is a player, and a step
/// that the key asks for can be taken.
pub open spec fn can_handle_key(key: &Key, game: &Game, objects: Seq<Object>) -> bool {
    &&& objects.len() > PLAYER
    &&& command_of(key.code, key.alt, key.text@, objects[PLAYER as int].alive) matches Command::Step {
        dx,
        dy,
    } ==> can_move_or_attack(&game.map, objects, dx as int, dy as int)
}

/// Acts on a key press: steps, strikes, waits or picks up for the player, or
/// tells the screen to toggle full screen or to show the inventory.
pub fn handle_keys(key: &Key, game: &mut Game, objects: &mut Vec<Object>) -> (r: KeyOutcome)
    requires
        can_handle_key(key, old(game), old(objects)@),
    ensures
        ({
            let command = command_of(
                key.code,
                key.alt,
                key.text@,
                old(objects)@[PLAYER as int].alive,
            );
            let unchanged = final(objects)@ == old(objects)@ && final(game).messages@ == old(
                game,
            ).messages@ && final(game).inventory@ == old(game).inventory@;
            match command {
                Command::ToggleFullscreen => r == (KeyOutcome {
                    action: PlayerAction::DidntTakeTurn,
                    request: UiRequest::ToggleFullscreen,
                }) && unchanged,
                Command::Exit => r == (KeyOutcome {
                    action: PlayerAction::Exit,
                    request: UiRequest::Nothing,
                }) && unchanged,
                Command::Step { dx, dy } => {
                    &&& r == (KeyOutcome {
                        action: PlayerAction::TookTurn,
                        request: UiRequest::Nothing,
                    })
                    &&& moved_or_attacked(
                        final(objects)@,
                        &old(game).map,
                        old(objects)@,
                        dx as int,
                        dy as int,
                        old(game).messages@,
                        final(game).messages@,
                    )
                    &&& final(game).inventory@ == old(game).inventory@
                },
                Command::Wait => r == (KeyOutcome {
                    action: PlayerAction::TookTurn,
                    request: UiRequest::Nothing,
                }) && unchanged,
                Command::PickUp => {
                    &&& r == (KeyOutcome {
                        action: PlayerAction::DidntTakeTurn,
                        request: UiRequest::Nothing,
                    })
                    &&& match item_under_player(old(objects)@) {
                        Some(i) => picked_up(
                            final(objects)@,
                            final(game).inventory@,
                            final(game).messages@,
                            old(objects)@,
                            old(game).inventory@,
                            old(game).messages@,
                            i,
                        ),
                        None => unchanged,
                    }
                },
                Command::ShowInventory => r == (KeyOutcome {
                    action: PlayerAction::DidntTakeTurn,
                    request: UiRequest::InventoryMenu,
                }) && unchanged,
                Command::Nothing => r == (KeyOutcome {
                    action: PlayerAction::DidntTakeTurn,
                    request: UiRequest::Nothing,
                }) && unchanged,
            }
        }),
        final(game).map == old(game).map,
{
    let player_alive = objects[PLAYER].alive;
    match key_command(key, player_alive) {
        Command::ToggleFullscreen => KeyOutcome {
            action: PlayerAction::DidntTakeTurn,
            request: UiRequest::ToggleFullscreen,
        },
        Command::Exit => KeyOutcome { action: PlayerAction::Exit, request: UiRequest::Nothing },
        Command::Step { dx, dy } => {
            player_move_or_attack(dx, dy, game, objects.as_mut_slice());
            KeyOutcome { action: PlayerAction::TookTurn, request: UiRequest::Nothing }
        },
        Command::Wait => KeyOutcome { action: PlayerAction::TookTurn, request: UiRequest::Nothing },
        Command::PickUp => {
            let item_id = find_item_at(objects.as_slice(), objects[PLAYER].x, objects[PLAYER].y);
            proof {
                lemma_first_item_from(
                    objects@,
                    objects@[PLAYER as int].x as int,
                    objects@[PLAYER as int].y as int,
                    0,
                );
            }
            if let Some(item_id) = item_id {
                pick_item_up(item_id, game, objects);
            }
            KeyOutcome { action: PlayerAction::DidntTakeTurn, request: UiRequest::Nothing }
        },
        Command::ShowInventory => KeyOutcome {
            action: PlayerAction::DidntTakeTurn,
            request: UiRequest::InventoryMenu,
        },
        Command::Nothing => KeyOutcome {
            action: PlayerAction::DidntTakeTurn,
            request: UiRequest::Nothing,
        },
    }
}

} // verus!
