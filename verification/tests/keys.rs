use roguelike::color::black;
use roguelike::keys::{handle_keys, key_command, Command, Key, KeyCode, KeyOutcome, UiRequest};
use roguelike::types::{DeathCallback, Fighter, Game, Item, Messages, Object, PlayerAction, Tile};

fn key(code: KeyCode, alt: bool, text: &str) -> Key {
    Key { code, alt, text: text.to_string() }
}

fn setup() -> (Game, Vec<Object>) {
    let game = Game { map: vec![vec![Tile::empty(); 5]; 5], messages: Messages::new(), inventory: vec![] };
    let mut player = Object::new(2, 2, '@', "player", black(), true);
    player.alive = true;
    player.fighter = Some(Fighter { max_hp: 30, hp: 30, defence: 2, attack: 5, on_death: DeathCallback::Player });
    let mut potion = Object::new(2, 2, '!', "potion", black(), false);
    potion.item = Some(Item::Heal);
    (game, vec![player, potion])
}

#[test]
fn commands_of_keys() {
    assert_eq!(key_command(&key(KeyCode::Enter, true, ""), true), Command::ToggleFullscreen);
    assert_eq!(key_command(&key(KeyCode::Enter, false, ""), true), Command::Nothing);
    assert_eq!(key_command(&key(KeyCode::Escape, false, ""), false), Command::Exit);
    assert_eq!(key_command(&key(KeyCode::Up, false, ""), true), Command::Step { dx: 0, dy: -1 });
    assert_eq!(key_command(&key(KeyCode::Down, false, ""), true), Command::Step { dx: 0, dy: 1 });
    assert_eq!(key_command(&key(KeyCode::Left, false, ""), true), Command::Step { dx: -1, dy: 0 });
    assert_eq!(key_command(&key(KeyCode::Right, false, ""), true), Command::Step { dx: 1, dy: 0 });
    assert_eq!(key_command(&key(KeyCode::Text, false, "."), true), Command::Wait);
    assert_eq!(key_command(&key(KeyCode::Text, false, "g"), true), Command::PickUp);
    assert_eq!(key_command(&key(KeyCode::Text, false, "i"), true), Command::ShowInventory);
    assert_eq!(key_command(&key(KeyCode::Text, false, "x"), true), Command::Nothing);
    assert_eq!(key_command(&key(KeyCode::Up, false, ""), false), Command::Nothing);
    assert_eq!(key_command(&key(KeyCode::Other, false, ""), true), Command::Nothing);
}

#[test]
fn handle_keys_moves_the_player() {
    let (mut game, mut objects) = setup();
    let out = handle_keys(&key(KeyCode::Right, false, ""), &mut game, &mut objects);
    assert_eq!(out, KeyOutcome { action: PlayerAction::TookTurn, request: UiRequest::Nothing });
    assert_eq!(objects[0].pos(), (3, 2));
}

#[test]
fn handle_keys_picks_up_under_the_player() {
    let (mut game, mut objects) = setup();
    let out = handle_keys(&key(KeyCode::Text, false, "g"), &mut game, &mut objects);
    assert_eq!(out.action, PlayerAction::DidntTakeTurn);
    assert_eq!(objects.len(), 1);
    assert_eq!(game.inventory.len(), 1);
    let out = handle_keys(&key(KeyCode::Text, false, "g"), &mut game, &mut objects);
    assert_eq!(out.action, PlayerAction::DidntTakeTurn);
    assert_eq!(game.inventory.len(), 1);
}

#[test]
fn handle_keys_requests() {
    let (mut game, mut objects) = setup();
    assert_eq!(
        handle_keys(&key(KeyCode::Enter, true, ""), &mut game, &mut objects),
        KeyOutcome { action: PlayerAction::DidntTakeTurn, request: UiRequest::ToggleFullscreen }
    );
    assert_eq!(
        handle_keys(&key(KeyCode::Text, false, "i"), &mut game, &mut objects),
        KeyOutcome { action: PlayerAction::DidntTakeTurn, request: UiRequest::InventoryMenu }
    );
    assert_eq!(handle_keys(&key(KeyCode::Escape, false, ""), &mut game, &mut objects).action, PlayerAction::Exit);
    assert_eq!(
        handle_keys(&key(KeyCode::Text, false, "."), &mut game, &mut objects).action,
        PlayerAction::TookTurn
    );
}

#[test]
fn dead_player_cannot_move() {
    let (mut game, mut objects) = setup();
    objects[0].alive = false;
    let out = handle_keys(&key(KeyCode::Right, false, ""), &mut game, &mut objects);
    assert_eq!(out.action, PlayerAction::DidntTakeTurn);
    assert_eq!(objects[0].pos(), (2, 2));
}
