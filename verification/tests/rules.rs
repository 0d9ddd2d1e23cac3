use roguelike::action::{monster_death, pick_item_up, player_death, player_move_or_attack, use_item};
use roguelike::ai::{ai_take_turn, AiTurn};
use roguelike::color::{dark_red, green, orange, red, white, Color};
use roguelike::combat::attack;
use roguelike::consts::{HEAL_AMOUNT, PLAYER};
use roguelike::map::is_blocked;
use roguelike::types::{move_by, DeathCallback, Fighter, Game, Item, Messages, Object, Tile, TileMap};

fn open_map(w: usize, h: usize) -> TileMap {
    vec![vec![Tile::empty(); h]; w]
}

fn new_game(map: TileMap) -> Game {
    Game { map, messages: Messages::new(), inventory: vec![] }
}

fn fighter(hp: i32, defence: i32, attack: i32, on_death: DeathCallback) -> Option<Fighter> {
    Some(Fighter { max_hp: hp, hp, defence, attack, on_death })
}

fn player_at(x: i32, y: i32) -> Object {
    let mut p = Object::new(x, y, '@', "player", Color { r: 255, g: 255, b: 255 }, true);
    p.alive = true;
    p.fighter = fighter(30, 2, 5, DeathCallback::Player);
    p
}

fn orc_at(x: i32, y: i32) -> Object {
    let mut o = Object::new(x, y, 'o', "orc", Color { r: 63, g: 127, b: 63 }, true);
    o.alive = true;
    o.fighter = fighter(10, 0, 3, DeathCallback::Monster);
    o.ai = Some(roguelike::types::Ai::Basic);
    o
}

fn potion_at(x: i32, y: i32) -> Object {
    let mut o = Object::new(x, y, '!', "healing potion", Color { r: 127, g: 0, b: 255 }, false);
    o.item = Some(Item::Heal);
    o
}

fn last_message(game: &Game) -> (String, Color) {
    let n = game.messages.len();
    (game.messages.text(n - 1).clone(), game.messages.color(n - 1))
}

#[test]
fn is_blocked_sees_walls_and_blocking_objects() {
    let mut map = open_map(5, 5);
    map[1][2] = Tile::wall();
    let objects = vec![player_at(0, 0), orc_at(3, 3), potion_at(2, 2)];
    assert!(is_blocked(1, 2, &map, &objects));
    assert!(is_blocked(3, 3, &map, &objects));
    assert!(!is_blocked(2, 2, &map, &objects));
    assert!(!is_blocked(4, 4, &map, &objects));
}

#[test]
fn move_by_steps_onto_free_tiles_only() {
    let mut map = open_map(5, 5);
    map[2][1] = Tile::wall();
    let mut objects = vec![player_at(1, 1), orc_at(1, 2)];
    move_by(0, 1, 0, &map, &mut objects);
    assert_eq!(objects[0].pos(), (1, 1));
    move_by(0, 0, 1, &map, &mut objects);
    assert_eq!(objects[0].pos(), (1, 1));
    move_by(0, -1, 0, &map, &mut objects);
    assert_eq!(objects[0].pos(), (0, 1));
    assert_eq!(objects[1].pos(), (1, 2));
}

#[test]
fn attack_logs_the_damage_in_decimal() {
    let mut game = new_game(open_map(5, 5));
    let mut objects = vec![player_at(1, 1), orc_at(2, 1)];
    objects[0].fighter = fighter(30, 2, 15, DeathCallback::Player);
    objects[1].fighter = fighter(20, 1, 3, DeathCallback::Monster);
    attack(0, 1, &mut game, &mut objects);
    assert_eq!(objects[1].fighter.unwrap().hp, 6);
    assert!(objects[1].alive);
    assert_eq!(game.messages.len(), 1);
    assert_eq!(last_message(&game), ("player attacks orc for 14 hit points.".to_string(), white()));
}

#[test]
fn attack_without_effect() {
    let mut game = new_game(open_map(5, 5));
    let mut objects = vec![player_at(1, 1), orc_at(2, 1)];
    objects[1].fighter = fighter(10, 9, 3, DeathCallback::Monster);
    attack(0, 1, &mut game, &mut objects);
    assert_eq!(objects[1].fighter.unwrap().hp, 10);
    assert_eq!(last_message(&game), ("player attacks orc but it has no effect!".to_string(), white()));
}

#[test]
fn killing_a_monster_leaves_a_corpse() {
    let mut game = new_game(open_map(5, 5));
    let mut objects = vec![player_at(1, 1), orc_at(2, 1)];
    objects[1].fighter = fighter(3, 0, 3, DeathCallback::Monster);
    attack(0, 1, &mut game, &mut objects);
    let corpse = &objects[1];
    assert_eq!(corpse.name, "orc corpse");
    assert_eq!(corpse.char, '%');
    assert_eq!(corpse.color, dark_red());
    assert!(!corpse.blocks);
    assert!(!corpse.alive);
    assert!(corpse.fighter.is_none());
    assert!(corpse.ai.is_none());
    assert_eq!(corpse.pos(), (2, 1));
    assert_eq!(game.messages.len(), 2);
    assert_eq!(game.messages.text(0), "player attacks orc for 5 hit points.");
    assert_eq!(last_message(&game), ("The orc dies!".to_string(), orange()));
}

#[test]
fn killing_the_player() {
    let mut game = new_game(open_map(5, 5));
    let mut objects = vec![player_at(1, 1), orc_at(2, 1)];
    objects[0].fighter = fighter(2, 0, 5, DeathCallback::Player);
    attack(1, 0, &mut game, &mut objects);
    let player = &objects[0];
    assert!(!player.alive);
    assert_eq!(player.char, '%');
    assert_eq!(player.color, dark_red());
    assert_eq!(player.fighter.unwrap().hp, -1);
    assert!(player.blocks);
    assert_eq!(player.name, "player");
    assert_eq!(last_message(&game), ("You died!".to_string(), red()));
}

#[test]
fn death_callbacks_directly() {
    let mut game = new_game(open_map(1, 1));
    let mut p = player_at(0, 0);
    player_death(&mut p, &mut game);
    assert_eq!(p.char, '%');
    let mut m = orc_at(0, 0);
    monster_death(&mut m, &mut game);
    assert_eq!(m.name, "orc corpse");
    assert_eq!(game.messages.len(), 2);
    assert_eq!(game.messages.text(1), "The orc dies!");
}

#[test]
fn take_damage_ignores_non_positive_damage() {
    let mut game = new_game(open_map(1, 1));
    let mut o = orc_at(0, 0);
    o.take_damage(0, &mut game);
    o.take_damage(-5, &mut game);
    assert_eq!(o.fighter.unwrap().hp, 10);
    o.take_damage(4, &mut game);
    assert_eq!(o.fighter.unwrap().hp, 6);
    assert_eq!(game.messages.len(), 0);
    let mut item = potion_at(0, 0);
    item.take_damage(100, &mut game);
    assert!(item.fighter.is_none());
    assert_eq!(game.messages.len(), 0);
}

#[test]
fn heal_stops_at_max_hp() {
    let mut o = orc_at(0, 0);
    o.fighter = Some(Fighter { max_hp: 10, hp: 3, defence: 0, attack: 1, on_death: DeathCallback::Monster });
    o.heal(4);
    assert_eq!(o.fighter.unwrap().hp, 7);
    o.heal(4);
    assert_eq!(o.fighter.unwrap().hp, 10);
}

#[test]
fn player_attacks_a_fighter_in_the_way() {
    let mut game = new_game(open_map(5, 5));
    let mut objects = vec![player_at(1, 1), orc_at(2, 1)];
    player_move_or_attack(1, 0, &mut game, &mut objects);
    assert_eq!(objects[0].pos(), (1, 1));
    assert_eq!(objects[1].fighter.unwrap().hp, 5);
    assert_eq!(game.messages.text(0), "player attacks orc for 5 hit points.");
}

#[test]
fn player_walks_over_items_and_around() {
    let mut game = new_game(open_map(5, 5));
    let mut objects = vec![player_at(1, 1), potion_at(2, 1)];
    player_move_or_attack(1, 0, &mut game, &mut objects);
    assert_eq!(objects[0].pos(), (2, 1));
    player_move_or_attack(0, 1, &mut game, &mut objects);
    assert_eq!(objects[0].pos(), (2, 2));
    assert_eq!(game.messages.len(), 0);
}

#[test]
fn player_is_stopped_by_walls() {
    let mut map = open_map(5, 5);
    map[2][1] = Tile::wall();
    let mut game = new_game(map);
    let mut objects = vec![player_at(1, 1)];
    player_move_or_attack(1, 0, &mut game, &mut objects);
    assert_eq!(objects[0].pos(), (1, 1));
}

#[test]
fn pick_up_moves_the_item_into_the_inventory() {
    let mut game = new_game(open_map(5, 5));
    let mut objects = vec![player_at(1, 1), potion_at(1, 1), orc_at(3, 3)];
    pick_item_up(1, &mut game, &mut objects);
    assert_eq!(objects.len(), 2);
    assert_eq!(objects.len() + game.inventory.len(), 3);
    assert_eq!(objects[0].name, "player");
    assert_eq!(objects[1].name, "orc");
    assert_eq!(game.inventory.len(), 1);
    assert_eq!(game.inventory[0].name, "healing potion");
    assert_eq!(last_message(&game), ("Picked up healing potion".to_string(), green()));
}

#[test]
fn pick_up_refused_when_inventory_is_full() {
    let mut game = new_game(open_map(5, 5));
    for _ in 0..27 {
        game.inventory.push(potion_at(0, 0));
    }
    let mut objects = vec![player_at(1, 1), potion_at(1, 1)];
    pick_item_up(1, &mut game, &mut objects);
    assert_eq!(objects.len(), 2);
    assert_eq!(game.inventory.len(), 27);
    assert_eq!(
        last_message(&game),
        ("Your inventory is full. Cannot pick up healing potion.".to_string(), red())
    );
}

#[test]
fn pick_up_allowed_with_twenty_six_items() {
    let mut game = new_game(open_map(5, 5));
    for _ in 0..26 {
        game.inventory.push(potion_at(0, 0));
    }
    let mut objects = vec![player_at(1, 1), potion_at(1, 1)];
    pick_item_up(1, &mut game, &mut objects);
    assert_eq!(objects.len(), 1);
    assert_eq!(game.inventory.len(), 27);
}

#[test]
fn potion_heals_and_is_used_up() {
    let mut game = new_game(open_map(5, 5));
    game.inventory.push(potion_at(0, 0));
    let mut objects = vec![player_at(1, 1)];
    objects[0].fighter = Some(Fighter { max_hp: 30, hp: 20, defence: 2, attack: 5, on_death: DeathCallback::Player });
    use_item(0, &mut game, &mut objects);
    assert_eq!(objects[0].fighter.unwrap().hp, 20 + HEAL_AMOUNT);
    assert_eq!(game.inventory.len(), 0);
    assert_eq!(
        last_message(&game),
        ("Your wounds recede as the potion courses through your veins.".to_string(), green())
    );
}

#[test]
fn potion_at_full_health_is_kept() {
    let mut game = new_game(open_map(5, 5));
    game.inventory.push(potion_at(0, 0));
    let mut objects = vec![player_at(1, 1)];
    use_item(0, &mut game, &mut objects);
    assert_eq!(objects[0].fighter.unwrap().hp, 30);
    assert_eq!(game.inventory.len(), 1);
    assert_eq!(game.messages.len(), 2);
    assert_eq!(game.messages.text(0), "You are already at maximum health.");
    assert_eq!(last_message(&game), ("Cancelled".to_string(), white()));
}

#[test]
fn potion_without_player_fighter_is_cancelled() {
    let mut game = new_game(open_map(5, 5));
    game.inventory.push(potion_at(0, 0));
    let mut objects = vec![player_at(1, 1)];
    objects[0].fighter = None;
    use_item(0, &mut game, &mut objects);
    assert_eq!(game.inventory.len(), 1);
    assert_eq!(game.messages.len(), 1);
    assert_eq!(last_message(&game), ("Cancelled".to_string(), white()));
}

#[test]
fn using_something_that_is_not_an_item() {
    let mut game = new_game(open_map(5, 5));
    game.inventory.push(orc_at(0, 0));
    let mut objects = vec![player_at(1, 1)];
    use_item(0, &mut game, &mut objects);
    assert_eq!(game.inventory.len(), 1);
    assert_eq!(last_message(&game), ("The orc cannot be used.".to_string(), red()));
}

#[test]
fn monster_out_of_view_stays_idle() {
    let mut game = new_game(open_map(10, 10));
    let mut objects = vec![player_at(1, 1), orc_at(2, 1)];
    assert_eq!(ai_take_turn(1, false, &mut game, &mut objects), AiTurn::Idle);
    assert_eq!(objects[0].fighter.unwrap().hp, 30);
}

#[test]
fn monster_in_view_walks_towards_a_distant_player() {
    let mut game = new_game(open_map(10, 10));
    let mut objects = vec![player_at(1, 1), orc_at(3, 1)];
    assert_eq!(ai_take_turn(1, true, &mut game, &mut objects), AiTurn::MoveTowards { x: 1, y: 1 });
    assert_eq!(game.messages.len(), 0);
}

#[test]
fn monster_next_to_the_player_attacks() {
    let mut game = new_game(open_map(10, 10));
    let mut objects = vec![player_at(1, 1), orc_at(2, 2)];
    assert_eq!(ai_take_turn(1, true, &mut game, &mut objects), AiTurn::Attacked);
    assert_eq!(objects[0].fighter.unwrap().hp, 29);
    assert_eq!(last_message(&game), ("orc attacks player for 1 hit points.".to_string(), white()));
}

#[test]
fn monster_leaves_a_beaten_player_alone() {
    let mut game = new_game(open_map(10, 10));
    let mut objects = vec![player_at(1, 1), orc_at(2, 1)];
    objects[0].fighter = Some(Fighter { max_hp: 30, hp: 0, defence: 2, attack: 5, on_death: DeathCallback::Player });
    assert_eq!(ai_take_turn(1, true, &mut game, &mut objects), AiTurn::Idle);
    assert_eq!(game.messages.len(), 0);
}

#[test]
fn distance_squared() {
    let a = orc_at(1, 1);
    let b = orc_at(4, 5);
    assert_eq!(a.distance_sq_to(&b), 25);
    assert_eq!(b.distance_sq_to(&a), 25);
}

#[test]
fn colors_match_their_names() {
    assert_eq!(red(), Color { r: 255, g: 0, b: 0 });
    assert_eq!(dark_red(), Color { r: 191, g: 0, b: 0 });
    assert_eq!(orange(), Color { r: 255, g: 127, b: 0 });
    assert_eq!(green(), Color { r: 0, g: 255, b: 0 });
    assert_eq!(white(), Color { r: 255, g: 255, b: 255 });
    assert_eq!(PLAYER, 0);
}
