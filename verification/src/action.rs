use vstd::prelude::*;

use crate::color::dark_red;
use crate::color::orange;
use crate::color::red;
use crate::color::rgb;
use crate::color::Color;
use crate::color::green;
use crate::color::white;
use crate::combat::attack;
use crate::combat::attack_fits;
use crate::combat::attacked;
use crate::combat::healed;
use crate::consts::HEAL_AMOUNT;
use crate::consts::INVENTORY_LIMIT;
use crate::consts::PLAYER;
use crate::map::in_map;
use crate::types::move_by;
use crate::types::moved_by;
use crate::types::Game;
use crate::types::Item;
use crate::types::Object;

verus! {

/// What becomes of the player at death: a red `%` that keeps everything else.
pub open spec fn player_corpse(o: Object) -> Object {
    Object { char: '%', color: rgb(191, 0, 0), ..o }
}

/// Whether `new` is the corpse that a dead monster `o` leaves: a red `%` named
/// after it that neither blocks, fights, thinks nor lives.
pub open spec fn is_monster_corpse(new: Object, o: Object) -> bool {
    &&& new.x == o.x
    &&& new.y == o.y
    &&& new.char == '%'
    &&& new.color == rgb(191, 0, 0)
    &&& new.name@ == o.name@ + " corpse"@
    &&& !new.blocks
    &&& !new.alive
    &&& new.fighter.is_none()
    &&& new.ai.is_none()
    &&& new.item == o.item
}

/// The log entry that announces the death of monster `o`.
pub open spec fn monster_death_message(o: Object) -> (Seq<char>, Color) {
    ("The "@ + o.name@ + " dies!"@, rgb(255, 127, 0))
}

/// The log entry that announces the death of the player.
pub open spec fn player_death_message() -> (Seq<char>, Color) {
    ("You died!"@, rgb(255, 0, 0))
}

pub fn player_death(player: &mut Object, game: &mut Game)
    ensures
        *final(player) == player_corpse(*old(player)),
        final(game).messages@ == old(game).messages@.push(player_death_message()),
        final(game).map == old(game).map,
        final(game).inventory == old(game).inventory,
{
    game.messages.add(String::from_str("You died!"), red());
    player.char = '%';
    player.color = dark_red();
}

pub fn monster_death(monster: &mut Object, game: &mut Game)
    ensures
        is_monster_corpse(*final(monster), *old(monster)),
        final(game).messages@ == old(game).messages@.push(monster_death_message(*old(monster))),
        final(game).map == old(game).map,
        final(game).inventory == old(game).inventory,
{
    let mut message = String::from_str("The ");
    message.append(monster.name.as_str());
    message.append(" dies!");
    game.messages.add(message, orange());
    monster.char = '%';
    monster.color = dark_red();
    monster.blocks = false;
    monster.alive = false;
    monster.fighter = None;
    monster.ai = None;
    let mut corpse_name = monster.name.clone();
    corpse_name.append(" corpse");
    monster.name = corpse_name;
}

/// Whether `o` is a fighter standing at `(x, y)`: something that can be attacked there.
pub open spec fn fighter_at(o: Object, x: int, y: int) -> bool {
    o.fighter.is_some() && o.x == x && o.y == y
}

/// The first index from `i` on of a fighter standing at `(x, y)`, if any.
pub open spec fn first_fighter_from(objects: Seq<Object>, x: int, y: int, i: int) -> Option<int>
    decreases objects.len() - i,
{
    if i < 0 || i >= objects.len() {
        None
    } else if fighter_at(objects[i], x, y) {
        Some(i)
    } else {
        first_fighter_from(objects, x, y, i + 1)
    }
}

proof fn lemma_first_fighter_from(objects: Seq<Object>, x: int, y: int, i: int)
    requires
        0 <= i,
    ensures
        first_fighter_from(objects, x, y, i) matches Some(t) ==> i <= t < objects.len()
            && fighter_at(objects[t], x, y),
    decreases objects.len() - i,
{
    if i < objects.len() && !fighter_at(objects[i], x, y) {
        lemma_first_fighter_from(objects, x, y, i + 1);
    }
}

/// The first index of a fighter standing at `(x, y)`, if any.
pub open spec fn first_fighter_at(objects: Seq<Object>, x: int, y: int) -> Option<int> {
    first_fighter_from(objects, x, y, 0)
}

/// A fighter found at `(x, y)` is one of the objects, a fighter, and stands there.
pub proof fn lemma_first_fighter_at(objects: Seq<Object>, x: int, y: int)
    ensures
        first_fighter_at(objects, x, y) matches Some(t) ==> 0 <= t < objects.len() && fighter_at(
            objects[t],
            x,
            y,
        ),
{
    lemma_first_fighter_from(objects, x, y, 0);
}

fn find_fighter_at(objects: &[Object], x: i32, y: i32) -> (r: Option<usize>)
    ensures
        match r {
            Some(i) => first_fighter_at(objects@, x as int, y as int) == Some(i as int),
            None => first_fighter_at(objects@, x as int, y as int).is_none(),
        },
{
    let mut i: usize = 0;
    while i < objects.len()
        invariant
            i <= objects@.len(),
            first_fighter_at(objects@, x as int, y as int) == first_fighter_from(
                objects@,
                x as int,
                y as int,
                i as int,
            ),
        decreases objects@.len() - i,
    {
        if objects[i].fighter.is_some() && objects[i].x == x && objects[i].y == y {
            return Some(i);
        }
        i = i + 1;
    }
    None
}

/// Where the player would step by `(dx, dy)`.
pub open spec fn player_target(objects: Seq<Object>, dx: int, dy: int) -> (int, int) {
    (objects[PLAYER as int].x + dx, objects[PLAYER as int].y + dy)
}

/// Whether the player can be asked to step or strike by `(dx, dy)`: the step
/// stays within `i32`, a fighter there is someone else whom the player can hit
/// within `i32`, and with no fighter there the destination lies on the map.
pub open spec fn can_move_or_attack(map: &crate::types::TileMap, objects: Seq<Object>, dx: int, dy: int) -> bool {
    let (x, y) = player_target(objects, dx, dy);
    &&& objects.len() > 0
    &&& i32::MIN <= x <= i32::MAX
    &&& i32::MIN <= y <= i32::MAX
    &&& match first_fighter_at(objects, x, y) {
        Some(t) => t != PLAYER && attack_fits(objects, PLAYER as int, t),
        None => in_map(map, x, y),
    }
}

/// Whether `new`/`log1` are what the player's step or strike by `(dx, dy)`
/// makes of `objects`/`log0`: the first fighter at the destination is attacked;
/// with none there, the player steps there unless it is blocked.
pub open spec fn moved_or_attacked(
    new: Seq<Object>,
    map: &crate::types::TileMap,
    objects: Seq<Object>,
    dx: int,
    dy: int,
    log0: Seq<(Seq<char>, Color)>,
    log1: Seq<(Seq<char>, Color)>,
) -> bool {
    let (x, y) = player_target(objects, dx, dy);
    match first_fighter_at(objects, x, y) {
        Some(t) => attacked(new, objects, PLAYER as int, t, log0, log1),
        None => log1 == log0 && moved_by(new, map, objects, PLAYER as int, dx, dy),
    }
}

pub fn player_move_or_attack(dx: i32, dy: i32, game: &mut Game, objects: &mut [Object])
    requires
        can_move_or_attack(&old(game).map, old(objects)@, dx as int, dy as int),
    ensures
        moved_or_attacked(
            final(objects)@,
            &old(game).map,
            old(objects)@,
            dx as int,
            dy as int,
            old(game).messages@,
            final(game).messages@,
        ),
        final(game).map == old(game).map,
        final(game).inventory == old(game).inventory,
{
    let x = objects[PLAYER].x + dx;
    let y = objects[PLAYER].y + dy;

    // try to find an attackable object
    let target_id = find_fighter_at(objects, x, y);

    proof {
        lemma_first_fighter_at(objects@, x as int, y as int);
    }
    match target_id {
        Some(target_id) => {
            attack(PLAYER, target_id, game, objects);
        },
        None => {
            move_by(PLAYER, dx, dy, &game.map, objects);
        },
    }
}

/// The log entry of a refused pick-up of `o`.
pub open spec fn inventory_full_message(o: Object) -> (Seq<char>, Color) {
    ("Your inventory is full. Cannot pick up "@ + o.name@ + "."@, rgb(255, 0, 0))
}

/// The log entry of a pick-up of `o`.
pub open spec fn picked_up_message(o: Object) -> (Seq<char>, Color) {
    ("Picked up "@ + o.name@, rgb(0, 255, 0))
}

/// What is left of `objects` once object `i` is taken: the last object fills its place.
pub open spec fn objects_after_pick(objects: Seq<Object>, i: int) -> Seq<Object> {
    objects.update(i, objects.last()).drop_last()
}

/// Whether `objects1`/`inventory1`/`log1` are what picking up object `id` makes of
/// `objects0`/`inventory0`/`log0`: with more than the limit in the inventory the
/// pick-up is refused and logged; otherwise the object moves to the end of the
/// inventory, the last object takes its place, and the pick-up is logged.
pub open spec fn picked_up(
    objects1: Seq<Object>,
    inventory1: Seq<Object>,
    log1: Seq<(Seq<char>, Color)>,
    objects0: Seq<Object>,
    inventory0: Seq<Object>,
    log0: Seq<(Seq<char>, Color)>,
    id: int,
) -> bool {
    let o = objects0[id];
    if inventory0.len() > INVENTORY_LIMIT {
        &&& objects1 == objects0
        &&& inventory1 == inventory0
        &&& log1 == log0.push(inventory_full_message(o))
    } else {
        &&& objects1 == objects_after_pick(objects0, id)
        &&& inventory1 == inventory0.push(o)
        &&& log1 == log0.push(picked_up_message(o))
    }
}

/// Moves object `object_id` into the inventory unless the inventory is full.
pub fn pick_item_up(object_id: usize, game: &mut Game, objects: &mut Vec<Object>)
    requires
        object_id < old(objects)@.len(),
    ensures
        picked_up(
            final(objects)@,
            final(game).inventory@,
            final(game).messages@,
            old(objects)@,
            old(game).inventory@,
            old(game).messages@,
            object_id as int,
        ),
        final(game).map == old(game).map,
{
    if game.inventory.len() > INVENTORY_LIMIT {
        let mut message = String::from_str("Your inventory is full. Cannot pick up ");
        message.append(objects[object_id].name.as_str());
        message.append(".");
        game.messages.add(message, red());
    } else {
        let item = objects.swap_remove(object_id);
        let mut message = String::from_str("Picked up ");
        message.append(item.name.as_str());
        game.messages.add(message, green());
        game.inventory.push(item);
    }
}

/// The outcome of using an item.
#[derive(Clone, Copy, Debug, PartialEq, Eq, Structural)]
pub enum UseResult {
    UsedUp,
    Cancelled,
}

/// The log entry of a potion that the player does not need.
pub open spec fn full_health_message() -> (Seq<char>, Color) {
    ("You are already at maximum health."@, rgb(255, 0, 0))
}

/// The log entry of a potion that heals.
pub open spec fn healing_message() -> (Seq<char>, Color) {
    ("Your wounds recede as the potion courses through your veins."@, rgb(0, 255, 0))
}

/// Whether the player could drink a healing potion without leaving `i32`.
pub open spec fn heal_fits(objects: Seq<Object>) -> bool {
    &&& objects.len() > 0
    &&& objects[PLAYER as int].fighter matches Some(f) ==> (f.hp != f.max_hp ==> f.hp + HEAL_AMOUNT <= i32::MAX)
}

fn cast_heal(_inventory_id: usize, game: &mut Game, objects: &mut [Object]) -> (r: UseResult)
    requires
        heal_fits(old(objects)@),
    ensures
        match old(objects)@[PLAYER as int].fighter {
            Some(f) => if f.hp == f.max_hp {
                &&& r == UseResult::Cancelled
                &&& final(objects)@ == old(objects)@
                &&& final(game).messages@ == old(game).messages@.push(full_health_message())
            } else {
                &&& r == UseResult::UsedUp
                &&& final(objects)@ == old(objects)@.update(
                    PLAYER as int,
                    healed(old(objects)@[PLAYER as int], HEAL_AMOUNT as int),
                )
                &&& final(game).messages@ == old(game).messages@.push(healing_message())
            },
            None => {
                &&& r == UseResult::Cancelled
                &&& final(objects)@ == old(objects)@
                &&& final(game).messages@ == old(game).messages@
            },
        },
        final(game).map == old(game).map,
        final(game).inventory == old(game).inventory,
{
    if let Some(fighter) = objects[PLAYER].fighter {
        if fighter.hp == fighter.max_hp {
            game.messages.add(String::from_str("You are already at maximum health."), red());
            return UseResult::Cancelled;
        }
        game.messages.add(
            String::from_str("Your wounds recede as the potion courses through your veins."),
            green(),
        );
        objects[PLAYER].heal(HEAL_AMOUNT);
        return UseResult::UsedUp;
    }
    UseResult::Cancelled
}

/// The log entry of a use that was called off.
pub open spec fn cancelled_message() -> (Seq<char>, Color) {
    ("Cancelled"@, rgb(255, 255, 255))
}

/// The log entry of an attempt to use `o`, which is no item.
pub open spec fn cannot_use_message(o: Object) -> (Seq<char>, Color) {
    ("The "@ + o.name@ + " cannot be used."@, rgb(255, 0, 0))
}

/// Uses inventory entry `inventory_id`: a healing potion heals the player unless
/// the player is at full health, and is used up when it heals.
pub fn use_item(inventory_id: usize, game: &mut Game, objects: &mut [Object])
    requires
        inventory_id < old(game).inventory@.len(),
        old(game).inventory@[inventory_id as int].item.is_some() ==> heal_fits(old(objects)@),
    ensures
        ({
            let it = old(game).inventory@[inventory_id as int];
            match it.item {
                Some(Item::Heal) => match old(objects)@[PLAYER as int].fighter {
                    Some(f) => if f.hp == f.max_hp {
                        &&& final(objects)@ == old(objects)@
                        &&& final(game).inventory@ == old(game).inventory@
                        &&& final(game).messages@ == old(game).messages@.push(
                            full_health_message(),
                        ).push(cancelled_message())
                    } else {
                        &&& final(objects)@ == old(objects)@.update(
                            PLAYER as int,
                            healed(old(objects)@[PLAYER as int], HEAL_AMOUNT as int),
                        )
                        &&& final(game).inventory@ == old(game).inventory@.remove(
                            inventory_id as int,
                        )
                        &&& final(game).messages@ == old(game).messages@.push(healing_message())
                    },
                    None => {
                        &&& final(objects)@ == old(objects)@
                        &&& final(game).inventory@ == old(game).inventory@
                        &&& final(game).messages@ == old(game).messages@.push(cancelled_message())
                    },
                },
                None => {
                    &&& final(objects)@ == old(objects)@
                    &&& final(game).inventory@ == old(game).inventory@
                    &&& final(game).messages@ == old(game).messages@.push(cannot_use_message(it))
                },
            }
        }),
        final(game).map == old(game).map,
{
    if let Some(item) = game.inventory[inventory_id].item {
        let on_use = match item {
            Item::Heal => cast_heal(inventory_id, game, objects),
        };
        match on_use {
            UseResult::UsedUp => {
                game.inventory.remove(inventory_id);
            },
            UseResult::Cancelled => {
                game.messages.add(String::from_str("Cancelled"), white());
            },
        }
    } else {
        let mut message = String::from_str("The ");
        message.append(game.inventory[inventory_id].name.as_str());
        message.append(" cannot be used.");
        game.messages.add(message, red());
    }
}

} // verus!
