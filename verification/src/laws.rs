use vstd::prelude::*;

use crate::action::moved_or_attacked;
use crate::action::objects_after_pick;
use crate::action::picked_up;
use crate::action::first_fighter_at;
use crate::color::Color;
use crate::combat::attacked;
use crate::combat::took_damage;
use crate::consts::INVENTORY_LIMIT;
use crate::consts::PLAYER;
use crate::map::blocked_at;
use crate::map::in_map;
use crate::dungeon::accepted_plans;
use crate::dungeon::centre_of;
use crate::dungeon::dug;
use crate::dungeon::in_room_interior;
use crate::dungeon::is_spawn_of;
use crate::dungeon::kind_blocks;
use crate::dungeon::placed_blocks_at;
use crate::dungeon::placed_spawns;
use crate::dungeon::RoomPlan;
use crate::dungeon::Spawn;
use crate::color::rgb;
use crate::combat::damage_fits;
use crate::keys::command_of;
use crate::keys::first_item_from;
use crate::keys::item_under_player;
use crate::render::joined;
use crate::render::names_at;
use crate::types::DeathCallback;
use crate::types::Rect;
use crate::keys::Command;
use crate::keys::KeyCode;
use crate::render::drawing_order;
use crate::render::visible_with_blocks;
use crate::types::moved_by;
use crate::types::Object;
use crate::types::TileMap;

verus! {

/// Whether the objects stand validly on the map: every blocking object stands on
/// a free tile of the map, and no two blocking objects share a place.
pub open spec fn layout_valid(map: &TileMap, objects: Seq<Object>) -> bool {
    &&& forall|i: int|
        0 <= i < objects.len() && #[trigger] objects[i].blocks ==> in_map(
            map,
            objects[i].x as int,
            objects[i].y as int,
        ) && !map@[objects[i].x as int]@[objects[i].y as int].blocked
    &&& forall|i: int, j: int|
        0 <= i < objects.len() && 0 <= j < objects.len() && i != j && #[trigger] objects[i].blocks
            && #[trigger] objects[j].blocks ==> !(objects[i].x == objects[j].x && objects[i].y
            == objects[j].y)
}

/// Moving an object keeps the objects standing validly: nothing steps onto a
/// blocked tile or onto another blocking object.
pub proof fn lemma_move_keeps_layout(
    new: Seq<Object>,
    map: &TileMap,
    objects: Seq<Object>,
    id: int,
    dx: int,
    dy: int,
)
    requires
        0 <= id < objects.len(),
        in_map(map, objects[id].x + dx, objects[id].y + dy),
        i32::MIN <= objects[id].x + dx <= i32::MAX,
        i32::MIN <= objects[id].y + dy <= i32::MAX,
        layout_valid(map, objects),
        moved_by(new, map, objects, id, dx, dy),
    ensures
        layout_valid(map, new),
{
    let o = objects[id];
    if !blocked_at(map, objects, o.x + dx, o.y + dy) {
        assert forall|i: int, j: int|
            0 <= i < new.len() && 0 <= j < new.len() && i != j && #[trigger] new[i].blocks
                && #[trigger] new[j].blocks implies !(new[i].x == new[j].x && new[i].y
            == new[j].y) by {
            if i == id {
                assert(objects[j].blocks);
            } else if j == id {
                assert(objects[i].blocks);
            }
        }
    }
}

/// Taking damage leaves an object where it was, and an object that did not
/// block does not start to.
pub proof fn lemma_damage_keeps_place(
    new: Object,
    o: Object,
    damage: int,
    log0: Seq<(Seq<char>, Color)>,
    log1: Seq<(Seq<char>, Color)>,
)
    requires
        took_damage(new, o, damage, log0, log1),
    ensures
        new.x == o.x,
        new.y == o.y,
        new.blocks ==> o.blocks,
{
}

/// An attack keeps the objects standing validly.
pub proof fn lemma_attack_keeps_layout(
    new: Seq<Object>,
    map: &TileMap,
    objects: Seq<Object>,
    attacker: int,
    target: int,
    log0: Seq<(Seq<char>, Color)>,
    log1: Seq<(Seq<char>, Color)>,
)
    requires
        0 <= attacker < objects.len(),
        0 <= target < objects.len(),
        layout_valid(map, objects),
        attacked(new, objects, attacker, target, log0, log1),
    ensures
        layout_valid(map, new),
{
    let t = objects[target];
    let damage = crate::combat::attack_damage(objects[attacker], t);
    if damage > 0 {
        let logged = log0.push(crate::combat::attack_message(objects[attacker], t, damage));
        lemma_damage_keeps_place(new[target], t, damage, logged, log1);
    }
    assert forall|i: int| 0 <= i < new.len() && #[trigger] new[i].blocks implies in_map(
        map,
        new[i].x as int,
        new[i].y as int,
    ) && !map@[new[i].x as int]@[new[i].y as int].blocked by {
        assert(objects[i].blocks);
    }
    assert forall|i: int, j: int|
        0 <= i < new.len() && 0 <= j < new.len() && i != j && #[trigger] new[i].blocks
            && #[trigger] new[j].blocks implies !(new[i].x == new[j].x && new[i].y == new[j].y) by {
        assert(objects[i].blocks && objects[j].blocks);
    }
}

/// The player's step or strike keeps the objects standing validly.
pub proof fn lemma_player_turn_keeps_layout(
    new: Seq<Object>,
    map: &TileMap,
    objects: Seq<Object>,
    dx: int,
    dy: int,
    log0: Seq<(Seq<char>, Color)>,
    log1: Seq<(Seq<char>, Color)>,
)
    requires
        crate::action::can_move_or_attack(map, objects, dx, dy),
        layout_valid(map, objects),
        moved_or_attacked(new, map, objects, dx, dy, log0, log1),
    ensures
        layout_valid(map, new),
{
    let (x, y) = crate::action::player_target(objects, dx, dy);
    crate::action::lemma_first_fighter_at(objects, x, y);
    match first_fighter_at(objects, x, y) {
        Some(t) => lemma_attack_keeps_layout(new, map, objects, PLAYER as int, t, log0, log1),
        None => lemma_move_keeps_layout(new, map, objects, PLAYER as int, dx, dy),
    }
}

/// Picking up moves an object from the level into the inventory: no object is
/// lost or made, counting the level and the inventory together.
pub proof fn lemma_pick_up_conserves_objects(
    objects1: Seq<Object>,
    inventory1: Seq<Object>,
    log1: Seq<(Seq<char>, Color)>,
    objects0: Seq<Object>,
    inventory0: Seq<Object>,
    log0: Seq<(Seq<char>, Color)>,
    id: int,
)
    requires
        0 <= id < objects0.len(),
        picked_up(objects1, inventory1, log1, objects0, inventory0, log0, id),
    ensures
        (objects1 + inventory1).to_multiset() == (objects0 + inventory0).to_multiset(),
{
    broadcast use {
        vstd::seq_lib::lemma_multiset_commutative,
        vstd::seq_lib::to_multiset_build,
        vstd::seq_lib::to_multiset_update,
        vstd::multiset::group_multiset_axioms,
    };

    if inventory0.len() <= INVENTORY_LIMIT {
        let u = objects0.update(id, objects0.last());
        let rest = objects_after_pick(objects0, id);
        assert(u =~= rest.push(u.last()));
        assert(u.last() == objects0.last());
        assert(rest.to_multiset().insert(objects0.last()) == u.to_multiset());
        assert(u.to_multiset() == objects0.to_multiset().insert(objects0.last()).remove(
            objects0[id],
        ));
        assert(objects0.contains(objects0[id]));
        vstd::seq_lib::to_multiset_contains(objects0, objects0[id]);
        assert(objects0.to_multiset().count(objects0[id]) > 0);
        assert forall|v: Object| #[trigger] rest.to_multiset().insert(objects0[id]).count(v)
            == objects0.to_multiset().count(v) by {
            assert(rest.to_multiset().insert(objects0.last()).count(v) == objects0.to_multiset().insert(
                objects0.last(),
            ).remove(objects0[id]).count(v));
        }
        assert(rest.to_multiset().insert(objects0[id]) =~= objects0.to_multiset());
        assert((objects1 + inventory1).to_multiset() =~= (objects0 + inventory0).to_multiset());
    }
}

/// Picking up anything but the player leaves the player first among the objects.
pub proof fn lemma_pick_up_keeps_player(
    objects1: Seq<Object>,
    inventory1: Seq<Object>,
    log1: Seq<(Seq<char>, Color)>,
    objects0: Seq<Object>,
    inventory0: Seq<Object>,
    log0: Seq<(Seq<char>, Color)>,
    id: int,
)
    requires
        0 <= id < objects0.len(),
        id != PLAYER,
        picked_up(objects1, inventory1, log1, objects0, inventory0, log0, id),
    ensures
        objects1.len() > PLAYER,
        objects1[PLAYER as int] == objects0[PLAYER as int],
{
}

/// An inventory that holds no more than one over the limit never grows beyond that.
pub proof fn lemma_inventory_bounded(
    objects1: Seq<Object>,
    inventory1: Seq<Object>,
    log1: Seq<(Seq<char>, Color)>,
    objects0: Seq<Object>,
    inventory0: Seq<Object>,
    log0: Seq<(Seq<char>, Color)>,
    id: int,
)
    requires
        0 <= id < objects0.len(),
        inventory0.len() <= INVENTORY_LIMIT + 1,
        picked_up(objects1, inventory1, log1, objects0, inventory0, log0, id),
    ensures
        inventory1.len() <= INVENTORY_LIMIT + 1,
{
}

/// An attack only adds to the message log: one entry for the blow, and one more
/// when it kills.
pub proof fn lemma_attack_log_grows(
    new: Seq<Object>,
    objects: Seq<Object>,
    attacker: int,
    target: int,
    log0: Seq<(Seq<char>, Color)>,
    log1: Seq<(Seq<char>, Color)>,
)
    requires
        attacked(new, objects, attacker, target, log0, log1),
    ensures
        log0.is_prefix_of(log1),
        log0.len() + 1 <= log1.len() <= log0.len() + 2,
{
    let t = objects[target];
    let damage = crate::combat::attack_damage(objects[attacker], t);
    let logged = log0.push(crate::combat::attack_message(objects[attacker], t, damage));
    assert(log0.is_prefix_of(logged));
    if log1.len() == logged.len() + 1 {
        assert(logged.is_prefix_of(log1));
    }
}

/// A blow that leaves a fighter without hit points kills it: it is no longer alive.
pub proof fn lemma_damage_kills(
    new: Object,
    o: Object,
    damage: int,
    log0: Seq<(Seq<char>, Color)>,
    log1: Seq<(Seq<char>, Color)>,
)
    requires
        took_damage(new, o, damage, log0, log1),
        crate::combat::damage_fits(o, damage),
        o.fighter is Some,
        crate::combat::hp_after(o.fighter.unwrap(), damage) <= 0,
    ensures
        !new.alive,
{
}

/// Damage never adds hit points, and a fighter that survives keeps its fighter.
pub proof fn lemma_damage_never_heals(
    new: Object,
    o: Object,
    damage: int,
    log0: Seq<(Seq<char>, Color)>,
    log1: Seq<(Seq<char>, Color)>,
)
    requires
        took_damage(new, o, damage, log0, log1),
        crate::combat::damage_fits(o, damage),
        o.fighter is Some,
        new.fighter is Some,
    ensures
        new.fighter.unwrap().hp <= o.fighter.unwrap().hp,
{
}

/// The player's step or strike only adds to the message log.
pub proof fn lemma_player_turn_log_grows(
    new: Seq<Object>,
    map: &TileMap,
    objects: Seq<Object>,
    dx: int,
    dy: int,
    log0: Seq<(Seq<char>, Color)>,
    log1: Seq<(Seq<char>, Color)>,
)
    requires
        moved_or_attacked(new, map, objects, dx, dy, log0, log1),
    ensures
        log0.is_prefix_of(log1),
{
    let (x, y) = crate::action::player_target(objects, dx, dy);
    match first_fighter_at(objects, x, y) {
        Some(t) => lemma_attack_log_grows(new, objects, PLAYER as int, t, log0, log1),
        None => {},
    }
}

proof fn lemma_visible_with_blocks(objects: Seq<Object>, visible: Seq<bool>, b: bool, n: int)
    requires
        0 <= n <= objects.len(),
        objects.len() <= usize::MAX,
        visible.len() == objects.len(),
    ensures
        forall|k: int|
            0 <= k < visible_with_blocks(objects, visible, b, n).len() ==> {
                let i = #[trigger] visible_with_blocks(objects, visible, b, n)[k] as int;
                0 <= i < n && visible[i] && objects[i].blocks == b
            },
        forall|i: int|
            0 <= i < n && visible[i] && objects[i].blocks == b ==> visible_with_blocks(
                objects,
                visible,
                b,
                n,
            ).contains(i as usize),
    decreases n,
{
    if n > 0 {
        lemma_visible_with_blocks(objects, visible, b, n - 1);
        let rest = visible_with_blocks(objects, visible, b, n - 1);
        let s = visible_with_blocks(objects, visible, b, n);
        assert forall|i: int|
            0 <= i < n && visible[i] && objects[i].blocks == b implies s.contains(i as usize) by {
            if i < n - 1 {
                let k = choose|k: int| 0 <= k < rest.len() && rest[k] == i as usize;
                assert(s[k] == i as usize);
            } else {
                assert(s[s.len() - 1] == i as usize);
            }
        }
    }
}

/// Every object in view is drawn, and nothing else is; objects that do not
/// block are drawn before those that do, so that blocking ones end up on top.
pub proof fn lemma_draw_order_complete(objects: Seq<Object>, visible: Seq<bool>)
    requires
        visible.len() == objects.len(),
        objects.len() <= usize::MAX,
    ensures
        forall|i: int|
            0 <= i < objects.len() ==> (drawing_order(objects, visible).contains(i as usize)
                <==> visible[i]),
        forall|k: int, m: int|
            0 <= k < m < drawing_order(objects, visible).len() && objects[drawing_order(
                objects,
                visible,
            )[k] as int].blocks ==> objects[drawing_order(objects, visible)[m] as int].blocks,
{
    let n = objects.len() as int;
    let a = visible_with_blocks(objects, visible, false, n);
    let b = visible_with_blocks(objects, visible, true, n);
    lemma_visible_with_blocks(objects, visible, false, n);
    lemma_visible_with_blocks(objects, visible, true, n);
    let order = drawing_order(objects, visible);
    assert forall|i: int| 0 <= i < objects.len() implies (order.contains(i as usize)
        <==> visible[i]) by {
        if order.contains(i as usize) {
            let k = choose|k: int| 0 <= k < order.len() && order[k] == i as usize;
            if k < a.len() {
                assert(a[k] == i as usize);
            } else {
                assert(b[k - a.len()] == i as usize);
            }
        }
        if visible[i] {
            if objects[i].blocks {
                let k = choose|k: int| 0 <= k < b.len() && b[k] == i as usize;
                assert(order[a.len() + k] == i as usize);
            } else {
                let k = choose|k: int| 0 <= k < a.len() && a[k] == i as usize;
                assert(order[k] == i as usize);
            }
        }
    }
    assert forall|k: int, m: int|
        0 <= k < m < order.len() && objects[order[k] as int].blocks implies objects[order[m] as int].blocks by {
        if k < a.len() {
            assert(order[k] == a[k]);
        } else {
            assert(order[m] == b[m - a.len()]);
        }
    }
}

/// While the player is dead, a key can only toggle full screen or end the game.
pub proof fn lemma_dead_player_cannot_act(code: KeyCode, alt: bool, text: Seq<char>)
    ensures
        command_of(code, alt, text, false) == Command::ToggleFullscreen || command_of(
            code,
            alt,
            text,
            false,
        ) == Command::Exit || command_of(code, alt, text, false) == Command::Nothing,
{
}

/// Escape ends the game, whether the player is alive or not.
pub proof fn lemma_escape_exits(alt: bool, text: Seq<char>, alive: bool)
    ensures
        command_of(KeyCode::Escape, alt, text, alive) == Command::Exit,
{
}

/// The rooms that are dug never meet one another.
pub proof fn lemma_rooms_apart(plans: Seq<RoomPlan>, n: int)
    requires
        0 <= n <= plans.len(),
    ensures
        forall|i: int, j: int|
            0 <= i < j < accepted_plans(plans, n).len() ==> !(#[trigger] accepted_plans(plans, n)[i]).room.meets(
                (#[trigger] accepted_plans(plans, n)[j]).room,
            ),
    decreases n,
{
    if n > 0 {
        lemma_rooms_apart(plans, n - 1);
        let before = accepted_plans(plans, n - 1);
        if !(exists|k: int| 0 <= k < before.len() && #[trigger] plans[n - 1].room.meets(before[k].room)) {
            let after = accepted_plans(plans, n);
            assert(after == before.push(plans[n - 1]));
            assert forall|i: int, j: int| 0 <= i < j < after.len() implies !(#[trigger] after[i]).room.meets(
                (#[trigger] after[j]).room,
            ) by {
                if j == after.len() - 1 {
                    assert(!plans[n - 1].room.meets(before[i].room));
                    crate::types::lemma_meets_symmetric(plans[n - 1].room, before[i].room);
                } else {
                    assert(after[i] == before[i] && after[j] == before[j]);
                }
            }
        }
    }
}

proof fn lemma_dug_room(rooms: Seq<RoomPlan>, n: int, k: int, x: int, y: int)
    requires
        0 <= k < n <= rooms.len(),
        in_room_interior(rooms[k].room, x, y),
    ensures
        dug(rooms, n, x, y),
    decreases n,
{
    if k < n - 1 {
        lemma_dug_room(rooms, n - 1, k, x, y);
    }
}

/// Every cell inside a room that is dug is floor; in particular a player put at
/// the centre of the first room stands on floor when that room is at least
/// three cells wide and high.
pub proof fn lemma_player_starts_on_floor(plans: Seq<RoomPlan>)
    requires
        accepted_plans(plans, plans.len() as int).len() > 0,
        ({
            let r = accepted_plans(plans, plans.len() as int)[0].room;
            r.x2 - r.x1 >= 2 && r.y2 - r.y1 >= 2 && r.x1 >= 0 && r.y1 >= 0
        }),
    ensures
        ({
            let rooms = accepted_plans(plans, plans.len() as int);
            let (cx, cy) = centre_of(rooms[0].room);
            dug(rooms, rooms.len() as int, cx, cy)
        }),
{
    let rooms = accepted_plans(plans, plans.len() as int);
    let (cx, cy) = centre_of(rooms[0].room);
    assert(in_room_interior(rooms[0].room, cx, cy));
    lemma_dug_room(rooms, rooms.len() as int, 0, cx, cy);
}

proof fn lemma_placed_spawns_free(map: &TileMap, objects: Seq<Object>, spawns: Seq<Spawn>, n: int)
    requires
        0 <= n <= spawns.len(),
    ensures
        forall|j: int|
            0 <= j < placed_spawns(map, objects, spawns, n).len() ==> {
                let s = #[trigger] placed_spawns(map, objects, spawns, n)[j];
                &&& !blocked_at(map, objects, s.x as int, s.y as int)
                &&& exists|k: int| 0 <= k < n && spawns[k] == s
            },
        forall|i: int, j: int|
            0 <= i < j < placed_spawns(map, objects, spawns, n).len() && kind_blocks(
                (#[trigger] placed_spawns(map, objects, spawns, n)[i]).kind,
            ) && kind_blocks((#[trigger] placed_spawns(map, objects, spawns, n)[j]).kind) ==> !(
            placed_spawns(map, objects, spawns, n)[i].x == placed_spawns(map, objects, spawns, n)[j].x
                && placed_spawns(map, objects, spawns, n)[i].y == placed_spawns(
                map,
                objects,
                spawns,
                n,
            )[j].y),
    decreases n,
{
    if n > 0 {
        lemma_placed_spawns_free(map, objects, spawns, n - 1);
        let before = placed_spawns(map, objects, spawns, n - 1);
        let after = placed_spawns(map, objects, spawns, n);
        let s = spawns[n - 1];
        if !(blocked_at(map, objects, s.x as int, s.y as int) || placed_blocks_at(before, s.x as int, s.y as int)) {
            assert(after == before.push(s));
            assert forall|j: int| 0 <= j < after.len() implies {
                let t = #[trigger] after[j];
                &&& !blocked_at(map, objects, t.x as int, t.y as int)
                &&& exists|k: int| 0 <= k < n && spawns[k] == t
            } by {
                if j < before.len() {
                    assert(after[j] == before[j]);
                    let k = choose|k: int| 0 <= k < n - 1 && spawns[k] == before[j];
                    assert(spawns[k] == after[j]);
                } else {
                    assert(spawns[n - 1] == after[j]);
                }
            }
            assert forall|i: int, j: int|
                0 <= i < j < after.len() && kind_blocks((#[trigger] after[i]).kind) && kind_blocks(
                    (#[trigger] after[j]).kind,
                ) implies !(after[i].x == after[j].x && after[i].y == after[j].y) by {
                if j == after.len() - 1 {
                    if after[i].x == after[j].x && after[i].y == after[j].y {
                        assert(before[i] == after[i]);
                        assert(placed_blocks_at(before, s.x as int, s.y as int));
                    }
                } else {
                    assert(after[i] == before[i] && after[j] == before[j]);
                }
            }
        }
    }
}

/// Putting things on the map keeps the objects standing validly: a blocking
/// thing is put only on a free tile where nothing else blocks.
pub proof fn lemma_placing_keeps_layout(map: &TileMap, objects: Seq<Object>, spawns: Seq<Spawn>, new: Seq<Object>)
    requires
        layout_valid(map, objects),
        forall|k: int| 0 <= k < spawns.len() ==> in_map(map, #[trigger] spawns[k].x as int, spawns[k].y as int),
        ({
            let placed = placed_spawns(map, objects, spawns, spawns.len() as int);
            &&& new.len() == objects.len() + placed.len()
            &&& forall|i: int| 0 <= i < objects.len() ==> #[trigger] new[i] == objects[i]
            &&& forall|j: int| 0 <= j < placed.len() ==> is_spawn_of(#[trigger] new[objects.len() + j], placed[j])
        }),
    ensures
        layout_valid(map, new),
{
    let placed = placed_spawns(map, objects, spawns, spawns.len() as int);
    lemma_placed_spawns_free(map, objects, spawns, spawns.len() as int);
    let m = objects.len() as int;
    assert forall|i: int| 0 <= i < new.len() && #[trigger] new[i].blocks implies in_map(
        map,
        new[i].x as int,
        new[i].y as int,
    ) && !map@[new[i].x as int]@[new[i].y as int].blocked by {
        if i < m {
            assert(objects[i] == new[i]);
            assert(objects[i].blocks);
        } else {
            let j = i - m;
            assert(is_spawn_of(new[m + j], placed[j]));
            let s = placed[j];
            assert(!blocked_at(map, objects, s.x as int, s.y as int));
            let k = choose|k: int| 0 <= k < spawns.len() && spawns[k] == s;
            assert(in_map(map, spawns[k].x as int, spawns[k].y as int));
        }
    }
    assert forall|i: int, j: int|
        0 <= i < new.len() && 0 <= j < new.len() && i != j && #[trigger] new[i].blocks
            && #[trigger] new[j].blocks implies !(new[i].x == new[j].x && new[i].y == new[j].y) by {
        if i < m && j < m {
            assert(objects[i] == new[i] && objects[j] == new[j]);
            assert(objects[i].blocks && objects[j].blocks);
        } else if i < m {
            let b = j - m;
            assert(is_spawn_of(new[m + b], placed[b]));
            let s = placed[b];
            assert(!blocked_at(map, objects, s.x as int, s.y as int));
            assert(objects[i] == new[i]);
            if new[i].x == new[j].x && new[i].y == new[j].y {
                assert(crate::map::occupied_at(objects, s.x as int, s.y as int));
            }
        } else if j < m {
            let a = i - m;
            assert(is_spawn_of(new[m + a], placed[a]));
            let s = placed[a];
            assert(!blocked_at(map, objects, s.x as int, s.y as int));
            assert(objects[j] == new[j]);
            if new[i].x == new[j].x && new[i].y == new[j].y {
                assert(crate::map::occupied_at(objects, s.x as int, s.y as int));
            }
        } else {
            let a = i - m;
            let b = j - m;
            assert(is_spawn_of(new[m + a], placed[a]));
            assert(is_spawn_of(new[m + b], placed[b]));
            if a < b {
                assert(kind_blocks(placed[a].kind) && kind_blocks(placed[b].kind));
            } else {
                assert(kind_blocks(placed[a].kind) && kind_blocks(placed[b].kind));
            }
        }
    }
}

proof fn lemma_first_item_from_raw(objects: Seq<Object>, x: int, y: int, i: int)
    requires
        0 <= i,
    ensures
        match first_item_from(objects, x, y, i) {
            Some(t) => {
                &&& i <= t < objects.len()
                &&& objects[t].item.is_some() && objects[t].x == x && objects[t].y == y
                &&& forall|j: int|
                    i <= j < t ==> !(#[trigger] objects[j].item.is_some() && objects[j].x == x
                        && objects[j].y == y)
            },
            None => forall|j: int|
                i <= j < objects.len() ==> !(#[trigger] objects[j].item.is_some() && objects[j].x == x
                    && objects[j].y == y),
        },
    decreases objects.len() - i,
{
    if i < objects.len() {
        lemma_first_item_from_raw(objects, x, y, i + 1);
    }
}

/// The 'g' key of a live player picks up what lies under the player: the item
/// it takes is the first object that has an item and stands at both the
/// player's column and the player's row; nothing is taken when no such object
/// exists.
pub proof fn lemma_pick_up_key_takes_item_under_player(objects: Seq<Object>)
    requires
        objects.len() > PLAYER,
    ensures
        command_of(KeyCode::Text, false, "g"@, true) == Command::PickUp,
        ({
            let p = objects[PLAYER as int];
            match item_under_player(objects) {
                Some(i) => {
                    &&& 0 <= i < objects.len()
                    &&& objects[i].item.is_some()
                    &&& objects[i].x == p.x
                    &&& objects[i].y == p.y
                    &&& forall|j: int|
                        0 <= j < i ==> !(#[trigger] objects[j].item.is_some() && objects[j].x == p.x
                            && objects[j].y == p.y)
                },
                None => forall|j: int|
                    0 <= j < objects.len() ==> !(#[trigger] objects[j].item.is_some()
                        && objects[j].x == p.x && objects[j].y == p.y),
            }
        }),
{
    let p = objects[PLAYER as int];
    lemma_first_item_from_raw(objects, p.x as int, p.y as int, 0);
    reveal_strlit("g");
    reveal_strlit(".");
    assert("g"@[0] != "."@[0]);
}

/// A pick-up that is not refused takes the object out of the level and puts it
/// last in the inventory.
pub proof fn lemma_pick_up_moves_object_to_inventory(
    objects1: Seq<Object>,
    inventory1: Seq<Object>,
    log1: Seq<(Seq<char>, Color)>,
    objects0: Seq<Object>,
    inventory0: Seq<Object>,
    log0: Seq<(Seq<char>, Color)>,
    id: int,
)
    requires
        0 <= id < objects0.len(),
        inventory0.len() <= INVENTORY_LIMIT,
        picked_up(objects1, inventory1, log1, objects0, inventory0, log0, id),
    ensures
        objects1.len() + 1 == objects0.len(),
        inventory1.len() == inventory0.len() + 1,
        inventory1.last() == objects0[id],
        inventory1.take(inventory0.len() as int) == inventory0,
        log1.len() == log0.len() + 1,
        log1.last().0 == "Picked up "@ + objects0[id].name@,
{
    assert(inventory1.take(inventory0.len() as int) =~= inventory0);
}

proof fn lemma_names_at_raw(objects: Seq<Object>, visible: Seq<bool>, x: int, y: int, n: int)
    requires
        0 <= n <= objects.len(),
        visible.len() == objects.len(),
    ensures
        forall|k: int|
            0 <= k < names_at(objects, visible, x, y, n).len() ==> exists|i: int|
                0 <= i < n && visible[i] && objects[i].x == x && objects[i].y == y && (
                #[trigger] names_at(objects, visible, x, y, n)[k]) == objects[i].name@,
        forall|i: int|
            0 <= i < n && visible[i] && objects[i].x == x && objects[i].y == y ==> names_at(
                objects,
                visible,
                x,
                y,
                n,
            ).contains(#[trigger] objects[i].name@),
    decreases n,
{
    if n > 0 {
        lemma_names_at_raw(objects, visible, x, y, n - 1);
        let rest = names_at(objects, visible, x, y, n - 1);
        let all = names_at(objects, visible, x, y, n);
        assert forall|k: int| 0 <= k < all.len() implies exists|i: int|
            0 <= i < n && visible[i] && objects[i].x == x && objects[i].y == y && (#[trigger] all[k])
                == objects[i].name@ by {
            if k < rest.len() {
                assert(all[k] == rest[k]);
            } else {
                assert(all[k] == objects[n - 1].name@);
            }
        }
        assert forall|i: int|
            0 <= i < n && visible[i] && objects[i].x == x && objects[i].y == y implies all.contains(
            #[trigger] objects[i].name@) by {
            if i < n - 1 {
                let k = choose|k: int| 0 <= k < rest.len() && rest[k] == objects[i].name@;
                assert(all[k] == objects[i].name@);
            } else {
                assert(all[all.len() - 1] == objects[i].name@);
            }
        }
    }
}

/// Whether `piece` stands in `text` from position `s` on.
pub open spec fn appears_at(text: Seq<char>, piece: Seq<char>, s: int) -> bool {
    0 <= s && s + piece.len() <= text.len() && text.subrange(s, s + piece.len()) == piece
}

/// Where piece `k` of a joined list starts in the joined text.
pub proof fn lemma_joined_position(list: Seq<Seq<char>>, sep: Seq<char>, k: int) -> (s: int)
    requires
        0 <= k < list.len(),
    ensures
        appears_at(joined(list, sep), list[k], s),
    decreases list.len(),
{
    if list.len() == 1 {
        assert(joined(list, sep).subrange(0, list[0].len() as int) =~= list[0]);
        0
    } else {
        let front = list.drop_last();
        let jf = joined(front, sep);
        let all = joined(list, sep);
        assert(all == jf + sep + list.last());
        if k < list.len() - 1 {
            let s = lemma_joined_position(front, sep, k);
            assert(front[k] == list[k]);
            assert(all.subrange(s, s + list[k].len()) =~= jf.subrange(s, s + front[k].len()));
            s
        } else {
            let s: int = (jf.len() + sep.len()) as int;
            assert(all.subrange(s, s + list[k].len()) =~= list.last());
            s
        }
    }
}

/// Whether `piece` stands somewhere in `text`.
pub open spec fn appears_in(text: Seq<char>, piece: Seq<char>) -> bool {
    exists|s: int| #[trigger] appears_at(text, piece, s)
}

/// The names under the mouse are those of the objects in view that stand at
/// both the mouse's column and the mouse's row: each such name appears whole in
/// the text, and every name listed belongs to such an object.
pub proof fn lemma_names_under_mouse(objects: Seq<Object>, visible: Seq<bool>, x: int, y: int)
    requires
        visible.len() == objects.len(),
    ensures
        forall|i: int|
            0 <= i < objects.len() && visible[i] && objects[i].x == x && objects[i].y == y
                ==> appears_in(
                joined(names_at(objects, visible, x, y, objects.len() as int), ", "@),
                #[trigger] objects[i].name@,
            ),
        forall|k: int|
            0 <= k < names_at(objects, visible, x, y, objects.len() as int).len() ==> exists|i: int|
                0 <= i < objects.len() && visible[i] && objects[i].x == x && objects[i].y == y && (
                #[trigger] names_at(objects, visible, x, y, objects.len() as int)[k])
                    == objects[i].name@,
{
    let n = objects.len() as int;
    let list = names_at(objects, visible, x, y, n);
    lemma_names_at_raw(objects, visible, x, y, n);
    assert forall|i: int|
        0 <= i < objects.len() && visible[i] && objects[i].x == x && objects[i].y == y implies appears_in(
        joined(list, ", "@),
        #[trigger] objects[i].name@,
    ) by {
        assert(list.contains(objects[i].name@));
        let k = choose|k: int| 0 <= k < list.len() && list[k] == objects[i].name@;
        let s = lemma_joined_position(list, ", "@, k);
        assert(appears_at(joined(list, ", "@), objects[i].name@, s));
    }
}

/// Whether `(x, y)` is a cell of `r`, its edges included.
pub open spec fn cell_of(r: Rect, x: int, y: int) -> bool {
    r.x1 <= x <= r.x2 && r.y1 <= y <= r.y2
}

/// Two rectangles whose corners are ordered meet exactly when they share a cell:
/// rectangles whose columns are apart, or whose rows are apart, do not meet.
pub proof fn lemma_meets_iff_shared_cell(a: Rect, b: Rect)
    requires
        a.x1 <= a.x2,
        a.y1 <= a.y2,
        b.x1 <= b.x2,
        b.y1 <= b.y2,
    ensures
        a.meets(b) <==> exists|x: int, y: int| #[trigger] cell_of(a, x, y) && #[trigger] cell_of(b, x, y),
        a.y2 < b.y1 || b.y2 < a.y1 ==> !a.meets(b),
        a.x2 < b.x1 || b.x2 < a.x1 ==> !a.meets(b),
{
    if a.meets(b) {
        let x = if a.x1 > b.x1 { a.x1 as int } else { b.x1 as int };
        let y = if a.y1 > b.y1 { a.y1 as int } else { b.y1 as int };
        assert(cell_of(a, x, y) && cell_of(b, x, y));
    }
}

/// Rectangles that share a cell meet.
pub proof fn lemma_shared_cell_meets(a: Rect, b: Rect, x: int, y: int)
    requires
        cell_of(a, x, y),
        cell_of(b, x, y),
    ensures
        a.meets(b),
{
}

/// No cell belongs to two of the rooms that are dug.
pub proof fn lemma_dug_rooms_share_no_cell(plans: Seq<RoomPlan>, n: int)
    requires
        0 <= n <= plans.len(),
    ensures
        forall|i: int, j: int, x: int, y: int|
            0 <= i < j < accepted_plans(plans, n).len() ==> !(#[trigger] cell_of(
                accepted_plans(plans, n)[i].room,
                x,
                y,
            ) && #[trigger] cell_of(accepted_plans(plans, n)[j].room, x, y)),
{
    lemma_rooms_apart(plans, n);
    let acc = accepted_plans(plans, n);
    assert forall|i: int, j: int, x: int, y: int|
        0 <= i < j < acc.len() implies !(#[trigger] cell_of(acc[i].room, x, y) && #[trigger] cell_of(
        acc[j].room,
        x,
        y,
    )) by {
        if cell_of(acc[i].room, x, y) && cell_of(acc[j].room, x, y) {
            lemma_shared_cell_meets(acc[i].room, acc[j].room, x, y);
            assert(!acc[i].room.meets(acc[j].room));
        }
    }
}

/// A place is blocked exactly by a blocking tile or a blocking object there:
/// whether a tile has been explored or blocks sight does not matter.
pub proof fn lemma_blocked_only_by_blocking(map: &TileMap, objects: Seq<Object>, x: int, y: int)
    ensures
        blocked_at(map, objects, x, y) <==> (map@[x]@[y].blocked || exists|i: int|
            0 <= i < objects.len() && #[trigger] objects[i].blocks && objects[i].x == x && objects[i].y
                == y),
{
}

/// Two maps that differ only in what was explored or what blocks sight block
/// the same places.
pub proof fn lemma_blocking_ignores_sight(
    map1: &TileMap,
    map2: &TileMap,
    objects: Seq<Object>,
    x: int,
    y: int,
)
    requires
        in_map(map1, x, y),
        in_map(map2, x, y),
        map1@[x]@[y].blocked == map2@[x]@[y].blocked,
    ensures
        blocked_at(map1, objects, x, y) == blocked_at(map2, objects, x, y),
{
}

/// A step onto a tile that does not block, where no blocking object stands,
/// takes the mover there and changes nothing else.
pub proof fn lemma_step_onto_free_tile(
    new: Seq<Object>,
    map: &TileMap,
    objects: Seq<Object>,
    id: int,
    dx: int,
    dy: int,
)
    requires
        0 <= id < objects.len(),
        i32::MIN <= objects[id].x + dx <= i32::MAX,
        i32::MIN <= objects[id].y + dy <= i32::MAX,
        !map@[objects[id].x + dx]@[objects[id].y + dy].blocked,
        forall|i: int|
            0 <= i < objects.len() ==> !(#[trigger] objects[i].blocks && objects[i].x == objects[id].x
                + dx && objects[i].y == objects[id].y + dy),
        moved_by(new, map, objects, id, dx, dy),
    ensures
        new.len() == objects.len(),
        new[id].x == objects[id].x + dx,
        new[id].y == objects[id].y + dy,
        new[id].name == objects[id].name,
        new[id].fighter == objects[id].fighter,
        forall|i: int| 0 <= i < objects.len() && i != id ==> new[i] == objects[i],
{
}

/// A monster left with no hit points by a blow dies: it becomes a red `%`
/// corpse named after it, which neither blocks, fights nor thinks, and its death
/// is logged.
pub proof fn lemma_monster_without_hp_dies(
    new: Object,
    o: Object,
    damage: int,
    log0: Seq<(Seq<char>, Color)>,
    log1: Seq<(Seq<char>, Color)>,
)
    requires
        took_damage(new, o, damage, log0, log1),
        damage_fits(o, damage),
        o.fighter is Some,
        o.fighter.unwrap().on_death == DeathCallback::Monster,
        (if damage > 0 {
            o.fighter.unwrap().hp - damage
        } else {
            o.fighter.unwrap().hp as int
        }) <= 0,
    ensures
        !new.alive,
        !new.blocks,
        new.fighter is None,
        new.ai is None,
        new.char == '%',
        new.name@ == o.name@ + " corpse"@,
        new.x == o.x,
        new.y == o.y,
        log1 == log0.push(("The "@ + o.name@ + " dies!"@, rgb(255, 127, 0))),
{
}

/// The player left with no hit points by a blow dies: a red `%` that is no
/// longer alive, and "You died!" is logged.
pub proof fn lemma_player_without_hp_dies(
    new: Object,
    o: Object,
    damage: int,
    log0: Seq<(Seq<char>, Color)>,
    log1: Seq<(Seq<char>, Color)>,
)
    requires
        took_damage(new, o, damage, log0, log1),
        damage_fits(o, damage),
        o.fighter is Some,
        o.fighter.unwrap().on_death == DeathCallback::Player,
        (if damage > 0 {
            o.fighter.unwrap().hp - damage
        } else {
            o.fighter.unwrap().hp as int
        }) <= 0,
    ensures
        !new.alive,
        new.char == '%',
        new.color == rgb(191, 0, 0),
        new.x == o.x,
        new.y == o.y,
        new.name == o.name,
        log1 == log0.push(("You died!"@, rgb(255, 0, 0))),
{
}

/// A blow that leaves hit points above 0 only takes them away: the fighter
/// lives on as it was, and nothing is logged.
pub proof fn lemma_survivor_only_loses_hp(
    new: Object,
    o: Object,
    damage: int,
    log0: Seq<(Seq<char>, Color)>,
    log1: Seq<(Seq<char>, Color)>,
)
    requires
        took_damage(new, o, damage, log0, log1),
        damage_fits(o, damage),
        o.fighter is Some,
        (if damage > 0 {
            o.fighter.unwrap().hp - damage
        } else {
            o.fighter.unwrap().hp as int
        }) > 0,
    ensures
        new.fighter is Some,
        new.fighter.unwrap().hp == (if damage > 0 {
            o.fighter.unwrap().hp - damage
        } else {
            o.fighter.unwrap().hp as int
        }),
        new.alive == o.alive,
        new.blocks == o.blocks,
        new.name == o.name,
        log1 == log0,
{
}

} // verus!
