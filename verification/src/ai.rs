use vstd::prelude::*;

use crate::combat::attack;
use crate::combat::attack_fits;
use crate::combat::attacked;
use crate::consts::PLAYER;
use crate::types::Game;
use crate::types::Object;

verus! {

/// The square of the distance between `a` and `b`.
pub open spec fn distance_sq(a: Object, b: Object) -> int {
    (b.x - a.x) * (b.x - a.x) + (b.y - a.y) * (b.y - a.y)
}

/// Whether the distance from `a` to `b` can be computed within `i32`.
pub open spec fn distance_fits(a: Object, b: Object) -> bool {
    &&& i32::MIN <= b.x - a.x <= i32::MAX
    &&& i32::MIN <= b.y - a.y <= i32::MAX
    &&& (b.x - a.x) * (b.x - a.x) <= i32::MAX
    &&& (b.y - a.y) * (b.y - a.y) <= i32::MAX
    &&& distance_sq(a, b) <= i32::MAX
}

impl Object {
    /// The square of the distance from this object to `other`. The distance is at
    /// least 2 exactly when this square is at least 4.
    pub fn distance_sq_to(&self, other: &Object) -> (d: i32)
        requires
            distance_fits(*self, *other),
        ensures
            d == distance_sq(*self, *other),
    {
        let dx = other.x - self.x;
        let dy = other.y - self.y;
        assert(dx * dx == (other.x - self.x) * (other.x - self.x));
        assert(dy * dy == (other.y - self.y) * (other.y - self.y));
        assert(dx * dx >= 0 && dy * dy >= 0) by (nonlinear_arith);
        dx * dx + dy * dy
    }
}

/// Whether `o` is a fighter with hit points left.
pub open spec fn has_hp_left(o: Object) -> bool {
    match o.fighter {
        Some(f) => f.hp > 0,
        None => false,
    }
}

/// What a monster did on its turn.
#[derive(Clone, Copy, Debug, PartialEq, Eq, Structural)]
pub enum AiTurn {
    /// Nothing: the monster is out of view, or the player is beaten.
    Idle,
    /// The monster is to step towards `(x, y)`, where the player stands.
    MoveTowards { x: i32, y: i32 },
    /// The monster attacked the player.
    Attacked,
}

/// Whether `ai_take_turn` can run for `monster_id`: a monster next to a player
/// with hit points left attacks it, so that monster is not the player and the
/// attack stays within `i32`.
pub open spec fn ai_turn_fits(monster_id: int, in_fov: bool, objects: Seq<Object>) -> bool {
    &&& 0 <= monster_id < objects.len()
    &&& in_fov ==> PLAYER < objects.len()
    &&& in_fov ==> distance_fits(objects[monster_id], objects[PLAYER as int])
    &&& (in_fov && distance_sq(objects[monster_id], objects[PLAYER as int]) < 4 && has_hp_left(
        objects[PLAYER as int],
    )) ==> monster_id != PLAYER && attack_fits(objects, monster_id, PLAYER as int)
}

/// The turn of monster `monster_id`; `in_fov` tells whether the monster stands in
/// the player's field of view. A monster in view walks towards a player at
/// distance 2 or more, and attacks a nearer player who has hit points left.
pub fn ai_take_turn(monster_id: usize, in_fov: bool, game: &mut Game, objects: &mut [Object]) -> (r:
    AiTurn)
    requires
        ai_turn_fits(monster_id as int, in_fov, old(objects)@),
    ensures
        ({
            let m = old(objects)@[monster_id as int];
            let p = old(objects)@[PLAYER as int];
            if !in_fov {
                &&& r == AiTurn::Idle
                &&& final(objects)@ == old(objects)@
                &&& final(game).messages@ == old(game).messages@
            } else if distance_sq(m, p) >= 4 {
                &&& r == (AiTurn::MoveTowards { x: p.x, y: p.y })
                &&& final(objects)@ == old(objects)@
                &&& final(game).messages@ == old(game).messages@
            } else if has_hp_left(p) {
                &&& r == AiTurn::Attacked
                &&& attacked(
                    final(objects)@,
                    old(objects)@,
                    monster_id as int,
                    PLAYER as int,
                    old(game).messages@,
                    final(game).messages@,
                )
            } else {
                &&& r == AiTurn::Idle
                &&& final(objects)@ == old(objects)@
                &&& final(game).messages@ == old(game).messages@
            }
        }),
        final(game).map == old(game).map,
        final(game).inventory == old(game).inventory,
{
    if in_fov {
        if objects[monster_id].distance_sq_to(&objects[PLAYER]) >= 4 {
            let (p_x, p_y) = objects[PLAYER].pos();
            return AiTurn::MoveTowards { x: p_x, y: p_y };
        } else if match objects[PLAYER].fighter {
            Some(f) => f.hp > 0,
            None => false,
        } {
            attack(monster_id, PLAYER, game, objects);
            return AiTurn::Attacked;
        }
    }
    AiTurn::Idle
}

} // verus!
