use vstd::prelude::*;

use crate::action::is_monster_corpse;
use crate::action::monster_death;
use crate::action::monster_death_message;
use crate::action::player_corpse;
use crate::action::player_death;
use crate::action::player_death_message;
use crate::color::rgb;
use crate::color::white;
use crate::color::Color;
use crate::text::append_decimal;
use crate::text::decimal;
use crate::types::DeathCallback;
use crate::types::Fighter;
use crate::types::Game;
use crate::types::Object;

verus! {

/// Hit points that `o`'s fighter would have after `damage`: damage that is not
/// positive changes nothing.
pub open spec fn hp_after(f: Fighter, damage: int) -> int {
    if damage > 0 {
        f.hp - damage
    } else {
        f.hp as int
    }
}

/// Whether `damage` can be subtracted from `o`'s hit points without leaving `i32`.
pub open spec fn damage_fits(o: Object, damage: int) -> bool {
    match o.fighter {
        Some(f) => i32::MIN <= hp_after(f, damage) <= i32::MAX,
        None => true,
    }
}

/// The object `o` after taking `damage`, before any death is dealt with.
pub open spec fn hurt(o: Object, damage: int) -> Object {
    match o.fighter {
        Some(f) => Object { fighter: Some(Fighter { hp: hp_after(f, damage) as i32, ..f }), ..o },
        None => o,
    }
}

/// Whether `o` has a fighter whose hit points have run out.
pub open spec fn out_of_hp(o: Object) -> bool {
    match o.fighter {
        Some(f) => f.hp <= 0,
        None => false,
    }
}

/// Whether `new` is what the death callback `kind` makes of `o`.
pub open spec fn died_as(new: Object, o: Object, kind: DeathCallback) -> bool {
    match kind {
        DeathCallback::Player => new == player_corpse(o),
        DeathCallback::Monster => is_monster_corpse(new, o),
    }
}

/// The log entry with which the death callback `kind` announces the death of `o`.
pub open spec fn death_message(o: Object, kind: DeathCallback) -> (Seq<char>, Color) {
    match kind {
        DeathCallback::Player => player_death_message(),
        DeathCallback::Monster => monster_death_message(o),
    }
}

/// Whether `new` and the log `log1` are what taking `damage` makes of `o` and of
/// the log `log0`: hit points drop by the damage when it is positive, and a
/// fighter left with no hit points stops being alive and meets its death callback.
pub open spec fn took_damage(
    new: Object,
    o: Object,
    damage: int,
    log0: Seq<(Seq<char>, Color)>,
    log1: Seq<(Seq<char>, Color)>,
) -> bool {
    let h = hurt(o, damage);
    if out_of_hp(h) {
        let kind = h.fighter.unwrap().on_death;
        let dying = Object { alive: false, ..h };
        died_as(new, dying, kind) && log1 == log0.push(death_message(dying, kind))
    } else {
        new == h && log1 == log0
    }
}

impl DeathCallback {
    /// Runs the death that this callback names.
    pub fn callback(self, object: &mut Object, game: &mut Game)
        ensures
            died_as(*final(object), *old(object), self),
            final(game).messages@ == old(game).messages@.push(death_message(*old(object), self)),
            final(game).map == old(game).map,
            final(game).inventory == old(game).inventory,
    {
        match self {
            DeathCallback::Player => player_death(object, game),
            DeathCallback::Monster => monster_death(object, game),
        }
    }
}

/// Hit points that healing `f` by `amount` leaves: never more than its maximum.
pub open spec fn healed_hp(f: Fighter, amount: int) -> int {
    if f.hp + amount > f.max_hp {
        f.max_hp as int
    } else {
        f.hp + amount
    }
}

/// The object `o` after healing by `amount`.
pub open spec fn healed(o: Object, amount: int) -> Object {
    match o.fighter {
        Some(f) => Object { fighter: Some(Fighter { hp: healed_hp(f, amount) as i32, ..f }), ..o },
        None => o,
    }
}

impl Object {
    pub fn take_damage(&mut self, damage: i32, game: &mut Game)
        requires
            damage_fits(*old(self), damage as int),
        ensures
            took_damage(
                *final(self),
                *old(self),
                damage as int,
                old(game).messages@,
                final(game).messages@,
            ),
            final(game).map == old(game).map,
            final(game).inventory == old(game).inventory,
    {
        if let Some(mut fighter) = self.fighter {
            if damage > 0 {
                fighter.hp = fighter.hp - damage;
            }
            self.fighter = Some(fighter);
        }
        if let Some(fighter) = self.fighter {
            if fighter.hp <= 0 {
                self.alive = false;
                fighter.on_death.callback(self, game);
            }
        }
    }

    pub fn heal(&mut self, amount: i32)
        requires
            old(self).fighter matches Some(f) ==> i32::MIN <= f.hp + amount <= i32::MAX,
        ensures
            *final(self) == healed(*old(self), amount as int),
    {
        if let Some(mut fighter) = self.fighter {
            fighter.hp = fighter.hp + amount;
            if fighter.hp > fighter.max_hp {
                fighter.hp = fighter.max_hp;
            }
            self.fighter = Some(fighter);
        }
    }
}

/// Healing never takes hit points above the maximum unless they already were, and
/// healing by a non-negative amount never lowers them.
pub proof fn lemma_heal_bounded(f: Fighter, amount: int)
    requires
        amount >= 0,
    ensures
        healed_hp(f, amount) >= f.hp || f.hp > f.max_hp,
        healed_hp(f, amount) <= f.max_hp || healed_hp(f, amount) == f.hp + amount,
        f.hp <= f.max_hp ==> f.hp <= healed_hp(f, amount) <= f.max_hp,
{
}

/// The attacking strength of `o`: 0 without a fighter.
pub open spec fn attack_power(o: Object) -> int {
    match o.fighter {
        Some(f) => f.attack as int,
        None => 0,
    }
}

/// The defence of `o`: 0 without a fighter.
pub open spec fn defence_power(o: Object) -> int {
    match o.fighter {
        Some(f) => f.defence as int,
        None => 0,
    }
}

/// The damage that `a` deals `t` in an attack.
pub open spec fn attack_damage(a: Object, t: Object) -> int {
    attack_power(a) - defence_power(t)
}

/// The log entry of an attack by `a` on `t` that deals `damage`.
pub open spec fn attack_message(a: Object, t: Object, damage: int) -> (Seq<char>, Color) {
    if damage > 0 {
        (
            a.name@ + " attacks "@ + t.name@ + " for "@ + decimal(damage as nat) + " hit points."@,
            rgb(255, 255, 255),
        )
    } else {
        (a.name@ + " attacks "@ + t.name@ + " but it has no effect!"@, rgb(255, 255, 255))
    }
}

/// Whether an attack of `objects[attacker]` on `objects[target]` stays within `i32`.
pub open spec fn attack_fits(objects: Seq<Object>, attacker: int, target: int) -> bool {
    let damage = attack_damage(objects[attacker], objects[target]);
    &&& i32::MIN <= damage <= i32::MAX
    &&& damage_fits(objects[target], damage)
}

/// Whether `new`/`log1` are what an attack of `objects[attacker]` on
/// `objects[target]` makes of `objects`/`log0`: the attack is logged, only the
/// target changes, and it takes the damage.
pub open spec fn attacked(
    new: Seq<Object>,
    objects: Seq<Object>,
    attacker: int,
    target: int,
    log0: Seq<(Seq<char>, Color)>,
    log1: Seq<(Seq<char>, Color)>,
) -> bool {
    let a = objects[attacker];
    let t = objects[target];
    let damage = attack_damage(a, t);
    let logged = log0.push(attack_message(a, t, damage));
    &&& new.len() == objects.len()
    &&& forall|i: int| 0 <= i < objects.len() && i != target ==> new[i] == objects[i]
    &&& if damage > 0 {
        took_damage(new[target], t, damage, logged, log1)
    } else {
        new[target] == t && log1 == logged
    }
}

fn attack_of(o: &Object) -> (a: i32)
    ensures
        a == attack_power(*o),
{
    match o.fighter {
        Some(f) => f.attack,
        None => 0,
    }
}

fn defence_of(o: &Object) -> (d: i32)
    ensures
        d == defence_power(*o),
{
    match o.fighter {
        Some(f) => f.defence,
        None => 0,
    }
}

fn build_attack_message(a: &Object, t: &Object, damage: i32) -> (m: String)
    ensures
        m@ == attack_message(*a, *t, damage as int).0,
{
    let mut m = a.name.clone();
    m.append(" attacks ");
    m.append(t.name.as_str());
    if damage > 0 {
        m.append(" for ");
        append_decimal(&mut m, damage as u32);
        m.append(" hit points.");
    } else {
        m.append(" but it has no effect!");
    }
    m
}

/// `objects[attacker]` attacks `objects[target]`.
pub fn attack(attacker: usize, target: usize, game: &mut Game, objects: &mut [Object])
    requires
        attacker < old(objects)@.len(),
        target < old(objects)@.len(),
        attacker != target,
        attack_fits(old(objects)@, attacker as int, target as int),
    ensures
        attacked(
            final(objects)@,
            old(objects)@,
            attacker as int,
            target as int,
            old(game).messages@,
            final(game).messages@,
        ),
        final(game).map == old(game).map,
        final(game).inventory == old(game).inventory,
{
    let damage = attack_of(&objects[attacker]) - defence_of(&objects[target]);
    let message = build_attack_message(&objects[attacker], &objects[target], damage);
    game.messages.add(message, white());
    if damage > 0 {
        objects[target].take_damage(damage, game);
    }
}

} // verus!
