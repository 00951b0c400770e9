//! The roster: every entity in play, in one list, and how entities move about
//! and strike each other.

use vstd::prelude::*;
use crate::entity::{AttackOutcome, Object};
use crate::event::Event;
use crate::game::Game;
use crate::grid::Grid;

verus! {

broadcast use crate::grid::Grid::lemma_shape;

/// The player is always the first entity of the roster.
pub const PLAYER: usize = 0;

/// The entity stands at `(x, y)` and blocks movement.
pub open spec fn blocks_cell(o: Object, x: int, y: int) -> bool {
    o.blocks && o.x == x && o.y == y
}

/// Some blocking entity stands at `(x, y)`.
pub open spec fn occupied(objects: Seq<Object>, x: int, y: int) -> bool {
    exists|i: int| 0 <= i < objects.len() && blocks_cell(#[trigger] objects[i], x, y)
}

/// The cell `(x, y)` cannot be entered: its tile is blocked, or a blocking
/// entity stands on it.
pub open spec fn blocked_at(map: &Grid, objects: Seq<Object>, x: int, y: int) -> bool {
    map@[x][y].blocked || occupied(objects, x, y)
}

/// The cell `(x, y)` is on the grid and free to enter.
pub open spec fn can_enter(map: &Grid, objects: Seq<Object>, x: int, y: int) -> bool {
    map.contains(x, y) && !blocked_at(map, objects, x, y)
}

/// The roster after entity `id` has tried to step by `(dx, dy)`: it is at the
/// new cell if that cell can be entered, and nothing has changed otherwise.
pub open spec fn moved_by(objects: Seq<Object>, id: int, dx: int, dy: int, map: &Grid) -> Seq<
    Object,
> {
    let x = objects[id].x + dx;
    let y = objects[id].y + dy;
    if can_enter(map, objects, x, y) {
        objects.update(id, Object { x: x as i32, y: y as i32, ..objects[id] })
    } else {
        objects
    }
}

/// -1, 0 or 1 as `n` is negative, zero or positive.
pub open spec fn sign(n: int) -> int {
    if n < 0 {
        -1
    } else if n > 0 {
        1
    } else {
        0
    }
}

/// One coordinate of the single step toward a target that lies `along` cells
/// away on this axis and `across` cells away on the other.
///
/// The step is the offset `along` divided by the straight-line distance to the
/// target, rounded to the nearest whole number. That quotient is at least one
/// half in size exactly when `4 * along * along` is at least the squared
/// distance `along * along + across * across`, and with whole offsets the two
/// are never equal unless both are zero.
pub open spec fn step_toward(along: int, across: int) -> int {
    if 3 * along * along > across * across {
        sign(along)
    } else {
        0
    }
}

/// The roster after entity `id` has tried one step toward `(target_x,
/// target_y)`.
pub open spec fn moved_towards(
    objects: Seq<Object>,
    id: int,
    target_x: int,
    target_y: int,
    map: &Grid,
) -> Seq<Object> {
    let dx = target_x - objects[id].x;
    let dy = target_y - objects[id].y;
    moved_by(objects, id, step_toward(dx, dy), step_toward(dy, dx), map)
}

/// The entity stands at `(x, y)` and can be attacked.
pub open spec fn attackable_at(o: Object, x: int, y: int) -> bool {
    o.fighter is Some && o.x == x && o.y == y
}

/// Some entity at `(x, y)` can be attacked.
pub open spec fn has_target(objects: Seq<Object>, x: int, y: int) -> bool {
    exists|t: int| 0 <= t < objects.len() && attackable_at(#[trigger] objects[t], x, y)
}

/// Entity `t` is the first one in roster order that can be attacked at `(x,
/// y)`.
pub open spec fn is_first_target(objects: Seq<Object>, x: int, y: int, t: int) -> bool {
    &&& 0 <= t < objects.len()
    &&& attackable_at(objects[t], x, y)
    &&& forall|j: int| 0 <= j < t ==> !attackable_at(#[trigger] objects[j], x, y)
}

/// The first entity in roster order that can be attacked at `(x, y)`,
/// provided there is one.
pub open spec fn first_target(objects: Seq<Object>, x: int, y: int) -> int {
    choose|t: int| is_first_target(objects, x, y, t)
}

/// The roster after entity `attacker` has attacked entity `target`.
pub open spec fn struck(objects: Seq<Object>, attacker: int, target: int) -> Seq<Object> {
    objects.update(target, objects[target].attacked_by(objects[attacker]))
}

/// What there is to tell of an attack by entity `attacker` on entity
/// `target`: the hit and, after it, the death it caused; or that it had no
/// effect.
pub open spec fn strike_events(objects: Seq<Object>, attacker: int, target: int) -> Seq<Event> {
    let damage = objects[attacker].damage_against(objects[target]);
    let hit = Event::Hit {
        attacker: attacker as usize,
        target: target as usize,
        damage: damage as i32,
    };
    if damage <= 0 {
        seq![Event::NoEffect { attacker: attacker as usize, target: target as usize }]
    } else if objects[target].dies_of(damage) {
        seq![hit, Event::Died { id: target as usize, how: objects[target].fighter->0.on_death }]
    } else {
        seq![hit]
    }
}

/// The roster after the player has moved or attacked in direction `(dx, dy)`:
/// if an entity at the destination can be attacked, the player has attacked
/// the first such entity; otherwise the player has tried to step there.
pub open spec fn player_acted(objects: Seq<Object>, dx: int, dy: int, map: &Grid) -> Seq<Object> {
    let x = objects[PLAYER as int].x + dx;
    let y = objects[PLAYER as int].y + dy;
    if has_target(objects, x, y) {
        struck(objects, PLAYER as int, first_target(objects, x, y))
    } else {
        moved_by(objects, PLAYER as int, dx, dy, map)
    }
}

/// What there is to tell of the player moving or attacking in direction
/// `(dx, dy)`: the attack, if there was one, and nothing otherwise.
pub open spec fn player_events(objects: Seq<Object>, dx: int, dy: int) -> Seq<Event> {
    let x = objects[PLAYER as int].x + dx;
    let y = objects[PLAYER as int].y + dy;
    if has_target(objects, x, y) {
        strike_events(objects, PLAYER as int, first_target(objects, x, y))
    } else {
        Seq::empty()
    }
}

/// There is at most one first target: whoever is first is the one that
/// `first_target` names.
pub proof fn lemma_first_target_unique(objects: Seq<Object>, x: int, y: int, t: int)
    requires
        is_first_target(objects, x, y, t),
    ensures
        has_target(objects, x, y),
        first_target(objects, x, y) == t,
{
    let u = first_target(objects, x, y);
    assert(is_first_target(objects, x, y, u));
    if u < t {
        assert(!attackable_at(objects[u], x, y));
    }
    if t < u {
        assert(!attackable_at(objects[t], x, y));
    }
}

/// Two distinct entities of one roster, both open to change at once.
pub fn mut_two<T>(index1: usize, index2: usize, items: &mut [T]) -> (pair: (&mut T, &mut T))
    requires
        index1 != index2,
        index1 < old(items).len(),
        index2 < old(items).len(),
    ensures
        *pair.0 == old(items)@[index1 as int],
        *pair.1 == old(items)@[index2 as int],
        final(items)@ == old(items)@.update(index1 as int, *final(pair.0)).update(
            index2 as int,
            *final(pair.1),
        ),
{
    let split_at_index: usize = if index1 < index2 {
        index2
    } else {
        index1
    };
    let (first_slice, second_slice) = items.split_at_mut(split_at_index);
    if index1 < index2 {
        (&mut first_slice[index1], &mut second_slice[0])
    } else {
        (&mut second_slice[0], &mut first_slice[index2])
    }
}

/// Whether the cell `(x, y)` is closed to movement by its tile or by an
/// entity standing on it.
pub fn is_blocked(x: i32, y: i32, map: &Grid, objects: &[Object]) -> (b: bool)
    requires
        map.wf(),
        map.contains(x as int, y as int),
    ensures
        b == blocked_at(map, objects@, x as int, y as int),
{
    if map.tile(x, y).blocked {
        return true;
    }
    let mut i: usize = 0;
    while i < objects.len()
        invariant
            i <= objects.len(),
            forall|j: int| 0 <= j < i ==> !blocks_cell(#[trigger] objects@[j], x as int, y as int),
        decreases objects.len() - i,
    {
        if objects[i].blocks && objects[i].x == x && objects[i].y == y {
            return true;
        }
        i += 1;
    }
    false
}

/// Moves entity `id` by `(dx, dy)` if the cell it would reach is on the grid
/// and not blocked, and leaves it where it is otherwise.
pub fn move_by(id: usize, dx: i32, dy: i32, map: &Grid, objects: &mut [Object])
    requires
        id < old(objects).len(),
        map.wf(),
    ensures
        final(objects)@ == moved_by(old(objects)@, id as int, dx as int, dy as int, map),
        final(objects)@.len() == old(objects)@.len(),
{
    let x: i64 = objects[id].x as i64 + dx as i64;
    let y: i64 = objects[id].y as i64 + dy as i64;
    if 0 <= x && x < map.width() as i64 && 0 <= y && y < map.height() as i64 {
        if !is_blocked(x as i32, y as i32, map, objects) {
            objects[id].set_pos(x as i32, y as i32);
        }
    }
}

/// Moves entity `id` one step toward `(target_x, target_y)`, along the
/// straight line to it, if the cell that step leads to can be entered.
pub fn move_towards(id: usize, target_x: i32, target_y: i32, map: &Grid, objects: &mut [Object])
    requires
        id < old(objects).len(),
        map.wf(),
    ensures
        final(objects)@ == moved_towards(
            old(objects)@,
            id as int,
            target_x as int,
            target_y as int,
            map,
        ),
        final(objects)@.len() == old(objects)@.len(),
{
    let dx: i64 = target_x as i64 - objects[id].x as i64;
    let dy: i64 = target_y as i64 - objects[id].y as i64;
    let step_x = unit_step(dx, dy);
    let step_y = unit_step(dy, dx);
    move_by(id, step_x, step_y, map, objects);
}

/// One coordinate of the single step toward a target `along` cells away on
/// this axis and `across` cells away on the other.
fn unit_step(along: i64, across: i64) -> (step: i32)
    requires
        -0x1_0000_0000 < along < 0x1_0000_0000,
        -0x1_0000_0000 < across < 0x1_0000_0000,
    ensures
        step == step_toward(along as int, across as int),
{
    let a: i128 = along as i128;
    let c: i128 = across as i128;
    assert(0 <= a * a <= 0x1_0000_0000 * 0x1_0000_0000) by (nonlinear_arith)
        requires
            -0x1_0000_0000 < a < 0x1_0000_0000,
    ;
    assert(0 <= c * c <= 0x1_0000_0000 * 0x1_0000_0000) by (nonlinear_arith)
        requires
            -0x1_0000_0000 < c < 0x1_0000_0000,
    ;
    assert(3 * a * a == 3 * (a * a)) by (nonlinear_arith);
    if 3 * (a * a) > c * c {
        if along < 0 {
            -1
        } else {
            1
        }
    } else {
        0
    }
}

/// The first entity in roster order that stands at `(x, y)` and can be
/// attacked, if there is one.
pub fn find_target(objects: &[Object], x: i64, y: i64) -> (found: Option<usize>)
    ensures
        match found {
            Some(t) => is_first_target(objects@, x as int, y as int, t as int),
            None => !has_target(objects@, x as int, y as int),
        },
{
    let mut i: usize = 0;
    while i < objects.len()
        invariant
            i <= objects.len(),
            forall|j: int| 0 <= j < i ==> !attackable_at(#[trigger] objects@[j], x as int, y as int),
        decreases objects.len() - i,
    {
        if objects[i].fighter.is_some() && objects[i].x as i64 == x && objects[i].y as i64 == y {
            return Some(i);
        }
        i += 1;
    }
    None
}

/// Entity `attacker` attacks entity `target`, and what happened is added to
/// the log.
pub fn strike(attacker: usize, target: usize, objects: &mut [Object], log: &mut Vec<Event>)
    requires
        attacker != target,
        attacker < old(objects).len(),
        target < old(objects).len(),
    ensures
        final(objects)@ == struck(old(objects)@, attacker as int, target as int),
        final(objects)@.len() == old(objects)@.len(),
        final(log)@ == old(log)@ + strike_events(old(objects)@, attacker as int, target as int),
{
    let (first, second) = mut_two(attacker, target, objects);
    let outcome: AttackOutcome = first.attack(second);
    if outcome.damage > 0 {
        log.push(Event::Hit { attacker: attacker, target: target, damage: outcome.damage });
        if let Some(how) = outcome.death {
            log.push(Event::Died { id: target, how: how });
        }
    } else {
        log.push(Event::NoEffect { attacker: attacker, target: target });
    }
}

/// The player moves or attacks in direction `(dx, dy)`. If an entity at the
/// destination can be attacked, the player attacks the first such entity in
/// roster order; otherwise the player steps there if the cell can be entered;
/// otherwise nothing happens.
///
/// The player cannot attack itself: a move to its own cell is only accepted
/// from a player without a fighter.
pub fn player_move_or_attack(dx: i32, dy: i32, game: &Game, objects: &mut [Object], log: &mut Vec<Event>)
    requires
        old(objects).len() > PLAYER,
        game.map.wf(),
        dx != 0 || dy != 0 || old(objects)@[PLAYER as int].fighter is None,
    ensures
        final(objects)@ == player_acted(old(objects)@, dx as int, dy as int, &game.map),
        final(objects)@.len() == old(objects)@.len(),
        final(log)@ == old(log)@ + player_events(old(objects)@, dx as int, dy as int),
{
    let x: i64 = objects[PLAYER].x as i64 + dx as i64;
    let y: i64 = objects[PLAYER].y as i64 + dy as i64;
    let target_id = find_target(objects, x, y);
    match target_id {
        Some(target_id) => {
            proof {
                lemma_first_target_unique(objects@, x as int, y as int, target_id as int);
            }
            strike(PLAYER, target_id, objects, log);
        },
        None => {
            move_by(PLAYER, dx, dy, &game.map, objects);
        },
    }
}

} // verus!
