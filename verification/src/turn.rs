//! The turn sequence: one intent from the player, then, if that took a turn
//! and the player survived it, one action from every monster.

use vstd::prelude::*;
use crate::entity::Object;
use crate::event::Event;
use crate::fov::FovMap;
use crate::game::Game;
use crate::grid::Grid;
use crate::roster::{
    move_towards, moved_towards, player_acted, player_events, player_move_or_attack, strike,
    strike_events, struck, PLAYER,
};

verus! {

/// What the player asks for, one intent per turn.
#[derive(Clone, Copy, Debug, PartialEq, Eq, Structural)]
pub enum Intent {
    MoveUp,
    MoveDown,
    MoveLeft,
    MoveRight,
    ToggleDisplayMode,
    Exit,
    Idle,
}

/// How the player's intent was classified once resolved.
#[derive(Clone, Copy, Debug, PartialEq, Eq, Structural)]
pub enum PlayerAction {
    TookTurn,
    DidntTakeTurn,
    Exit,
}

/// Where the turn sequence stands.
#[derive(Clone, Copy, Debug, PartialEq, Eq, Structural)]
pub enum TurnState {
    AwaitingInput,
    ResolvingPlayerAction,
    ResolvingAITurns,
    Exited,
}

impl Intent {
    /// The step a movement intent asks for; `None` for any other intent. Up
    /// is toward row zero.
    pub open spec fn step(self) -> Option<(int, int)> {
        match self {
            Intent::MoveUp => Some((0, -1)),
            Intent::MoveDown => Some((0, 1)),
            Intent::MoveLeft => Some((-1, 0)),
            Intent::MoveRight => Some((1, 0)),
            _ => None,
        }
    }

    /// The step a movement intent asks for; `None` for any other intent.
    pub fn direction(self) -> (d: Option<(i32, i32)>)
        ensures
            match d {
                Some(s) => self.step() == Some((s.0 as int, s.1 as int)),
                None => self.step() is None,
            },
    {
        match self {
            Intent::MoveUp => Some((0, -1)),
            Intent::MoveDown => Some((0, 1)),
            Intent::MoveLeft => Some((-1, 0)),
            Intent::MoveRight => Some((1, 0)),
            _ => None,
        }
    }
}

/// How an intent is classified: leaving ends the game; a movement takes a
/// turn if the player is alive to make it; nothing else takes a turn.
pub open spec fn classify(intent: Intent, player_alive: bool) -> PlayerAction {
    if intent == Intent::Exit {
        PlayerAction::Exit
    } else if intent.step() is Some && player_alive {
        PlayerAction::TookTurn
    } else {
        PlayerAction::DidntTakeTurn
    }
}

/// The roster after the player's intent has been resolved.
pub open spec fn player_resolved(objects: Seq<Object>, intent: Intent, map: &Grid) -> Seq<Object> {
    let step = intent.step().unwrap();
    if classify(intent, objects[PLAYER as int].alive) == PlayerAction::TookTurn {
        player_acted(objects, step.0, step.1, map)
    } else {
        objects
    }
}

/// What there is to tell of resolving the player's intent.
pub open spec fn player_resolved_events(objects: Seq<Object>, intent: Intent) -> Seq<Event> {
    let step = intent.step().unwrap();
    if classify(intent, objects[PLAYER as int].alive) == PlayerAction::TookTurn {
        player_events(objects, step.0, step.1)
    } else {
        Seq::empty()
    }
}

/// The state that follows `ResolvingPlayerAction`: the monsters get their
/// turn only if the player took one and is still alive after it.
pub open spec fn after_player_action(action: PlayerAction, player_alive: bool) -> TurnState {
    match action {
        PlayerAction::Exit => TurnState::Exited,
        PlayerAction::TookTurn => if player_alive {
            TurnState::ResolvingAITurns
        } else {
            TurnState::AwaitingInput
        },
        PlayerAction::DidntTakeTurn => TurnState::AwaitingInput,
    }
}

/// The monster `id` is within reach of the player: less than two tiles away
/// in a straight line.
pub open spec fn in_reach(objects: Seq<Object>, id: int) -> bool {
    objects[id].distance_squared(objects[PLAYER as int]) < 4
}

/// The player can still be hurt: it has a fighter with hit points left.
pub open spec fn player_standing(objects: Seq<Object>) -> bool {
    objects[PLAYER as int].fighter is Some && objects[PLAYER as int].fighter->0.hp > 0
}

/// The roster after monster `id` has taken its turn. A monster out of sight
/// does nothing. One in sight steps toward the player while out of reach, and
/// attacks the player when in reach, if the player can still be hurt.
pub open spec fn ai_acted(objects: Seq<Object>, id: int, fov: &FovMap, map: &Grid) -> Seq<Object> {
    if !fov.visible(objects[id].x as int, objects[id].y as int) {
        objects
    } else if !in_reach(objects, id) {
        moved_towards(
            objects,
            id,
            objects[PLAYER as int].x as int,
            objects[PLAYER as int].y as int,
            map,
        )
    } else if player_standing(objects) {
        struck(objects, id, PLAYER as int)
    } else {
        objects
    }
}

/// What there is to tell of monster `id` taking its turn: its attack on the
/// player, if it made one.
pub open spec fn ai_events(objects: Seq<Object>, id: int, fov: &FovMap) -> Seq<Event> {
    if fov.visible(objects[id].x as int, objects[id].y as int) && in_reach(objects, id)
        && player_standing(objects) {
        strike_events(objects, id, PLAYER as int)
    } else {
        Seq::empty()
    }
}

/// Entity `id` acts when the monsters have their turn: it has an AI, and it
/// is not the player.
pub open spec fn acts(objects: Seq<Object>, id: int) -> bool {
    id != PLAYER && objects[id].ai is Some
}

/// The roster and the log after the entities `from` up to, but not including,
/// `until` have had their turn, each in roster order on what the ones before
/// it left behind.
pub open spec fn ai_turns(
    objects: Seq<Object>,
    log: Seq<Event>,
    from: int,
    until: int,
    fov: &FovMap,
    map: &Grid,
) -> (Seq<Object>, Seq<Event>)
    decreases until - from,
{
    if from >= until {
        (objects, log)
    } else if acts(objects, from) {
        ai_turns(
            ai_acted(objects, from, fov, map),
            log + ai_events(objects, from, fov),
            from + 1,
            until,
            fov,
            map,
        )
    } else {
        ai_turns(objects, log, from + 1, until, fov, map)
    }
}

/// The roster and the log after a whole turn: the player's intent resolved,
/// then every monster's turn if the player took a turn and is alive after it.
pub open spec fn turn_taken(
    objects: Seq<Object>,
    log: Seq<Event>,
    intent: Intent,
    fov: &FovMap,
    map: &Grid,
) -> (Seq<Object>, Seq<Event>) {
    let action = classify(intent, objects[PLAYER as int].alive);
    let resolved = player_resolved(objects, intent, map);
    let told = log + player_resolved_events(objects, intent);
    if after_player_action(action, resolved[PLAYER as int].alive) == TurnState::ResolvingAITurns {
        ai_turns(resolved, told, 0, resolved.len() as int, fov, map)
    } else {
        (resolved, told)
    }
}

/// Resolves one intent of the player. A movement intent, from a player who
/// is alive, makes the player move or attack and takes a turn. Leaving is
/// reported as such. Anything else, and any movement asked of a dead player,
/// changes nothing and takes no turn.
pub fn handle_keys(intent: Intent, game: &Game, objects: &mut Vec<Object>, log: &mut Vec<Event>) -> (action:
    PlayerAction)
    requires
        old(objects)@.len() > PLAYER,
        game.map.wf(),
    ensures
        action == classify(intent, old(objects)@[PLAYER as int].alive),
        final(objects)@ == player_resolved(old(objects)@, intent, &game.map),
        final(objects)@.len() == old(objects)@.len(),
        final(log)@ == old(log)@ + player_resolved_events(old(objects)@, intent),
        action != PlayerAction::TookTurn ==> {
            &&& final(objects)@ == old(objects)@
            &&& final(log)@ == old(log)@
        },
{
    let player_alive = objects[PLAYER].alive;
    match intent {
        Intent::Exit => PlayerAction::Exit,
        _ => {
            match intent.direction() {
                Some((dx, dy)) => {
                    if player_alive {
                        player_move_or_attack(dx, dy, game, objects.as_mut_slice(), log);
                        PlayerAction::TookTurn
                    } else {
                        PlayerAction::DidntTakeTurn
                    }
                },
                None => PlayerAction::DidntTakeTurn,
            }
        },
    }
}

/// The turn of monster `monster_id`. Out of the player's sight it does
/// nothing. In sight, it steps toward the player while two tiles or more
/// away, and attacks the player otherwise, if the player has hit points left.
pub fn ai_take_turn(
    monster_id: usize,
    fov: &FovMap,
    game: &Game,
    objects: &mut [Object],
    log: &mut Vec<Event>,
)
    requires
        monster_id != PLAYER,
        monster_id < old(objects)@.len(),
        PLAYER < old(objects)@.len(),
        fov.wf(),
        game.map.wf(),
    ensures
        final(objects)@ == ai_acted(old(objects)@, monster_id as int, fov, &game.map),
        final(objects)@.len() == old(objects)@.len(),
        final(log)@ == old(log)@ + ai_events(old(objects)@, monster_id as int, fov),
        !fov.visible(old(objects)@[monster_id as int].x as int, old(objects)@[monster_id as int].y as int)
            ==> final(objects)@ == old(objects)@ && final(log)@ == old(log)@,
{
    let (monster_x, monster_y) = objects[monster_id].pos();
    if fov.in_bounds(monster_x, monster_y) && fov.is_in_fov(monster_x, monster_y) {
        if objects[monster_id].distance_squared_to(&objects[PLAYER]) >= 4 {
            let (player_x, player_y) = objects[PLAYER].pos();
            move_towards(monster_id, player_x, player_y, &game.map, objects);
        } else {
            let standing = match objects[PLAYER].fighter {
                Some(f) => f.hp > 0,
                None => false,
            };
            if standing {
                strike(monster_id, PLAYER, objects, log);
            }
        }
    }
}

/// The monsters' turn: every entity with an AI acts once, in roster order.
pub fn ai_take_turns(fov: &FovMap, game: &Game, objects: &mut Vec<Object>, log: &mut Vec<Event>)
    requires
        PLAYER < old(objects)@.len(),
        fov.wf(),
        game.map.wf(),
    ensures
        (final(objects)@, final(log)@) == ai_turns(
            old(objects)@,
            old(log)@,
            0,
            old(objects)@.len() as int,
            fov,
            &game.map,
        ),
        final(objects)@.len() == old(objects)@.len(),
{
    let ghost start = objects@;
    let ghost start_log = log@;
    let n = objects.len();
    let mut id: usize = 0;
    while id < n
        invariant
            id <= n,
            n == start.len(),
            objects@.len() == n,
            PLAYER < n,
            fov.wf(),
            game.map.wf(),
            ai_turns(start, start_log, 0, n as int, fov, &game.map) == ai_turns(
                objects@,
                log@,
                id as int,
                n as int,
                fov,
                &game.map,
            ),
        decreases n - id,
    {
        if id != PLAYER && objects[id].ai.is_some() {
            ai_take_turn(id, fov, game, objects.as_mut_slice(), log);
        }
        id += 1;
    }
}

/// One whole turn. The player's intent is resolved; then, only if that took a
/// turn and the player is still alive, every monster acts once, in roster
/// order. Returns `Exited` if the player asked to leave, and `AwaitingInput`
/// otherwise.
///
/// An intent that takes no turn changes neither the roster nor the log.
pub fn take_turn(intent: Intent, fov: &FovMap, game: &Game, objects: &mut Vec<Object>, log: &mut Vec<Event>) -> (state:
    TurnState)
    requires
        PLAYER < old(objects)@.len(),
        fov.wf(),
        game.map.wf(),
    ensures
        state == (if intent == Intent::Exit {
            TurnState::Exited
        } else {
            TurnState::AwaitingInput
        }),
        (final(objects)@, final(log)@) == turn_taken(old(objects)@, old(log)@, intent, fov, &game.map),
        final(objects)@.len() == old(objects)@.len(),
        classify(intent, old(objects)@[PLAYER as int].alive) != PlayerAction::TookTurn ==> {
            &&& final(objects)@ == old(objects)@
            &&& final(log)@ == old(log)@
        },
{
    let action = handle_keys(intent, game, objects, log);
    if action == PlayerAction::Exit {
        return TurnState::Exited;
    }
    if objects[PLAYER].alive && action != PlayerAction::DidntTakeTurn {
        ai_take_turns(fov, game, objects, log);
    }
    TurnState::AwaitingInput
}

/// Monsters never act on a turn the player did not take, nor after the player
/// has died: an intent that takes no turn leaves the roster and the log as
/// they were, and when the player is dead once its intent is resolved, the
/// turn ends there.
pub proof fn lemma_turn_gating(
    objects: Seq<Object>,
    log: Seq<Event>,
    intent: Intent,
    fov: &FovMap,
    map: &Grid,
)
    ensures
        classify(intent, objects[PLAYER as int].alive) != PlayerAction::TookTurn ==> turn_taken(
            objects,
            log,
            intent,
            fov,
            map,
        ) == (objects, log),
        !player_resolved(objects, intent, map)[PLAYER as int].alive ==> turn_taken(
            objects,
            log,
            intent,
            fov,
            map,
        ) == (player_resolved(objects, intent, map), log + player_resolved_events(objects, intent)),
{
    assert(log + Seq::<Event>::empty() == log);
}

/// A monster out of the player's sight is left exactly as it was by the
/// monsters' turn, however close to the player it stands: it neither moves
/// nor attacks, and nothing another monster does touches it.
pub proof fn lemma_unseen_monster_untouched(
    objects: Seq<Object>,
    log: Seq<Event>,
    from: int,
    until: int,
    fov: &FovMap,
    map: &Grid,
    monster: int,
)
    requires
        0 <= from <= until <= objects.len(),
        PLAYER < monster < objects.len(),
        !fov.visible(objects[monster].x as int, objects[monster].y as int),
    ensures
        ai_turns(objects, log, from, until, fov, map).0.len() == objects.len(),
        ai_turns(objects, log, from, until, fov, map).0[monster] == objects[monster],
    decreases until - from,
{
    if from < until {
        if acts(objects, from) {
            let next = ai_acted(objects, from, fov, map);
            assert(next.len() == objects.len());
            assert(next[monster] == objects[monster]);
            lemma_unseen_monster_untouched(
                next,
                log + ai_events(objects, from, fov),
                from + 1,
                until,
                fov,
                map,
                monster,
            );
        } else {
            lemma_unseen_monster_untouched(objects, log, from + 1, until, fov, map, monster);
        }
    }
}

} // verus!
