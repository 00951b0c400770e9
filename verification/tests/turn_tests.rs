use roguemax::carve::create_room;
use roguemax::entity::{Ai, Color, DeathCallback, Fighter, Object};
use roguemax::event::Event;
use roguemax::fov::FovMap;
use roguemax::game::Game;
use roguemax::grid::Grid;
use roguemax::rect::Rect;
use roguemax::turn::{
    ai_take_turn, ai_take_turns, handle_keys, take_turn, Intent, PlayerAction, TurnState,
};

fn arena() -> Game {
    let mut map = Grid::new(12, 12);
    create_room(Rect::new(0, 0, 11, 11), &mut map);
    Game { map: map }
}

fn all_in_sight() -> FovMap {
    let mut fov = FovMap::new(12, 12);
    for x in 0..12 {
        for y in 0..12 {
            fov.set_in_fov(x, y, true);
        }
    }
    fov
}

fn nothing_in_sight() -> FovMap {
    FovMap::new(12, 12)
}

fn player_at(x: i32, y: i32) -> Object {
    let mut player = Object::new(x, y, '@', "player", Color::white(), true);
    player.alive = true;
    player.fighter = Some(Fighter {
        max_hp: 30,
        hp: 30,
        defence: 2,
        power: 5,
        on_death: DeathCallback::Player,
    });
    player
}

fn orc_at(x: i32, y: i32) -> Object {
    let mut orc = Object::new(x, y, 'o', "orc", Color::desaturated_green(), true);
    orc.alive = true;
    orc.fighter = Some(Fighter {
        max_hp: 10,
        hp: 10,
        defence: 0,
        power: 3,
        on_death: DeathCallback::Monster,
    });
    orc.ai = Some(Ai::Basic);
    orc
}

fn troll_at(x: i32, y: i32) -> Object {
    let mut troll = Object::new(x, y, 'T', "troll", Color::darker_green(), true);
    troll.alive = true;
    troll.fighter = Some(Fighter {
        max_hp: 16,
        hp: 16,
        defence: 1,
        power: 4,
        on_death: DeathCallback::Monster,
    });
    troll.ai = Some(Ai::Basic);
    troll
}

fn positions(objects: &[Object]) -> Vec<(i32, i32)> {
    objects.iter().map(|o| o.pos()).collect()
}

fn hit_points(objects: &[Object]) -> Vec<Option<i32>> {
    objects.iter().map(|o| o.fighter.map(|f| f.hp)).collect()
}

#[test]
fn intents_and_their_directions() {
    assert_eq!(Intent::MoveUp.direction(), Some((0, -1)));
    assert_eq!(Intent::MoveDown.direction(), Some((0, 1)));
    assert_eq!(Intent::MoveLeft.direction(), Some((-1, 0)));
    assert_eq!(Intent::MoveRight.direction(), Some((1, 0)));
    assert_eq!(Intent::ToggleDisplayMode.direction(), None);
    assert_eq!(Intent::Exit.direction(), None);
    assert_eq!(Intent::Idle.direction(), None);
}

#[test]
fn handle_keys_moves_the_player() {
    let game = arena();
    let mut log = Vec::new();
    let mut objects = vec![player_at(5, 5)];
    assert_eq!(handle_keys(Intent::MoveUp, &game, &mut objects, &mut log), PlayerAction::TookTurn);
    assert_eq!(objects[0].pos(), (5, 4));
    assert_eq!(handle_keys(Intent::MoveLeft, &game, &mut objects, &mut log), PlayerAction::TookTurn);
    assert_eq!(objects[0].pos(), (4, 4));
    assert_eq!(handle_keys(Intent::MoveDown, &game, &mut objects, &mut log), PlayerAction::TookTurn);
    assert_eq!(objects[0].pos(), (4, 5));
    assert_eq!(handle_keys(Intent::MoveRight, &game, &mut objects, &mut log), PlayerAction::TookTurn);
    assert_eq!(objects[0].pos(), (5, 5));
    assert!(log.is_empty());
}

#[test]
fn handle_keys_bumping_a_wall_still_takes_a_turn() {
    let game = arena();
    let mut log = Vec::new();
    let mut objects = vec![player_at(1, 1)];
    assert_eq!(handle_keys(Intent::MoveUp, &game, &mut objects, &mut log), PlayerAction::TookTurn);
    assert_eq!(objects[0].pos(), (1, 1));
}

#[test]
fn handle_keys_attacks_a_monster_in_the_way() {
    let game = arena();
    let mut log = Vec::new();
    let mut objects = vec![player_at(5, 5), orc_at(5, 6)];
    assert_eq!(handle_keys(Intent::MoveDown, &game, &mut objects, &mut log), PlayerAction::TookTurn);
    assert_eq!(objects[0].pos(), (5, 5));
    assert_eq!(objects[1].fighter.unwrap().hp, 5);
    assert_eq!(log, vec![Event::Hit { attacker: 0, target: 1, damage: 5 }]);
}

#[test]
fn handle_keys_without_a_turn_changes_nothing() {
    let game = arena();
    let mut log = Vec::new();
    let mut objects = vec![player_at(5, 5), orc_at(5, 6)];
    assert_eq!(
        handle_keys(Intent::ToggleDisplayMode, &game, &mut objects, &mut log),
        PlayerAction::DidntTakeTurn
    );
    assert_eq!(handle_keys(Intent::Idle, &game, &mut objects, &mut log), PlayerAction::DidntTakeTurn);
    assert_eq!(handle_keys(Intent::Exit, &game, &mut objects, &mut log), PlayerAction::Exit);
    assert_eq!(positions(&objects), vec![(5, 5), (5, 6)]);
    assert_eq!(hit_points(&objects), vec![Some(30), Some(10)]);
    assert!(log.is_empty());
}

#[test]
fn handle_keys_ignores_the_moves_of_a_dead_player() {
    let game = arena();
    let mut log = Vec::new();
    let mut dead = player_at(5, 5);
    dead.alive = false;
    let mut objects = vec![dead, orc_at(5, 6)];
    for intent in [Intent::MoveUp, Intent::MoveDown, Intent::MoveLeft, Intent::MoveRight] {
        assert_eq!(handle_keys(intent, &game, &mut objects, &mut log), PlayerAction::DidntTakeTurn);
    }
    assert_eq!(handle_keys(Intent::Exit, &game, &mut objects, &mut log), PlayerAction::Exit);
    assert_eq!(positions(&objects), vec![(5, 5), (5, 6)]);
    assert_eq!(hit_points(&objects), vec![Some(30), Some(10)]);
    assert!(log.is_empty());
}

#[test]
fn monster_in_sight_and_far_steps_toward_the_player() {
    let game = arena();
    let fov = all_in_sight();
    let mut log = Vec::new();
    let mut objects = vec![player_at(2, 2), orc_at(6, 2), troll_at(5, 5)];
    ai_take_turn(1, &fov, &game, &mut objects, &mut log);
    ai_take_turn(2, &fov, &game, &mut objects, &mut log);
    assert_eq!(positions(&objects), vec![(2, 2), (5, 2), (4, 4)]);
    assert_eq!(hit_points(&objects), vec![Some(30), Some(10), Some(16)]);
    assert!(log.is_empty());
}

#[test]
fn monster_two_tiles_away_moves_and_does_not_attack() {
    let game = arena();
    let fov = all_in_sight();
    let mut log = Vec::new();
    let mut objects = vec![player_at(2, 2), orc_at(4, 2)];
    ai_take_turn(1, &fov, &game, &mut objects, &mut log);
    assert_eq!(objects[1].pos(), (3, 2));
    assert_eq!(objects[0].fighter.unwrap().hp, 30);
}

#[test]
fn monster_next_to_the_player_attacks() {
    let game = arena();
    let fov = all_in_sight();
    let mut log = Vec::new();
    let mut objects = vec![player_at(2, 2), orc_at(3, 2), troll_at(3, 3)];
    ai_take_turn(1, &fov, &game, &mut objects, &mut log);
    ai_take_turn(2, &fov, &game, &mut objects, &mut log);
    assert_eq!(positions(&objects), vec![(2, 2), (3, 2), (3, 3)]);
    assert_eq!(objects[0].fighter.unwrap().hp, 30 - 1 - 2);
    assert_eq!(
        log,
        vec![
            Event::Hit { attacker: 1, target: 0, damage: 1 },
            Event::Hit { attacker: 2, target: 0, damage: 2 },
        ]
    );
}

#[test]
fn monster_spares_a_player_without_hit_points() {
    let game = arena();
    let fov = all_in_sight();
    let mut log = Vec::new();
    let mut fallen = player_at(2, 2);
    fallen.fighter = Some(Fighter { hp: 0, ..fallen.fighter.unwrap() });
    let mut objects = vec![fallen, orc_at(3, 2)];
    ai_take_turn(1, &fov, &game, &mut objects, &mut log);
    assert_eq!(objects[0].fighter.unwrap().hp, 0);
    assert_eq!(objects[1].pos(), (3, 2));
    assert!(log.is_empty());

    let bystander = Object::new(2, 2, '@', "ghost", Color::white(), true);
    let mut objects = vec![bystander, orc_at(3, 2)];
    ai_take_turn(1, &fov, &game, &mut objects, &mut log);
    assert!(log.is_empty());
}

#[test]
fn monster_out_of_sight_does_nothing() {
    let game = arena();
    let mut fov = nothing_in_sight();
    let mut log = Vec::new();
    // one monster next to the player, one far away, neither in sight
    let mut objects = vec![player_at(2, 2), orc_at(3, 2), troll_at(8, 8)];
    ai_take_turns(&fov, &game, &mut objects, &mut log);
    assert_eq!(positions(&objects), vec![(2, 2), (3, 2), (8, 8)]);
    assert_eq!(hit_points(&objects), vec![Some(30), Some(10), Some(16)]);
    assert!(log.is_empty());

    // as soon as their cells are in sight, they act
    fov.set_in_fov(3, 2, true);
    fov.set_in_fov(8, 8, true);
    ai_take_turns(&fov, &game, &mut objects, &mut log);
    assert_eq!(positions(&objects), vec![(2, 2), (3, 2), (7, 7)]);
    assert_eq!(hit_points(&objects), vec![Some(29), Some(10), Some(16)]);
    assert_eq!(log, vec![Event::Hit { attacker: 1, target: 0, damage: 1 }]);
}

#[test]
fn monster_off_the_fov_map_is_out_of_sight() {
    let game = arena();
    let fov = all_in_sight();
    let mut log = Vec::new();
    let mut objects = vec![player_at(2, 2), orc_at(-1, 2), orc_at(12, 2)];
    ai_take_turns(&fov, &game, &mut objects, &mut log);
    assert_eq!(positions(&objects), vec![(2, 2), (-1, 2), (12, 2)]);
}

#[test]
fn monsters_act_in_roster_order() {
    let game = arena();
    let fov = all_in_sight();
    let mut log = Vec::new();
    // the first orc steps out of the way, so that the second can follow
    let mut objects = vec![player_at(2, 5), orc_at(5, 5), orc_at(6, 5)];
    ai_take_turns(&fov, &game, &mut objects, &mut log);
    assert_eq!(positions(&objects), vec![(2, 5), (4, 5), (5, 5)]);

    // the other way round the second orc is in the way of the first
    let mut objects = vec![player_at(2, 5), orc_at(6, 5), orc_at(5, 5)];
    ai_take_turns(&fov, &game, &mut objects, &mut log);
    assert_eq!(positions(&objects), vec![(2, 5), (6, 5), (4, 5)]);
}

#[test]
fn entities_without_ai_do_not_act() {
    let game = arena();
    let fov = all_in_sight();
    let mut log = Vec::new();
    let mut idle = orc_at(6, 5);
    idle.ai = None;
    let mut objects = vec![player_at(2, 5), idle];
    ai_take_turns(&fov, &game, &mut objects, &mut log);
    assert_eq!(positions(&objects), vec![(2, 5), (6, 5)]);
}

#[test]
fn the_player_never_acts_as_a_monster() {
    let game = arena();
    let fov = all_in_sight();
    let mut log = Vec::new();
    let mut odd = player_at(2, 5);
    odd.ai = Some(Ai::Basic);
    let mut objects = vec![odd, orc_at(8, 5)];
    ai_take_turns(&fov, &game, &mut objects, &mut log);
    assert_eq!(positions(&objects), vec![(2, 5), (7, 5)]);
    assert_eq!(hit_points(&objects), vec![Some(30), Some(10)]);
}

#[test]
fn second_monster_spares_the_player_the_first_has_killed() {
    let game = arena();
    let fov = all_in_sight();
    let mut log = Vec::new();
    let mut weak = player_at(2, 2);
    weak.fighter = Some(Fighter { hp: 1, ..weak.fighter.unwrap() });
    let mut objects = vec![weak, orc_at(3, 2), troll_at(2, 3)];
    ai_take_turns(&fov, &game, &mut objects, &mut log);
    assert!(!objects[0].alive);
    assert_eq!(objects[0].fighter.unwrap().hp, 0);
    assert_eq!(objects[0].char, '%');
    assert_eq!(
        log,
        vec![
            Event::Hit { attacker: 1, target: 0, damage: 1 },
            Event::Died { id: 0, how: DeathCallback::Player },
        ]
    );
}

#[test]
fn take_turn_lets_the_monsters_answer_a_move() {
    let game = arena();
    let fov = all_in_sight();
    let mut log = Vec::new();
    let mut objects = vec![player_at(2, 2), orc_at(6, 2)];
    let state = take_turn(Intent::MoveRight, &fov, &game, &mut objects, &mut log);
    assert_eq!(state, TurnState::AwaitingInput);
    assert_eq!(positions(&objects), vec![(3, 2), (5, 2)]);
    let state = take_turn(Intent::MoveRight, &fov, &game, &mut objects, &mut log);
    assert_eq!(state, TurnState::AwaitingInput);
    // the player steps next to the orc, and the orc strikes
    assert_eq!(positions(&objects), vec![(4, 2), (5, 2)]);
    assert_eq!(objects[0].fighter.unwrap().hp, 29);
    assert_eq!(log, vec![Event::Hit { attacker: 1, target: 0, damage: 1 }]);
}

#[test]
fn take_turn_resolves_the_player_before_the_monsters() {
    let game = arena();
    let fov = all_in_sight();
    let mut log = Vec::new();
    let mut frail = orc_at(3, 2);
    frail.fighter = Some(Fighter { hp: 5, ..frail.fighter.unwrap() });
    let mut objects = vec![player_at(2, 2), frail];
    take_turn(Intent::MoveRight, &fov, &game, &mut objects, &mut log);
    // the orc died of the player's blow and never struck back
    assert!(!objects[1].alive);
    assert_eq!(objects[0].fighter.unwrap().hp, 30);
    assert_eq!(
        log,
        vec![
            Event::Hit { attacker: 0, target: 1, damage: 5 },
            Event::Died { id: 1, how: DeathCallback::Monster },
        ]
    );
}

#[test]
fn take_turn_without_a_turn_keeps_the_monsters_still() {
    let game = arena();
    let fov = all_in_sight();
    let mut log = Vec::new();
    let mut objects = vec![player_at(2, 2), orc_at(3, 2), troll_at(8, 8)];
    for intent in [Intent::ToggleDisplayMode, Intent::Idle] {
        let state = take_turn(intent, &fov, &game, &mut objects, &mut log);
        assert_eq!(state, TurnState::AwaitingInput);
        assert_eq!(positions(&objects), vec![(2, 2), (3, 2), (8, 8)]);
        assert_eq!(hit_points(&objects), vec![Some(30), Some(10), Some(16)]);
        assert!(log.is_empty());
    }
}

#[test]
fn take_turn_exit_ends_the_game_at_once() {
    let game = arena();
    let fov = all_in_sight();
    let mut log = Vec::new();
    let mut objects = vec![player_at(2, 2), orc_at(3, 2)];
    let state = take_turn(Intent::Exit, &fov, &game, &mut objects, &mut log);
    assert_eq!(state, TurnState::Exited);
    assert_eq!(hit_points(&objects), vec![Some(30), Some(10)]);
    assert!(log.is_empty());
}

#[test]
fn take_turn_of_a_dead_player_gives_no_monster_a_turn() {
    let game = arena();
    let fov = all_in_sight();
    let mut log = Vec::new();
    let mut dead = player_at(2, 2);
    dead.alive = false;
    let mut objects = vec![dead, orc_at(3, 2), troll_at(8, 8)];
    let state = take_turn(Intent::MoveLeft, &fov, &game, &mut objects, &mut log);
    assert_eq!(state, TurnState::AwaitingInput);
    assert_eq!(positions(&objects), vec![(2, 2), (3, 2), (8, 8)]);
    assert_eq!(hit_points(&objects), vec![Some(30), Some(10), Some(16)]);
    assert!(log.is_empty());
}

#[test]
fn take_turn_uses_the_field_of_view_it_is_given() {
    let game = arena();
    let fov = nothing_in_sight();
    let mut log = Vec::new();
    let mut objects = vec![player_at(2, 2), orc_at(3, 3)];
    take_turn(Intent::MoveUp, &fov, &game, &mut objects, &mut log);
    assert_eq!(positions(&objects), vec![(2, 1), (3, 3)]);
    assert_eq!(objects[0].fighter.unwrap().hp, 30);
}
