//! System-level properties: exact integration and frame-rate
//! independence, the cooldown cycle, the decay threshold, and wave
//! growth.

use alone::collision::player_system;
use alone::commands::{apply_commands, CommandBuffer};
use alone::components::{Decay, Enemy, Health, HitCooldown, Move, Player, RotateToPlayer, Sensor, Transform2};
use alone::lifetime::decay_system;
use alone::math::POS_PER_UNIT;
use alone::movement::{move_system, rotate_to_player_system};
use alone::resources::RoundParams;
use alone::spawner::{enemy_system, grow_enemies, Placement};
use alone::world::{Entity, World};

fn blank(id: u64) -> Entity {
    Entity {
        id,
        parent: None,
        transform: Transform2 { x: 0, y: 0, heading: 0 },
        mv: None,
        rotate: None,
        sensor: None,
        health: None,
        cooldown: None,
        decay: None,
        player: None,
        enemy: None,
        bullet: None,
        dead: None,
    }
}

fn world_of(entities: Vec<Entity>) -> World {
    let next_id = entities.iter().map(|e| e.id).max().map_or(0, |m| m + 1);
    World { entities, next_id }
}

#[test]
fn integration_advances_by_speed_times_dt() {
    // speed 50 units/s, heading north, dt 16 ms: exactly 0.8 units up
    let mut e = blank(0);
    e.mv = Some(Move { speed: 50 });
    let mut w = world_of(vec![e]);
    move_system(&mut w, 16);
    assert_eq!(w.entities[0].transform.x, 0);
    assert_eq!(w.entities[0].transform.y, 50 * 16 * 1000); // 800000 subunits = 0.8 units
    assert_eq!(w.entities[0].transform.heading, 0);
}

#[test]
fn integration_diagonal_heading_is_exact() {
    // heading 500 (north-west diagonal): forward (-500, 500)
    let mut e = blank(0);
    e.transform.heading = 500;
    e.mv = Some(Move { speed: 50 });
    let mut w = world_of(vec![e]);
    move_system(&mut w, 16);
    assert_eq!(w.entities[0].transform.x, -500 * 50 * 16);
    assert_eq!(w.entities[0].transform.y, 500 * 50 * 16);
}

#[test]
fn integration_is_frame_rate_independent() {
    // sub-ticks summing to 48 ms land exactly where one 48 ms tick lands
    let mut e = blank(0);
    e.transform.heading = 1234;
    e.mv = Some(Move { speed: 73 });
    let mut w1 = world_of(vec![e]);
    let mut w2 = world_of(vec![e]);
    move_system(&mut w1, 16);
    move_system(&mut w1, 16);
    move_system(&mut w1, 16);
    move_system(&mut w2, 48);
    assert_eq!(w1.entities[0].transform.x, w2.entities[0].transform.x);
    assert_eq!(w1.entities[0].transform.y, w2.entities[0].transform.y);
}

#[test]
fn player_is_not_moved_by_the_integrator() {
    let mut p = blank(0);
    p.player = Some(Player);
    p.mv = Some(Move { speed: 100 });
    let mut w = world_of(vec![p]);
    move_system(&mut w, 16);
    assert_eq!(w.entities[0].transform.y, 0);
}

fn combat_world(health: i64, time_remains: i64) -> World {
    let mut p = blank(0);
    p.player = Some(Player);
    p.health = Some(Health(health));
    p.cooldown = Some(HitCooldown { time_full: 2000, time_remains });
    p.sensor = Some(Sensor { radius: 5 * POS_PER_UNIT });
    let mut e = blank(1);
    e.transform.x = POS_PER_UNIT; // one unit away, radii sum to twelve
    e.enemy = Some(Enemy);
    e.sensor = Some(Sensor { radius: 7 * POS_PER_UNIT });
    world_of(vec![p, e])
}

#[test]
fn cooldown_cycle_gates_damage() {
    let mut w = combat_world(5, 0);
    let mut cmds = CommandBuffer::new();
    // cooldown elapsed, one enemy overlapping: one point of damage, refill
    player_system(&mut w, &mut cmds, 16);
    assert_eq!(w.entities[0].health, Some(Health(4)));
    assert_eq!(w.entities[0].cooldown.unwrap().time_remains, 2000);
    // second overlap while the cooldown runs: no damage, only countdown
    player_system(&mut w, &mut cmds, 16);
    assert_eq!(w.entities[0].health, Some(Health(4)));
    assert_eq!(w.entities[0].cooldown.unwrap().time_remains, 2000 - 16);
    // once it reaches zero, the next overlap damages again
    player_system(&mut w, &mut cmds, 1984);
    assert_eq!(w.entities[0].cooldown.unwrap().time_remains, 0);
    player_system(&mut w, &mut cmds, 16);
    assert_eq!(w.entities[0].health, Some(Health(3)));
    assert_eq!(w.entities[0].cooldown.unwrap().time_remains, 2000);
}

#[test]
fn several_overlapping_enemies_damage_once() {
    // one hit event per open cooldown gate: two enemies inside the
    // combined radius still cost exactly one hit point
    let mut w = combat_world(5, 0);
    let mut second = blank(2);
    second.transform.x = -POS_PER_UNIT;
    second.enemy = Some(Enemy);
    second.sensor = Some(Sensor { radius: 7 * POS_PER_UNIT });
    w.entities.push(second);
    w.next_id = 3;
    let mut cmds = CommandBuffer::new();
    player_system(&mut w, &mut cmds, 16);
    assert_eq!(w.entities[0].health, Some(Health(4)));
    assert_eq!(w.entities[0].cooldown.unwrap().time_remains, 2000);
}

#[test]
fn contact_damage_does_not_destroy_the_enemy() {
    let mut w = combat_world(5, 0);
    let mut cmds = CommandBuffer::new();
    player_system(&mut w, &mut cmds, 16);
    apply_commands(&mut w, &cmds);
    assert_eq!(w.entities.len(), 2);
    assert!(w.entities[1].enemy.is_some());
}

#[test]
fn losing_the_last_hit_point_removes_move() {
    let mut w = combat_world(1, 0);
    w.entities[0].mv = Some(Move { speed: 100 });
    let mut cmds = CommandBuffer::new();
    player_system(&mut w, &mut cmds, 16);
    assert_eq!(w.entities[0].health, Some(Health(0)));
    assert!(w.entities[0].mv.is_some()); // removal is deferred
    apply_commands(&mut w, &cmds);
    assert!(w.entities[0].mv.is_none());
    assert!(w.entities[0].player.is_some()); // the entity itself survives
}

#[test]
fn decay_threshold_is_strict() {
    // age exactly at the limit: still present, merely ages
    let mut e = blank(0);
    e.decay = Some(Decay { max_time: 500, elapsed_time: 500 });
    let mut w = world_of(vec![e]);
    let mut cmds = CommandBuffer::new();
    decay_system(&mut w, &mut cmds, 16);
    apply_commands(&mut w, &cmds);
    assert_eq!(w.entities.len(), 1);
    assert_eq!(w.entities[0].decay.unwrap().elapsed_time, 516);
    // age strictly past the limit: destroyed at the tick boundary
    let mut cmds = CommandBuffer::new();
    decay_system(&mut w, &mut cmds, 16);
    apply_commands(&mut w, &cmds);
    assert_eq!(w.entities.len(), 0);
}

#[test]
fn steering_without_player_is_a_no_op() {
    let mut e = blank(0);
    e.rotate = Some(RotateToPlayer { speed: 2000 });
    e.transform.heading = 1234;
    let mut w = world_of(vec![e]);
    rotate_to_player_system(&mut w, 16);
    assert_eq!(w.entities[0].transform.heading, 1234);
}

#[test]
fn steering_turns_enemy_toward_player() {
    let mut p = blank(0);
    p.player = Some(Player);
    let mut e = blank(1);
    e.transform.x = POS_PER_UNIT; // east of the player, facing north
    e.rotate = Some(RotateToPlayer { speed: 2000 });
    let mut w = world_of(vec![p, e]);
    // allowed step: 2000 * 16 / 1000 = 32 toward the west (angle 1000)
    rotate_to_player_system(&mut w, 16);
    assert_eq!(w.entities[1].transform.heading, 32);
    // a huge step lands exactly on the target, never past it
    let mut w2 = combat_world(5, 2000);
    w2.entities[1].rotate = Some(RotateToPlayer { speed: 1000000000 });
    rotate_to_player_system(&mut w2, 16);
    assert_eq!(w2.entities[1].transform.heading, 1000);
}

#[test]
fn wave_growth_sequence_applies_ceiling_per_step() {
    let mut n: u32 = 10;
    let expected = [12u32, 15, 18, 22, 27];
    for e in expected {
        n = grow_enemies(n);
        assert_eq!(n, e);
    }
}

#[test]
fn wave_cycle_rolls_over_and_grows() {
    let mut round = RoundParams { round: 1, length: 10000, countdown: 400, enemies: 10 };
    let mut cmds = CommandBuffer::new();
    let none: Vec<Placement> = Vec::new();
    // countdown 400, dt 500: the cycle ends, the countdown refills,
    // the round steps and the wave grows
    enemy_system(&mut round, &mut cmds, &none, 500);
    assert_eq!(round.countdown, 10000);
    assert_eq!(round.round, 2);
    assert_eq!(round.enemies, 12);
    assert_eq!(cmds.spawns.len(), 0); // no spawn mid-cycle
}

#[test]
fn wave_spawns_exactly_at_cycle_start() {
    let mut round = RoundParams { round: 1, length: 10000, countdown: 10000, enemies: 2 };
    let mut cmds = CommandBuffer::new();
    let ps = vec![
        Placement { x: 0, y: 0, heading: 0 },
        Placement { x: POS_PER_UNIT, y: 0, heading: 1000 },
    ];
    enemy_system(&mut round, &mut cmds, &ps, 16);
    assert_eq!(cmds.spawns.len(), 2);
    assert!(cmds.spawns[0].proto.enemy.is_some());
    assert_eq!(cmds.spawns[1].proto.transform.heading, 1000);
    assert_eq!(round.countdown, 10000 - 16);
    // the next tick is past cycle start: no further spawn
    let mut cmds2 = CommandBuffer::new();
    let none: Vec<Placement> = Vec::new();
    enemy_system(&mut round, &mut cmds2, &none, 16);
    assert_eq!(cmds2.spawns.len(), 0);
}
