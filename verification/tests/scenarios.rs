//! Whole-tick scenarios: contact damage, bullet hits, the death and
//! game-over sequence, firing, aiming, arena bounds, and wave spawning
//! through the public tick entry.

use alone::components::{Bullet, Decay, Enemy, Health, HitCooldown, Move, Player, Sensor, Transform2};
use alone::game::{Game, TickInput};
use alone::math::{ANG_FULL, POS_PER_UNIT};
use alone::resources::{MouseWorldPos, RoundParams, BOUND_HALF_X};
use alone::spawner::{Placement, SPAWN_HALF_X, SPAWN_HALF_Y};
use alone::states::AppState;
use alone::world::{Entity, World};

fn blank(id: u64) -> Entity {
    Entity {
        id,
        parent: None,
        transform: Transform2 { x: 0, y: 0, heading: 0 },
        mv: None,
        rotate: None,
        sensor: None,
        health: None,
        cooldown: None,
        decay: None,
        player: None,
        enemy: None,
        bullet: None,
        dead: None,
    }
}

fn player_at_origin(health: i64, time_remains: i64) -> Entity {
    let mut p = blank(0);
    p.player = Some(Player);
    p.health = Some(Health(health));
    p.cooldown = Some(HitCooldown { time_full: 2000, time_remains });
    p.sensor = Some(Sensor { radius: 5 * POS_PER_UNIT });
    p.mv = Some(Move { speed: 100 });
    p
}

fn ingame(entities: Vec<Entity>) -> Game {
    let next_id = entities.iter().map(|e| e.id).max().map_or(0, |m| m + 1);
    Game {
        world: World { entities, next_id },
        round: RoundParams { round: 1, length: 10000, countdown: 5000, enemies: 10 },
        state: AppState::InGame,
        mouse: MouseWorldPos { x: 0, y: 0 },
    }
}

fn quiet(dt: i64) -> TickInput {
    TickInput {
        dt,
        up: false,
        down: false,
        left: false,
        right: false,
        aim: MouseWorldPos { x: 0, y: 0 },
        aim_active: false,
        fire: false,
    }
}

fn no_placements() -> Vec<Placement> {
    Vec::new()
}

#[test]
fn contact_damage_scenario() {
    // player at the origin with five hit points and an elapsed cooldown;
    // one enemy inside the combined radius
    let mut e = blank(1);
    e.transform.x = POS_PER_UNIT;
    e.enemy = Some(Enemy);
    e.sensor = Some(Sensor { radius: 7 * POS_PER_UNIT });
    let mut g = ingame(vec![player_at_origin(5, 0), e]);
    g.tick_placed(quiet(16), &no_placements());
    // one tick: one point of damage, the cooldown refills, the enemy lives
    assert_eq!(g.player_health(), Some(4));
    assert_eq!(g.world.entities[0].cooldown.unwrap().time_remains, 2000);
    assert_eq!(g.enemy_count(), 1);
    // a second tick well before the cooldown ends: health unchanged
    g.tick_placed(quiet(16), &no_placements());
    assert_eq!(g.player_health(), Some(4));
    assert_eq!(g.state, AppState::InGame);
}

#[test]
fn bullet_and_enemy_destroy_each_other() {
    let mut b = blank(1);
    b.transform.x = 100 * POS_PER_UNIT;
    b.transform.y = 100 * POS_PER_UNIT;
    b.bullet = Some(Bullet);
    b.sensor = Some(Sensor { radius: 3 * POS_PER_UNIT });
    b.mv = Some(Move { speed: 1000 });
    b.decay = Some(Decay { max_time: 500, elapsed_time: 0 });
    let mut e = blank(2);
    e.transform = b.transform;
    e.enemy = Some(Enemy);
    e.sensor = Some(Sensor { radius: 7 * POS_PER_UNIT });
    let mut g = ingame(vec![player_at_origin(5, 0), b, e]);
    g.tick_placed(quiet(0), &no_placements());
    // both the bullet and the enemy are gone; the player remains
    assert_eq!(g.world.entities.len(), 1);
    assert!(g.world.entities[0].player.is_some());
    assert_eq!(g.enemy_count(), 0);
}

#[test]
fn game_over_when_player_is_gone() {
    let mut e = blank(0);
    e.enemy = Some(Enemy);
    e.sensor = Some(Sensor { radius: 7 * POS_PER_UNIT });
    e.transform.x = 50 * POS_PER_UNIT;
    let mut g = ingame(vec![e]);
    g.tick_placed(quiet(16), &no_placements());
    assert_eq!(g.state, AppState::GameOver);
}

#[test]
fn death_decay_then_game_over() {
    // the player is at zero health and owns a visual sub-part
    let mut part = blank(1);
    part.parent = Some(0);
    part.transform.y = 1500000;
    let mut g = ingame(vec![player_at_origin(0, 2000), part]);

    // first tick: the death is resolved — Dead, a death decay, Move gone
    g.tick_placed(quiet(16), &no_placements());
    assert!(g.world.entities[0].dead.is_some());
    assert_eq!(g.world.entities[0].decay.unwrap().max_time, 3000);
    assert!(g.world.entities[0].mv.is_none());
    assert_eq!(g.state, AppState::InGame);

    // the decay runs its course
    g.tick_placed(quiet(3000), &no_placements());
    assert_eq!(g.world.entities[0].decay.unwrap().elapsed_time, 3000);
    g.tick_placed(quiet(16), &no_placements());
    assert_eq!(g.world.entities[0].decay.unwrap().elapsed_time, 3016);

    // now expired: the player and its sub-part leave as one subtree,
    // and only the next tick notices the player is gone
    g.tick_placed(quiet(16), &no_placements());
    assert_eq!(g.world.entities.len(), 0);
    assert_eq!(g.state, AppState::InGame);
    g.tick_placed(quiet(16), &no_placements());
    assert_eq!(g.state, AppState::GameOver);
}

#[test]
fn firing_spawns_a_bullet_at_the_muzzle() {
    let mut g = ingame(vec![player_at_origin(5, 0)]);
    let mut input = quiet(16);
    input.fire = true;
    g.tick_placed(input, &no_placements());
    assert_eq!(g.world.entities.len(), 2);
    let b = &g.world.entities[1];
    assert!(b.bullet.is_some());
    // two world units ahead of the player, which faces up
    assert_eq!(b.transform.x, 0);
    assert_eq!(b.transform.y, 2 * POS_PER_UNIT);
    assert_eq!(b.mv.unwrap().speed, 1000);
    assert_eq!(b.sensor.unwrap().radius, 3 * POS_PER_UNIT);
    assert_eq!(b.decay.unwrap(), Decay { max_time: 500, elapsed_time: 0 });
}

#[test]
fn aiming_turns_the_player() {
    let mut g = ingame(vec![player_at_origin(5, 0)]);
    let mut input = quiet(0);
    input.aim = MouseWorldPos { x: 10 * POS_PER_UNIT, y: 0 };
    input.aim_active = true;
    g.tick_placed(input, &no_placements());
    // aiming due east turns the heading to the east angle
    assert_eq!(g.world.entities[0].transform.heading, 3000);
    assert_eq!(g.mouse, MouseWorldPos { x: 10 * POS_PER_UNIT, y: 0 });
    // aiming at the player's own position leaves the heading alone
    let mut input2 = quiet(0);
    input2.aim = MouseWorldPos { x: 0, y: 0 };
    input2.aim_active = true;
    g.tick_placed(input2, &no_placements());
    assert_eq!(g.world.entities[0].transform.heading, 3000);
}

#[test]
fn player_movement_is_held_inside_the_arena() {
    let mut g = ingame(vec![player_at_origin(5, 0)]);
    let mut input = quiet(60000);
    input.right = true;
    // 100 units/s for 60 s would be 6000 units; the arena stops it
    g.tick_placed(input, &no_placements());
    assert_eq!(g.world.entities[0].transform.x, BOUND_HALF_X);
    assert_eq!(g.world.entities[0].transform.y, 0);
}

#[test]
fn diagonal_intent_splits_speed_exactly() {
    let mut g = ingame(vec![player_at_origin(5, 0)]);
    let mut input = quiet(16);
    input.up = true;
    input.right = true;
    g.tick_placed(input, &no_placements());
    // taxicab-normalized diagonal: half the forward scale per axis
    assert_eq!(g.world.entities[0].transform.x, 500 * 100 * 16);
    assert_eq!(g.world.entities[0].transform.y, 500 * 100 * 16);
}

#[test]
fn start_spawns_player_and_resets_round() {
    let mut g = Game::new();
    assert_eq!(g.state, AppState::Menu);
    assert_eq!(g.player_health(), None);
    g.start();
    assert_eq!(g.state, AppState::InGame);
    assert_eq!(g.player_health(), Some(5));
    assert_eq!(g.enemy_count(), 0);
    assert_eq!(g.round.round, 1);
    assert_eq!(g.round.countdown, g.round.length);
    // the player's sub-part came with it, as its child
    assert_eq!(g.world.entities.len(), 2);
    assert_eq!(g.world.entities[1].parent, Some(g.world.entities[0].id));
}

#[test]
fn restart_purges_leftover_enemies() {
    let mut e = blank(7);
    e.enemy = Some(Enemy);
    e.sensor = Some(Sensor { radius: 7 * POS_PER_UNIT });
    let mut g = ingame(vec![e]);
    g.state = AppState::GameOver;
    g.round = RoundParams { round: 4, length: 10000, countdown: 300, enemies: 22 };
    g.start();
    assert_eq!(g.state, AppState::InGame);
    assert_eq!(g.enemy_count(), 0);
    assert_eq!(g.player_health(), Some(5));
    assert_eq!(g.round.round, 1);
    assert_eq!(g.round.enemies, 10);
}

#[test]
fn start_while_in_game_changes_nothing() {
    let mut g = ingame(vec![player_at_origin(3, 0)]);
    g.start();
    assert_eq!(g.player_health(), Some(3));
    assert_eq!(g.world.entities.len(), 1);
}

#[test]
fn first_tick_spawns_a_wave_inside_the_rectangle() {
    let mut g = Game::new();
    g.start();
    // countdown equals length, so the first tick spawns the whole wave
    g.tick(quiet(16));
    assert_eq!(g.enemy_count(), 10);
    for e in g.world.entities.iter().filter(|e| e.enemy.is_some()) {
        // spawned inside the rectangle, then integrated for one tick of
        // at most 0.8 units — a unit of slack covers it
        assert!(e.transform.x >= -SPAWN_HALF_X - POS_PER_UNIT);
        assert!(e.transform.x <= SPAWN_HALF_X + POS_PER_UNIT);
        assert!(e.transform.y >= -SPAWN_HALF_Y - POS_PER_UNIT);
        assert!(e.transform.y <= SPAWN_HALF_Y + POS_PER_UNIT);
        assert!(e.transform.heading >= 0 && e.transform.heading < ANG_FULL);
        assert_eq!(e.mv.unwrap().speed, 50);
        assert_eq!(e.sensor.unwrap().radius, 7 * POS_PER_UNIT);
    }
    assert_eq!(g.round.countdown, g.round.length - 16);
    // no second wave mid-cycle
    g.tick(quiet(16));
    assert_eq!(g.enemy_count(), 10);
}

#[test]
fn menu_phase_still_moves_and_decays() {
    let mut b = blank(0);
    b.bullet = Some(Bullet);
    b.mv = Some(Move { speed: 1000 });
    b.decay = Some(Decay { max_time: 500, elapsed_time: 400 });
    let mut g = ingame(vec![b]);
    g.state = AppState::Menu;
    g.tick_placed(quiet(16), &no_placements());
    // integration ran: one tick at 1000 units/s
    assert_eq!(g.world.entities[0].transform.y, 1000 * 16 * 1000);
    assert_eq!(g.world.entities[0].decay.unwrap().elapsed_time, 416);
    // and the lifetime manager eventually removes it
    g.tick_placed(quiet(16000), &no_placements());
    g.tick_placed(quiet(16), &no_placements());
    assert_eq!(g.world.entities.len(), 0);
    assert_eq!(g.state, AppState::Menu);
}

#[test]
fn random_spawn_points_stay_in_range() {
    for _ in 0..50 {
        let (x, y) = alone::spawner::random_2d(-10, 10, 5, 6);
        assert!(x >= -10 && x < 10);
        assert!(y == 5);
    }
    let ps = alone::spawner::draw_placements(40);
    assert_eq!(ps.len(), 40);
    for p in &ps {
        assert!(p.x >= -SPAWN_HALF_X && p.x < SPAWN_HALF_X);
        assert!(p.y >= -SPAWN_HALF_Y && p.y < SPAWN_HALF_Y);
        assert!(p.heading >= 0 && p.heading < ANG_FULL);
    }
}
