//! Prototypes of the three entity kinds, with their fixed default
//! magnitudes: speeds, turn rate, radii, timers.

use vstd::prelude::*;
use crate::components::{Bullet, Decay, Enemy, Health, HitCooldown, Move, Player, RotateToPlayer, Sensor, Transform2, valid_transform};
use crate::math::{ANG_HALF, POS_PER_UNIT};
use crate::world::{Entity, valid_entity};

verus! {

/// Player linear speed, world units per second.
pub const PLAYER_SPEED: i64 = 100;

/// Player hit points at spawn.
pub const PLAYER_HEALTH: i64 = 5;

/// Player damage-cooldown refill, milliseconds.
pub const PLAYER_COOLDOWN: i64 = 2000;

/// Player sensor radius, position subunits.
pub const PLAYER_RADIUS: i64 = 5 * POS_PER_UNIT;

/// Offset of the player's visual sub-part above the player.
pub const PLAYER_PART_OFFSET_Y: i64 = 1500000;

/// Enemy linear speed, world units per second.
pub const ENEMY_SPEED: i64 = 50;

/// Enemy turn rate, angle units per second: half a turn each second.
pub const ENEMY_ROT_SPEED: i64 = ANG_HALF;

/// Enemy sensor radius, position subunits.
pub const ENEMY_RADIUS: i64 = 7 * POS_PER_UNIT;

/// Bullet linear speed, world units per second.
pub const BULLET_SPEED: i64 = 1000;

/// Bullet sensor radius, position subunits.
pub const BULLET_RADIUS: i64 = 3 * POS_PER_UNIT;

/// Bullet time-to-live, milliseconds.
pub const BULLET_DECAY: i64 = 500;

/// Time between the player's death and its removal, milliseconds.
pub const DEATH_DECAY: i64 = 3000;

/// A bullet at the given transform: it moves, decays, and senses enemies.
/// Identifier and parent are assigned when the spawn batch is applied.
pub open spec fn spec_bullet_bundle(t: Transform2) -> Entity {
    Entity {
        id: 0,
        parent: None,
        transform: t,
        mv: Some(Move { speed: BULLET_SPEED }),
        rotate: None,
        sensor: Some(Sensor { radius: BULLET_RADIUS }),
        health: None,
        cooldown: None,
        decay: Some(Decay { max_time: BULLET_DECAY, elapsed_time: 0 }),
        player: None,
        enemy: None,
        bullet: Some(Bullet),
        dead: None,
    }
}

/// A bullet at the given transform.
pub fn bullet_bundle(t: Transform2) -> (e: Entity)
    ensures
        e == spec_bullet_bundle(t),
        valid_transform(t) ==> valid_entity(e),
{
    Entity {
        id: 0,
        parent: None,
        transform: t,
        mv: Some(Move { speed: BULLET_SPEED }),
        rotate: None,
        sensor: Some(Sensor { radius: BULLET_RADIUS }),
        health: None,
        cooldown: None,
        decay: Some(Decay { max_time: BULLET_DECAY, elapsed_time: 0 }),
        player: None,
        enemy: None,
        bullet: Some(Bullet),
        dead: None,
    }
}

/// An enemy at the given transform: it moves, steers toward the player,
/// and senses the player and bullets.
pub open spec fn spec_enemy_bundle(t: Transform2) -> Entity {
    Entity {
        id: 0,
        parent: None,
        transform: t,
        mv: Some(Move { speed: ENEMY_SPEED }),
        rotate: Some(RotateToPlayer { speed: ENEMY_ROT_SPEED }),
        sensor: Some(Sensor { radius: ENEMY_RADIUS }),
        health: None,
        cooldown: None,
        decay: None,
        player: None,
        enemy: Some(Enemy),
        bullet: None,
        dead: None,
    }
}

/// An enemy at the given transform.
pub fn enemy_bundle(t: Transform2) -> (e: Entity)
    ensures
        e == spec_enemy_bundle(t),
        valid_transform(t) ==> valid_entity(e),
{
    Entity {
        id: 0,
        parent: None,
        transform: t,
        mv: Some(Move { speed: ENEMY_SPEED }),
        rotate: Some(RotateToPlayer { speed: ENEMY_ROT_SPEED }),
        sensor: Some(Sensor { radius: ENEMY_RADIUS }),
        health: None,
        cooldown: None,
        decay: None,
        player: None,
        enemy: Some(Enemy),
        bullet: None,
        dead: None,
    }
}

/// The player at the origin, facing up, with its default components.
pub open spec fn spec_player_bundle() -> Entity {
    Entity {
        id: 0,
        parent: None,
        transform: Transform2 { x: 0, y: 0, heading: 0 },
        mv: Some(Move { speed: PLAYER_SPEED }),
        rotate: None,
        sensor: Some(Sensor { radius: PLAYER_RADIUS }),
        health: Some(Health(PLAYER_HEALTH)),
        cooldown: Some(HitCooldown { time_full: PLAYER_COOLDOWN, time_remains: 0 }),
        decay: None,
        player: Some(Player),
        enemy: None,
        bullet: None,
        dead: None,
    }
}

/// The player's visual sub-part: a bare child entity destroyed with the
/// player's subtree.
pub open spec fn spec_player_part() -> Entity {
    Entity {
        id: 0,
        parent: None,
        transform: Transform2 { x: 0, y: PLAYER_PART_OFFSET_Y, heading: 0 },
        mv: None,
        rotate: None,
        sensor: None,
        health: None,
        cooldown: None,
        decay: None,
        player: None,
        enemy: None,
        bullet: None,
        dead: None,
    }
}

/// The player prototype.
pub fn player_bundle() -> (e: Entity)
    ensures
        e == spec_player_bundle(),
        valid_entity(e),
{
    Entity {
        id: 0,
        parent: None,
        transform: Transform2 { x: 0, y: 0, heading: 0 },
        mv: Some(Move { speed: PLAYER_SPEED }),
        rotate: None,
        sensor: Some(Sensor { radius: PLAYER_RADIUS }),
        health: Some(Health(PLAYER_HEALTH)),
        cooldown: Some(HitCooldown { time_full: PLAYER_COOLDOWN, time_remains: 0 }),
        decay: None,
        player: Some(Player),
        enemy: None,
        bullet: None,
        dead: None,
    }
}

/// The player's visual sub-part prototype.
pub fn player_part() -> (e: Entity)
    ensures
        e == spec_player_part(),
        valid_entity(e),
{
    Entity {
        id: 0,
        parent: None,
        transform: Transform2 { x: 0, y: PLAYER_PART_OFFSET_Y, heading: 0 },
        mv: None,
        rotate: None,
        sensor: None,
        health: None,
        cooldown: None,
        decay: None,
        player: None,
        enemy: None,
        bullet: None,
        dead: None,
    }
}

} // verus!
