//! Simulation core of a top-down arena combat game.
//!
//! The world is advanced one tick at a time: enemy waves spawn on a
//! countdown, pursuers steer toward the player at a bounded angular rate,
//! entities move along their heading, circle overlaps resolve combat with
//! cooldown-gated damage, transient entities decay away, and a small state
//! machine drives the menu / in-game / game-over phases.
//!
//! All quantities are exact integers: positions in subunits (one world unit
//! is `POS_PER_UNIT` subunits), time in milliseconds, and headings in angle
//! units of `1/ANG_FULL` of a full turn, so every tick is deterministic and
//! frame-rate independent.

pub mod collision;
pub mod commands;
pub mod components;
pub mod game;
pub mod lifetime;
pub mod math;
pub mod player;
pub mod movement;
pub mod prefabs;
pub mod resources;
pub mod spawner;
pub mod states;
pub mod world;
