//! The tick scheduler and the phase controller.
//!
//! A `Game` owns the entity store and the singleton resources and runs
//! one tick at a time in a fixed order: wave spawner — steering —
//! player-intent movement — aim — integration — fire — bullet hits —
//! player contact damage — death resolution — lifetime — phase check —
//! then the whole command batch is applied atomically at the tick
//! boundary. The spawner, combat, steering and player intents run only
//! in game; integration and the lifetime manager run in every phase.

use vstd::prelude::*;
use crate::collision::{bullet_despawn_seq, bullet_system, player_combat_entities, player_combat_removes, player_system};
use crate::commands::{CommandBuffer, SpawnRequest, apply_commands, edited_entity, spawned_seq, survivors, wf_cmds};
use crate::components::Decay;
use crate::lifetime::{decay_despawn_seq, decay_system, decayed_entity};
use crate::math::DT_MAX;
use crate::movement::{move_system, moved_entity, rotate_all, rotate_to_player_system};
use crate::player::{aim_system, aimed_entities, died_marks, died_system, fire_spawns, fire_system, intent_moved_entities, movement_system};
use crate::prefabs::{player_bundle, player_part, spec_player_bundle, spec_player_part};
use crate::resources::{MouseWorldPos, ROUND_LENGTH, ROUND_START_ENEMIES, RoundParams, valid_mouse, wf_round};
use crate::spawner::{Placement, draw_placements, enemy_request, enemy_system, spawn_count, spec_round_tick, valid_placement};
use crate::states::AppState;
use crate::world::{Entity, MAX_ENTITIES, World, find_player, player_index, wf_world};

verus! {

/// The already-resolved intents one tick consumes: the elapsed time, the
/// directional movement intent, the aim position in world coordinates
/// (`aim_active` says whether an aim position was resolved at all this
/// tick), and the fire edge.
#[derive(Clone, Copy, PartialEq, Eq, Structural, Debug)]
pub struct TickInput {
    pub dt: i64,
    pub up: bool,
    pub down: bool,
    pub left: bool,
    pub right: bool,
    pub aim: MouseWorldPos,
    pub aim_active: bool,
    pub fire: bool,
}

/// An input the simulation accepts: a bounded tick and an aim position
/// in range.
pub open spec fn valid_input(i: TickInput) -> bool {
    &&& 0 <= i.dt <= DT_MAX
    &&& valid_mouse(i.aim)
}

/// The whole simulation: the entity store, the spawner state, the phase,
/// and the last resolved aim position.
pub struct Game {
    pub world: World,
    pub round: RoundParams,
    pub state: AppState,
    pub mouse: MouseWorldPos,
}

/// Every part of the game is well-formed.
pub open spec fn wf_game(g: Game) -> bool {
    &&& wf_world(g.world)
    &&& wf_round(g.round)
    &&& valid_mouse(g.mouse)
}

/// Identifiers of the enemies among the first `n` entities, in order.
pub open spec fn enemy_ids_upto(s: Seq<Entity>, n: int) -> Seq<u64>
    decreases n,
{
    if n <= 0 {
        Seq::empty()
    } else {
        let prev = enemy_ids_upto(s, n - 1);
        if s[n - 1].enemy is Some {
            prev.push(s[n - 1].id)
        } else {
            prev
        }
    }
}

/// Identifiers of all enemies, in order.
pub open spec fn enemy_ids(s: Seq<Entity>) -> Seq<u64> {
    enemy_ids_upto(s, s.len() as int)
}

/// The two spawn requests entering the game records: the player and its
/// visual sub-part, the part a child of the player.
pub open spec fn player_spawn_reqs() -> Seq<SpawnRequest> {
    seq![
        SpawnRequest { proto: spec_player_bundle(), parent_spawn: None },
        SpawnRequest { proto: spec_player_part(), parent_spawn: Some(0usize) },
    ]
}

/// Record the player's spawn: the player entity and its sub-part child.
pub fn spawn_player(cmds: &mut CommandBuffer)
    requires
        wf_cmds(*old(cmds)),
    ensures
        final(cmds).spawns@ == old(cmds).spawns@ + player_spawn_reqs(),
        final(cmds).despawns@ == old(cmds).despawns@,
        final(cmds).remove_moves@ == old(cmds).remove_moves@,
        final(cmds).mark_dead@ == old(cmds).mark_dead@,
        wf_cmds(*final(cmds)),
{
    let p = player_bundle();
    let part = player_part();
    cmds.spawns.push(SpawnRequest { proto: p, parent_spawn: None });
    cmds.spawns.push(SpawnRequest { proto: part, parent_spawn: Some(0) });
    proof {
        assert(cmds.spawns@ =~= old(cmds).spawns@ + player_spawn_reqs());
    }
}

/// With nothing to remove and nothing to mark, an edit changes nothing.
proof fn lemma_edited_nothing(e: Entity, removes: Seq<u64>, marks: Seq<(u64, Decay)>)
    requires
        removes.len() == 0,
        marks.len() == 0,
    ensures
        edited_entity(e, removes, marks) == e,
{
}

/// Enter (or re-enter) the running game: destroy every leftover enemy
/// subtree, spawn a fresh player with its sub-part, and reset the
/// spawner to the first round with a full countdown, so the first wave
/// spawns on the very next tick. Leftover bullets are deliberately not
/// purged: they carry a time-to-live, and the lifetime manager, which
/// runs in every phase, removes them by itself.
pub fn setup_game(w: &mut World, round: &mut RoundParams)
    requires
        wf_world(*old(w)),
        old(w).entities@.len() + 2 <= MAX_ENTITIES,
        old(w).next_id + 2 <= u64::MAX,
    ensures
        final(w).entities@ == survivors(old(w).entities@, enemy_ids(old(w).entities@))
            + spawned_seq(player_spawn_reqs(), old(w).next_id as int),
        final(w).next_id == old(w).next_id + 2,
        wf_world(*final(w)),
        *final(round) == (RoundParams {
            round: 1,
            length: ROUND_LENGTH,
            countdown: ROUND_LENGTH,
            enemies: ROUND_START_ENEMIES,
        }),
        wf_round(*final(round)),
{
    let ghost s0 = w.entities@;
    let mut cmds = CommandBuffer::new();
    let n = w.entities.len();
    let mut k: usize = 0;
    while k < n
        invariant
            n == w.entities@.len(),
            w.entities@ == s0,
            0 <= k <= n,
            cmds.despawns@ == enemy_ids_upto(s0, k as int),
            cmds.remove_moves@.len() == 0,
            cmds.mark_dead@.len() == 0,
            cmds.spawns@.len() == 0,
        decreases n - k,
    {
        let e = &w.entities[k];
        if e.enemy.is_some() {
            cmds.despawns.push(e.id);
            proof {
                assert(cmds.despawns@ =~= enemy_ids_upto(s0, k + 1));
            }
        }
        k = k + 1;
    }
    spawn_player(&mut cmds);
    proof {
        assert(cmds.spawns@ =~= player_spawn_reqs());
    }
    apply_commands(w, &cmds);
    proof {
        let surv = survivors(s0, enemy_ids(s0));
        assert(w.entities@ =~= surv + spawned_seq(player_spawn_reqs(), old(w).next_id as int)) by {
            assert forall|i: int| 0 <= i < surv.len() implies surv.map_values(
                |e: Entity| edited_entity(e, cmds.remove_moves@, cmds.mark_dead@),
            )[i] == surv[i] by {
                lemma_edited_nothing(surv[i], cmds.remove_moves@, cmds.mark_dead@);
            }
        }
    }
    *round = RoundParams {
        round: 1,
        length: ROUND_LENGTH,
        countdown: ROUND_LENGTH,
        enemies: ROUND_START_ENEMIES,
    };
}

/// The entity table after the in-game movement stages: steering toward
/// the player, the player's intent movement inside the arena bounds, the
/// instant aim (when an aim position was resolved), then integration of
/// every mover along its heading.
pub open spec fn ingame_moved(s: Seq<Entity>, input: TickInput) -> Seq<Entity> {
    let s1 = rotate_all(s, input.dt as int);
    let s2 = intent_moved_entities(s1, input.up, input.down, input.left, input.right, input.dt as int);
    let s3 = if input.aim_active {
        aimed_entities(s2, input.aim.x as int, input.aim.y as int)
    } else {
        s2
    };
    s3.map_values(|e: Entity| moved_entity(e, input.dt as int))
}

/// The entity table after the in-game mutating stages: movement, then
/// player contact damage, then aging of every transient.
pub open spec fn ingame_mutated(s: Seq<Entity>, input: TickInput) -> Seq<Entity> {
    let s4 = ingame_moved(s, input);
    let s5 = player_combat_entities(s4, input.dt as int);
    s5.map_values(|e: Entity| decayed_entity(e, input.dt as int))
}

/// The despawns one in-game tick records: bullet hits (each bullet and
/// its first overlapping enemy), then every expired transient.
pub open spec fn ingame_despawns(s: Seq<Entity>, input: TickInput) -> Seq<u64> {
    let s4 = ingame_moved(s, input);
    let s5 = player_combat_entities(s4, input.dt as int);
    bullet_despawn_seq(s4) + decay_despawn_seq(s5)
}

/// The spawns one in-game tick records: the wave's enemies (at cycle
/// start), then a bullet on a fire edge.
pub open spec fn ingame_spawn_reqs(s: Seq<Entity>, input: TickInput, ps: Seq<Placement>) -> Seq<
    SpawnRequest,
> {
    let s4 = ingame_moved(s, input);
    ps.map_values(|p: Placement| enemy_request(p)) + fire_spawns(s4, input.fire)
}

/// The entity table an in-game tick ends with, after the command batch
/// is applied at the tick boundary.
pub open spec fn ingame_tick_entities(s: Seq<Entity>, input: TickInput, ps: Seq<Placement>, base: int) -> Seq<Entity> {
    let s4 = ingame_moved(s, input);
    let s5 = player_combat_entities(s4, input.dt as int);
    let s6 = ingame_mutated(s, input);
    survivors(s6, ingame_despawns(s, input)).map_values(
        |e: Entity| edited_entity(e, player_combat_removes(s4), died_marks(s5)),
    ) + spawned_seq(ingame_spawn_reqs(s, input, ps), base)
}

/// The entity table a menu or game-over tick ends with: integration and
/// the lifetime manager still run, and the expired transients are
/// removed at the tick boundary.
pub open spec fn off_tick_entities(s: Seq<Entity>, dt: int) -> Seq<Entity> {
    let s1 = s.map_values(|e: Entity| moved_entity(e, dt));
    let s2 = s1.map_values(|e: Entity| decayed_entity(e, dt));
    survivors(s2, decay_despawn_seq(s1))
}

/// What one tick does to the whole game, given the placements the wave
/// (if due) used: the relation `tick` establishes between the old and
/// the new state.
pub open spec fn tick_rel(g0: Game, g1: Game, input: TickInput, ps: Seq<Placement>) -> bool {
    if g0.state is InGame {
        &&& g1.world.entities@ == ingame_tick_entities(
            g0.world.entities@,
            input,
            ps,
            g0.world.next_id as int,
        )
        &&& g1.world.next_id == g0.world.next_id + ingame_spawn_reqs(
            g0.world.entities@,
            input,
            ps,
        ).len()
        &&& g1.round == spec_round_tick(g0.round, input.dt as int)
        &&& g1.state == (if player_index(ingame_mutated(g0.world.entities@, input)) == -1 {
            AppState::GameOver
        } else {
            AppState::InGame
        })
        &&& g1.mouse == (if input.aim_active {
            input.aim
        } else {
            g0.mouse
        })
    } else {
        &&& g1.world.entities@ == off_tick_entities(g0.world.entities@, input.dt as int)
        &&& g1.world.next_id == g0.world.next_id
        &&& g1.round == g0.round
        &&& g1.state == g0.state
        &&& g1.mouse == g0.mouse
    }
}

/// How many placements one tick needs: a full wave when in game exactly
/// at cycle start, none otherwise.
pub open spec fn placements_needed(g: Game) -> int {
    if g.state is InGame {
        spawn_count(g.round)
    } else {
        0
    }
}

impl Game {
    /// A fresh game: empty world, first-round spawner state, the menu
    /// phase.
    pub fn new() -> (g: Game)
        ensures
            g.world.entities@.len() == 0,
            g.world.next_id == 0,
            g.mouse == (MouseWorldPos { x: 0, y: 0 }),
            g.round == (RoundParams {
                round: 1,
                length: ROUND_LENGTH,
                countdown: ROUND_LENGTH,
                enemies: ROUND_START_ENEMIES,
            }),
            g.state is Menu,
            wf_game(g),
    {
        Game {
            world: World::new(),
            round: RoundParams::initial(),
            state: AppState::Menu,
            mouse: MouseWorldPos { x: 0, y: 0 },
        }
    }

    /// The start (or restart) intent from the menu or the game-over
    /// screen: enter the running game with a fresh player and spawner
    /// state; leftover enemies are destroyed. A no-op while already in
    /// game.
    pub fn start(&mut self)
        requires
            wf_game(*old(self)),
            old(self).world.entities@.len() + 2 <= MAX_ENTITIES,
            old(self).world.next_id + 2 <= u64::MAX,
        ensures
            wf_game(*final(self)),
            old(self).state is InGame ==> *final(self) == *old(self),
            !(old(self).state is InGame) ==> {
                &&& final(self).world.entities@ == survivors(
                    old(self).world.entities@,
                    enemy_ids(old(self).world.entities@),
                ) + spawned_seq(player_spawn_reqs(), old(self).world.next_id as int)
                &&& final(self).world.next_id == old(self).world.next_id + 2
                &&& final(self).round == (RoundParams {
                    round: 1,
                    length: ROUND_LENGTH,
                    countdown: ROUND_LENGTH,
                    enemies: ROUND_START_ENEMIES,
                })
                &&& final(self).state is InGame
                &&& final(self).mouse == old(self).mouse
            },
    {
        match self.state {
            AppState::InGame => {},
            _ => {
                setup_game(&mut self.world, &mut self.round);
                self.state = AppState::InGame;
            },
        }
    }

    /// How many enemies the table holds right now — part of the
    /// queryable snapshot the host renders.
    pub fn enemy_count(&self) -> (n: usize)
        ensures
            n == enemy_ids(self.world.entities@).len(),
    {
        let ghost s = self.world.entities@;
        let m = self.world.entities.len();
        let mut c: usize = 0;
        let mut k: usize = 0;
        while k < m
            invariant
                m == s.len(),
                s == self.world.entities@,
                0 <= k <= m,
                c == enemy_ids_upto(s, k as int).len(),
                c <= k,
            decreases m - k,
        {
            if self.world.entities[k].enemy.is_some() {
                c = c + 1;
            }
            k = k + 1;
        }
        c
    }

    /// The player's current health, if a player entity with health
    /// exists — part of the queryable snapshot the host renders.
    pub fn player_health(&self) -> (r: Option<i64>)
        ensures
            ({
                let s = self.world.entities@;
                let pi = player_index(s);
                if pi >= 0 && s[pi].health is Some {
                    r == Some((s[pi].health->0).0)
                } else {
                    r is None
                }
            }),
    {
        match find_player(&self.world.entities) {
            Some(pi) => {
                match self.world.entities[pi].health {
                    Some(h) => Some(h.0),
                    None => None,
                }
            },
            None => None,
        }
    }

    /// One tick with the wave's placements handed in, so the whole step
    /// is a function of its arguments. While in game the systems run in
    /// the fixed order and the command batch is applied at the end; in
    /// the other phases only integration and the lifetime manager run.
    /// The phase falls to game over on the first tick that begins with
    /// no player entity in the table.
    pub fn tick_placed(&mut self, input: TickInput, placements: &Vec<Placement>)
        requires
            wf_game(*old(self)),
            valid_input(input),
            placements@.len() == placements_needed(*old(self)),
            forall|i: int|
                0 <= i < placements@.len() ==> valid_placement(#[trigger] placements@[i]),
            old(self).world.entities@.len() + placements@.len() + 1 <= MAX_ENTITIES,
            old(self).world.next_id + placements@.len() + 1 <= u64::MAX,
        ensures
            wf_game(*final(self)),
            tick_rel(*old(self), *final(self), input, placements@),
    {
        let ghost g0 = *old(self);
        let ghost s0 = self.world.entities@;
        let dt = input.dt;
        match self.state {
            AppState::InGame => {
                let mut cmds = CommandBuffer::new();
                enemy_system(&mut self.round, &mut cmds, placements, dt);
                rotate_to_player_system(&mut self.world, dt);
                movement_system(&mut self.world, input.up, input.down, input.left, input.right, dt);
                if input.aim_active {
                    self.mouse = input.aim;
                    let m = self.mouse;
                    aim_system(&mut self.world, m);
                }
                move_system(&mut self.world, dt);
                let ghost s4 = self.world.entities@;
                assert(s4 == ingame_moved(s0, input));
                fire_system(&self.world, &mut cmds, input.fire);
                bullet_system(&self.world, &mut cmds);
                player_system(&mut self.world, &mut cmds, dt);
                let ghost s5 = self.world.entities@;
                died_system(&self.world, &mut cmds);
                decay_system(&mut self.world, &mut cmds, dt);
                let ghost s6 = self.world.entities@;
                assert(s6 == ingame_mutated(s0, input));
                proof {
                    assert(cmds.despawns@ =~= ingame_despawns(s0, input));
                    assert(cmds.spawns@ =~= ingame_spawn_reqs(s0, input, placements@));
                    assert(cmds.remove_moves@ =~= player_combat_removes(s4));
                    assert(cmds.mark_dead@ =~= died_marks(s5));
                }
                let missing = find_player(&self.world.entities).is_none();
                proof {
                    let dtt = input.dt as int;
                    let s1 = rotate_all(s0, dtt);
                    assert(s1.len() == s0.len());
                    crate::world::lemma_player_index(s1);
                    let s2 = intent_moved_entities(
                        s1,
                        input.up,
                        input.down,
                        input.left,
                        input.right,
                        dtt,
                    );
                    assert(s2.len() == s1.len());
                    crate::world::lemma_player_index(s2);
                    let s3 = if input.aim_active {
                        aimed_entities(s2, input.aim.x as int, input.aim.y as int)
                    } else {
                        s2
                    };
                    assert(s3.len() == s2.len());
                    assert(s4.len() == s3.len());
                    crate::world::lemma_player_index(s4);
                    assert(s5.len() == s4.len());
                    assert(s6.len() == s5.len());
                    assert(self.world.entities@.len() == s0.len());
                    assert(cmds.spawns@.len() <= placements@.len() + 1);
                }
                apply_commands(&mut self.world, &cmds);
                proof {
                    let base = g0.world.next_id as int;
                    let surv = survivors(s6, ingame_despawns(s0, input));
                    let ea = surv.map_values(
                        |e: Entity| edited_entity(e, cmds.remove_moves@, cmds.mark_dead@),
                    );
                    let eb = surv.map_values(
                        |e: Entity| edited_entity(e, player_combat_removes(s4), died_marks(s5)),
                    );
                    assert forall|i: int| 0 <= i < surv.len() implies #[trigger] ea[i] == eb[i]
                    by {}
                    assert(ea =~= eb);
                    assert(self.world.entities@ =~= ingame_tick_entities(
                        s0,
                        input,
                        placements@,
                        base,
                    ));
                }
                if missing {
                    self.state = AppState::GameOver;
                }
            },
            _ => {
                let mut cmds = CommandBuffer::new();
                move_system(&mut self.world, dt);
                let ghost s1 = self.world.entities@;
                decay_system(&mut self.world, &mut cmds, dt);
                let ghost s2 = self.world.entities@;
                apply_commands(&mut self.world, &cmds);
                proof {
                    assert(cmds.despawns@ =~= decay_despawn_seq(s1));
                    let surv = survivors(s2, decay_despawn_seq(s1));
                    assert(self.world.entities@ =~= off_tick_entities(s0, dt as int)) by {
                        assert forall|i: int| 0 <= i < surv.len() implies surv.map_values(
                            |e: Entity| edited_entity(e, cmds.remove_moves@, cmds.mark_dead@),
                        )[i] == surv[i] by {
                            lemma_edited_nothing(surv[i], cmds.remove_moves@, cmds.mark_dead@);
                        }
                        assert(spawned_seq(cmds.spawns@, old(self).world.next_id as int) =~= Seq::<
                            Entity,
                        >::empty());
                    }
                }
            },
        }
    }

    /// One tick. When a wave is due its placements are drawn uniformly
    /// at random from the spawn rectangle; everything else the tick does
    /// is a function of the game state and the input.
    pub fn tick(&mut self, input: TickInput)
        requires
            wf_game(*old(self)),
            valid_input(input),
            old(self).world.entities@.len() + placements_needed(*old(self)) + 1 <= MAX_ENTITIES,
            old(self).world.next_id + placements_needed(*old(self)) + 1 <= u64::MAX,
        ensures
            wf_game(*final(self)),
            exists|ps: Seq<Placement>|
                {
                    &&& ps.len() == placements_needed(*old(self))
                    &&& (forall|i: int| 0 <= i < ps.len() ==> valid_placement(#[trigger] ps[i]))
                    &&& tick_rel(*old(self), *final(self), input, ps)
                },
    {
        let due = match self.state {
            AppState::InGame => self.round.countdown == self.round.length,
            _ => false,
        };
        let n: u32 = if due {
            self.round.enemies
        } else {
            0
        };
        let ps = draw_placements(n);
        self.tick_placed(input, &ps);
        proof {
            let w = ps@;
            assert(w.len() == placements_needed(*old(self)) && (forall|i: int|
                0 <= i < w.len() ==> valid_placement(#[trigger] w[i])) && tick_rel(
                *old(self),
                *self,
                input,
                w,
            ));
        }
    }
}

} // verus!
