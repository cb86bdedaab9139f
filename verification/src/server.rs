//! The server's global state: world bounds, game state, id generators
//! and pending movement orders, with the invariant that ties them
//! together.
//!
//! At runtime each field sits behind its own lock and the loops outside
//! the library call the free functions on the locked pieces, acquiring
//! in the fixed order world, then game state, then pending targets. The
//! aggregate methods here show that every operation of the core — the
//! handshake, command ingestion and the simulation tick — preserves the
//! global invariant, so no interleaving of completed critical sections
//! can corrupt the state.

use std::collections::HashMap;
use vstd::prelude::*;

use crate::command::{clamp_target, handle_command, lemma_clamp_target, Command, command_post};
use crate::ids::IdGenerator;
use crate::session::{
    handle_client, handshake_post, server_inv, start_positions, Message, UNIT_START_EXTENT,
};
use crate::sim::{lemma_tick_preserves_bounds, tick_post, unit_after_tick, update_world};
use crate::state::{GameState, Vec2, WorldState, MAX_COORD};

verus! {

broadcast use vstd::std_specs::hash::group_hash_axioms;

/// The whole authoritative server state.
pub struct Server {
    /// Immutable world bounds, written once at startup.
    pub world: WorldState,
    /// The canonical game state: all players and their units.
    pub game: GameState,
    /// Generator for client (= player) ids.
    pub client_ids: IdGenerator,
    /// Generator for unit ids.
    pub unit_ids: IdGenerator,
    /// Pending movement orders, one at most per unit id.
    pub unit_targets: HashMap<u32, Vec2>,
}

impl Server {
    /// The global invariant: well-formed world and generators, pairwise
    /// distinct player and unit ids, all ids below their generator's
    /// next id, every unit within the world rectangle, a world large
    /// enough for the starting layout, and every pending target within
    /// the world rectangle.
    pub open spec fn inv(self) -> bool {
        &&& server_inv(self.world, self.game, self.client_ids, self.unit_ids)
        &&& UNIT_START_EXTENT <= self.world.x && UNIT_START_EXTENT <= self.world.y
        &&& forall|id: u32|
            self.unit_targets@.contains_key(id) ==> self.world.contains(
                #[trigger] self.unit_targets@[id],
            )
    }

    /// Creates a fresh server over a world of the given bounds, with no
    /// players, no pending orders, and both id counters at zero. The
    /// bounds must leave room for the starting layout of new players.
    pub fn new(world_x: i64, world_y: i64) -> (s: Server)
        requires
            UNIT_START_EXTENT <= world_x <= MAX_COORD,
            UNIT_START_EXTENT <= world_y <= MAX_COORD,
        ensures
            s.inv(),
            s.world == (WorldState { x: world_x, y: world_y }),
            s.game.players@.len() == 0,
            s.client_ids.next_spec() == 0,
            s.client_ids.issued_ids().len() == 0,
            s.unit_ids.next_spec() == 0,
            s.unit_ids.issued_ids().len() == 0,
            s.unit_targets@ == Map::<u32, Vec2>::empty(),
    {
        Server {
            world: WorldState::new(world_x, world_y),
            game: GameState::new(),
            client_ids: IdGenerator::new(),
            unit_ids: IdGenerator::new(),
            unit_targets: HashMap::new(),
        }
    }

    /// True when the id generators can still serve one full
    /// `ClientHello` (one client id and one id per starting unit).
    /// Exhaustion is fatal: the caller must refuse the handshake and
    /// abort the server rather than let a counter wrap.
    pub fn can_accept_hello(&self) -> (r: bool)
        ensures
            r <==> (self.client_ids.next_spec() < u32::MAX && self.unit_ids.next_spec()
                + start_positions().len() <= u32::MAX),
    {
        self.client_ids.can_issue(1) && self.unit_ids.can_issue(4)
    }

    /// The session manager's handshake on the aggregate state; pending
    /// orders and world bounds are untouched, and the invariant is
    /// preserved.
    pub fn handshake(&mut self, msg: &Message) -> (r: (Message, bool))
        requires
            old(self).inv(),
            msg is ClientHello ==> old(self).client_ids.next_spec() < u32::MAX && old(
                self,
            ).unit_ids.next_spec() + start_positions().len() <= u32::MAX,
        ensures
            final(self).inv(),
            final(self).world == old(self).world,
            final(self).unit_targets == old(self).unit_targets,
            handshake_post(
                *msg,
                old(self).world,
                old(self).game,
                final(self).game,
                old(self).client_ids,
                final(self).client_ids,
                old(self).unit_ids,
                final(self).unit_ids,
                r,
            ),
    {
        let world = self.world;
        handle_client(msg, &world, &mut self.game, &mut self.client_ids, &mut self.unit_ids)
    }

    /// Command ingestion on the aggregate state; the world, the id
    /// generators and every unit's id and position are untouched, and
    /// the invariant is preserved.
    pub fn apply_command(&mut self, command: &Command)
        requires
            old(self).inv(),
        ensures
            final(self).inv(),
            final(self).world == old(self).world,
            final(self).client_ids == old(self).client_ids,
            final(self).unit_ids == old(self).unit_ids,
            command_post(
                old(self).world,
                old(self).game,
                final(self).game,
                old(self).unit_targets@,
                final(self).unit_targets@,
                *command,
            ),
    {
        let world = self.world;
        let ghost s0 = *old(self);
        handle_command(&world, &mut self.game, &mut self.unit_targets, command);
        proof {
            lemma_clamp_target(command.move_target(), world);
            let g0 = s0.game;
            let g1 = self.game;
            assert forall|i: int, j: int| g1.valid_unit_index(i, j) implies g0.valid_unit_index(
                i,
                j,
            ) && (#[trigger] g1.players@[i].units@[j]).id == g0.players@[i].units@[j].id && (
            g1.players@[i].units@[j]).position == g0.players@[i].units@[j].position by {
                assert(g0.valid_unit_index(i, j));
            }
        }
    }

    /// One simulation tick on the aggregate state; everything but unit
    /// positions and facings is untouched, and the invariant is
    /// preserved. `step` is how far a unit may move per axis this tick.
    pub fn tick(&mut self, step: i64)
        requires
            old(self).inv(),
            0 <= step <= MAX_COORD,
        ensures
            final(self).inv(),
            final(self).world == old(self).world,
            final(self).client_ids == old(self).client_ids,
            final(self).unit_ids == old(self).unit_ids,
            final(self).unit_targets == old(self).unit_targets,
            tick_post(old(self).game, final(self).game, old(self).unit_targets@, step),
    {
        proof {
            let g0 = self.game;
            assert forall|i: int, j: int| g0.valid_unit_index(i, j) implies (
            #[trigger] g0.players@[i].units@[j].position).coords_ok() by {
                assert(self.world.contains(g0.players@[i].units@[j].position));
            }
            assert forall|id: u32| self.unit_targets@.contains_key(id) implies (
            #[trigger] self.unit_targets@[id]).coords_ok() by {
                assert(self.world.contains(self.unit_targets@[id]));
            }
        }
        let ghost s0 = *old(self);
        update_world(&mut self.game, &self.unit_targets, step);
        proof {
            let g0 = s0.game;
            let g1 = self.game;
            let world = s0.world;
            assert forall|i: int, j: int| g1.valid_unit_index(i, j) implies g0.valid_unit_index(
                i,
                j,
            ) && (#[trigger] g1.players@[i].units@[j]).id == g0.players@[i].units@[j].id
                && world.contains(g1.players@[i].units@[j].position) by {
                assert(g0.valid_unit_index(i, j));
                let u = g0.players@[i].units@[j];
                assert(g1.players@[i].units@[j] == unit_after_tick(u, s0.unit_targets@, step));
                if s0.unit_targets@.contains_key(u.id) {
                    assert(world.contains(s0.unit_targets@[u.id]));
                    lemma_tick_preserves_bounds(u.position, s0.unit_targets@[u.id], step, world);
                }
            }
        }
    }
}

} // verus!
