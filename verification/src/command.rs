//! Command ingestion: validated application of client commands to the
//! shared world model.
//!
//! The one gameplay command is `Move`: it clamps the requested target
//! into the world bounds, turns the addressed unit toward the clamped
//! target, and records the target as that unit's pending movement order.
//! Pending orders live in a map from unit id to target; the most recent
//! order for a unit supersedes any earlier one.

use std::collections::HashMap;
use vstd::prelude::*;

use crate::state::{GameState, Unit, Vec2, WorldState};

verus! {

broadcast use vstd::std_specs::hash::group_hash_axioms;

/// A gameplay instruction sent by a client.
#[derive(Clone, Copy, Debug, PartialEq, Eq, Structural)]
pub enum Command {
    /// Request to move the unit with the given id toward a target point.
    Move(u32, Vec2),
}

impl Command {
    /// The unit a `Move` command addresses.
    pub open spec fn move_unit_id(self) -> u32 {
        match self {
            Command::Move(id, _) => id,
        }
    }

    /// The requested (unclamped) target of a `Move` command.
    pub open spec fn move_target(self) -> Vec2 {
        match self {
            Command::Move(_, t) => t,
        }
    }
}

/// One coordinate clamped into `[0, bound]`.
pub open spec fn clamp_coord(v: i64, bound: i64) -> i64 {
    if v > bound {
        bound
    } else if v < 0 {
        0
    } else {
        v
    }
}

/// A requested target clamped into the world rectangle, per axis.
pub open spec fn clamp_target(t: Vec2, world: WorldState) -> Vec2 {
    Vec2 { x: clamp_coord(t.x, world.x), y: clamp_coord(t.y, world.y) }
}

/// The facing a unit at `position` takes when ordered to `target`: the
/// vector from its position to the target. An order to the point the
/// unit already stands on leaves the facing unchanged.
pub open spec fn command_heading(old_heading: Vec2, position: Vec2, target: Vec2) -> Vec2 {
    if target == position {
        old_heading
    } else {
        Vec2 { x: (target.x - position.x) as i64, y: (target.y - position.y) as i64 }
    }
}

/// How one unit looks after a `Move` command for unit `id` with the
/// already-clamped target `target`: only the facing of the addressed
/// unit changes.
pub open spec fn unit_after_command(u: Unit, id: u32, target: Vec2) -> Unit {
    if u.id == id {
        Unit { heading: command_heading(u.heading, u.position, target), ..u }
    } else {
        u
    }
}

/// The full effect of `handle_command`: how the game state and the
/// pending-target map after the call (`g1`, `t1`) relate to the ones
/// before it (`g0`, `t0`).
pub open spec fn command_post(
    world: WorldState,
    g0: GameState,
    g1: GameState,
    t0: Map<u32, Vec2>,
    t1: Map<u32, Vec2>,
    command: Command,
) -> bool {
    &&& g1.players@.len() == g0.players@.len()
    &&& forall|i: int|
        0 <= i < g0.players@.len() ==> (#[trigger] g1.players@[i]).id == g0.players@[i].id
            && g1.players@[i].units@.len() == g0.players@[i].units@.len()
    &&& forall|i: int, j: int|
        g0.valid_unit_index(i, j) ==> (#[trigger] g1.players@[i].units@[j]) == unit_after_command(
            g0.players@[i].units@[j],
            command.move_unit_id(),
            clamp_target(command.move_target(), world),
        )
    &&& t1 == if g0.has_unit(command.move_unit_id()) {
        t0.insert(command.move_unit_id(), clamp_target(command.move_target(), world))
    } else {
        t0
    }
}

/// Law: a clamped target always lies within the world rectangle; a
/// requested target that already lies within the rectangle is kept
/// exactly, with no clamping distortion; and clamping acts on each axis
/// independently — an axis beyond its bound lands on that bound, an
/// axis within its bound is kept.
pub proof fn lemma_clamp_target(t: Vec2, world: WorldState)
    requires
        world.wf(),
    ensures
        world.contains(clamp_target(t, world)),
        world.contains(t) ==> clamp_target(t, world) == t,
        t.x > world.x ==> clamp_target(t, world).x == world.x,
        t.x < 0 ==> clamp_target(t, world).x == 0,
        0 <= t.x <= world.x ==> clamp_target(t, world).x == t.x,
        t.y > world.y ==> clamp_target(t, world).y == world.y,
        t.y < 0 ==> clamp_target(t, world).y == 0,
        0 <= t.y <= world.y ==> clamp_target(t, world).y == t.y,
{
}

/// Applies a client command to the shared world model.
///
/// For `Move(id, t)`: the target is clamped into the world rectangle,
/// independently per axis. If a unit with that id exists, its facing is
/// turned toward the clamped target and its pending-target entry is set
/// to the clamped target, superseding any earlier order. If no unit has
/// that id, nothing changes (a silent no-op). Positions, ids and the
/// player list never change here; whether the commanding client owns the
/// unit is deliberately not checked.
pub fn handle_command(
    world: &WorldState,
    game: &mut GameState,
    unit_targets: &mut HashMap<u32, Vec2>,
    command: &Command,
)
    requires
        world.wf(),
        old(game).units_in_bounds(*world),
    ensures
        command_post(
            *world,
            *old(game),
            *final(game),
            old(unit_targets)@,
            final(unit_targets)@,
            *command,
        ),
{
    let Command::Move(id, move_target) = *command;
    let target = Vec2 {
        x: if move_target.x > world.x {
            world.x
        } else if move_target.x < 0 {
            0
        } else {
            move_target.x
        },
        y: if move_target.y > world.y {
            world.y
        } else if move_target.y < 0 {
            0
        } else {
            move_target.y
        },
    };
    assert(target == clamp_target(command.move_target(), *world));
    let ghost g0 = *game;
    let ghost t0 = unit_targets@;
    let mut found: bool = false;
    let mut pi: usize = 0;
    while pi < game.players.len()
        invariant
            world.wf(),
            g0.units_in_bounds(*world),
            target == clamp_target(command.move_target(), *world),
            id == command.move_unit_id(),
            0 <= pi <= game.players@.len(),
            game.players@.len() == g0.players@.len(),
            forall|i: int|
                0 <= i < g0.players@.len() ==> (#[trigger] game.players@[i]).id
                    == g0.players@[i].id && game.players@[i].units@.len()
                    == g0.players@[i].units@.len(),
            forall|i: int, j: int|
                g0.valid_unit_index(i, j) && i < pi ==> (#[trigger] game.players@[i].units@[j])
                    == unit_after_command(g0.players@[i].units@[j], id, target),
            forall|i: int, j: int|
                g0.valid_unit_index(i, j) && i >= pi ==> (#[trigger] game.players@[i].units@[j])
                    == g0.players@[i].units@[j],
            found <==> exists|i: int, j: int|
                g0.valid_unit_index(i, j) && i < pi && g0.players@[i].units@[j].id == id,
            unit_targets@ == if found {
                t0.insert(id, target)
            } else {
                t0
            },
        decreases game.players@.len() - pi,
    {
        let mut ui: usize = 0;
        let units_len = game.players[pi].units.len();
        while ui < units_len
            invariant
                world.wf(),
                g0.units_in_bounds(*world),
                target == clamp_target(command.move_target(), *world),
                id == command.move_unit_id(),
                0 <= pi < game.players@.len(),
                0 <= ui <= units_len,
                units_len == g0.players@[pi as int].units@.len(),
                game.players@.len() == g0.players@.len(),
                forall|i: int|
                    0 <= i < g0.players@.len() ==> (#[trigger] game.players@[i]).id
                        == g0.players@[i].id && game.players@[i].units@.len()
                        == g0.players@[i].units@.len(),
                forall|i: int, j: int|
                    g0.valid_unit_index(i, j) && (i < pi || (i == pi && j < ui)) ==> (
                    #[trigger] game.players@[i].units@[j]) == unit_after_command(
                        g0.players@[i].units@[j],
                        id,
                        target,
                    ),
                forall|i: int, j: int|
                    g0.valid_unit_index(i, j) && (i > pi || (i == pi && j >= ui)) ==> (
                    #[trigger] game.players@[i].units@[j]) == g0.players@[i].units@[j],
                found <==> exists|i: int, j: int|
                    g0.valid_unit_index(i, j) && (i < pi || (i == pi && j < ui))
                        && g0.players@[i].units@[j].id == id,
                unit_targets@ == if found {
                    t0.insert(id, target)
                } else {
                    t0
                },
            decreases units_len - ui,
        {
            let matched = game.players[pi].units[ui].id == id;
            if matched {
                let position = game.players[pi].units[ui].position;
                if !(target.x == position.x && target.y == position.y) {
                    let dx = target.x - position.x;
                    let dy = target.y - position.y;
                    game.players[pi].units[ui].heading = Vec2 { x: dx, y: dy };
                }
                unit_targets.insert(id, target);
                found = true;
            }
            proof {
                if matched {
                    assert(g0.valid_unit_index(pi as int, ui as int)
                        && g0.players@[pi as int].units@[ui as int].id == id);
                } else if found {
                    let (wi, wj): (int, int) = choose|i: int, j: int|
                        g0.valid_unit_index(i, j) && (i < pi || (i == pi && j < ui))
                            && g0.players@[i].units@[j].id == id;
                    assert(g0.valid_unit_index(wi, wj) && (wi < pi || (wi == pi && wj < ui + 1))
                        && g0.players@[wi].units@[wj].id == id);
                }
            }
            ui = ui + 1;
        }
        proof {
            if found {
                let (wi, wj): (int, int) = choose|i: int, j: int|
                    g0.valid_unit_index(i, j) && (i < pi || (i == pi && j < units_len))
                        && g0.players@[i].units@[j].id == id;
                assert(g0.valid_unit_index(wi, wj) && wi < pi + 1
                    && g0.players@[wi].units@[wj].id == id);
            }
        }
        pi = pi + 1;
    }
    proof {
        if g0.has_unit(id) {
            let (wi, wj): (int, int) = choose|i: int, j: int|
                g0.valid_unit_index(i, j) && g0.players@[i].units@[j].id == id;
            assert(g0.valid_unit_index(wi, wj) && wi < game.players@.len()
                && g0.players@[wi].units@[wj].id == id);
            assert(found);
        }
        if found {
            let (wi, wj): (int, int) = choose|i: int, j: int|
                g0.valid_unit_index(i, j) && i < pi && g0.players@[i].units@[j].id == id;
            assert(g0.has_unit(id));
        }
    }
}

} // verus!
