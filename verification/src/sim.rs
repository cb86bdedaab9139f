//! World simulation: one fixed-interval tick of unit movement.
//!
//! Each tick advances every unit that has a pending movement order by at
//! most `step` fixed-point units per axis toward its target, snapping
//! exactly onto the target when it is within reach (no overshoot, no
//! oscillation), and turns the unit toward the target. Units without a
//! pending order are stationary and untouched. The loop that calls this
//! at a fixed cadence lives outside the library; `step` is the distance
//! covered in one tick (speed times the tick's simulated time).

use std::collections::HashMap;
use vstd::prelude::*;

use crate::command::command_heading;
use crate::state::{GameState, Unit, Vec2, WorldState, MAX_COORD};

verus! {

broadcast use vstd::std_specs::hash::group_hash_axioms;

/// One coordinate moved from `p` toward `t` by at most `step`; lands on
/// `t` exactly when `t` is within `step`.
pub open spec fn step_axis(p: i64, t: i64, step: i64) -> i64 {
    if t - p > step {
        (p + step) as i64
    } else if p - t > step {
        (p - step) as i64
    } else {
        t
    }
}

/// A point moved from `p` toward `t` by at most `step` per axis.
pub open spec fn step_toward(p: Vec2, t: Vec2, step: i64) -> Vec2 {
    Vec2 { x: step_axis(p.x, t.x, step), y: step_axis(p.y, t.y, step) }
}

/// Squared Euclidean distance between two points.
pub open spec fn dist2(a: Vec2, b: Vec2) -> int {
    (a.x - b.x) * (a.x - b.x) + (a.y - b.y) * (a.y - b.y)
}

/// How one unit looks after one tick under the pending orders `targets`:
/// a unit with an order turns toward its target and advances by at most
/// `step` per axis; a unit without an order is untouched.
pub open spec fn unit_after_tick(u: Unit, targets: Map<u32, Vec2>, step: i64) -> Unit {
    if targets.contains_key(u.id) {
        Unit {
            id: u.id,
            position: step_toward(u.position, targets[u.id], step),
            heading: command_heading(u.heading, u.position, targets[u.id]),
        }
    } else {
        u
    }
}

/// The full effect of `update_world`: how the game state after one tick
/// (`g1`) relates to the one before it (`g0`) under the pending orders
/// `targets`.
pub open spec fn tick_post(g0: GameState, g1: GameState, targets: Map<u32, Vec2>, step: i64)
    -> bool {
    &&& g1.players@.len() == g0.players@.len()
    &&& forall|i: int|
        0 <= i < g0.players@.len() ==> (#[trigger] g1.players@[i]).id == g0.players@[i].id
            && g1.players@[i].units@.len() == g0.players@[i].units@.len()
    &&& forall|i: int, j: int|
        g0.valid_unit_index(i, j) ==> (#[trigger] g1.players@[i].units@[j]) == unit_after_tick(
            g0.players@[i].units@[j],
            targets,
            step,
        )
}

/// Advances the whole game state by one simulation tick.
///
/// Every unit with an entry in `unit_targets` moves toward that entry by
/// at most `step` per axis (snapping onto the target once it is within
/// reach) and faces toward it; every other unit is untouched. Player
/// ids, unit ids and the pending orders themselves never change here:
/// reaching a target leaves the now-satisfied order in place, where
/// re-applying it is a no-op.
pub fn update_world(game: &mut GameState, unit_targets: &HashMap<u32, Vec2>, step: i64)
    requires
        0 <= step <= MAX_COORD,
        old(game).positions_ok(),
        forall|id: u32|
            unit_targets@.contains_key(id) ==> (#[trigger] unit_targets@[id]).coords_ok(),
    ensures
        tick_post(*old(game), *final(game), unit_targets@, step),
{
    let ghost g0 = *game;
    let mut pi: usize = 0;
    while pi < game.players.len()
        invariant
            0 <= step <= MAX_COORD,
            g0.positions_ok(),
            forall|id: u32|
                unit_targets@.contains_key(id) ==> (#[trigger] unit_targets@[id]).coords_ok(),
            0 <= pi <= game.players@.len(),
            game.players@.len() == g0.players@.len(),
            forall|i: int|
                0 <= i < g0.players@.len() ==> (#[trigger] game.players@[i]).id
                    == g0.players@[i].id && game.players@[i].units@.len()
                    == g0.players@[i].units@.len(),
            forall|i: int, j: int|
                g0.valid_unit_index(i, j) && i < pi ==> (#[trigger] game.players@[i].units@[j])
                    == unit_after_tick(g0.players@[i].units@[j], unit_targets@, step),
            forall|i: int, j: int|
                g0.valid_unit_index(i, j) && i >= pi ==> (#[trigger] game.players@[i].units@[j])
                    == g0.players@[i].units@[j],
        decreases game.players@.len() - pi,
    {
        let mut ui: usize = 0;
        let units_len = game.players[pi].units.len();
        while ui < units_len
            invariant
                0 <= step <= MAX_COORD,
                g0.positions_ok(),
                forall|id: u32|
                    unit_targets@.contains_key(id) ==> (#[trigger] unit_targets@[id]).coords_ok(),
                0 <= pi < game.players@.len(),
                0 <= ui <= units_len,
                units_len == g0.players@[pi as int].units@.len(),
                game.players@.len() == g0.players@.len(),
                forall|i: int|
                    0 <= i < g0.players@.len() ==> (#[trigger] game.players@[i]).id
                        == g0.players@[i].id && game.players@[i].units@.len()
                        == g0.players@[i].units@.len(),
                forall|i: int, j: int|
                    g0.valid_unit_index(i, j) && (i < pi || (i == pi && j < ui)) ==> (
                    #[trigger] game.players@[i].units@[j]) == unit_after_tick(
                        g0.players@[i].units@[j],
                        unit_targets@,
                        step,
                    ),
                forall|i: int, j: int|
                    g0.valid_unit_index(i, j) && (i > pi || (i == pi && j >= ui)) ==> (
                    #[trigger] game.players@[i].units@[j]) == g0.players@[i].units@[j],
            decreases units_len - ui,
        {
            let u_id = game.players[pi].units[ui].id;
            match unit_targets.get(&u_id) {
                Some(t) => {
                    let t = *t;
                    let position = game.players[pi].units[ui].position;
                    if !(t.x == position.x && t.y == position.y) {
                        game.players[pi].units[ui].heading = Vec2 {
                            x: t.x - position.x,
                            y: t.y - position.y,
                        };
                    }
                    let new_x = if t.x - position.x > step {
                        position.x + step
                    } else if position.x - t.x > step {
                        position.x - step
                    } else {
                        t.x
                    };
                    let new_y = if t.y - position.y > step {
                        position.y + step
                    } else if position.y - t.y > step {
                        position.y - step
                    } else {
                        t.y
                    };
                    game.players[pi].units[ui].position = Vec2 { x: new_x, y: new_y };
                },
                None => {},
            }
            ui = ui + 1;
        }
        pi = pi + 1;
    }
}

/// Law: a tick never overshoots and stays between the old position and
/// the target on each axis; a unit within the world rectangle moving
/// toward a target within the rectangle stays within it.
pub proof fn lemma_tick_preserves_bounds(p: Vec2, t: Vec2, step: i64, world: WorldState)
    requires
        world.wf(),
        world.contains(p),
        world.contains(t),
        0 <= step,
    ensures
        world.contains(step_toward(p, t, step)),
{
}

/// Law: while a unit is not yet at its target, every tick takes it
/// strictly closer (in squared Euclidean distance). Together with
/// `lemma_tick_at_target_is_identity` this gives the whole movement
/// story: the distance decreases strictly each tick until it is zero,
/// so the unit reaches the target exactly after finitely many ticks,
/// after which further ticks change nothing.
pub proof fn lemma_tick_strictly_approaches(p: Vec2, t: Vec2, step: i64)
    requires
        p.coords_ok(),
        t.coords_ok(),
        1 <= step <= MAX_COORD,
        p != t,
    ensures
        0 <= dist2(step_toward(p, t, step), t) < dist2(p, t),
{
    let q = step_toward(p, t, step);
    assert((q.x - t.x) * (q.x - t.x) <= (p.x - t.x) * (p.x - t.x) && ((q.x - t.x) * (q.x - t.x)
        == (p.x - t.x) * (p.x - t.x) ==> p.x == t.x) && 0 <= (q.x - t.x) * (q.x - t.x)) by (nonlinear_arith)
        requires
            q.x == step_axis(p.x, t.x, step),
            1 <= step,
            -2 * MAX_COORD <= p.x - t.x <= 2 * MAX_COORD,
    ;
    assert((q.y - t.y) * (q.y - t.y) <= (p.y - t.y) * (p.y - t.y) && ((q.y - t.y) * (q.y - t.y)
        == (p.y - t.y) * (p.y - t.y) ==> p.y == t.y) && 0 <= (q.y - t.y) * (q.y - t.y)) by (nonlinear_arith)
        requires
            q.y == step_axis(p.y, t.y, step),
            1 <= step,
            -2 * MAX_COORD <= p.y - t.y <= 2 * MAX_COORD,
    ;
}

/// Law: a unit that stands exactly on its target is left unchanged by
/// further ticks — position and facing alike (idempotence at the
/// target; the stale pending order is a harmless no-op).
pub proof fn lemma_tick_at_target_is_identity(u: Unit, targets: Map<u32, Vec2>, step: i64)
    requires
        0 <= step,
        targets.contains_key(u.id) ==> targets[u.id] == u.position,
    ensures
        unit_after_tick(u, targets, step) == u,
{
}

/// Law: once the remaining distance is within one step, the tick snaps
/// the unit exactly onto the target — no overshoot.
pub proof fn lemma_tick_snaps_within_step(p: Vec2, t: Vec2, step: i64)
    requires
        0 <= step,
        dist2(p, t) <= step * step,
    ensures
        step_toward(p, t, step) == t,
{
    assert(-step <= p.x - t.x <= step && -step <= p.y - t.y <= step) by (nonlinear_arith)
        requires
            (p.x - t.x) * (p.x - t.x) + (p.y - t.y) * (p.y - t.y) <= step * step,
            0 <= step,
    ;
}

/// Law: the facing after the tick that reaches the target is exactly the
/// vector traversed last, so it reflects the true direction of travel in
/// all four quadrants — both signs of each component are preserved, and
/// a vertical approach keeps a zero x component.
pub proof fn lemma_arrival_heading(u: Unit, targets: Map<u32, Vec2>, step: i64)
    requires
        0 <= step,
        targets.contains_key(u.id),
        targets[u.id] != u.position,
        dist2(u.position, targets[u.id]) <= step * step,
    ensures
        unit_after_tick(u, targets, step).position == targets[u.id],
        unit_after_tick(u, targets, step).heading == (Vec2 {
            x: (targets[u.id].x - u.position.x) as i64,
            y: (targets[u.id].y - u.position.y) as i64,
        }),
        unit_after_tick(u, targets, step).heading.x > 0 <==> targets[u.id].x > u.position.x,
        unit_after_tick(u, targets, step).heading.x < 0 <==> targets[u.id].x < u.position.x,
        unit_after_tick(u, targets, step).heading.x == 0 <==> targets[u.id].x == u.position.x,
        unit_after_tick(u, targets, step).heading.y > 0 <==> targets[u.id].y > u.position.y,
        unit_after_tick(u, targets, step).heading.y < 0 <==> targets[u.id].y < u.position.y,
        unit_after_tick(u, targets, step).heading.y == 0 <==> targets[u.id].y == u.position.y,
{
    lemma_tick_snaps_within_step(u.position, targets[u.id], step);
}

} // verus!
