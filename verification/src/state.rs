//! Shared world model: world bounds, units, players and the game state.
//!
//! Positions are fixed-point world units in `i64`. Every coordinate the
//! model holds lies in `[0, MAX_COORD]`, which keeps all exec arithmetic
//! on coordinates far from overflow.

use vstd::prelude::*;

verus! {

/// Upper bound for any coordinate or per-tick step the model accepts.
pub const MAX_COORD: i64 = 0x4000_0000;

/// A two-dimensional point or vector in fixed-point world units.
#[derive(Clone, Copy, Debug, PartialEq, Eq, Structural)]
pub struct Vec2 {
    pub x: i64,
    pub y: i64,
}

impl Vec2 {
    /// True when both coordinates lie in `[0, MAX_COORD]`.
    pub open spec fn coords_ok(self) -> bool {
        0 <= self.x <= MAX_COORD && 0 <= self.y <= MAX_COORD
    }
}

/// The zero vector.
pub open spec fn vec2_zero() -> Vec2 {
    Vec2 { x: 0, y: 0 }
}

/// Immutable-after-construction world bounds.
#[derive(Clone, Copy, Debug, PartialEq, Eq, Structural)]
pub struct WorldState {
    /// World width: valid x coordinates are `[0, x]`.
    pub x: i64,
    /// World height: valid y coordinates are `[0, y]`.
    pub y: i64,
}

impl WorldState {
    /// Both bounds are positive and small enough for safe arithmetic.
    pub open spec fn wf(self) -> bool {
        0 < self.x <= MAX_COORD && 0 < self.y <= MAX_COORD
    }

    /// True when `p` lies within the world rectangle `[0, x] x [0, y]`.
    pub open spec fn contains(self, p: Vec2) -> bool {
        0 <= p.x <= self.x && 0 <= p.y <= self.y
    }

    pub fn new(x: i64, y: i64) -> (w: WorldState)
        requires
            0 < x <= MAX_COORD,
            0 < y <= MAX_COORD,
        ensures
            w == (WorldState { x, y }),
            w.wf(),
    {
        WorldState { x, y }
    }
}

/// A single controllable unit.
///
/// `heading` is the facing direction, kept as the vector of the most
/// recent commanded or traversed movement; the transport layer derives a
/// radian angle from it when it encodes the state.
#[derive(Clone, Copy, Debug, PartialEq, Eq, Structural)]
pub struct Unit {
    /// Unique over the whole server run; assigned once, never reused.
    pub id: u32,
    pub position: Vec2,
    pub heading: Vec2,
}

impl Unit {
    pub fn new(id: u32, position: Vec2) -> (u: Unit)
        ensures
            u == (Unit { id, position, heading: vec2_zero() }),
    {
        Unit { id, position, heading: Vec2 { x: 0, y: 0 } }
    }
}

/// A connected client's player: its id equals the owning client's id.
#[derive(Clone, Debug)]
pub struct Player {
    pub id: u32,
    pub units: Vec<Unit>,
}

impl Player {
    pub fn new(id: u32) -> (p: Player)
        ensures
            p.id == id,
            p.units@ =~= Seq::<Unit>::empty(),
    {
        Player { id, units: Vec::new() }
    }
}

/// The canonical mutable simulation state: all players, in join order.
#[derive(Clone, Debug)]
pub struct GameState {
    pub players: Vec<Player>,
}

impl GameState {
    pub fn new() -> (g: GameState)
        ensures
            g.players@ =~= Seq::<Player>::empty(),
    {
        GameState { players: Vec::new() }
    }

    /// True when `(i, j)` indexes a unit of this state.
    pub open spec fn valid_unit_index(self, i: int, j: int) -> bool {
        0 <= i < self.players@.len() && 0 <= j < self.players@[i].units@.len()
    }

    /// True when some unit carries the id `id`.
    pub open spec fn has_unit(self, id: u32) -> bool {
        exists|i: int, j: int|
            self.valid_unit_index(i, j) && self.players@[i].units@[j].id == id
    }

    /// True when some player carries the id `id`.
    pub open spec fn has_player(self, id: u32) -> bool {
        exists|i: int| 0 <= i < self.players@.len() && self.players@[i].id == id
    }

    /// Every unit position lies within the world rectangle.
    pub open spec fn units_in_bounds(self, world: WorldState) -> bool {
        forall|i: int, j: int|
            self.valid_unit_index(i, j) ==> world.contains(
                #[trigger] self.players@[i].units@[j].position,
            )
    }

    /// Every coordinate of every unit position lies in `[0, MAX_COORD]`.
    pub open spec fn positions_ok(self) -> bool {
        forall|i: int, j: int|
            self.valid_unit_index(i, j)
                ==> (#[trigger] self.players@[i].units@[j].position).coords_ok()
    }

    /// Player ids are pairwise distinct.
    pub open spec fn player_ids_distinct(self) -> bool {
        forall|i: int, j: int|
            0 <= i < j < self.players@.len()
                ==> (#[trigger] self.players@[i].id) != (#[trigger] self.players@[j].id)
    }

    /// Unit ids are pairwise distinct, also across players.
    pub open spec fn unit_ids_distinct(self) -> bool {
        forall|i1: int, j1: int, i2: int, j2: int|
            self.valid_unit_index(i1, j1) && self.valid_unit_index(i2, j2) && (i1, j1) != (
            i2,
            j2,
            ) ==> (#[trigger] self.players@[i1].units@[j1].id) != (
            #[trigger] self.players@[i2].units@[j2].id)
    }

    /// Every player id is below `bound` (the next client id to issue).
    pub open spec fn player_ids_below(self, bound: u32) -> bool {
        forall|i: int|
            0 <= i < self.players@.len() ==> (#[trigger] self.players@[i].id) < bound
    }

    /// Every unit id is below `bound` (the next unit id to issue).
    pub open spec fn unit_ids_below(self, bound: u32) -> bool {
        forall|i: int, j: int|
            self.valid_unit_index(i, j) ==> (#[trigger] self.players@[i].units@[j].id) < bound
    }
}

} // verus!
