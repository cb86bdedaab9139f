//! Session manager: the hello/reconnect handshake.
//!
//! A connection attempt opens with one message. `ClientHello` allocates a
//! fresh client id, creates that client's player with its four starting
//! units and answers `ServerHello`; `ClientReconnect` resumes an existing
//! player or is refused with `Error`; anything else is a protocol
//! violation answered with `Error`. The reply and whether the session
//! becomes active are the returned values; sending the reply and
//! spawning the session's loops happen outside the library.

use vstd::prelude::*;

use crate::command::Command;
use crate::ids::IdGenerator;
use crate::state::{vec2_zero, GameState, Player, Unit, Vec2, WorldState};

verus! {

/// The messages exchanged between clients and the server.
#[derive(Clone, Debug)]
pub enum Message {
    /// New session request.
    ClientHello,
    /// Resume the session of an existing client id.
    ClientReconnect(u32),
    /// Handshake accepted: the client's id and the world bounds.
    ServerHello(u32, WorldState),
    /// Reserved for pushing the full game state; unused in the current flow.
    UpdateGameState(u32, GameState),
    /// A gameplay instruction from the named client.
    Command(u32, Command),
    /// Handshake or protocol rejection.
    Error(u32),
}

impl Message {
    /// The client id a message carries. `ClientHello` carries none and
    /// maps to zero; it is never queried for this.
    pub open spec fn carried_client_id(self) -> u32 {
        match self {
            Message::ClientHello => 0,
            Message::ClientReconnect(id) => id,
            Message::ServerHello(id, _) => id,
            Message::UpdateGameState(id, _) => id,
            Message::Command(id, _) => id,
            Message::Error(id) => id,
        }
    }
}

/// Every starting unit lies within `[0, UNIT_START_EXTENT]` on both
/// axes, so a world at least this wide and high contains the whole
/// starting layout.
pub const UNIT_START_EXTENT: i64 = 100;

/// The fixed starting layout: every new player receives four units at
/// these positions.
pub open spec fn start_positions() -> Seq<Vec2> {
    seq![
        Vec2 { x: 50, y: 50 },
        Vec2 { x: 50, y: 100 },
        Vec2 { x: 100, y: 50 },
        Vec2 { x: 100, y: 100 },
    ]
}

/// How the player allocated for a fresh `ClientHello` looks: the new
/// client id, and one unit per starting position with consecutive unit
/// ids starting at `first_unit_id`.
pub open spec fn is_starting_player(p: Player, client_id: u32, first_unit_id: u32) -> bool {
    &&& p.id == client_id
    &&& p.units@.len() == start_positions().len()
    &&& forall|k: int|
        0 <= k < start_positions().len() ==> (#[trigger] p.units@[k]) == (Unit {
            id: (first_unit_id + k) as u32,
            position: start_positions()[k],
            heading: vec2_zero(),
        })
}

/// The server's global invariant over its lock-protected structures:
/// well-formed world bounds and id generators, pairwise distinct player
/// and unit ids, all unit positions within the world rectangle, and
/// every id already in the game state below the next id its generator
/// will issue (so fresh ids never collide).
pub open spec fn server_inv(
    world: WorldState,
    game: GameState,
    client_ids: IdGenerator,
    unit_ids: IdGenerator,
) -> bool {
    &&& world.wf()
    &&& client_ids.wf()
    &&& unit_ids.wf()
    &&& game.player_ids_distinct()
    &&& game.unit_ids_distinct()
    &&& game.units_in_bounds(world)
    &&& game.player_ids_below(client_ids.next_spec())
    &&& game.unit_ids_below(unit_ids.next_spec())
}

/// The full effect of `handle_client`: how the game state and the id
/// generators after the handshake (`g1`, `c1`, `u1`) relate to the ones
/// before it (`g0`, `c0`, `u0`), and what reply `r` carries.
pub open spec fn handshake_post(
    msg: Message,
    world: WorldState,
    g0: GameState,
    g1: GameState,
    c0: IdGenerator,
    c1: IdGenerator,
    u0: IdGenerator,
    u1: IdGenerator,
    r: (Message, bool),
) -> bool {
    match msg {
        Message::ClientHello => {
            &&& g1.players@.len() == g0.players@.len() + 1
            &&& forall|i: int|
                0 <= i < g0.players@.len() ==> (#[trigger] g1.players@[i]) == g0.players@[i]
            &&& is_starting_player(g1.players@.last(), c0.next_spec(), u0.next_spec())
            &&& c1.next_spec() == c0.next_spec() + 1
            &&& c1.issued_ids() == c0.issued_ids().push(c0.next_spec())
            &&& u1.next_spec() == u0.next_spec() + start_positions().len()
            &&& r.0 == Message::ServerHello(c0.next_spec(), world)
            &&& r.1 == true
        },
        Message::ClientReconnect(id) => {
            &&& g1 == g0
            &&& c1 == c0
            &&& u1 == u0
            &&& g0.has_player(id) ==> r.0 == Message::ServerHello(id, world) && r.1 == true
            &&& !g0.has_player(id) ==> r.0 == Message::Error(id) && r.1 == false
        },
        _ => {
            &&& g1 == g0
            &&& c1 == c0
            &&& u1 == u0
            &&& r.0 == Message::Error(msg.carried_client_id())
            &&& r.1 == false
        },
    }
}

/// Performs the handshake for a connection attempt's first message.
///
/// Returns the reply to send and whether the session becomes active.
/// `ClientHello` appends exactly one new player, built from fresh ids,
/// and answers `ServerHello` with the new id and the world snapshot.
/// `ClientReconnect(id)` mutates nothing; it answers `ServerHello(id,
/// world)` when a player with that id exists — the same world snapshot
/// the original hello carried, since the world is immutable — and
/// `Error(id)` (no session) when none does. Any other first message is
/// a protocol violation: nothing changes, the reply is `Error` with the
/// id the message carried, and no session is spawned.
pub fn handle_client(
    msg: &Message,
    world: &WorldState,
    game: &mut GameState,
    client_ids: &mut IdGenerator,
    unit_ids: &mut IdGenerator,
) -> (r: (Message, bool))
    requires
        server_inv(*world, *old(game), *old(client_ids), *old(unit_ids)),
        msg is ClientHello ==> old(client_ids).next_spec() < u32::MAX && old(
            unit_ids,
        ).next_spec() + start_positions().len() <= u32::MAX && UNIT_START_EXTENT <= world.x
            && UNIT_START_EXTENT <= world.y,
    ensures
        server_inv(*world, *final(game), *final(client_ids), *final(unit_ids)),
        handshake_post(
            *msg,
            *world,
            *old(game),
            *final(game),
            *old(client_ids),
            *final(client_ids),
            *old(unit_ids),
            *final(unit_ids),
            r,
        ),
{
    match msg {
        Message::ClientHello => {
            let ghost g0 = *game;
            let ghost c0 = *client_ids;
            let ghost u0 = *unit_ids;
            let client_id = client_ids.next_id();
            let mut player = Player::new(client_id);
            let id0 = unit_ids.next_id();
            player.units.push(Unit::new(id0, Vec2 { x: 50, y: 50 }));
            let id1 = unit_ids.next_id();
            player.units.push(Unit::new(id1, Vec2 { x: 50, y: 100 }));
            let id2 = unit_ids.next_id();
            player.units.push(Unit::new(id2, Vec2 { x: 100, y: 50 }));
            let id3 = unit_ids.next_id();
            player.units.push(Unit::new(id3, Vec2 { x: 100, y: 100 }));
            proof {
                assert(is_starting_player(player, c0.next_spec(), u0.next_spec())) by {
                    assert forall|k: int|
                        0 <= k < start_positions().len() implies (#[trigger] player.units@[k])
                        == (Unit {
                        id: (u0.next_spec() + k) as u32,
                        position: start_positions()[k],
                        heading: vec2_zero(),
                    }) by {
                        if k == 0 {
                        } else if k == 1 {
                        } else if k == 2 {
                        } else {
                            assert(k == 3);
                        }
                    }
                }
            }
            game.players.push(player);
            proof {
                let g1 = *game;
                assert forall|i: int, j: int|
                    0 <= i < j < g1.players@.len() implies (#[trigger] g1.players@[i].id) != (
                #[trigger] g1.players@[j].id) by {
                    if j == g1.players@.len() - 1 {
                        assert(g0.players@[i].id < c0.next_spec());
                    }
                }
                assert forall|i1: int, j1: int, i2: int, j2: int|
                    g1.valid_unit_index(i1, j1) && g1.valid_unit_index(i2, j2) && (i1, j1) != (
                    i2,
                    j2,
                ) implies (#[trigger] g1.players@[i1].units@[j1].id) != (
                #[trigger] g1.players@[i2].units@[j2].id) by {
                    let last = g1.players@.len() - 1;
                    if i1 < last && i2 < last {
                        assert(g0.valid_unit_index(i1, j1) && g0.valid_unit_index(i2, j2));
                    } else if i1 == last && i2 < last {
                        assert(g0.players@[i2].units@[j2].id < u0.next_spec());
                    } else if i1 < last && i2 == last {
                        assert(g0.players@[i1].units@[j1].id < u0.next_spec());
                    }
                }
                assert forall|i: int, j: int| g1.valid_unit_index(i, j) implies world.contains(
                    #[trigger] g1.players@[i].units@[j].position,
                ) by {
                    if i < g1.players@.len() - 1 {
                        assert(g0.valid_unit_index(i, j));
                    }
                }
            }
            (Message::ServerHello(client_id, *world), true)
        },
        Message::ClientReconnect(id) => {
            let id = *id;
            let mut found: bool = false;
            let mut i: usize = 0;
            while i < game.players.len()
                invariant
                    0 <= i <= game.players@.len(),
                    found <==> exists|k: int|
                        0 <= k < i && (#[trigger] game.players@[k].id) == id,
                decreases game.players@.len() - i,
            {
                if game.players[i].id == id {
                    found = true;
                }
                i = i + 1;
            }
            if found {
                (Message::ServerHello(id, *world), true)
            } else {
                (Message::Error(id), false)
            }
        },
        Message::ServerHello(id, _) => (Message::Error(*id), false),
        Message::UpdateGameState(id, _) => (Message::Error(*id), false),
        Message::Command(id, _) => (Message::Error(*id), false),
        Message::Error(id) => (Message::Error(*id), false),
    }
}

/// Law: across any sequence of handshakes, later `ClientHello`s are
/// assigned strictly greater client ids — here stated for two hellos in
/// sequence; `lemma_issued_ids_distinct_and_increasing` gives the
/// statement for the whole sequence of ids a generator ever issued. The
/// same holds of the unit ids of the players' starting units.
pub proof fn lemma_hello_ids_strictly_increase(
    world: WorldState,
    g0: GameState,
    g1: GameState,
    g2: GameState,
    c0: IdGenerator,
    c1: IdGenerator,
    c2: IdGenerator,
    u0: IdGenerator,
    u1: IdGenerator,
    u2: IdGenerator,
    first_reply: (Message, bool),
    second_reply: (Message, bool),
)
    requires
        handshake_post(Message::ClientHello, world, g0, g1, c0, c1, u0, u1, first_reply),
        handshake_post(Message::ClientHello, world, g1, g2, c1, c2, u1, u2, second_reply),
    ensures
        first_reply.0->ServerHello_0 < second_reply.0->ServerHello_0,
        g2.players@[g2.players@.len() - 2].id < g2.players@[g2.players@.len() - 1].id,
{
    assert(g2.players@[g2.players@.len() - 2] == g1.players@[g1.players@.len() - 1]);
}

/// Law: a client that joined with `ClientHello` and later reconnects
/// with the id it was assigned gets `ServerHello` again — its player
/// still exists — and the world snapshot in it is identical to the one
/// the original hello carried, since the world bounds never change.
pub proof fn lemma_reconnect_returns_hello_world(
    world: WorldState,
    g0: GameState,
    g1: GameState,
    g2: GameState,
    c0: IdGenerator,
    c1: IdGenerator,
    c2: IdGenerator,
    u0: IdGenerator,
    u1: IdGenerator,
    u2: IdGenerator,
    hello_reply: (Message, bool),
    reconnect_reply: (Message, bool),
)
    requires
        handshake_post(Message::ClientHello, world, g0, g1, c0, c1, u0, u1, hello_reply),
        handshake_post(
            Message::ClientReconnect(c0.next_spec()),
            world,
            g1,
            g2,
            c1,
            c2,
            u1,
            u2,
            reconnect_reply,
        ),
    ensures
        hello_reply.0 == Message::ServerHello(c0.next_spec(), world),
        reconnect_reply.0 == Message::ServerHello(c0.next_spec(), world),
        hello_reply.0->ServerHello_1 == reconnect_reply.0->ServerHello_1,
        reconnect_reply.1 == true,
{
    let last = g1.players@.len() - 1;
    assert(g1.players@[last].id == c0.next_spec());
    assert(g1.has_player(c0.next_spec()));
}

} // verus!
