//! Session handshake behavior: hello, reconnect, protocol violations,
//! and the identity generators.

use rts_core::command::Command;
use rts_core::server::Server;
use rts_core::session::Message;
use rts_core::state::Vec2;

#[test]
fn client_hello_creates_player_with_starting_units() {
    let mut server = Server::new(200, 200);
    let (reply, active) = server.handshake(&Message::ClientHello);
    assert!(active);
    match reply {
        Message::ServerHello(id, world) => {
            assert_eq!(id, 0);
            assert_eq!(world.x, 200);
            assert_eq!(world.y, 200);
        }
        _ => panic!("expected ServerHello"),
    }
    assert_eq!(server.game.players.len(), 1);
    let player = &server.game.players[0];
    assert_eq!(player.id, 0);
    assert_eq!(player.units.len(), 4);
    let expected = [(50, 50), (50, 100), (100, 50), (100, 100)];
    for (k, unit) in player.units.iter().enumerate() {
        assert_eq!(unit.id, k as u32);
        assert_eq!(unit.position, Vec2 { x: expected[k].0, y: expected[k].1 });
    }
}

#[test]
fn client_ids_are_distinct_and_strictly_increasing() {
    let mut server = Server::new(200, 200);
    let mut ids: Vec<u32> = Vec::new();
    for _ in 0..5 {
        let (reply, _) = server.handshake(&Message::ClientHello);
        match reply {
            Message::ServerHello(id, _) => ids.push(id),
            _ => panic!("expected ServerHello"),
        }
    }
    for k in 1..ids.len() {
        assert!(ids[k - 1] < ids[k]);
    }
    for a in 0..ids.len() {
        for b in 0..ids.len() {
            if a != b {
                assert_ne!(ids[a], ids[b]);
            }
        }
    }
}

#[test]
fn unit_ids_are_distinct_and_increasing_across_players() {
    let mut server = Server::new(200, 200);
    server.handshake(&Message::ClientHello);
    server.handshake(&Message::ClientHello);
    let mut unit_ids: Vec<u32> = Vec::new();
    for player in server.game.players.iter() {
        for unit in player.units.iter() {
            unit_ids.push(unit.id);
        }
    }
    assert_eq!(unit_ids, vec![0, 1, 2, 3, 4, 5, 6, 7]);
    for k in 1..unit_ids.len() {
        assert!(unit_ids[k - 1] < unit_ids[k]);
    }
}

#[test]
fn reconnect_unknown_id_yields_error_and_no_session() {
    let mut server = Server::new(200, 200);
    let (reply, active) = server.handshake(&Message::ClientReconnect(7));
    assert!(!active);
    match reply {
        Message::Error(id) => assert_eq!(id, 7),
        _ => panic!("expected Error"),
    }
    assert_eq!(server.game.players.len(), 0);
}

#[test]
fn reconnect_known_id_yields_same_world_as_hello() {
    let mut server = Server::new(150, 120);
    let hello_world = match server.handshake(&Message::ClientHello) {
        (Message::ServerHello(_, world), true) => world,
        _ => panic!("expected active ServerHello"),
    };
    let (reply, active) = server.handshake(&Message::ClientReconnect(0));
    assert!(active);
    match reply {
        Message::ServerHello(id, world) => {
            assert_eq!(id, 0);
            assert_eq!(world, hello_world);
        }
        _ => panic!("expected ServerHello"),
    }
    assert_eq!(server.game.players.len(), 1);
}

#[test]
fn unexpected_first_message_is_rejected() {
    let mut server = Server::new(200, 200);
    let msg = Message::Command(5, Command::Move(0, Vec2 { x: 10, y: 10 }));
    let (reply, active) = server.handshake(&msg);
    assert!(!active);
    match reply {
        Message::Error(id) => assert_eq!(id, 5),
        _ => panic!("expected Error"),
    }
    assert_eq!(server.game.players.len(), 0);
}

#[test]
fn can_accept_hello_on_fresh_server() {
    let server = Server::new(200, 200);
    assert!(server.can_accept_hello());
}
