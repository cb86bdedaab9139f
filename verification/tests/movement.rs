//! Command ingestion and simulation: clamping, pending targets, ticks,
//! arrival and facing.

use rts_core::command::Command;
use rts_core::server::Server;
use rts_core::session::Message;
use rts_core::state::Vec2;

fn server_with_player() -> Server {
    let mut server = Server::new(200, 200);
    server.handshake(&Message::ClientHello);
    server
}

fn dist2(a: Vec2, b: Vec2) -> i64 {
    (a.x - b.x) * (a.x - b.x) + (a.y - b.y) * (a.y - b.y)
}

#[test]
fn move_with_target_in_bounds_is_stored_exactly() {
    let mut server = server_with_player();
    server.apply_command(&Command::Move(0, Vec2 { x: 150, y: 60 }));
    assert_eq!(server.unit_targets.get(&0), Some(&Vec2 { x: 150, y: 60 }));
}

#[test]
fn move_with_target_out_of_bounds_is_clamped_per_axis() {
    let mut server = server_with_player();
    server.apply_command(&Command::Move(0, Vec2 { x: 300, y: -10 }));
    assert_eq!(server.unit_targets.get(&0), Some(&Vec2 { x: 200, y: 0 }));
    server.apply_command(&Command::Move(1, Vec2 { x: -5, y: 250 }));
    assert_eq!(server.unit_targets.get(&1), Some(&Vec2 { x: 0, y: 200 }));
    server.apply_command(&Command::Move(2, Vec2 { x: 300, y: 60 }));
    assert_eq!(server.unit_targets.get(&2), Some(&Vec2 { x: 200, y: 60 }));
}

#[test]
fn newer_move_supersedes_older_one() {
    let mut server = server_with_player();
    server.apply_command(&Command::Move(0, Vec2 { x: 150, y: 60 }));
    server.apply_command(&Command::Move(0, Vec2 { x: 20, y: 30 }));
    assert_eq!(server.unit_targets.get(&0), Some(&Vec2 { x: 20, y: 30 }));
    assert_eq!(server.unit_targets.len(), 1);
}

#[test]
fn move_for_unknown_unit_is_a_silent_no_op() {
    let mut server = server_with_player();
    let before = server.game.players[0].clone();
    server.apply_command(&Command::Move(99, Vec2 { x: 10, y: 10 }));
    assert!(server.unit_targets.is_empty());
    let after = &server.game.players[0];
    assert_eq!(after.units.len(), before.units.len());
    for k in 0..after.units.len() {
        assert_eq!(after.units[k], before.units[k]);
    }
}

#[test]
fn ticks_strictly_approach_then_reach_then_stay() {
    let mut server = server_with_player();
    let target = Vec2 { x: 200, y: 0 };
    server.apply_command(&Command::Move(0, target));
    let mut last = dist2(server.game.players[0].units[0].position, target);
    let mut ticks = 0;
    while server.game.players[0].units[0].position != target {
        server.tick(7);
        let now = dist2(server.game.players[0].units[0].position, target);
        assert!(now < last, "distance must strictly decrease before arrival");
        last = now;
        ticks += 1;
        assert!(ticks < 1000, "unit must reach its target");
    }
    assert_eq!(server.game.players[0].units[0].position, target);
    for _ in 0..5 {
        server.tick(7);
        assert_eq!(server.game.players[0].units[0].position, target);
    }
}

#[test]
fn one_tick_advances_each_axis_by_step_and_snaps_within_reach() {
    let mut server = server_with_player();
    // Unit 0 starts at (50, 50) and heads for (200, 0): one tick of 7
    // moves each axis by 7 toward the target.
    server.apply_command(&Command::Move(0, Vec2 { x: 200, y: 0 }));
    server.tick(7);
    assert_eq!(server.game.players[0].units[0].position, Vec2 { x: 57, y: 43 });
    // A target within one step is hit exactly: no overshoot.
    server.apply_command(&Command::Move(1, Vec2 { x: 53, y: 98 }));
    server.tick(7);
    assert_eq!(server.game.players[0].units[1].position, Vec2 { x: 53, y: 98 });
}

#[test]
fn units_without_pending_target_stay_put() {
    let mut server = server_with_player();
    server.apply_command(&Command::Move(0, Vec2 { x: 150, y: 60 }));
    let before = server.game.players[0].units[1];
    server.tick(7);
    assert_eq!(server.game.players[0].units[1], before);
}

#[test]
fn heading_reflects_direction_in_all_four_quadrants() {
    // Unit 3 starts at (100, 100); aim into each quadrant around it and
    // check the facing both right after the command and after arrival.
    // Diagonal targets keep both axes moving until the same final tick,
    // so the last traversed vector points into the quadrant too.
    let cases = [
        (Vec2 { x: 150, y: 150 }, 1, 1),
        (Vec2 { x: 40, y: 160 }, -1, 1),
        (Vec2 { x: 30, y: 30 }, -1, -1),
        (Vec2 { x: 160, y: 40 }, 1, -1),
    ];
    for (target, sx, sy) in cases {
        let mut server = server_with_player();
        server.apply_command(&Command::Move(3, target));
        let commanded = server.game.players[0].units[3].heading;
        assert_eq!(commanded.x.signum(), sx);
        assert_eq!(commanded.y.signum(), sy);
        while server.game.players[0].units[3].position != target {
            server.tick(7);
        }
        let heading = server.game.players[0].units[3].heading;
        assert_eq!(heading.x.signum(), sx);
        assert_eq!(heading.y.signum(), sy);
    }
}

#[test]
fn heading_with_zero_dx_is_vertical() {
    let mut server = server_with_player();
    // Unit 0 starts at (50, 50); straight up in y, no x component.
    server.apply_command(&Command::Move(0, Vec2 { x: 50, y: 180 }));
    server.tick(7);
    let heading = server.game.players[0].units[0].heading;
    assert_eq!(heading.x, 0);
    assert!(heading.y > 0);
}

#[test]
fn command_turns_unit_toward_clamped_target_immediately() {
    let mut server = server_with_player();
    // Unit 2 starts at (100, 50); the request clamps to (200, 0), so
    // the unit turns right and down, toward the clamped point.
    server.apply_command(&Command::Move(2, Vec2 { x: 300, y: -10 }));
    let heading = server.game.players[0].units[2].heading;
    assert_eq!(heading, Vec2 { x: 100, y: -50 });
}

#[test]
fn example_scenario_hello_move_and_run_to_arrival() {
    let mut server = Server::new(200, 200);
    let (reply, active) = server.handshake(&Message::ClientHello);
    assert!(active);
    match reply {
        Message::ServerHello(id, _) => assert_eq!(id, 0),
        _ => panic!("expected ServerHello"),
    }
    let positions: Vec<Vec2> = server.game.players[0]
        .units
        .iter()
        .map(|u| u.position)
        .collect();
    assert_eq!(
        positions,
        vec![
            Vec2 { x: 50, y: 50 },
            Vec2 { x: 50, y: 100 },
            Vec2 { x: 100, y: 50 },
            Vec2 { x: 100, y: 100 },
        ]
    );
    let unit0 = server.game.players[0].units[0].id;
    server.apply_command(&Command::Move(unit0, Vec2 { x: 300, y: -10 }));
    assert_eq!(server.unit_targets.get(&unit0), Some(&Vec2 { x: 200, y: 0 }));
    for _ in 0..1000 {
        server.tick(5);
    }
    assert_eq!(server.game.players[0].units[0].position, Vec2 { x: 200, y: 0 });
    server.tick(5);
    server.tick(5);
    assert_eq!(server.game.players[0].units[0].position, Vec2 { x: 200, y: 0 });
}
