use thermite::game_server::{handle_client_message, welcome, CommandEffect, GameCommand, GameServer};
use thermite::game_state::{Bomb, MatchConfig};
use thermite::map_system::{Grid, Tile};
use thermite::player::{Direction, Position};
use thermite::protocol::{ClientMessage, ServerMessage};

fn fresh() -> u128 {
    uuid::Uuid::new_v4().as_u128()
}

fn new_server() -> GameServer {
    GameServer::new(fresh(), Grid::new(20, 20), MatchConfig::default())
}

#[test]
fn test_game_server_creation() {
    let server = new_server();

    assert!(server.is_active());
    assert_eq!(server.get_tick(), 0);
}

#[test]
fn test_process_tick() {
    let mut server = new_server();

    server.process_tick();

    assert_eq!(server.get_tick(), 1);
}

#[test]
fn test_player_join_command() {
    let mut server = new_server();
    let player_id = fresh();

    let join_cmd = GameCommand::PlayerJoin { player_id, spawn_position: Position::new(5, 5) };
    let effect = server.process_command(join_cmd);

    assert!(matches!(effect, CommandEffect::Joined));
    assert!(server.state.get_player(&player_id).is_some());
    assert_eq!(server.routes, vec![player_id]);
}

#[test]
fn test_player_move_command() {
    let mut server = new_server();
    let player_id = fresh();

    server.process_command(GameCommand::PlayerJoin { player_id, spawn_position: Position::new(5, 5) });

    let effect =
        server.process_command(GameCommand::PlayerMove { player_id, direction: Direction::North, sequence: 1 });

    match effect {
        CommandEffect::Reply(ServerMessage::CommandAck { sequence, success, position, error }) => {
            assert_eq!(sequence, 1);
            assert!(success);
            assert_eq!(position, Some(Position::new(5, 4)));
            assert!(error.is_none());
        }
        _ => panic!("Expected CommandAck"),
    }

    let player = server.state.get_player(&player_id).unwrap();
    assert_eq!(player.position, Position::new(5, 4));
}

#[test]
fn test_player_disconnect_command() {
    let mut server = new_server();
    let player_id = fresh();

    server.process_command(GameCommand::PlayerJoin { player_id, spawn_position: Position::new(5, 5) });
    assert!(server.state.get_player(&player_id).is_some());

    let effect = server.process_command(GameCommand::PlayerDisconnect { player_id });

    assert!(matches!(effect, CommandEffect::Left));
    assert!(server.state.get_player(&player_id).is_none());
    assert!(server.routes.is_empty());
}

#[test]
fn join_is_refused_for_a_duplicate_and_for_a_blocked_spawn() {
    let mut server = new_server();
    server.state.grid.set_tile_at(3, 3, Tile::Wall);
    server.process_command(GameCommand::PlayerJoin { player_id: 7, spawn_position: Position::new(5, 5) });

    match server.process_command(GameCommand::PlayerJoin { player_id: 7, spawn_position: Position::new(6, 6) }) {
        CommandEffect::Refused(reason) => assert_eq!(reason, "Player already in match"),
        other => panic!("unexpected effect {:?}", other),
    }
    match server.process_command(GameCommand::PlayerJoin { player_id: 8, spawn_position: Position::new(3, 3) }) {
        CommandEffect::Refused(reason) => assert_eq!(reason, "Invalid spawn position"),
        other => panic!("unexpected effect {:?}", other),
    }
    match server.process_command(GameCommand::PlayerJoin { player_id: 9, spawn_position: Position::new(20, 0) }) {
        CommandEffect::Refused(reason) => assert_eq!(reason, "Invalid spawn position"),
        other => panic!("unexpected effect {:?}", other),
    }
    assert_eq!(server.state.players.len(), 1);
    assert_eq!(server.routes, vec![7]);
}

#[test]
fn rejected_move_is_acknowledged_with_sequence_reason_and_unchanged_position() {
    let mut server = new_server();
    server.state.grid.set_tile_at(5, 4, Tile::Wall);
    server.process_command(GameCommand::PlayerJoin { player_id: 7, spawn_position: Position::new(5, 5) });

    let effect =
        server.process_command(GameCommand::PlayerMove { player_id: 7, direction: Direction::North, sequence: 42 });

    match effect {
        CommandEffect::Reply(ServerMessage::CommandAck { sequence, success, position, error }) => {
            assert_eq!(sequence, 42);
            assert!(!success);
            assert_eq!(position, Some(Position::new(5, 5)));
            assert_eq!(error, Some("Target tile is blocked".to_string()));
        }
        other => panic!("unexpected effect {:?}", other),
    }
    let player = server.state.get_player(&7).unwrap();
    assert_eq!(player.position, Position::new(5, 5));
    assert_eq!(player.last_processed_sequence, 0);
}

#[test]
fn bomb_commands_are_acknowledged_without_position() {
    let mut server = new_server();
    server.process_command(GameCommand::PlayerJoin { player_id: 7, spawn_position: Position::new(5, 5) });

    match server.process_command(GameCommand::PlaceBomb { player_id: 7, sequence: 3 }) {
        CommandEffect::Reply(ServerMessage::CommandAck { sequence, success, position, error }) => {
            assert_eq!(sequence, 3);
            assert!(success);
            assert_eq!(position, None);
            assert_eq!(error, None);
        }
        other => panic!("unexpected effect {:?}", other),
    }
    assert_eq!(server.state.bombs.len(), 1);
    assert_eq!(server.state.get_player(&7).unwrap().last_processed_sequence, 3);

    match server.process_command(GameCommand::PlaceBomb { player_id: 7, sequence: 4 }) {
        CommandEffect::Reply(ServerMessage::CommandAck { sequence, success, position, error }) => {
            assert_eq!(sequence, 4);
            assert!(!success);
            assert_eq!(position, None);
            assert_eq!(error, Some("No bombs remaining in inventory".to_string()));
        }
        other => panic!("unexpected effect {:?}", other),
    }
    assert_eq!(server.state.bombs.len(), 1);
    assert_eq!(server.state.get_player(&7).unwrap().last_processed_sequence, 3);
}

#[test]
fn commands_of_a_player_without_route_are_not_acknowledged() {
    let mut server = new_server();

    let effect =
        server.process_command(GameCommand::PlayerMove { player_id: 5, direction: Direction::South, sequence: 1 });
    assert!(matches!(effect, CommandEffect::Silent));
    let effect = server.process_command(GameCommand::PlaceBomb { player_id: 5, sequence: 2 });
    assert!(matches!(effect, CommandEffect::Silent));

    server.process_command(GameCommand::PlayerJoin { player_id: 5, spawn_position: Position::new(1, 1) });
    server.process_command(GameCommand::PlayerDisconnect { player_id: 5 });
    let effect =
        server.process_command(GameCommand::PlayerMove { player_id: 5, direction: Direction::South, sequence: 3 });
    assert!(matches!(effect, CommandEffect::Silent));
}

#[test]
fn tick_broadcast_sends_detonations_damage_deaths_then_snapshot() {
    let mut server = new_server();
    server.process_command(GameCommand::PlayerJoin { player_id: 1, spawn_position: Position::new(5, 5) });
    server.process_command(GameCommand::PlayerJoin { player_id: 2, spawn_position: Position::new(10, 10) });
    server.state.add_bomb(Bomb::with_id(77, 2, Position::new(5, 5), 1, 2));
    server.state.add_bomb(Bomb::with_id(78, 2, Position::new(15, 15), 4, 2));

    let messages = server.process_tick();

    assert_eq!(messages.len(), 4);
    match &messages[0] {
        ServerMessage::BombDetonation { bomb_id, position, blast_tiles, destroyed_tiles } => {
            assert_eq!(*bomb_id, 77);
            assert_eq!(*position, Position::new(5, 5));
            assert_eq!(blast_tiles.len(), 9);
            assert!(destroyed_tiles.is_empty());
        }
        other => panic!("unexpected message {:?}", other),
    }
    match &messages[1] {
        ServerMessage::PlayerDamaged { player_id, damage_amount, new_health, killer_id } => {
            assert_eq!((*player_id, *damage_amount, *new_health, *killer_id), (1, 100, 0, Some(2)));
        }
        other => panic!("unexpected message {:?}", other),
    }
    match &messages[2] {
        ServerMessage::PlayerDied { player_id, killer_id, position } => {
            assert_eq!((*player_id, *killer_id, *position), (1, Some(2), Position::new(5, 5)));
        }
        other => panic!("unexpected message {:?}", other),
    }
    match &messages[3] {
        ServerMessage::StateUpdate { tick, players, bombs, time_remaining_ms } => {
            assert_eq!(*tick, 1);
            assert_eq!(*time_remaining_ms, 300_000 - 50);
            assert_eq!(players.len(), 2);
            assert_eq!((players[0].id, players[0].health, players[0].is_alive), (1, 0, false));
            assert_eq!((players[1].id, players[1].health, players[1].is_alive), (2, 100, true));
            assert_eq!(bombs.len(), 1);
            assert_eq!((bombs[0].id, bombs[0].owner_id, bombs[0].timer_ms), (78, 2, 150));
            assert_eq!(bombs[0].position, Position::new(15, 15));
        }
        other => panic!("unexpected message {:?}", other),
    }
}

#[test]
fn quiet_tick_broadcasts_only_the_snapshot() {
    let mut server = new_server();
    let messages = server.process_tick();
    assert_eq!(messages.len(), 1);
    assert!(matches!(messages[0], ServerMessage::StateUpdate { tick: 1, .. }));
}

#[test]
fn tick_loop_ends_with_the_match() {
    let config = MatchConfig { duration_ms: 120, tick_rate_ms: 50 };
    let mut server = GameServer::new(1, Grid::new(5, 5), config);
    let mut ticks = 0;
    while server.is_active() {
        server.process_tick();
        ticks += 1;
        assert!(ticks < 10);
    }
    assert_eq!(ticks, 3);
    assert_eq!(server.get_tick(), 3);
    assert_eq!(server.state.time_remaining_ms, 0);
}

#[test]
fn client_messages_become_commands() {
    assert_eq!(
        handle_client_message(ClientMessage::Move { direction: Direction::East, sequence: 9 }, 4),
        Some(GameCommand::PlayerMove { player_id: 4, direction: Direction::East, sequence: 9 })
    );
    assert_eq!(
        handle_client_message(ClientMessage::PlaceBomb { sequence: 10 }, 4),
        Some(GameCommand::PlaceBomb { player_id: 4, sequence: 10 })
    );
    assert_eq!(handle_client_message(ClientMessage::Extract { sequence: 11 }, 4), None);
    assert_eq!(handle_client_message(ClientMessage::Ping { timestamp: 12 }, 4), None);
}

#[test]
fn welcome_names_player_and_tick_rate() {
    match welcome(31, 50) {
        ServerMessage::Welcome { player_id, tick_rate_ms } => {
            assert_eq!(player_id, 31);
            assert_eq!(tick_rate_ms, 50);
        }
        other => panic!("unexpected message {:?}", other),
    }
}
