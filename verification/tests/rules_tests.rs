use thermite::blast::calculate_blast;
use thermite::game_state::{Bomb, GameState, MatchConfig};
use thermite::map_system::{Grid, Tile};
use thermite::map_template::{MapTemplate, Point, TemplateError};
use thermite::player::{BombPlacementError, Direction, MoveError, Player, Position};

const ALL_TILES: [Tile; 5] = [Tile::Wall, Tile::Floor, Tile::Destructible, Tile::Loot, Tile::Extraction];
const ALL_DIRECTIONS: [Direction; 4] = [Direction::North, Direction::South, Direction::East, Direction::West];

/// A share of the destructible zones, given as a fraction, in millionths.
fn share(fraction: f64) -> u32 {
    (fraction * 1_000_000.0).round() as u32
}

fn open_state() -> GameState {
    GameState::new(1, Grid::new(20, 20), MatchConfig::default())
}

fn template(width: usize, height: usize) -> MapTemplate {
    MapTemplate {
        name: "test".to_string(),
        width,
        height,
        walls: vec![],
        spawn_points: vec![Point::new(0, 0)],
        extraction_points: vec![Point::new(width - 1, height - 1)],
        loot_spawns: vec![],
        zones: vec![],
        destructible_zones: vec![],
        variation_percentage: 0,
        raid_duration_seconds: 300,
    }
}

fn destination(direction: Direction) -> (usize, usize) {
    match direction {
        Direction::North => (5, 4),
        Direction::South => (5, 6),
        Direction::East => (6, 5),
        Direction::West => (4, 5),
    }
}

#[test]
fn move_succeeds_exactly_on_walkable_destination_for_living_player() {
    for direction in ALL_DIRECTIONS {
        for tile in ALL_TILES {
            for alive in [true, false] {
                let mut grid = Grid::new(10, 10);
                let (x, y) = destination(direction);
                grid.set_tile_at(x, y, tile);
                let mut player = Player::new(1, Position::new(5, 5));
                player.is_alive = alive;
                let legal = alive && matches!(tile, Tile::Floor | Tile::Loot | Tile::Extraction);

                assert_eq!(player.can_move(direction, &grid), legal);
                let result = player.try_move(direction, &grid);
                if legal {
                    assert_eq!(result, Ok(Position::new(x, y)));
                    assert_eq!(player.position, Position::new(x, y));
                } else if !alive {
                    assert_eq!(result, Err(MoveError::PlayerDead));
                    assert_eq!(player.position, Position::new(5, 5));
                } else {
                    assert_eq!(result, Err(MoveError::TileBlocked));
                    assert_eq!(player.position, Position::new(5, 5));
                }
            }
        }
    }
}

#[test]
fn move_off_any_edge_is_out_of_bounds() {
    let grid = Grid::new(10, 10);
    for (start, direction) in [
        (Position::new(0, 0), Direction::North),
        (Position::new(0, 0), Direction::West),
        (Position::new(9, 9), Direction::South),
        (Position::new(9, 9), Direction::East),
        (Position::new(usize::MAX, 3), Direction::East),
        (Position::new(3, usize::MAX), Direction::South),
    ] {
        let mut player = Player::new(1, start);
        assert!(!player.can_move(direction, &grid));
        assert_eq!(player.try_move(direction, &grid), Err(MoveError::OutOfBounds));
        assert_eq!(player.position, start);
    }
}

#[test]
fn damage_never_raises_health_and_death_is_final() {
    for start in [100, 70, 1] {
        for amount in [0, 1, 30, 69, 70, 99, 100, 150, i32::MAX] {
            let mut player = Player::new(1, Position::new(0, 0));
            player.health = start;
            player.take_damage(amount);
            assert!(player.health <= start);
            assert!(player.health >= 0);
            assert_eq!(player.is_alive, start > amount);
            assert_eq!(player.health, if start > amount { start - amount } else { 0 });
            if !player.is_alive {
                for more in [0, 50, i32::MAX] {
                    player.take_damage(more);
                    assert_eq!(player.health, 0);
                    assert!(!player.is_alive);
                }
            }
        }
    }
}

#[test]
fn numbers_are_written_in_decimal() {
    for n in [0usize, 7, 9, 10, 11, 99, 100, 101, 4096, 1234567890, usize::MAX] {
        assert_eq!(thermite::text::decimal_text(n), n.to_string());
    }
}

#[test]
fn damage_that_is_not_positive_changes_nothing() {
    for start in [100, 70, 1] {
        for amount in [0, -1, -10, -100, i32::MIN] {
            let mut player = Player::new(1, Position::new(0, 0));
            player.health = start;
            let before = player;
            player.take_damage(amount);
            assert_eq!(player, before);
            assert!(player.health <= 100);
        }
    }
    let mut player = Player::new(1, Position::new(0, 0));
    player.take_damage(-10);
    assert_eq!(player.health, 100);
    assert!(player.is_alive);

    let mut dead = Player::new(1, Position::new(0, 0));
    dead.take_damage(100);
    dead.take_damage(-50);
    assert_eq!(dead.health, 0);
    assert!(!dead.is_alive);
}

#[test]
fn damage_at_the_limits_of_the_range_does_not_overflow() {
    let mut player = Player::new(1, Position::new(0, 0));
    player.health = i32::MAX;
    player.take_damage(i32::MAX - 1);
    assert_eq!(player.health, 1);
    assert!(player.is_alive);
    player.take_damage(i32::MAX);
    assert_eq!(player.health, 0);
    assert!(!player.is_alive);
}

#[test]
fn error_messages_read_as_documented() {
    assert_eq!(MoveError::PlayerDead.message(), "Player is dead");
    assert_eq!(MoveError::OutOfBounds.message(), "Movement would go out of bounds");
    assert_eq!(MoveError::TileBlocked.message(), "Target tile is blocked");
    assert_eq!(BombPlacementError::PlayerDead.message(), "Player is dead");
    assert_eq!(BombPlacementError::NoBombsRemaining.message(), "No bombs remaining in inventory");
    assert_eq!(BombPlacementError::CooldownNotElapsed.message(), "Cooldown not elapsed");
    assert_eq!(BombPlacementError::TileOccupied.message(), "Tile already has a bomb");
}

#[test]
fn blast_on_open_floor_is_a_full_cross_in_order() {
    let grid = Grid::new(20, 20);
    let (blast, destroyed) = calculate_blast(&grid, Position::new(5, 5), 2);
    assert_eq!(
        blast,
        vec![
            Position::new(5, 5),
            Position::new(5, 4),
            Position::new(5, 3),
            Position::new(5, 6),
            Position::new(5, 7),
            Position::new(6, 5),
            Position::new(7, 5),
            Position::new(4, 5),
            Position::new(3, 5),
        ]
    );
    assert!(destroyed.is_empty());
}

#[test]
fn blast_stops_before_wall_and_other_rays_are_unaffected() {
    let mut grid = Grid::new(20, 20);
    grid.set_tile_at(5, 4, Tile::Wall);
    let (blast, destroyed) = calculate_blast(&grid, Position::new(5, 5), 2);
    assert_eq!(
        blast,
        vec![
            Position::new(5, 5),
            Position::new(5, 6),
            Position::new(5, 7),
            Position::new(6, 5),
            Position::new(7, 5),
            Position::new(4, 5),
            Position::new(3, 5),
        ]
    );
    assert!(destroyed.is_empty());

    let mut grid = Grid::new(20, 20);
    grid.set_tile_at(5, 3, Tile::Wall);
    let (blast, _) = calculate_blast(&grid, Position::new(5, 5), 2);
    assert_eq!(blast.len(), 8);
    assert!(blast.contains(&Position::new(5, 4)));
    assert!(!blast.contains(&Position::new(5, 3)));
}

#[test]
fn blast_passes_over_loot_and_extraction() {
    let mut grid = Grid::new(20, 20);
    grid.set_tile_at(6, 5, Tile::Loot);
    grid.set_tile_at(5, 6, Tile::Extraction);
    let (blast, destroyed) = calculate_blast(&grid, Position::new(5, 5), 2);
    assert_eq!(blast.len(), 9);
    assert!(destroyed.is_empty());
}

#[test]
fn blast_with_range_zero_is_the_bomb_cell() {
    let grid = Grid::new(20, 20);
    let (blast, destroyed) = calculate_blast(&grid, Position::new(5, 5), 0);
    assert_eq!(blast, vec![Position::new(5, 5)]);
    assert!(destroyed.is_empty());
}

#[test]
fn blast_at_corner_stays_on_the_grid() {
    let grid = Grid::new(20, 20);
    let (blast, _) = calculate_blast(&grid, Position::new(0, 0), 2);
    assert_eq!(
        blast,
        vec![
            Position::new(0, 0),
            Position::new(0, 1),
            Position::new(0, 2),
            Position::new(1, 0),
            Position::new(2, 0),
        ]
    );
    let (blast, _) = calculate_blast(&grid, Position::new(19, 19), 3);
    assert_eq!(blast.len(), 7);
    let (blast, _) = calculate_blast(&grid, Position::new(usize::MAX, usize::MAX), 3);
    assert_eq!(blast, vec![Position::new(usize::MAX, usize::MAX)]);
}

#[test]
fn destructible_absorbs_the_ray_and_becomes_floor() {
    let mut state = open_state();
    state.grid.set_tile_at(6, 5, Tile::Destructible);
    state.grid.set_tile_at(5, 7, Tile::Destructible);

    let (blast, destroyed) = state.calculate_blast(Position::new(5, 5), 2);
    assert!(blast.contains(&Position::new(6, 5)));
    assert!(!blast.contains(&Position::new(7, 5)));
    assert!(blast.contains(&Position::new(5, 6)));
    assert!(blast.contains(&Position::new(5, 7)));
    assert_eq!(destroyed, vec![Position::new(5, 7), Position::new(6, 5)]);

    state.add_bomb(Bomb::with_id(9, 1, Position::new(5, 5), 1, 2));
    state.tick();
    assert_eq!(state.grid.get_tile_at(6, 5), Some(Tile::Floor));
    assert_eq!(state.grid.get_tile_at(5, 7), Some(Tile::Floor));
    assert_eq!(state.pending_detonations.len(), 1);
    assert_eq!(state.pending_detonations[0].3, vec![Position::new(5, 7), Position::new(6, 5)]);

    let (blast, destroyed) = state.calculate_blast(Position::new(5, 5), 2);
    assert_eq!(blast.len(), 9);
    assert!(destroyed.is_empty());
}

#[test]
fn chain_of_three_bombs_goes_off_one_link_per_tick() {
    let mut state = open_state();
    state.add_bomb(Bomb::with_id(1, 0, Position::new(5, 5), 1, 2));
    state.add_bomb(Bomb::with_id(2, 0, Position::new(7, 5), 10, 2));
    state.add_bomb(Bomb::with_id(3, 0, Position::new(9, 5), 30, 2));

    state.tick();
    assert!(state.get_bomb(&1).is_none());
    assert_eq!(state.get_bomb(&2).unwrap().ticks_remaining, 0);
    assert_eq!(state.get_bomb(&3).unwrap().ticks_remaining, 29);
    assert_eq!(state.pending_detonations.len(), 1);
    assert_eq!(state.pending_detonations[0].0, 1);

    state.tick();
    assert!(state.get_bomb(&2).is_none());
    assert_eq!(state.get_bomb(&3).unwrap().ticks_remaining, 0);
    assert_eq!(state.pending_detonations.len(), 1);
    assert_eq!(state.pending_detonations[0].0, 2);

    state.tick();
    assert!(state.bombs.is_empty());
    assert_eq!(state.pending_detonations.len(), 1);
    assert_eq!(state.pending_detonations[0].0, 3);

    state.tick();
    assert!(state.pending_detonations.is_empty());
}

#[test]
fn bombs_due_in_the_same_tick_detonate_in_order_and_do_not_chain() {
    let mut state = open_state();
    state.add_player(50, Position::new(6, 5)).unwrap();
    state.players[0].health = 250;
    state.add_bomb(Bomb::with_id(1, 11, Position::new(5, 5), 1, 2));
    state.add_bomb(Bomb::with_id(2, 12, Position::new(7, 5), 0, 2));

    state.tick();

    assert!(state.bombs.is_empty());
    assert_eq!(state.pending_detonations.len(), 2);
    assert_eq!(state.pending_detonations[0].0, 1);
    assert_eq!(state.pending_detonations[1].0, 2);
    assert_eq!(state.pending_damage_events, vec![(50, 100, 150, Some(11)), (50, 100, 50, Some(12))]);
    assert!(state.pending_death_events.is_empty());
    assert_eq!(state.players[0].health, 50);
}

#[test]
fn ended_match_ignores_ticks() {
    let mut state = open_state();
    state.add_player(5, Position::new(5, 5)).unwrap();
    state.add_bomb(Bomb::with_id(1, 5, Position::new(5, 5), 1, 2));
    state.time_remaining_ms = 50;
    state.tick();
    assert!(!state.is_active);
    assert_eq!(state.tick, 1);
    assert_eq!(state.time_remaining_ms, 0);
    assert_eq!(state.pending_detonations.len(), 1);

    state.add_bomb(Bomb::with_id(2, 5, Position::new(8, 8), 1, 2));
    for _ in 0..5 {
        state.tick();
        assert!(!state.is_active);
        assert_eq!(state.tick, 1);
        assert_eq!(state.time_remaining_ms, 0);
        assert_eq!(state.pending_detonations.len(), 1);
        assert_eq!(state.pending_damage_events.len(), 1);
        assert_eq!(state.pending_death_events.len(), 1);
        assert_eq!(state.bombs.len(), 1);
    }
}

#[test]
fn timer_stops_at_zero_when_the_tick_is_longer_than_the_rest() {
    let mut state = GameState::new(1, Grid::new(4, 4), MatchConfig { duration_ms: 70, tick_rate_ms: 50 });
    state.tick();
    assert!(state.is_active);
    assert_eq!(state.time_remaining_ms, 20);
    assert_eq!(state.elapsed_ms(), 50);
    state.tick();
    assert!(!state.is_active);
    assert_eq!(state.time_remaining_ms, 0);
    assert_eq!(state.elapsed_ms(), 70);
    assert_eq!(state.tick, 2);
}

#[test]
fn end_to_end_bomb_kills_player_on_its_tile() {
    let mut state = open_state();
    state.add_player(1, Position::new(5, 5)).unwrap();
    state.add_bomb(Bomb::with_id(100, 1, Position::new(5, 5), 1, 2));

    state.tick();

    let player = state.get_player(&1).unwrap();
    assert_eq!(player.health, 0);
    assert!(!player.is_alive);
    assert_eq!(state.pending_damage_events, vec![(1, 100, 0, Some(1))]);
    assert_eq!(state.pending_death_events, vec![(1, Some(1), Position::new(5, 5))]);
    assert!(state.get_bomb(&100).is_none());
    assert!(state.bombs.is_empty());
    assert_eq!(state.alive_player_count(), 0);
    assert!(state.survivors().is_empty());
}

#[test]
fn place_bomb_reports_each_rejection() {
    let mut state = open_state();
    assert_eq!(state.place_bomb(&1, 1), Err(BombPlacementError::PlayerDead));

    state.add_player(1, Position::new(5, 5)).unwrap();
    state.tick = 100;
    state.players[0].bombs_remaining = 0;
    assert_eq!(state.place_bomb(&1, 1), Err(BombPlacementError::NoBombsRemaining));

    state.players[0].bombs_remaining = 2;
    state.players[0].is_alive = false;
    assert_eq!(state.place_bomb(&1, 1), Err(BombPlacementError::PlayerDead));

    state.players[0].is_alive = true;
    state.players[0].last_bomb_placement_tick = 90;
    assert_eq!(state.place_bomb(&1, 1), Err(BombPlacementError::CooldownNotElapsed));

    state.players[0].last_bomb_placement_tick = 80;
    state.add_bomb(Bomb::with_id(9, 2, Position::new(5, 5), 30, 2));
    assert_eq!(state.place_bomb(&1, 1), Err(BombPlacementError::TileOccupied));
    assert_eq!(state.players[0].bombs_remaining, 2);
    assert_eq!(state.players[0].last_processed_sequence, 0);

    state.process_move(&1, Direction::South, 2).unwrap();
    let bomb_id = state.place_bomb(&1, 3).unwrap();
    let bomb = *state.get_bomb(&bomb_id).unwrap();
    assert_eq!(bomb.position, Position::new(5, 6));
    assert_eq!(bomb.owner_id, 1);
    assert_eq!(bomb.ticks_remaining, 60);
    assert_eq!(bomb.range, 2);
    assert_eq!(state.players[0].bombs_remaining, 1);
    assert_eq!(state.players[0].last_bomb_placement_tick, 100);
    assert_eq!(state.players[0].last_processed_sequence, 3);
    assert_eq!(state.bombs.len(), 2);
}

#[test]
fn no_cooldown_is_reported_before_a_first_placement() {
    for tick in [0, 1, 19, 20, 100] {
        let mut state = open_state();
        state.add_player(1, Position::new(5, 5)).unwrap();
        state.tick = tick;

        state.players[0].is_alive = false;
        assert_eq!(state.place_bomb(&1, 1), Err(BombPlacementError::PlayerDead));

        state.players[0].is_alive = true;
        state.players[0].bombs_remaining = 0;
        assert_eq!(state.place_bomb(&1, 1), Err(BombPlacementError::NoBombsRemaining));

        state.players[0].is_alive = false;
        assert_eq!(state.place_bomb(&1, 1), Err(BombPlacementError::NoBombsRemaining));

        assert!(state.bombs.is_empty());
        assert_eq!(state.players[0].last_processed_sequence, 0);
        assert_eq!(state.players[0].last_bomb_placement_tick, 0);

        state.players[0].is_alive = true;
        state.players[0].bombs_remaining = 1;
        assert!(state.place_bomb(&1, 2).is_ok());
    }
}

#[test]
fn pending_cooldown_is_reported_first() {
    let mut state = open_state();
    state.add_player(1, Position::new(5, 5)).unwrap();
    state.tick = 30;
    state.players[0].last_bomb_placement_tick = 11;
    state.players[0].bombs_remaining = 0;
    state.players[0].is_alive = false;
    assert_eq!(state.place_bomb(&1, 1), Err(BombPlacementError::CooldownNotElapsed));
    state.players[0].last_bomb_placement_tick = 10;
    assert_eq!(state.place_bomb(&1, 1), Err(BombPlacementError::NoBombsRemaining));
    state.players[0].bombs_remaining = 1;
    assert_eq!(state.place_bomb(&1, 1), Err(BombPlacementError::PlayerDead));
    state.players[0].is_alive = true;
    assert!(state.place_bomb(&1, 1).is_ok());
    state.players[0].bombs_remaining = 1;
    state.tick = 49;
    assert_eq!(state.place_bomb(&1, 2), Err(BombPlacementError::CooldownNotElapsed));
    state.tick = 50;
    state.process_move(&1, Direction::East, 3).unwrap();
    assert!(state.place_bomb(&1, 4).is_ok());
}

#[test]
fn new_bombs_get_distinct_random_identifiers() {
    let a = Bomb::new(1, Position::new(0, 0), 60, 2);
    let b = Bomb::new(1, Position::new(0, 0), 60, 2);
    assert_ne!(a.id, b.id);
    for bomb in [a, b] {
        let id = uuid::Uuid::from_u128(bomb.id);
        assert_eq!(id.get_version_num(), 4);
        assert_eq!(bomb.id & 0xF000_0000_0000_0000_0000, 0x4000_0000_0000_0000_0000);
        assert_eq!(bomb.id & 0xC000_0000_0000_0000, 0x8000_0000_0000_0000);
        assert_eq!(bomb.owner_id, 1);
        assert_eq!(bomb.ticks_remaining, 60);
    }
}

#[test]
fn add_bomb_replaces_a_bomb_with_the_same_identifier() {
    let mut state = open_state();
    state.add_bomb(Bomb::with_id(1, 0, Position::new(1, 1), 5, 2));
    state.add_bomb(Bomb::with_id(2, 0, Position::new(2, 2), 5, 2));
    state.add_bomb(Bomb::with_id(1, 0, Position::new(3, 3), 7, 1));
    assert_eq!(state.bombs.len(), 2);
    assert_eq!(state.bombs[0], Bomb::with_id(1, 0, Position::new(3, 3), 7, 1));
    assert_eq!(state.bombs[1].id, 2);
}

#[test]
fn timer_is_ticks_times_tick_length_cut_to_32_bits() {
    assert_eq!(Bomb::with_id(1, 1, Position::new(0, 0), 60, 2).timer_ms(50), 3000);
    assert_eq!(Bomb::with_id(1, 1, Position::new(0, 0), 0, 2).timer_ms(50), 0);
    assert_eq!(Bomb::with_id(1, 1, Position::new(0, 0), 3, 2).timer_ms(0x1_0000_0001), 3);
    assert_eq!(Bomb::with_id(1, 1, Position::new(0, 0), u32::MAX, 2).timer_ms(0x1_0000_0000), 0);
}

#[test]
fn remove_player_returns_the_player_and_keeps_the_order() {
    let mut state = open_state();
    state.add_player(1, Position::new(1, 1)).unwrap();
    state.add_player(2, Position::new(2, 2)).unwrap();
    state.add_player(3, Position::new(3, 3)).unwrap();
    let removed = state.remove_player(&2).unwrap();
    assert_eq!(removed.id, 2);
    assert_eq!(removed.position, Position::new(2, 2));
    assert!(state.remove_player(&2).is_none());
    assert_eq!(state.players.len(), 2);
    assert_eq!(state.players[0].id, 1);
    assert_eq!(state.players[1].id, 3);
    assert_eq!(state.survivors(), vec![1, 3]);
}

#[test]
fn snapshots_list_players_and_bombs_in_order() {
    let mut state = open_state();
    state.add_player(1, Position::new(1, 1)).unwrap();
    state.add_player(2, Position::new(2, 2)).unwrap();
    state.players[1].take_damage(40);
    state.add_bomb(Bomb::with_id(8, 2, Position::new(4, 4), 10, 2));
    let players = state.get_player_states();
    assert_eq!(players.len(), 2);
    assert_eq!(
        (players[0].id, players[0].position, players[0].health, players[0].is_alive),
        (1, Position::new(1, 1), 100, true)
    );
    assert_eq!(
        (players[1].id, players[1].position, players[1].health, players[1].is_alive),
        (2, Position::new(2, 2), 60, true)
    );
    let bombs = state.get_bomb_states();
    assert_eq!(bombs.len(), 1);
    assert_eq!(
        (bombs[0].id, bombs[0].position, bombs[0].owner_id, bombs[0].timer_ms),
        (8, Position::new(4, 4), 2, 500)
    );
}

#[test]
fn neighbors_are_listed_west_east_north_south() {
    let mut grid = Grid::new(3, 3);
    assert_eq!(grid.neighbors(1, 1), vec![(0, 1), (2, 1), (1, 0), (1, 2)]);
    assert_eq!(grid.neighbors(0, 0), vec![(1, 0), (0, 1)]);
    assert_eq!(grid.neighbors(2, 1), vec![(1, 1), (2, 0), (2, 2)]);
    assert_eq!(grid.neighbors(3, 1), vec![(2, 1)]);
    assert_eq!(grid.neighbors(7, 7), vec![]);
    assert_eq!(grid.neighbors(usize::MAX, usize::MAX), vec![]);

    grid.set_tile_at(0, 1, Tile::Wall);
    grid.set_tile_at(1, 0, Tile::Destructible);
    grid.set_tile_at(2, 1, Tile::Loot);
    assert_eq!(grid.walkable_neighbors(1, 1), vec![(2, 1), (1, 2)]);
    assert_eq!(grid.walkable_neighbors(0, 0), vec![]);
}

#[test]
fn find_tiles_scans_in_row_major_order() {
    let mut grid = Grid::new(3, 2);
    grid.set_tile_at(2, 1, Tile::Wall);
    grid.set_tile_at(1, 0, Tile::Wall);
    grid.set_tile_at(0, 1, Tile::Wall);
    assert_eq!(grid.find_tiles(Tile::Wall), vec![(1, 0), (0, 1), (2, 1)]);
    assert_eq!(grid.find_tiles(Tile::Floor), vec![(0, 0), (2, 0), (1, 1)]);
    assert_eq!(grid.find_tiles(Tile::Loot), vec![]);
    assert_eq!(Grid::new(0, 4).find_tiles(Tile::Floor), vec![]);
}

#[test]
fn cloned_grid_is_equal_and_independent() {
    let mut grid = Grid::new(4, 3);
    grid.set_tile_at(1, 2, Tile::Loot);
    let mut copy = grid.clone();
    assert_eq!((copy.width(), copy.height()), (4, 3));
    for y in 0..3 {
        for x in 0..4 {
            assert_eq!(copy.get_tile_at(x, y), grid.get_tile_at(x, y));
        }
    }
    copy.set_tile_at(0, 0, Tile::Wall);
    assert_eq!(grid.get_tile_at(0, 0), Some(Tile::Floor));
}

#[test]
fn validation_names_each_fault() {
    fn message(template: &MapTemplate) -> String {
        match template.validate() {
            Err(TemplateError::InvalidTemplate(message)) => message,
            other => panic!("unexpected result {:?}", other),
        }
    }
    assert!(template(5, 5).validate().is_ok());

    let mut t = template(5, 5);
    t.height = 0;
    assert_eq!(message(&t), "Map dimensions must be greater than zero");

    let mut t = template(5, 5);
    t.spawn_points.clear();
    assert_eq!(message(&t), "Template must have at least one spawn point");

    let mut t = template(5, 5);
    t.extraction_points.clear();
    assert_eq!(message(&t), "Template must have at least one extraction point");

    let mut t = template(5, 5);
    t.loot_spawns.push(Point::new(5, 0));
    assert_eq!(message(&t), "Point (5, 0) is out of bounds");

    let mut t = template(5, 5);
    t.destructible_zones.push(Point::new(1, 7));
    t.walls.push(Point::new(9, 9));
    assert_eq!(message(&t), "Point (9, 9) is out of bounds");

    let mut t = template(5, 5);
    t.variation_percentage = 1_000_001;
    assert_eq!(message(&t), "Variation percentage must be between 0.0 and 1.0");
    t.variation_percentage = share(1.5);
    assert_eq!(message(&t), "Variation percentage must be between 0.0 and 1.0");
    t.variation_percentage = share(1.0);
    assert!(t.validate().is_ok());
}

#[test]
fn destructible_count_is_rounded_share() {
    fn count(zones: usize, fraction: f64) -> usize {
        let mut t = template(30, 30);
        t.destructible_zones = (0..zones).map(|i| Point::new(1 + i % 10, 5 + i / 10)).collect();
        t.variation_percentage = share(fraction);
        let grid = t.generate_grid(Some(7)).unwrap();
        t.destructible_zones.iter().filter(|p| grid.get_tile_at(p.x, p.y) == Some(Tile::Destructible)).count()
    }
    assert_eq!(count(4, 0.5), 2);
    assert_eq!(count(3, 0.5), 2);
    assert_eq!(count(1, 0.49), 0);
    assert_eq!(count(1, 0.499999), 0);
    assert_eq!(count(1, 0.5), 1);
    assert_eq!(count(10, 0.25), 3);
    assert_eq!(count(10, 0.24), 2);
    assert_eq!(count(200, 0.004), 1);
    assert_eq!(count(200, 0.002), 0);
    assert_eq!(count(200, 0.0025), 1);
    assert_eq!(count(7, 1.0), 7);
    assert_eq!(count(7, 0.0), 0);
    assert_eq!(count(5, 4.0), 5);
    assert_eq!(count(0, 0.5), 0);
}

#[test]
fn later_stamps_replace_earlier_ones() {
    let mut t = template(5, 5);
    t.walls = vec![Point::new(1, 1), Point::new(2, 2), Point::new(3, 3), Point::new(1, 3)];
    t.extraction_points = vec![Point::new(4, 4), Point::new(1, 1)];
    t.loot_spawns = vec![Point::new(2, 2), Point::new(4, 4)];
    t.destructible_zones = vec![Point::new(3, 3)];
    t.variation_percentage = share(1.0);
    let grid = t.generate_grid(Some(1)).unwrap();
    assert_eq!(grid.get_tile_at(1, 1), Some(Tile::Extraction));
    assert_eq!(grid.get_tile_at(2, 2), Some(Tile::Loot));
    assert_eq!(grid.get_tile_at(4, 4), Some(Tile::Loot));
    assert_eq!(grid.get_tile_at(3, 3), Some(Tile::Destructible));
    assert_eq!(grid.get_tile_at(1, 3), Some(Tile::Wall));
    assert_eq!(grid.get_tile_at(0, 0), Some(Tile::Floor));
}

#[test]
fn same_seed_gives_the_same_grid_and_shuffling_reorders() {
    let mut t = template(10, 10);
    t.destructible_zones = (0..8).map(|i| Point::new(1 + i, 4)).collect();
    t.variation_percentage = share(0.5);
    let unshuffled = t.build_grid(&t.destructible_zones).unwrap();
    let mut some_seed_differs = false;
    for seed in 0..20u64 {
        let first = t.generate_grid(Some(seed)).unwrap();
        let second = t.generate_grid(Some(seed)).unwrap();
        let mut placed = 0;
        for y in 0..10 {
            for x in 0..10 {
                assert_eq!(first.get_tile_at(x, y), second.get_tile_at(x, y));
                if first.get_tile_at(x, y) == Some(Tile::Destructible) {
                    placed += 1;
                    assert!(t.destructible_zones.contains(&Point::new(x, y)));
                }
                if first.get_tile_at(x, y) != unshuffled.get_tile_at(x, y) {
                    some_seed_differs = true;
                }
            }
        }
        assert_eq!(placed, 4);
    }
    assert!(some_seed_differs);
}

#[test]
fn unseeded_generation_reorders_the_candidates() {
    let mut t = template(10, 10);
    t.destructible_zones = (0..8).map(|i| Point::new(1 + i, 4)).collect();
    t.variation_percentage = share(0.5);
    let unshuffled = t.build_grid(&t.destructible_zones).unwrap();
    let mut some_run_differs = false;
    for _ in 0..40 {
        let grid = t.generate_grid(None).unwrap();
        assert_eq!(grid.find_tiles(Tile::Destructible).len(), 4);
        if grid.find_tiles(Tile::Destructible) != unshuffled.find_tiles(Tile::Destructible) {
            some_run_differs = true;
        }
    }
    assert!(some_run_differs);
}

#[test]
fn unseeded_generation_places_the_same_number_of_blocks() {
    let mut t = template(10, 10);
    t.destructible_zones = (0..8).map(|i| Point::new(1 + i, 4)).collect();
    t.variation_percentage = share(0.25);
    for _ in 0..5 {
        let grid = t.generate_grid(None).unwrap();
        assert_eq!(grid.find_tiles(Tile::Destructible).len(), 2);
        for (x, y) in grid.find_tiles(Tile::Destructible) {
            assert!(t.destructible_zones.contains(&Point::new(x, y)));
        }
    }
}

#[test]
fn separated_spawn_fails_generation_with_connectivity_error() {
    let mut t = template(5, 5);
    t.walls = (0..5).map(|y| Point::new(2, y)).collect();
    match t.generate_grid(Some(42)) {
        Err(TemplateError::ConnectivityError(message)) => {
            assert_eq!(message, "Spawn (0, 0) cannot reach Extract (4, 4)");
        }
        other => panic!("unexpected result {:?}", other),
    }
    assert!(matches!(t.generate_grid(None), Err(TemplateError::ConnectivityError(_))));

    t.walls.pop();
    assert!(t.generate_grid(Some(42)).is_ok());
}

#[test]
fn destructible_blocks_can_cut_the_map() {
    let mut t = template(5, 5);
    t.destructible_zones = (0..5).map(|y| Point::new(2, y)).collect();
    t.variation_percentage = share(1.0);
    assert!(matches!(t.generate_grid(Some(3)), Err(TemplateError::ConnectivityError(_))));
    t.variation_percentage = share(0.0);
    assert!(t.generate_grid(Some(3)).is_ok());
}

#[test]
fn paths_run_over_walkable_tiles_only() {
    let t = template(5, 5);
    let mut grid = Grid::new(5, 5);
    for y in 0..4 {
        grid.set_tile_at(2, y, Tile::Wall);
    }
    assert!(t.has_path(&grid, Point::new(0, 0), Point::new(4, 0)));
    grid.set_tile_at(2, 4, Tile::Destructible);
    assert!(!t.has_path(&grid, Point::new(0, 0), Point::new(4, 0)));
    assert!(t.has_path(&grid, Point::new(0, 0), Point::new(1, 4)));
    assert!(!t.has_path(&grid, Point::new(0, 0), Point::new(2, 4)));
    assert!(t.has_path(&grid, Point::new(2, 0), Point::new(2, 0)));
    assert!(t.has_path(&grid, Point::new(2, 0), Point::new(1, 0)));
    assert!(t.has_path(&grid, Point::new(9, 9), Point::new(9, 9)));
    assert!(!t.has_path(&grid, Point::new(9, 9), Point::new(0, 0)));
    assert!(t.has_path(&grid, Point::new(5, 0), Point::new(4, 4)));
    assert!(!t.has_path(&grid, Point::new(0, 0), Point::new(5, 0)));
    grid.set_tile_at(2, 4, Tile::Extraction);
    assert!(t.has_path(&grid, Point::new(0, 0), Point::new(4, 0)));
}

#[test]
fn connectivity_needs_every_pair() {
    let mut t = template(5, 5);
    t.spawn_points = vec![Point::new(0, 0), Point::new(4, 0)];
    t.extraction_points = vec![Point::new(0, 4), Point::new(4, 4)];
    let mut grid = Grid::new(5, 5);
    assert!(t.validate_connectivity(&grid).is_ok());
    for y in 0..5 {
        grid.set_tile_at(2, y, Tile::Wall);
    }
    match t.validate_connectivity(&grid) {
        Err(TemplateError::ConnectivityError(message)) => {
            assert_eq!(message, "Spawn (0, 0) cannot reach Extract (4, 4)");
        }
        other => panic!("unexpected result {:?}", other),
    }
}

#[test]
fn template_clone_keeps_every_field() {
    let mut t = template(6, 7);
    t.walls = vec![Point::new(1, 1)];
    t.loot_spawns = vec![Point::new(2, 2)];
    t.destructible_zones = vec![Point::new(3, 3)];
    t.variation_percentage = share(0.3);
    t.zones = vec![thermite::map_template::Zone {
        id: "center".to_string(),
        loot_tier: thermite::map_template::LootTier::Rare,
        area: vec![Point::new(4, 4)],
    }];
    let c = t.clone();
    assert_eq!(c.name, "test");
    assert_eq!((c.width, c.height), (6, 7));
    assert_eq!(c.walls, t.walls);
    assert_eq!(c.spawn_points, t.spawn_points);
    assert_eq!(c.extraction_points, t.extraction_points);
    assert_eq!(c.loot_spawns, t.loot_spawns);
    assert_eq!(c.destructible_zones, t.destructible_zones);
    assert_eq!(c.variation_percentage, 300_000);
    assert_eq!(c.raid_duration_seconds, 300);
    assert_eq!(c.zones.len(), 1);
    assert_eq!(c.zones[0].id, "center");
    assert_eq!(c.zones[0].loot_tier, thermite::map_template::LootTier::Rare);
    assert_eq!(c.zones[0].area, vec![Point::new(4, 4)]);
}
