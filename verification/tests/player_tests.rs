use thermite::map_system::{Grid, Tile};
use thermite::player::{BombPlacementError, Direction, MoveError, Player, Position};

fn new_id() -> u128 {
    uuid::Uuid::new_v4().as_u128()
}

#[test]
fn test_direction_apply_north() {
    assert_eq!(Direction::North.apply(5, 5), Some((5, 4)));
    assert_eq!(Direction::North.apply(5, 0), None);
}

#[test]
fn test_direction_apply_south() {
    assert_eq!(Direction::South.apply(5, 5), Some((5, 6)));
    assert_eq!(Direction::South.apply(5, 100), Some((5, 101)));
}

#[test]
fn test_direction_apply_east() {
    assert_eq!(Direction::East.apply(5, 5), Some((6, 5)));
    assert_eq!(Direction::East.apply(100, 5), Some((101, 5)));
}

#[test]
fn test_direction_apply_west() {
    assert_eq!(Direction::West.apply(5, 5), Some((4, 5)));
    assert_eq!(Direction::West.apply(0, 5), None);
}

#[test]
fn test_position_step() {
    let pos = Position::new(5, 5);

    assert_eq!(pos.step(Direction::North), Some(Position::new(5, 4)));
    assert_eq!(pos.step(Direction::South), Some(Position::new(5, 6)));
    assert_eq!(pos.step(Direction::East), Some(Position::new(6, 5)));
    assert_eq!(pos.step(Direction::West), Some(Position::new(4, 5)));
}

#[test]
fn test_position_step_at_origin() {
    let pos = Position::new(0, 0);

    assert_eq!(pos.step(Direction::North), None);
    assert_eq!(pos.step(Direction::West), None);
    assert_eq!(pos.step(Direction::South), Some(Position::new(0, 1)));
    assert_eq!(pos.step(Direction::East), Some(Position::new(1, 0)));
}

#[test]
fn test_player_creation() {
    let id = new_id();
    let player = Player::new(id, Position::new(5, 5));

    assert_eq!(player.id, id);
    assert_eq!(player.position, Position::new(5, 5));
    assert_eq!(player.health, 100);
    assert!(player.is_alive);
}

#[test]
fn test_player_can_move_on_floor() {
    let grid = Grid::new(10, 10);
    let player = Player::new(new_id(), Position::new(5, 5));

    // All directions should be valid on open floor
    assert!(player.can_move(Direction::North, &grid));
    assert!(player.can_move(Direction::South, &grid));
    assert!(player.can_move(Direction::East, &grid));
    assert!(player.can_move(Direction::West, &grid));
}

#[test]
fn test_player_cannot_move_into_wall() {
    let mut grid = Grid::new(10, 10);
    grid.set_tile_at(5, 4, Tile::Wall);

    let player = Player::new(new_id(), Position::new(5, 5));

    assert!(!player.can_move(Direction::North, &grid));
    assert!(player.can_move(Direction::South, &grid));
}

#[test]
fn test_player_cannot_move_into_destructible() {
    let mut grid = Grid::new(10, 10);
    grid.set_tile_at(6, 5, Tile::Destructible);

    let player = Player::new(new_id(), Position::new(5, 5));

    assert!(!player.can_move(Direction::East, &grid));
}

#[test]
fn test_player_can_move_onto_loot() {
    let mut grid = Grid::new(10, 10);
    grid.set_tile_at(5, 4, Tile::Loot);

    let player = Player::new(new_id(), Position::new(5, 5));

    assert!(player.can_move(Direction::North, &grid));
}

#[test]
fn test_player_can_move_onto_extraction() {
    let mut grid = Grid::new(10, 10);
    grid.set_tile_at(5, 4, Tile::Extraction);

    let player = Player::new(new_id(), Position::new(5, 5));

    assert!(player.can_move(Direction::North, &grid));
}

#[test]
fn test_player_try_move_success() {
    let grid = Grid::new(10, 10);
    let mut player = Player::new(new_id(), Position::new(5, 5));

    let result = player.try_move(Direction::North, &grid);

    assert!(result.is_ok());
    assert_eq!(result.unwrap(), Position::new(5, 4));
    assert_eq!(player.position, Position::new(5, 4));
}

#[test]
fn test_player_try_move_blocked() {
    let mut grid = Grid::new(10, 10);
    grid.set_tile_at(5, 4, Tile::Wall);

    let mut player = Player::new(new_id(), Position::new(5, 5));

    let result = player.try_move(Direction::North, &grid);

    assert!(result.is_err());
    assert_eq!(result.unwrap_err(), MoveError::TileBlocked);
    assert_eq!(player.position, Position::new(5, 5)); // Position unchanged
}

#[test]
fn test_player_try_move_out_of_bounds() {
    let grid = Grid::new(10, 10);
    let mut player = Player::new(new_id(), Position::new(0, 0));

    let result = player.try_move(Direction::North, &grid);

    assert!(result.is_err());
    assert_eq!(result.unwrap_err(), MoveError::OutOfBounds);
}

#[test]
fn test_player_try_move_out_of_bounds_east() {
    let grid = Grid::new(10, 10);
    let mut player = Player::new(new_id(), Position::new(9, 5));

    let result = player.try_move(Direction::East, &grid);

    assert!(result.is_err());
    assert_eq!(result.unwrap_err(), MoveError::OutOfBounds);
}

#[test]
fn test_dead_player_cannot_move() {
    let grid = Grid::new(10, 10);
    let mut player = Player::new(new_id(), Position::new(5, 5));
    player.is_alive = false;

    assert!(!player.can_move(Direction::North, &grid));

    let result = player.try_move(Direction::North, &grid);
    assert!(result.is_err());
    assert_eq!(result.unwrap_err(), MoveError::PlayerDead);
}

#[test]
fn test_player_take_damage() {
    let mut player = Player::new(new_id(), Position::new(5, 5));

    player.take_damage(30);
    assert_eq!(player.health, 70);
    assert!(player.is_alive);

    player.take_damage(70);
    assert_eq!(player.health, 0);
    assert!(!player.is_alive);
}

#[test]
fn test_player_take_damage_overkill() {
    let mut player = Player::new(new_id(), Position::new(5, 5));

    player.take_damage(150);
    assert_eq!(player.health, 0);
    assert!(!player.is_alive);
}

#[test]
fn test_dead_player_cannot_take_more_damage() {
    let mut player = Player::new(new_id(), Position::new(5, 5));
    player.is_alive = false;
    player.health = 0;

    player.take_damage(50);
    assert_eq!(player.health, 0); // No change
}

#[test]
fn test_can_place_bomb_initially() {
    let player = Player::new(new_id(), Position::new(5, 5));
    let cooldown_ticks = 20;

    assert!(player.can_place_bomb(0, cooldown_ticks));
}

#[test]
fn test_cannot_place_bomb_when_dead() {
    let mut player = Player::new(new_id(), Position::new(5, 5));
    player.is_alive = false;
    let cooldown_ticks = 20;

    assert!(!player.can_place_bomb(100, cooldown_ticks));
}

#[test]
fn test_cannot_place_bomb_without_inventory() {
    let mut player = Player::new(new_id(), Position::new(5, 5));
    player.bombs_remaining = 0;
    let cooldown_ticks = 20;

    assert!(!player.can_place_bomb(100, cooldown_ticks));
}

#[test]
fn test_cannot_place_bomb_during_cooldown() {
    let mut player = Player::new(new_id(), Position::new(5, 5));
    player.last_bomb_placement_tick = 100;
    let cooldown_ticks = 20;

    // 10 ticks later - still in cooldown
    assert!(!player.can_place_bomb(110, cooldown_ticks));

    // 20 ticks later - cooldown elapsed
    assert!(player.can_place_bomb(120, cooldown_ticks));
}

#[test]
fn test_place_bomb_success() {
    let mut player = Player::new(new_id(), Position::new(5, 5));
    let current_tick = 100;

    let initial_bombs = player.bombs_remaining;
    let result = player.place_bomb(current_tick);

    assert!(result.is_ok());
    assert_eq!(player.bombs_remaining, initial_bombs - 1);
    assert_eq!(player.last_bomb_placement_tick, current_tick);
}

#[test]
fn test_place_bomb_when_dead() {
    let mut player = Player::new(new_id(), Position::new(5, 5));
    player.is_alive = false;

    let result = player.place_bomb(100);

    assert!(result.is_err());
    assert_eq!(result.unwrap_err(), BombPlacementError::PlayerDead);
}

#[test]
fn test_place_bomb_without_inventory() {
    let mut player = Player::new(new_id(), Position::new(5, 5));
    player.bombs_remaining = 0;

    let result = player.place_bomb(100);

    assert!(result.is_err());
    assert_eq!(result.unwrap_err(), BombPlacementError::NoBombsRemaining);
}
