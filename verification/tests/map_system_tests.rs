use thermite::map_system::{Grid, Tile};

#[test]
fn test_tile_walkability() {
    assert!(Tile::Floor.is_walkable());
    assert!(Tile::Loot.is_walkable());
    assert!(Tile::Extraction.is_walkable());
    assert!(!Tile::Wall.is_walkable());
    assert!(!Tile::Destructible.is_walkable());
}

#[test]
fn test_tile_blocks_movement() {
    assert!(Tile::Wall.blocks_movement());
    assert!(Tile::Destructible.blocks_movement());
    assert!(!Tile::Floor.blocks_movement());
    assert!(!Tile::Loot.blocks_movement());
    assert!(!Tile::Extraction.blocks_movement());
}

#[test]
fn test_grid_creation() {
    let grid = Grid::new(20, 20);
    assert_eq!(grid.width(), 20);
    assert_eq!(grid.height(), 20);
}

#[test]
fn test_grid_zero_dimensions() {
    let grid = Grid::new(0, 0);
    assert_eq!(grid.width(), 0);
    assert_eq!(grid.height(), 0);
    assert!(grid.get_tile_at(0, 0).is_none());
}

#[test]
fn test_grid_1x1() {
    let grid = Grid::new(1, 1);
    assert_eq!(grid.width(), 1);
    assert_eq!(grid.height(), 1);
    assert_eq!(grid.get_tile_at(0, 0), Some(Tile::Floor));
    assert!(grid.get_tile_at(1, 0).is_none());
    assert!(grid.get_tile_at(0, 1).is_none());
}

#[test]
fn test_grid_large_dimensions() {
    let grid = Grid::new(100, 100);
    assert_eq!(grid.width(), 100);
    assert_eq!(grid.height(), 100);
    // Test corners
    assert_eq!(grid.get_tile_at(0, 0), Some(Tile::Floor));
    assert_eq!(grid.get_tile_at(99, 99), Some(Tile::Floor));
    // Test out of bounds
    assert!(grid.get_tile_at(100, 99).is_none());
    assert!(grid.get_tile_at(99, 100).is_none());
}

#[test]
fn test_get_tile_at() {
    let grid = Grid::new(10, 10);
    // Valid coordinates
    assert_eq!(grid.get_tile_at(0, 0), Some(Tile::Floor));
    assert_eq!(grid.get_tile_at(9, 9), Some(Tile::Floor));
    assert_eq!(grid.get_tile_at(5, 5), Some(Tile::Floor));
    // Out of bounds
    assert!(grid.get_tile_at(10, 5).is_none());
    assert!(grid.get_tile_at(5, 10).is_none());
    assert!(grid.get_tile_at(10, 10).is_none());
}

#[test]
fn test_set_tile_at() {
    let mut grid = Grid::new(10, 10);
    
    // Valid set operations
    assert!(grid.set_tile_at(0, 0, Tile::Wall));
    assert_eq!(grid.get_tile_at(0, 0), Some(Tile::Wall));
    
    assert!(grid.set_tile_at(5, 5, Tile::Destructible));
    assert_eq!(grid.get_tile_at(5, 5), Some(Tile::Destructible));
    
    assert!(grid.set_tile_at(9, 9, Tile::Extraction));
    assert_eq!(grid.get_tile_at(9, 9), Some(Tile::Extraction));
    
    // Out of bounds set operations
    assert!(!grid.set_tile_at(10, 5, Tile::Wall));
    assert!(!grid.set_tile_at(5, 10, Tile::Wall));
    assert!(!grid.set_tile_at(10, 10, Tile::Wall));
}

#[test]
fn test_is_walkable() {
    let mut grid = Grid::new(10, 10);
    
    // Floor is walkable
    assert!(grid.is_walkable(0, 0));
    
    // Wall is not walkable
    grid.set_tile_at(1, 1, Tile::Wall);
    assert!(!grid.is_walkable(1, 1));
    
    // Destructible is not walkable
    grid.set_tile_at(2, 2, Tile::Destructible);
    assert!(!grid.is_walkable(2, 2));
    
    // Loot is walkable
    grid.set_tile_at(3, 3, Tile::Loot);
    assert!(grid.is_walkable(3, 3));
    
    // Extraction is walkable
    grid.set_tile_at(4, 4, Tile::Extraction);
    assert!(grid.is_walkable(4, 4));
    
    // Out of bounds is not walkable
    assert!(!grid.is_walkable(10, 10));
}

#[test]
fn test_is_occupied() {
    let mut grid = Grid::new(10, 10);
    
    // Floor is not occupied
    assert!(!grid.is_occupied(0, 0));
    
    // Wall is occupied
    grid.set_tile_at(1, 1, Tile::Wall);
    assert!(grid.is_occupied(1, 1));
    
    // Destructible is occupied
    grid.set_tile_at(2, 2, Tile::Destructible);
    assert!(grid.is_occupied(2, 2));
    
    // Out of bounds is occupied
    assert!(grid.is_occupied(10, 10));
}

#[test]
fn test_in_bounds() {
    let grid = Grid::new(10, 10);
    
    // Valid bounds
    assert!(grid.in_bounds(0, 0));
    assert!(grid.in_bounds(9, 9));
    assert!(grid.in_bounds(5, 5));
    
    // Invalid bounds
    assert!(!grid.in_bounds(10, 0));
    assert!(!grid.in_bounds(0, 10));
    assert!(!grid.in_bounds(10, 10));
    assert!(!grid.in_bounds(100, 100));
}

#[test]
fn test_asymmetric_grid() {
    let grid = Grid::new(5, 10);
    assert_eq!(grid.width(), 5);
    assert_eq!(grid.height(), 10);
    
    // Test bounds for asymmetric dimensions
    assert!(grid.in_bounds(4, 9));
    assert!(!grid.in_bounds(5, 9));
    assert!(!grid.in_bounds(4, 10));
}

#[test]
fn test_bounds_checking_comprehensive() {
    let grid = Grid::new(10, 15);
    
    // Test all corners
    assert!(grid.in_bounds(0, 0));  // top-left
    assert!(grid.in_bounds(9, 0));  // top-right
    assert!(grid.in_bounds(0, 14)); // bottom-left
    assert!(grid.in_bounds(9, 14)); // bottom-right
    
    // Test just outside bounds
    assert!(!grid.in_bounds(10, 0));  // right edge
    assert!(!grid.in_bounds(0, 15));  // bottom edge
    assert!(!grid.in_bounds(10, 15)); // bottom-right corner
}
