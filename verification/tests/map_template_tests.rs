use thermite::map_system::Tile;
use thermite::map_template::{MapTemplate, Point};

/// A share of the destructible zones, given as a fraction, in millionths.
fn share(fraction: f32) -> u32 {
    (f64::from(fraction) * 1_000_000.0).round() as u32
}

#[test]
fn test_point_creation() {
    let point = Point::new(5, 10);
    assert_eq!(point.x, 5);
    assert_eq!(point.y, 10);
}

#[test]
fn test_template_validation_empty_dimensions() {
    let template = MapTemplate {
        name: "test".to_string(),
        width: 0,
        height: 10,
        walls: vec![],
        spawn_points: vec![Point::new(0, 0)],
        extraction_points: vec![Point::new(1, 1)],
        loot_spawns: vec![],
        zones: vec![],
        destructible_zones: vec![],
        variation_percentage: share(0.25),
        raid_duration_seconds: 300,
    };

    assert!(template.validate().is_err());
}

#[test]
fn test_template_validation_no_spawns() {
    let template = MapTemplate {
        name: "test".to_string(),
        width: 10,
        height: 10,
        walls: vec![],
        spawn_points: vec![],
        extraction_points: vec![Point::new(1, 1)],
        loot_spawns: vec![],
        zones: vec![],
        destructible_zones: vec![],
        variation_percentage: share(0.25),
        raid_duration_seconds: 300,
    };

    assert!(template.validate().is_err());
}

#[test]
fn test_template_validation_no_extracts() {
    let template = MapTemplate {
        name: "test".to_string(),
        width: 10,
        height: 10,
        walls: vec![],
        spawn_points: vec![Point::new(0, 0)],
        extraction_points: vec![],
        loot_spawns: vec![],
        zones: vec![],
        destructible_zones: vec![],
        variation_percentage: share(0.25),
        raid_duration_seconds: 300,
    };

    assert!(template.validate().is_err());
}

#[test]
fn test_template_validation_out_of_bounds() {
    let template = MapTemplate {
        name: "test".to_string(),
        width: 10,
        height: 10,
        walls: vec![Point::new(15, 15)], // Out of bounds
        spawn_points: vec![Point::new(0, 0)],
        extraction_points: vec![Point::new(1, 1)],
        loot_spawns: vec![],
        zones: vec![],
        destructible_zones: vec![],
        variation_percentage: share(0.25),
        raid_duration_seconds: 300,
    };

    assert!(template.validate().is_err());
}

#[test]
fn test_template_validation_invalid_variation() {
    let template = MapTemplate {
        name: "test".to_string(),
        width: 10,
        height: 10,
        walls: vec![],
        spawn_points: vec![Point::new(0, 0)],
        extraction_points: vec![Point::new(1, 1)],
        loot_spawns: vec![],
        zones: vec![],
        destructible_zones: vec![],
        variation_percentage: share(1.5), // Invalid
        raid_duration_seconds: 300,
    };

    assert!(template.validate().is_err());
}

#[test]
fn test_simple_grid_generation() {
    let template = MapTemplate {
        name: "simple".to_string(),
        width: 5,
        height: 5,
        walls: vec![Point::new(2, 2)],
        spawn_points: vec![Point::new(0, 0)],
        extraction_points: vec![Point::new(4, 4)],
        loot_spawns: vec![Point::new(2, 0)],
        zones: vec![],
        destructible_zones: vec![],
        variation_percentage: share(0.0),
        raid_duration_seconds: 300,
    };

    let grid = template.generate_grid(Some(42)).unwrap();
    assert_eq!(grid.width(), 5);
    assert_eq!(grid.height(), 5);
    assert_eq!(grid.get_tile_at(2, 2), Some(Tile::Wall));
    assert_eq!(grid.get_tile_at(4, 4), Some(Tile::Extraction));
    assert_eq!(grid.get_tile_at(2, 0), Some(Tile::Loot));
}

#[test]
fn test_procedural_destructibles() {
    let template = MapTemplate {
        name: "procedural".to_string(),
        width: 10,
        height: 10,
        walls: vec![],
        spawn_points: vec![Point::new(0, 0)],
        extraction_points: vec![Point::new(9, 9)],
        loot_spawns: vec![],
        zones: vec![],
        destructible_zones: vec![
            Point::new(1, 1),
            Point::new(2, 2),
            Point::new(3, 3),
            Point::new(4, 4),
        ],
        variation_percentage: share(0.5), // 50% of 4 = 2 destructibles
        raid_duration_seconds: 300,
    };

    let grid = template.generate_grid(Some(42)).unwrap();
    
    // Count destructibles
    let mut destructible_count = 0;
    for point in &template.destructible_zones {
        if grid.get_tile_at(point.x, point.y) == Some(Tile::Destructible) {
            destructible_count += 1;
        }
    }
    
    // Should place approximately 2 destructibles (50% of 4)
    assert_eq!(destructible_count, 2);
}

#[test]
fn test_pathfinding_simple() {
    let template = MapTemplate {
        name: "path_test".to_string(),
        width: 5,
        height: 5,
        walls: vec![],
        spawn_points: vec![Point::new(0, 0)],
        extraction_points: vec![Point::new(4, 4)],
        loot_spawns: vec![],
        zones: vec![],
        destructible_zones: vec![],
        variation_percentage: share(0.0),
        raid_duration_seconds: 300,
    };

    let grid = template.generate_grid(Some(42)).unwrap();
    assert!(template.has_path(&grid, Point::new(0, 0), Point::new(4, 4)));
}

#[test]
fn test_pathfinding_blocked() {
    let template = MapTemplate {
        name: "blocked".to_string(),
        width: 5,
        height: 5,
        walls: vec![
            Point::new(2, 0),
            Point::new(2, 1),
            Point::new(2, 2),
            Point::new(2, 3),
            Point::new(2, 4),
        ], // Vertical wall blocking left from right
        spawn_points: vec![Point::new(0, 0)],
        extraction_points: vec![Point::new(4, 4)],
        loot_spawns: vec![],
        zones: vec![],
        destructible_zones: vec![],
        variation_percentage: share(0.0),
        raid_duration_seconds: 300,
    };

    // Should fail connectivity validation
    assert!(template.generate_grid(Some(42)).is_err());
}

#[test]
fn test_connectivity_validation_success() {
    let template = MapTemplate {
        name: "connected".to_string(),
        width: 10,
        height: 10,
        walls: vec![],
        spawn_points: vec![Point::new(0, 0), Point::new(9, 0)],
        extraction_points: vec![Point::new(0, 9), Point::new(9, 9)],
        loot_spawns: vec![],
        zones: vec![],
        destructible_zones: vec![],
        variation_percentage: share(0.0),
        raid_duration_seconds: 300,
    };

    // All spawns should reach all extracts
    let result = template.generate_grid(Some(42));
    assert!(result.is_ok());
}

#[test]
fn test_deterministic_generation() {
    let template = MapTemplate {
        name: "deterministic".to_string(),
        width: 10,
        height: 10,
        walls: vec![],
        spawn_points: vec![Point::new(0, 0)],
        extraction_points: vec![Point::new(9, 9)],
        loot_spawns: vec![],
        zones: vec![],
        destructible_zones: vec![
            Point::new(1, 1),
            Point::new(2, 2),
            Point::new(3, 3),
            Point::new(4, 4),
        ],
        variation_percentage: share(0.5),
        raid_duration_seconds: 300,
    };

    // Generate with same seed twice
    let grid1 = template.generate_grid(Some(123)).unwrap();
    let grid2 = template.generate_grid(Some(123)).unwrap();

    // Should be identical
    for y in 0..10 {
        for x in 0..10 {
            assert_eq!(grid1.get_tile_at(x, y), grid2.get_tile_at(x, y));
        }
    }
}
