//! Blast propagation: the cross-shaped footprint of a detonating bomb.
//!
//! From the bomb's cell the blast travels along each of the four cardinal
//! directions for at most `range` cells. It stops in front of the edge of
//! the grid and in front of a wall; a destructible block is caught by the
//! blast and absorbs the rest of that ray.

use vstd::prelude::*;
use crate::map_system::{Grid, GridView, Tile};
use crate::player::{Direction, Position};

verus! {

/// The cell `steps` steps from `(x, y)` in a direction, in mathematical
/// coordinates.
pub open spec fn cell_along(direction: Direction, x: int, y: int, steps: int) -> (int, int) {
    match direction {
        Direction::North => (x, y - steps),
        Direction::South => (x, y + steps),
        Direction::East => (x + steps, y),
        Direction::West => (x - steps, y),
    }
}

/// The cells that a blast reaches from `(x, y)`, not counting `(x, y)`
/// itself, when it travels up to `range` cells in one direction. In order
/// of distance.
pub open spec fn ray(grid: GridView, x: int, y: int, direction: Direction, range: nat) -> Seq<Position>
    decreases range,
{
    let (nx, ny) = direction.offset(x, y);
    if range == 0 {
        Seq::empty()
    } else {
        match grid.tile(nx, ny) {
            None => Seq::empty(),
            Some(Tile::Wall) => Seq::empty(),
            Some(Tile::Destructible) => seq![Position { x: nx as usize, y: ny as usize }],
            Some(_) => seq![Position { x: nx as usize, y: ny as usize }] + ray(
                grid,
                nx,
                ny,
                direction,
                (range - 1) as nat,
            ),
        }
    }
}

/// The destructible block that ends a ray, if one does: at most one cell.
pub open spec fn ray_destroyed(grid: GridView, x: int, y: int, direction: Direction, range: nat) -> Seq<
    Position,
> {
    let reached = ray(grid, x, y, direction, range);
    if reached.len() > 0 && grid.tile(reached.last().x as int, reached.last().y as int) == Some(
        Tile::Destructible,
    ) {
        seq![reached.last()]
    } else {
        Seq::empty()
    }
}

/// The blast set of a bomb: its own cell, then the rays to the north,
/// south, east and west.
pub open spec fn blast_tiles(grid: GridView, position: Position, range: nat) -> Seq<Position> {
    let x = position.x as int;
    let y = position.y as int;
    seq![position] + ray(grid, x, y, Direction::North, range) + ray(grid, x, y, Direction::South, range)
        + ray(grid, x, y, Direction::East, range) + ray(grid, x, y, Direction::West, range)
}

/// The destructible blocks that a bomb's blast destroys: at most one to
/// the north, south, east and west, in that order.
pub open spec fn destroyed_tiles(grid: GridView, position: Position, range: nat) -> Seq<Position> {
    let x = position.x as int;
    let y = position.y as int;
    ray_destroyed(grid, x, y, Direction::North, range) + ray_destroyed(grid, x, y, Direction::South, range)
        + ray_destroyed(grid, x, y, Direction::East, range) + ray_destroyed(
        grid,
        x,
        y,
        Direction::West,
        range,
    )
}

/// The grid after the blocks at the given cells are cleared to floor, one
/// after the other.
pub open spec fn cleared(grid: GridView, cells: Seq<Position>) -> GridView
    decreases cells.len(),
{
    if cells.len() == 0 {
        grid
    } else {
        cleared(grid, cells.drop_last()).with_tile(cells.last().x as int, cells.last().y as int, Tile::Floor)
    }
}

/// What a ray is, cell by cell. The `i`-th cell of a ray lies `i + 1`
/// steps from the origin. Every cell of it is in the grid and no wall;
/// every cell but the last can be walked on. The ray is shorter than
/// `range` only where a destructible block ends it, or where the next cell
/// is a wall or outside the grid.
pub proof fn lemma_ray_cells(grid: GridView, x: int, y: int, direction: Direction, range: nat)
    requires
        grid.wf(),
        grid.width <= usize::MAX,
        grid.height <= usize::MAX,
    ensures
        ({
            let reached = ray(grid, x, y, direction, range);
            &&& reached.len() <= range
            &&& forall|i: int|
                0 <= i < reached.len() ==> {
                    let (cx, cy) = cell_along(direction, x, y, i + 1);
                    &&& (#[trigger] reached[i]).x == cx
                    &&& reached[i].y == cy
                    &&& grid.contains(cx, cy)
                    &&& grid.tile(cx, cy) != Some(Tile::Wall)
                    &&& i < reached.len() - 1 ==> grid.walkable(cx, cy)
                }
            &&& reached.len() < range ==> {
                let (cx, cy) = cell_along(direction, x, y, reached.len() as int);
                let (nx, ny) = cell_along(direction, x, y, reached.len() as int + 1);
                ||| reached.len() > 0 && grid.tile(cx, cy) == Some(Tile::Destructible)
                ||| grid.tile(nx, ny) is None
                ||| grid.tile(nx, ny) == Some(Tile::Wall)
            }
            &&& reached.len() == range && range > 0 ==> {
                let (cx, cy) = cell_along(direction, x, y, range as int);
                grid.walkable(cx, cy) || grid.tile(cx, cy) == Some(Tile::Destructible)
            }
        }),
    decreases range,
{
    let (nx, ny) = direction.offset(x, y);
    let reached = ray(grid, x, y, direction, range);
    assert(cell_along(direction, x, y, 1) == (nx, ny));
    if range > 0 {
        match grid.tile(nx, ny) {
            None => {
                assert(reached.len() == 0);
            },
            Some(Tile::Wall) => {
                assert(reached.len() == 0);
            },
            Some(Tile::Destructible) => {
                assert(reached == seq![Position { x: nx as usize, y: ny as usize }]);
                assert(grid.contains(nx, ny));
            },
            Some(_) => {
                lemma_ray_cells(grid, nx, ny, direction, (range - 1) as nat);
                let rest = ray(grid, nx, ny, direction, (range - 1) as nat);
                assert(reached == seq![Position { x: nx as usize, y: ny as usize }] + rest);
                assert(grid.walkable(nx, ny));
                assert forall|i: int| 0 <= i < reached.len() implies {
                    let (cx, cy) = cell_along(direction, x, y, i + 1);
                    &&& (#[trigger] reached[i]).x == cx
                    &&& reached[i].y == cy
                    &&& grid.contains(cx, cy)
                    &&& grid.tile(cx, cy) != Some(Tile::Wall)
                    &&& i < reached.len() - 1 ==> grid.walkable(cx, cy)
                } by {
                    if i > 0 {
                        assert(reached[i] == rest[i - 1]);
                        assert(cell_along(direction, x, y, i + 1) == cell_along(direction, nx, ny, i));
                    }
                }
                assert(cell_along(direction, x, y, reached.len() as int) == cell_along(
                    direction,
                    nx,
                    ny,
                    rest.len() as int,
                ));
                assert(cell_along(direction, x, y, reached.len() as int + 1) == cell_along(
                    direction,
                    nx,
                    ny,
                    rest.len() as int + 1,
                ));
                if rest.len() == 0 {
                    assert(cell_along(direction, x, y, reached.len() as int) == (nx, ny));
                }
            },
        }
    } else {
        assert(reached.len() == 0);
    }
}

/// On open ground a ray has its full length: if the `range` cells next to
/// the origin in a direction can all be walked on, the ray holds all of
/// them and destroys nothing.
pub proof fn lemma_open_ray(grid: GridView, x: int, y: int, direction: Direction, range: nat)
    requires
        grid.wf(),
        grid.width <= usize::MAX,
        grid.height <= usize::MAX,
        forall|steps: int|
            1 <= steps <= range ==> grid.walkable(
                (#[trigger] cell_along(direction, x, y, steps)).0,
                cell_along(direction, x, y, steps).1,
            ),
    ensures
        ray(grid, x, y, direction, range).len() == range,
        ray_destroyed(grid, x, y, direction, range).len() == 0,
{
    lemma_ray_cells(grid, x, y, direction, range);
    let reached = ray(grid, x, y, direction, range);
    if reached.len() < range {
        let near = cell_along(direction, x, y, reached.len() as int);
        let next = cell_along(direction, x, y, reached.len() as int + 1);
        assert(grid.walkable(next.0, next.1));
        if reached.len() > 0 {
            assert(grid.walkable(near.0, near.1));
        }
    }
    if reached.len() > 0 {
        let last = cell_along(direction, x, y, reached.len() as int);
        assert(grid.walkable(last.0, last.1));
        assert(reached[reached.len() - 1].x == last.0);
    }
}

/// The blast of a bomb on open ground is a full cross: the bomb's cell and
/// `range` cells in each direction, and nothing is destroyed.
pub proof fn lemma_open_blast(grid: GridView, position: Position, range: nat)
    requires
        grid.wf(),
        grid.width <= usize::MAX,
        grid.height <= usize::MAX,
        forall|direction: Direction, steps: int|
            1 <= steps <= range ==> grid.walkable(
                (#[trigger] cell_along(direction, position.x as int, position.y as int, steps)).0,
                cell_along(direction, position.x as int, position.y as int, steps).1,
            ),
    ensures
        blast_tiles(grid, position, range).len() == 1 + 4 * range,
        blast_tiles(grid, position, range)[0] == position,
        destroyed_tiles(grid, position, range).len() == 0,
{
    let x = position.x as int;
    let y = position.y as int;
    lemma_open_ray(grid, x, y, Direction::North, range);
    lemma_open_ray(grid, x, y, Direction::South, range);
    lemma_open_ray(grid, x, y, Direction::East, range);
    lemma_open_ray(grid, x, y, Direction::West, range);
}

/// Where the cell at place `k` of a blast lies: place 0 is the bomb's cell,
/// and every other place is some steps from it in one direction, the
/// directions following each other in the order north, south, east, west.
proof fn lemma_blast_place(grid: GridView, position: Position, range: nat, k: int)
    requires
        grid.wf(),
        grid.width <= usize::MAX,
        grid.height <= usize::MAX,
        0 <= k < blast_tiles(grid, position, range).len(),
    ensures
        ({
            let x = position.x as int;
            let y = position.y as int;
            let north = ray(grid, x, y, Direction::North, range).len() as int;
            let south = ray(grid, x, y, Direction::South, range).len() as int;
            let east = ray(grid, x, y, Direction::East, range).len() as int;
            let cell = blast_tiles(grid, position, range)[k];
            if k == 0 {
                cell == position
            } else if k <= north {
                cell.x == x && cell.y == y - k
            } else if k <= north + south {
                cell.x == x && cell.y == y + (k - north)
            } else if k <= north + south + east {
                cell.x == x + (k - north - south) && cell.y == y
            } else {
                cell.x == x - (k - north - south - east) && cell.y == y
            }
        }),
{
    let x = position.x as int;
    let y = position.y as int;
    let north = ray(grid, x, y, Direction::North, range);
    let south = ray(grid, x, y, Direction::South, range);
    let east = ray(grid, x, y, Direction::East, range);
    let west = ray(grid, x, y, Direction::West, range);
    lemma_ray_cells(grid, x, y, Direction::North, range);
    lemma_ray_cells(grid, x, y, Direction::South, range);
    lemma_ray_cells(grid, x, y, Direction::East, range);
    lemma_ray_cells(grid, x, y, Direction::West, range);
    let blast = blast_tiles(grid, position, range);
    assert(blast == seq![position] + north + south + east + west);
    if k == 0 {
    } else if k <= north.len() {
        assert(blast[k] == north[k - 1]);
    } else if k <= north.len() + south.len() {
        assert(blast[k] == south[k - 1 - north.len()]);
    } else if k <= north.len() + south.len() + east.len() {
        assert(blast[k] == east[k - 1 - north.len() - south.len()]);
    } else {
        assert(blast[k] == west[k - 1 - north.len() - south.len() - east.len()]);
    }
}

/// A blast holds no cell twice: it is a set of cells, listed in order.
pub proof fn lemma_blast_is_a_set(grid: GridView, position: Position, range: nat)
    requires
        grid.wf(),
        grid.width <= usize::MAX,
        grid.height <= usize::MAX,
    ensures
        blast_tiles(grid, position, range).no_duplicates(),
{
    let blast = blast_tiles(grid, position, range);
    assert forall|i: int, j: int| 0 <= i < blast.len() && 0 <= j < blast.len() && i != j implies blast[i]
        != blast[j] by {
        lemma_blast_place(grid, position, range, i);
        lemma_blast_place(grid, position, range, j);
    }
}

/// A ray stops in front of a wall and in front of the edge of the grid:
/// where the cell next to the origin is a wall or outside the grid, the ray
/// is empty.
pub proof fn lemma_blocked_ray(grid: GridView, x: int, y: int, direction: Direction, range: nat)
    requires
        grid.tile(direction.offset(x, y).0, direction.offset(x, y).1) is None || grid.tile(
            direction.offset(x, y).0,
            direction.offset(x, y).1,
        ) == Some(Tile::Wall),
    ensures
        ray(grid, x, y, direction, range).len() == 0,
        ray_destroyed(grid, x, y, direction, range).len() == 0,
{
}

/// A destructible block absorbs the ray. If the cells before the `k`-th
/// can be walked on and the `k`-th is a destructible block within range,
/// the ray ends with that block, which it destroys, and goes no further.
pub proof fn lemma_absorbed_ray(grid: GridView, x: int, y: int, direction: Direction, range: nat, k: int)
    requires
        grid.wf(),
        grid.width <= usize::MAX,
        grid.height <= usize::MAX,
        1 <= k <= range,
        forall|steps: int|
            1 <= steps < k ==> grid.walkable(
                (#[trigger] cell_along(direction, x, y, steps)).0,
                cell_along(direction, x, y, steps).1,
            ),
        grid.tile(cell_along(direction, x, y, k).0, cell_along(direction, x, y, k).1) == Some(Tile::Destructible),
    ensures
        ray(grid, x, y, direction, range).len() == k,
        ray(grid, x, y, direction, range).last().x == cell_along(direction, x, y, k).0,
        ray(grid, x, y, direction, range).last().y == cell_along(direction, x, y, k).1,
        ray_destroyed(grid, x, y, direction, range) == seq![ray(grid, x, y, direction, range).last()],
{
    lemma_ray_cells(grid, x, y, direction, range);
    let reached = ray(grid, x, y, direction, range);
    let block = cell_along(direction, x, y, k);
    if reached.len() < k {
        let near = cell_along(direction, x, y, reached.len() as int);
        let next = cell_along(direction, x, y, reached.len() as int + 1);
        if reached.len() > 0 {
            assert(grid.walkable(near.0, near.1));
        }
        if reached.len() + 1 < k {
            assert(grid.walkable(next.0, next.1));
        }
    } else if reached.len() > k {
        assert(reached[k - 1].x == block.0);
        assert(grid.walkable(block.0, block.1));
    } else {
        assert(reached[k - 1].x == block.0);
    }
}

/// Clearing cells keeps the shape of the grid.
pub proof fn lemma_cleared_shape(grid: GridView, cells: Seq<Position>)
    requires
        grid.wf(),
    ensures
        cleared(grid, cells).wf(),
        cleared(grid, cells).width == grid.width,
        cleared(grid, cells).height == grid.height,
    decreases cells.len(),
{
    if cells.len() > 0 {
        lemma_cleared_shape(grid, cells.drop_last());
        cleared(grid, cells.drop_last()).lemma_with_tile(cells.last().x as int, cells.last().y as int, Tile::Floor);
    }
}

/// After cells have been cleared, each of them that lies on the grid is
/// floor, and every other cell is as it was.
pub proof fn lemma_cleared_tiles(grid: GridView, cells: Seq<Position>, x: int, y: int)
    requires
        grid.wf(),
        grid.width <= usize::MAX,
        grid.height <= usize::MAX,
    ensures
        cleared(grid, cells).tile(x, y) == if grid.contains(x, y) && cells.contains(
            Position { x: x as usize, y: y as usize },
        ) {
            Some(Tile::Floor)
        } else {
            grid.tile(x, y)
        },
    decreases cells.len(),
{
    if cells.len() > 0 {
        let earlier = cleared(grid, cells.drop_last());
        let last = cells.last();
        lemma_cleared_shape(grid, cells.drop_last());
        lemma_cleared_tiles(grid, cells.drop_last(), x, y);
        earlier.lemma_with_tile(last.x as int, last.y as int, Tile::Floor);
        let p = Position { x: x as usize, y: y as usize };
        if grid.contains(x, y) {
            if cells.drop_last().contains(p) {
                let k = choose|k: int| 0 <= k < cells.drop_last().len() && cells.drop_last()[k] == p;
                assert(cells[k] == p);
            }
            if last == p {
                assert(cells[cells.len() - 1] == p);
            }
            if cells.contains(p) {
                let k = choose|k: int| 0 <= k < cells.len() && cells[k] == p;
                if k < cells.len() - 1 {
                    assert(cells.drop_last()[k] == p);
                }
            }
        }
    }
}

/// Follows one ray of a blast from `position`, appending the cells it
/// reaches to `blast` and the block it destroys, if any, to `destroyed`.
fn cast_ray(
    grid: &Grid,
    position: Position,
    direction: Direction,
    range: u32,
    blast: &mut Vec<Position>,
    destroyed: &mut Vec<Position>,
)
    ensures
        final(blast)@ == old(blast)@ + ray(grid@, position.x as int, position.y as int, direction, range as nat),
        final(destroyed)@ == old(destroyed)@ + ray_destroyed(
            grid@,
            position.x as int,
            position.y as int,
            direction,
            range as nat,
        ),
{
    proof {
        use_type_invariant(grid);
        grid.lemma_view_wf();
    }
    let ghost whole = ray(grid@, position.x as int, position.y as int, direction, range as nat);
    let ghost mut reached: Seq<Position> = Seq::empty();
    let ghost mut absorbed: bool = false;
    let mut current = position;
    let mut travelled: u32 = 0;
    assert(old(blast)@ + reached == old(blast)@);
    assert(reached + whole == whole);
    while travelled < range
        invariant_except_break
            whole == reached + ray(
                grid@,
                current.x as int,
                current.y as int,
                direction,
                (range - travelled) as nat,
            ),
            destroyed@ == old(destroyed)@,
            !absorbed,
        invariant
            travelled <= range,
            grid@.wf(),
            grid@.width <= usize::MAX,
            grid@.height <= usize::MAX,
            whole == ray(grid@, position.x as int, position.y as int, direction, range as nat),
            blast@ == old(blast)@ + reached,
            forall|i: int|
                0 <= i < reached.len() && !(absorbed && i == reached.len() - 1) ==> grid@.walkable(
                    (#[trigger] reached[i]).x as int,
                    reached[i].y as int,
                ),
        ensures
            whole == reached,
            absorbed ==> reached.len() > 0 && grid@.tile(reached.last().x as int, reached.last().y as int)
                == Some(Tile::Destructible) && destroyed@ == old(destroyed)@.push(reached.last()),
            !absorbed ==> destroyed@ == old(destroyed)@,
        decreases range - travelled,
    {
        let ghost (nx, ny) = direction.offset(current.x as int, current.y as int);
        let leaves_range = match direction {
            Direction::South => current.y == usize::MAX,
            Direction::East => current.x == usize::MAX,
            Direction::North | Direction::West => false,
        };
        if leaves_range {
            assert(grid@.tile(nx, ny) is None);
            assert(whole == reached + Seq::<Position>::empty());
            assert(reached + Seq::<Position>::empty() == reached);
            break ;
        }
        let next = match current.step(direction) {
            Some(next) => next,
            None => {
                assert(grid@.tile(nx, ny) is None);
                assert(reached + Seq::<Position>::empty() == reached);
                break ;
            },
        };
        assert(next.x == nx && next.y == ny);
        match grid.get_tile_at(next.x, next.y) {
            None => {
                assert(reached + Seq::<Position>::empty() == reached);
                break ;
            },
            Some(Tile::Wall) => {
                assert(reached + Seq::<Position>::empty() == reached);
                break ;
            },
            Some(Tile::Destructible) => {
                blast.push(next);
                destroyed.push(next);
                proof {
                    assert(whole == reached + seq![next]);
                    reached = reached.push(next);
                    absorbed = true;
                    assert(whole == reached);
                    assert(blast@ == old(blast)@ + reached);
                }
                break ;
            },
            Some(_) => {
                blast.push(next);
                proof {
                    let rest = ray(grid@, nx, ny, direction, (range - travelled - 1) as nat);
                    assert(whole == reached + (seq![next] + rest));
                    assert(reached + (seq![next] + rest) == reached.push(next) + rest);
                    reached = reached.push(next);
                    assert(blast@ == old(blast)@ + reached);
                }
                current = next;
                travelled = travelled + 1;
            },
        }
    }
    proof {
        if !absorbed && reached.len() > 0 {
            assert(grid@.walkable(reached.last().x as int, reached.last().y as int));
        }
    }
}

/// Computes the blast of a bomb at `position` with the given range on the
/// grid as it is now. Returns the blast set and the destructible blocks in
/// it, which the blast destroys.
pub fn calculate_blast(grid: &Grid, position: Position, range: u32) -> (r: (Vec<Position>, Vec<Position>))
    ensures
        r.0@ == blast_tiles(grid@, position, range as nat),
        r.1@ == destroyed_tiles(grid@, position, range as nat),
{
    let mut blast: Vec<Position> = Vec::new();
    let mut destroyed: Vec<Position> = Vec::new();
    blast.push(position);
    assert(blast@ == seq![position]);
    cast_ray(grid, position, Direction::North, range, &mut blast, &mut destroyed);
    cast_ray(grid, position, Direction::South, range, &mut blast, &mut destroyed);
    cast_ray(grid, position, Direction::East, range, &mut blast, &mut destroyed);
    cast_ray(grid, position, Direction::West, range, &mut blast, &mut destroyed);
    assert(destroyed@ == destroyed_tiles(grid@, position, range as nat));
    (blast, destroyed)
}

} // verus!
