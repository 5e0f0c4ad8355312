//! Reachability on the grid: whether one can walk from one cell to
//! another, stepping between cardinal neighbours over walkable tiles.

use vstd::prelude::*;
use crate::map_system::{cell_if, Grid, GridView};
use crate::map_template::Point;

verus! {

/// Whether two points are cardinal neighbours.
pub open spec fn adjacent(a: Point, b: Point) -> bool {
    ||| a.x == b.x && (a.y == b.y + 1 || b.y == a.y + 1)
    ||| a.y == b.y && (a.x == b.x + 1 || b.x == a.x + 1)
}

/// Whether one can step from `a` to `b`: they are neighbours and `b` can
/// be walked on. Where one stands does not matter.
pub open spec fn step(grid: GridView, a: Point, b: Point) -> bool {
    adjacent(a, b) && grid.walkable(b.x as int, b.y as int)
}

/// Whether `path` is a walk from `start` to `end`.
pub open spec fn is_path(grid: GridView, path: Seq<Point>, start: Point, end: Point) -> bool {
    &&& path.len() > 0
    &&& path.first() == start
    &&& path.last() == end
    &&& forall|i: int| 0 <= i < path.len() - 1 ==> step(grid, #[trigger] path[i], path[i + 1])
}

/// Whether there is a walk from `start` to `end`. Every point reaches
/// itself.
pub open spec fn reachable(grid: GridView, start: Point, end: Point) -> bool {
    exists|path: Seq<Point>| is_path(grid, path, start, end)
}

/// Whether a set of points is closed under steps: no step leads out of it.
pub open spec fn closed_under_steps(grid: GridView, region: Set<Point>) -> bool {
    forall|a: Point, b: Point| region.contains(a) && #[trigger] step(grid, a, b) ==> region.contains(b)
}

/// A walk that starts inside a region closed under steps stays inside it.
proof fn lemma_path_stays(grid: GridView, region: Set<Point>, path: Seq<Point>, i: int)
    requires
        closed_under_steps(grid, region),
        path.len() > 0,
        region.contains(path.first()),
        forall|k: int| 0 <= k < path.len() - 1 ==> step(grid, #[trigger] path[k], path[k + 1]),
        0 <= i < path.len(),
    ensures
        region.contains(path[i]),
    decreases i,
{
    if i > 0 {
        lemma_path_stays(grid, region, path, i - 1);
        assert(step(grid, path[i - 1], path[i - 1 + 1]));
    }
}

/// Separation: if a region that no step leaves holds `start` and not
/// `end`, then `end` cannot be reached from `start`.
pub proof fn lemma_separated(grid: GridView, region: Set<Point>, start: Point, end: Point)
    requires
        closed_under_steps(grid, region),
        region.contains(start),
        !region.contains(end),
    ensures
        !reachable(grid, start, end),
{
    if reachable(grid, start, end) {
        let path = choose|path: Seq<Point>| is_path(grid, path, start, end);
        lemma_path_stays(grid, region, path, path.len() - 1);
    }
}

/// A walk can be prolonged by one step.
pub proof fn lemma_reach_further(grid: GridView, start: Point, via: Point, end: Point)
    requires
        reachable(grid, start, via),
        step(grid, via, end),
    ensures
        reachable(grid, start, end),
{
    let path = choose|path: Seq<Point>| is_path(grid, path, start, via);
    let longer = path.push(end);
    assert forall|i: int| 0 <= i < longer.len() - 1 implies step(grid, #[trigger] longer[i], longer[i + 1]) by {
        if i < path.len() - 1 {
            assert(step(grid, path[i], path[i + 1]));
        }
    }
    assert(is_path(grid, longer, start, end));
}

/// Every point reaches itself.
pub proof fn lemma_reach_self(grid: GridView, start: Point)
    ensures
        reachable(grid, start, start),
{
    assert(is_path(grid, seq![start], start, start));
}

/// The marks of a search, as rows of flags.
spec fn marks(visited: Vec<Vec<bool>>) -> Seq<Seq<bool>> {
    Seq::new(visited@.len(), |y: int| visited@[y]@)
}

/// Whether the marks have the shape of the grid.
spec fn marks_fit(marks: Seq<Seq<bool>>, grid: GridView) -> bool {
    &&& marks.len() == grid.height
    &&& forall|y: int| 0 <= y < marks.len() ==> (#[trigger] marks[y]).len() == grid.width
}

/// The number of cells of a row that are not marked.
spec fn free_in_row(row: Seq<bool>) -> nat
    decreases row.len(),
{
    if row.len() == 0 {
        0
    } else {
        free_in_row(row.drop_last()) + if row.last() {
            0nat
        } else {
            1nat
        }
    }
}

/// The number of cells that are not marked.
spec fn free_cells(marks: Seq<Seq<bool>>) -> nat
    decreases marks.len(),
{
    if marks.len() == 0 {
        0
    } else {
        free_cells(marks.drop_last()) + free_in_row(marks.last())
    }
}

/// Marking a free cell of a row leaves one free cell fewer.
proof fn lemma_mark_in_row(row: Seq<bool>, x: int)
    requires
        0 <= x < row.len(),
        !row[x],
    ensures
        free_in_row(row.update(x, true)) + 1 == free_in_row(row),
    decreases row.len(),
{
    let marked = row.update(x, true);
    if x == row.len() - 1 {
        assert(marked.drop_last() =~= row.drop_last());
    } else {
        assert(marked.drop_last() =~= row.drop_last().update(x, true));
        lemma_mark_in_row(row.drop_last(), x);
    }
}

/// Marking a free cell leaves one free cell fewer.
proof fn lemma_mark(marks: Seq<Seq<bool>>, x: int, y: int)
    requires
        0 <= y < marks.len(),
        0 <= x < marks[y].len(),
        !marks[y][x],
    ensures
        free_cells(marks.update(y, marks[y].update(x, true))) + 1 == free_cells(marks),
    decreases marks.len(),
{
    let marked = marks.update(y, marks[y].update(x, true));
    if y == marks.len() - 1 {
        assert(marked.drop_last() =~= marks.drop_last());
        lemma_mark_in_row(marks[y], x);
    } else {
        assert(marked.drop_last() =~= marks.drop_last().update(y, marks[y].update(x, true)));
        lemma_mark(marks.drop_last(), x, y);
    }
}

/// Marks one cell.
fn mark(visited: &mut Vec<Vec<bool>>, x: usize, y: usize)
    requires
        y < old(visited)@.len(),
        x < old(visited)@[y as int]@.len(),
    ensures
        marks(*final(visited)) == marks(*old(visited)).update(
            y as int,
            marks(*old(visited))[y as int].update(x as int, true),
        ),
{
    visited[y][x] = true;
    assert(marks(*visited) =~= marks(*old(visited)).update(
        y as int,
        marks(*old(visited))[y as int].update(x as int, true),
    ));
}

/// A matrix of the grid's shape with no cell marked.
fn no_marks(width: usize, height: usize) -> (visited: Vec<Vec<bool>>)
    ensures
        marks(visited).len() == height,
        forall|y: int| 0 <= y < height ==> (#[trigger] marks(visited)[y]).len() == width,
        forall|x: int, y: int| 0 <= y < height && 0 <= x < width ==> !marks(visited)[y][x],
{
    let mut visited: Vec<Vec<bool>> = Vec::new();
    let mut y: usize = 0;
    while y < height
        invariant
            y <= height,
            visited@.len() == y,
            forall|j: int| 0 <= j < y ==> (#[trigger] visited@[j])@.len() == width,
            forall|j: int, i: int| 0 <= j < y && 0 <= i < width ==> !visited@[j]@[i],
        decreases height - y,
    {
        let mut row: Vec<bool> = Vec::new();
        let mut x: usize = 0;
        while x < width
            invariant
                x <= width,
                row@.len() == x,
                forall|i: int| 0 <= i < x ==> !row@[i],
            decreases width - x,
        {
            row.push(false);
            x += 1;
        }
        visited.push(row);
        y += 1;
    }
    visited
}

/// The point at a cell.
pub open spec fn point_at(cell: (usize, usize)) -> Point {
    Point { x: cell.0, y: cell.1 }
}

/// The walkable neighbours of a point, as the grid lists them, are exactly
/// the points that can be stepped on from it.
proof fn lemma_neighbors_are_steps(grid: GridView, p: Point)
    requires
        grid.wf(),
        grid.width <= usize::MAX,
        grid.height <= usize::MAX,
    ensures
        ({
            let cells = grid.walkable_neighbor_cells(p.x as int, p.y as int);
            &&& cells.len() <= 4
            &&& forall|j: int| 0 <= j < cells.len() ==> step(grid, p, point_at(#[trigger] cells[j]))
            &&& forall|b: Point| #[trigger] step(grid, p, b) ==> cells.contains((b.x, b.y))
        }),
{
    let x = p.x as int;
    let y = p.y as int;
    let west = cell_if(grid.walkable(x - 1, y), x - 1, y);
    let east = cell_if(grid.walkable(x + 1, y), x + 1, y);
    let north = cell_if(grid.walkable(x, y - 1), x, y - 1);
    let south = cell_if(grid.walkable(x, y + 1), x, y + 1);
    let cells = grid.walkable_neighbor_cells(x, y);
    assert(cells == west + east + north + south);
    assert forall|j: int| 0 <= j < cells.len() implies step(grid, p, point_at(#[trigger] cells[j])) by {
        if j < west.len() {
            assert(cells[j] == west[j]);
        } else if j < west.len() + east.len() {
            assert(cells[j] == east[j - west.len()]);
        } else if j < west.len() + east.len() + north.len() {
            assert(cells[j] == north[j - west.len() - east.len()]);
        } else {
            assert(cells[j] == south[j - west.len() - east.len() - north.len()]);
        }
    }
    assert forall|b: Point| #[trigger] step(grid, p, b) implies cells.contains((b.x, b.y)) by {
        if b.y == y && b.x == x - 1 {
            assert(cells[0] == (b.x, b.y));
        } else if b.y == y && b.x == x + 1 {
            assert(cells[west.len() as int] == (b.x, b.y));
        } else if b.x == x && b.y == y - 1 {
            assert(cells[(west.len() + east.len()) as int] == (b.x, b.y));
        } else {
            assert(b.x == x && b.y == y + 1);
            assert(cells[(west.len() + east.len() + north.len()) as int] == (b.x, b.y));
        }
    }
}

/// Marks the cells of `neighbors` that are not marked yet and puts them at
/// the end of the queue.
fn visit_neighbors(
    grid: &Grid,
    neighbors: &Vec<(usize, usize)>,
    visited: &mut Vec<Vec<bool>>,
    queue: &mut Vec<Point>,
)
    requires
        marks_fit(marks(*old(visited)), grid@),
        forall|j: int|
            0 <= j < neighbors@.len() ==> grid@.contains((#[trigger] neighbors@[j]).0 as int, neighbors@[j].1 as int),
    ensures
        marks_fit(marks(*final(visited)), grid@),
        final(queue)@.len() >= old(queue)@.len(),
        forall|k: int| 0 <= k < old(queue)@.len() ==> final(queue)@[k] == old(queue)@[k],
        forall|k: int|
            old(queue)@.len() <= k < final(queue)@.len() ==> neighbors@.contains(
                ((#[trigger] final(queue)@[k]).x, final(queue)@[k].y),
            ),
        forall|x: int, y: int|
            grid@.contains(x, y) && #[trigger] marks(*old(visited))[y][x] ==> marks(*final(visited))[y][x],
        forall|j: int|
            0 <= j < neighbors@.len() ==> marks(
                *final(visited),
            )[(#[trigger] neighbors@[j]).1 as int][neighbors@[j].0 as int],
        forall|x: int, y: int|
            grid@.contains(x, y) && #[trigger] marks(*final(visited))[y][x] && !marks(*old(visited))[y][x]
                ==> final(queue)@.contains(Point { x: x as usize, y: y as usize }),
        2 * free_cells(marks(*final(visited))) + final(queue)@.len() <= 2 * free_cells(marks(*old(visited)))
            + old(queue)@.len(),
{
    let mut n: usize = 0;
    while n < neighbors.len()
        invariant
            n <= neighbors@.len(),
            marks_fit(marks(*visited), grid@),
            forall|j: int|
                0 <= j < neighbors@.len() ==> grid@.contains(
                    (#[trigger] neighbors@[j]).0 as int,
                    neighbors@[j].1 as int,
                ),
            queue@.len() >= old(queue)@.len(),
            forall|k: int| 0 <= k < old(queue)@.len() ==> queue@[k] == old(queue)@[k],
            forall|k: int|
                old(queue)@.len() <= k < queue@.len() ==> neighbors@.contains(
                    ((#[trigger] queue@[k]).x, queue@[k].y),
                ),
            forall|x: int, y: int|
                grid@.contains(x, y) && #[trigger] marks(*old(visited))[y][x] ==> marks(*visited)[y][x],
            forall|j: int|
                0 <= j < n ==> marks(*visited)[(#[trigger] neighbors@[j]).1 as int][neighbors@[j].0 as int],
            forall|x: int, y: int|
                grid@.contains(x, y) && #[trigger] marks(*visited)[y][x] && !marks(*old(visited))[y][x]
                    ==> queue@.contains(Point { x: x as usize, y: y as usize }),
            2 * free_cells(marks(*visited)) + queue@.len() <= 2 * free_cells(marks(*old(visited))) + old(
                queue,
            )@.len(),
        decreases neighbors@.len() - n,
    {
        let (nx, ny) = neighbors[n];
        assert(grid@.contains(neighbors@[n as int].0 as int, neighbors@[n as int].1 as int));
        let ghost marks_before = marks(*visited);
        let ghost queue_before = queue@;
        assert(marks_before[ny as int] == visited@[ny as int]@);
        if !visited[ny][nx] {
            mark(visited, nx, ny);
            queue.push(Point { x: nx, y: ny });
            proof {
                lemma_mark(marks_before, nx as int, ny as int);
                assert(queue@[queue_before.len() as int] == point_at(neighbors@[n as int]));
                assert forall|k: int| old(queue)@.len() <= k < queue@.len() implies neighbors@.contains(
                    ((#[trigger] queue@[k]).x, queue@[k].y),
                ) by {
                    if k < queue_before.len() {
                        assert(queue@[k] == queue_before[k]);
                    } else {
                        assert(neighbors@[n as int] == (queue@[k].x, queue@[k].y));
                    }
                }
                assert forall|x: int, y: int|
                    grid@.contains(x, y) && #[trigger] marks(*visited)[y][x] && !marks(
                        *old(visited),
                    )[y][x] implies queue@.contains(Point { x: x as usize, y: y as usize }) by {
                    if x == nx && y == ny {
                        assert(queue@[queue_before.len() as int] == Point { x: x as usize, y: y as usize });
                    } else {
                        assert(marks_before[y][x]);
                        let k = choose|k: int|
                            0 <= k < queue_before.len() && queue_before[k] == (Point {
                                x: x as usize,
                                y: y as usize,
                            });
                        assert(queue@[k] == Point { x: x as usize, y: y as usize });
                    }
                }
            }
        }
        n += 1;
    }
}

/// What a breadth-first search keeps true. The queue starts with `start`
/// and holds only points reached from it; every marked cell is in the
/// queue; none of the points already handled is `end`; and whatever can be
/// stepped on from a point already handled is marked.
spec fn search_inv(
    grid: GridView,
    start: Point,
    end: Point,
    queue: Seq<Point>,
    head: int,
    marks: Seq<Seq<bool>>,
) -> bool {
    &&& grid.wf()
    &&& marks_fit(marks, grid)
    &&& 0 <= head <= queue.len()
    &&& queue.len() > 0
    &&& queue[0] == start
    &&& forall|k: int| 0 <= k < queue.len() ==> reachable(grid, start, #[trigger] queue[k])
    &&& forall|k: int| 0 <= k < head ==> (#[trigger] queue[k]) != end
    &&& forall|x: int, y: int|
        grid.contains(x, y) && #[trigger] marks[y][x] ==> queue.contains(Point { x: x as usize, y: y as usize })
    &&& forall|k: int, b: Point|
        0 <= k < head && #[trigger] step(grid, queue[k], b) ==> marks[b.y as int][b.x as int]
}

/// Breadth-first search for a walk from `start` to `end` over walkable
/// tiles. The start need not be walkable, nor inside the grid.
pub fn has_path(grid: &Grid, start: Point, end: Point) -> (r: bool)
    ensures
        r == reachable(grid@, start, end),
{
    proof {
        use_type_invariant(grid);
        grid.lemma_view_wf();
        lemma_reach_self(grid@, start);
    }
    let mut visited = no_marks(grid.width(), grid.height());
    let mut queue: Vec<Point> = Vec::new();
    queue.push(start);
    if grid.in_bounds(start.x, start.y) {
        assert(marks(visited)[start.y as int] == visited@[start.y as int]@);
        mark(&mut visited, start.x, start.y);
    }
    let mut head: usize = 0;
    assert(search_inv(grid@, start, end, queue@, head as int, marks(visited))) by {
        assert(queue@[0] == start);
        assert forall|x: int, y: int| grid@.contains(x, y) && #[trigger] marks(visited)[y][x] implies queue@.contains(
            Point { x: x as usize, y: y as usize },
        ) by {
            assert(x == start.x && y == start.y);
            assert(queue@[0] == Point { x: x as usize, y: y as usize });
        }
    }
    while head < queue.len()
        invariant
            search_inv(grid@, start, end, queue@, head as int, marks(visited)),
            grid@.width <= usize::MAX,
            grid@.height <= usize::MAX,
        decreases 2 * free_cells(marks(visited)) + (queue@.len() - head),
    {
        let current = queue[head];
        if current == end {
            assert(reachable(grid@, start, queue@[head as int]));
            return true;
        }
        let neighbors = grid.walkable_neighbors(current.x, current.y);
        let ghost queue_before = queue@;
        let ghost marks_before = marks(visited);
        proof {
            lemma_neighbors_are_steps(grid@, current);
        }
        visit_neighbors(grid, &neighbors, &mut visited, &mut queue);
        proof {
            assert forall|k: int| 0 <= k < queue@.len() implies reachable(grid@, start, #[trigger] queue@[k]) by {
                if k < queue_before.len() {
                    assert(queue@[k] == queue_before[k]);
                } else {
                    let j = choose|j: int|
                        0 <= j < neighbors@.len() && neighbors@[j] == (queue@[k].x, queue@[k].y);
                    assert(queue@[k] == point_at(neighbors@[j]));
                    assert(reachable(grid@, start, queue_before[head as int]));
                    lemma_reach_further(grid@, start, current, queue@[k]);
                }
            }
            assert forall|k: int| 0 <= k < head + 1 implies (#[trigger] queue@[k]) != end by {
                assert(queue@[k] == queue_before[k]);
            }
            assert forall|x: int, y: int|
                grid@.contains(x, y) && #[trigger] marks(visited)[y][x] implies queue@.contains(
                Point { x: x as usize, y: y as usize },
            ) by {
                if marks_before[y][x] {
                    let k = choose|k: int|
                        0 <= k < queue_before.len() && queue_before[k] == (Point { x: x as usize, y: y as usize });
                    assert(queue@[k] == queue_before[k]);
                }
            }
            assert forall|k: int, b: Point| 0 <= k < head + 1 && #[trigger] step(grid@, queue@[k], b) implies marks(
                visited,
            )[b.y as int][b.x as int] by {
                assert(queue@[k] == queue_before[k]);
                if k < head {
                    assert(step(grid@, queue_before[k], b));
                    assert(marks_before[b.y as int][b.x as int]);
                } else {
                    let j = choose|j: int| 0 <= j < neighbors@.len() && neighbors@[j] == (b.x, b.y);
                    assert(marks(visited)[neighbors@[j].1 as int][neighbors@[j].0 as int]);
                }
            }
            assert(queue@[0] == queue_before[0]);
        }
        head += 1;
    }
    proof {
        let region = Set::new(|p: Point| queue@.contains(p));
        assert(region.contains(start)) by {
            assert(queue@[0] == start);
        }
        assert(!region.contains(end));
        assert forall|a: Point, b: Point| region.contains(a) && #[trigger] step(grid@, a, b) implies region.contains(
            b,
        ) by {
            let k = choose|k: int| 0 <= k < queue@.len() && queue@[k] == a;
            assert(step(grid@, queue@[k], b));
            assert(marks(visited)[b.y as int][b.x as int]);
        }
        lemma_separated(grid@, region, start, end);
    }
    false
}

} // verus!
