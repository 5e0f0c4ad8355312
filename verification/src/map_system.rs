//! The tile grid: a rectangular matrix of tiles with walkability queries.

use vstd::prelude::*;

verus! {

/// The kind of one grid cell.
#[derive(Debug, Clone, Copy, PartialEq, Eq, Structural)]
pub enum Tile {
    /// Solid wall: blocks movement and stops a blast.
    Wall,
    /// Open floor.
    Floor,
    /// Block that a blast destroys; blocks movement until then.
    Destructible,
    /// Loot spawn point.
    Loot,
    /// Extraction zone.
    Extraction,
}

impl Tile {
    /// Whether a player may stand on this tile.
    pub open spec fn walkable(self) -> bool {
        self is Floor || self is Loot || self is Extraction
    }

    /// Returns true if the tile can be walked on.
    pub fn is_walkable(&self) -> (r: bool)
        ensures
            r == self.walkable(),
    {
        match self {
            Tile::Floor | Tile::Loot | Tile::Extraction => true,
            Tile::Wall | Tile::Destructible => false,
        }
    }

    /// Returns true if the tile blocks movement.
    pub fn blocks_movement(&self) -> (r: bool)
        ensures
            r == (*self is Wall || *self is Destructible),
            r == !self.walkable(),
    {
        match self {
            Tile::Wall | Tile::Destructible => true,
            Tile::Floor | Tile::Loot | Tile::Extraction => false,
        }
    }
}

/// Overwrites one cell of a matrix of rows, leaving every other cell and
/// every row length as it was.
fn write_cell(rows: &mut Vec<Vec<Tile>>, x: usize, y: usize, tile: Tile)
    requires
        y < old(rows)@.len(),
        x < old(rows)@[y as int]@.len(),
    ensures
        final(rows)@.len() == old(rows)@.len(),
        final(rows)@[y as int]@ == old(rows)@[y as int]@.update(x as int, tile),
        forall|j: int| 0 <= j < old(rows)@.len() && j != y ==> final(rows)@[j] == old(rows)@[j],
    no_unwind
{
    rows[y][x] = tile;
}

/// A rectangular tile map, addressed by column `x` and row `y`.
#[derive(Debug)]
pub struct Grid {
    width: usize,
    height: usize,
    tiles: Vec<Vec<Tile>>,
}

/// The mathematical model of a grid: its dimensions and its rows, top to
/// bottom, each a sequence of tiles left to right.
pub struct GridView {
    pub width: nat,
    pub height: nat,
    pub rows: Seq<Seq<Tile>>,
}

impl GridView {
    /// The model is a full rectangle: `height` rows of `width` tiles.
    pub open spec fn wf(self) -> bool {
        &&& self.rows.len() == self.height
        &&& forall|y: int| 0 <= y < self.height ==> (#[trigger] self.rows[y]).len() == self.width
    }

    /// Whether the mathematical coordinates lie inside the grid.
    pub open spec fn contains(self, x: int, y: int) -> bool {
        0 <= x < self.width && 0 <= y < self.height
    }

    /// The tile at mathematical coordinates, `None` outside the grid.
    pub open spec fn tile(self, x: int, y: int) -> Option<Tile> {
        if self.contains(x, y) {
            Some(self.rows[y][x])
        } else {
            None
        }
    }

    /// Whether the coordinates name a cell of the grid that can be walked on.
    pub open spec fn walkable(self, x: int, y: int) -> bool {
        self.contains(x, y) && self.rows[y][x].walkable()
    }

    /// The grid of the given dimensions that holds `tile` everywhere.
    pub open spec fn filled(width: nat, height: nat, tile: Tile) -> GridView {
        GridView { width, height, rows: Seq::new(height, |y: int| Seq::new(width, |x: int| tile)) }
    }

    /// The grid with one cell overwritten; the same grid if the cell is
    /// outside it.
    pub open spec fn with_tile(self, x: int, y: int, tile: Tile) -> GridView {
        if self.contains(x, y) {
            GridView { rows: self.rows.update(y, self.rows[y].update(x, tile)), ..self }
        } else {
            self
        }
    }

    /// The cardinal neighbours of a cell that lie inside the grid, in the
    /// order west, east, north, south.
    pub open spec fn neighbor_cells(self, x: int, y: int) -> Seq<(usize, usize)> {
        cell_if(self.contains(x - 1, y), x - 1, y) + cell_if(self.contains(x + 1, y), x + 1, y)
            + cell_if(self.contains(x, y - 1), x, y - 1) + cell_if(self.contains(x, y + 1), x, y + 1)
    }

    /// The cardinal neighbours of a cell that can be walked on, in the order
    /// west, east, north, south.
    pub open spec fn walkable_neighbor_cells(self, x: int, y: int) -> Seq<(usize, usize)> {
        cell_if(self.walkable(x - 1, y), x - 1, y) + cell_if(self.walkable(x + 1, y), x + 1, y)
            + cell_if(self.walkable(x, y - 1), x, y - 1) + cell_if(self.walkable(x, y + 1), x, y + 1)
    }

    /// Overwriting a cell changes that cell and no other, and keeps the
    /// shape.
    pub proof fn lemma_with_tile(self, x: int, y: int, tile: Tile)
        requires
            self.wf(),
        ensures
            self.with_tile(x, y, tile).wf(),
            self.with_tile(x, y, tile).width == self.width,
            self.with_tile(x, y, tile).height == self.height,
            forall|i: int, j: int| #[trigger]
                self.with_tile(x, y, tile).tile(i, j) == if self.contains(x, y) && i == x && j == y {
                    Some(tile)
                } else {
                    self.tile(i, j)
                },
    {
    }
}

impl View for Grid {
    type V = GridView;

    closed spec fn view(&self) -> GridView {
        GridView {
            width: self.width as nat,
            height: self.height as nat,
            rows: Seq::new(self.tiles@.len(), |y: int| self.tiles@[y]@),
        }
    }
}

impl Grid {
    /// The grid is a full rectangle of its dimensions. Every grid that
    /// executable code can hold is one.
    #[verifier::type_invariant]
    pub closed spec fn wf(&self) -> bool {
        &&& self.tiles@.len() == self.height
        &&& forall|y: int| 0 <= y < self.tiles@.len() ==> (#[trigger] self.tiles@[y])@.len() == self.width
    }

    /// The model of a well-formed grid is a full rectangle whose dimensions
    /// fit the machine's unsigned range.
    pub proof fn lemma_view_wf(&self)
        requires
            self.wf(),
        ensures
            self@.wf(),
            self@.width <= usize::MAX,
            self@.height <= usize::MAX,
    {
    }

    /// Creates a grid of the given dimensions, filled with floor tiles.
    pub fn new(width: usize, height: usize) -> (g: Grid)
        ensures
            g@ == GridView::filled(width as nat, height as nat, Tile::Floor),
            g@.wf(),
    {
        let mut tiles: Vec<Vec<Tile>> = Vec::new();
        let mut y: usize = 0;
        while y < height
            invariant
                y <= height,
                tiles@.len() == y,
                forall|j: int| 0 <= j < y ==> (#[trigger] tiles@[j])@.len() == width,
                forall|j: int, i: int| 0 <= j < y && 0 <= i < width ==> tiles@[j]@[i] == Tile::Floor,
            decreases height - y,
        {
            let mut row: Vec<Tile> = Vec::new();
            let mut x: usize = 0;
            while x < width
                invariant
                    x <= width,
                    row@.len() == x,
                    forall|i: int| 0 <= i < x ==> row@[i] == Tile::Floor,
                decreases width - x,
            {
                row.push(Tile::Floor);
                x += 1;
            }
            tiles.push(row);
            y += 1;
        }
        let g = Grid { width, height, tiles };
        assert(g@.rows =~~= GridView::filled(width as nat, height as nat, Tile::Floor).rows);
        g
    }

    /// Returns the width of the grid.
    pub fn width(&self) -> (w: usize)
        ensures
            w == self@.width,
    {
        self.width
    }

    /// Returns the height of the grid.
    pub fn height(&self) -> (h: usize)
        ensures
            h == self@.height,
    {
        self.height
    }

    /// Checks if the given coordinates are within grid bounds.
    pub fn in_bounds(&self, x: usize, y: usize) -> (r: bool)
        ensures
            r == self@.contains(x as int, y as int),
    {
        x < self.width && y < self.height
    }

    /// Gets the tile at the given coordinates, `None` out of bounds.
    pub fn get_tile_at(&self, x: usize, y: usize) -> (r: Option<Tile>)
        ensures
            r == self@.tile(x as int, y as int),
    {
        proof {
            use_type_invariant(self);
        }
        if x < self.width && y < self.height {
            assert(self@.rows[y as int] == self.tiles@[y as int]@);
            Some(self.tiles[y][x])
        } else {
            None
        }
    }

    /// Sets the tile at the given coordinates. Returns true if a tile was
    /// written, false (and no change) if the coordinates are out of bounds.
    pub fn set_tile_at(&mut self, x: usize, y: usize, tile: Tile) -> (r: bool)
        ensures
            r == old(self)@.contains(x as int, y as int),
            final(self)@ == old(self)@.with_tile(x as int, y as int, tile),
            final(self)@.wf(),
    {
        proof {
            use_type_invariant(&*self);
        }
        if x < self.width && y < self.height {
            assert(self@.rows[y as int] == self.tiles@[y as int]@);
            write_cell(&mut self.tiles, x, y, tile);
            assert(self@.rows =~= old(self)@.rows.update(
                y as int,
                old(self)@.rows[y as int].update(x as int, tile),
            ));
            true
        } else {
            false
        }
    }

    /// Checks if the cell at the given coordinates can be walked on.
    /// False out of bounds.
    pub fn is_walkable(&self, x: usize, y: usize) -> (r: bool)
        ensures
            r == self@.walkable(x as int, y as int),
    {
        match self.get_tile_at(x, y) {
            Some(tile) => tile.is_walkable(),
            None => false,
        }
    }

    /// Checks if the cell at the given coordinates blocks movement.
    /// True out of bounds.
    pub fn is_occupied(&self, x: usize, y: usize) -> (r: bool)
        ensures
            r == !self@.walkable(x as int, y as int),
    {
        !self.is_walkable(x, y)
    }

    /// Returns the up to four cardinal neighbours of `(x, y)` that are in
    /// bounds: fewer at edges and corners, none far outside the grid.
    pub fn neighbors(&self, x: usize, y: usize) -> (r: Vec<(usize, usize)>)
        ensures
            r@ == self@.neighbor_cells(x as int, y as int),
    {
        let mut r: Vec<(usize, usize)> = Vec::new();
        if x > 0 && self.in_bounds(x - 1, y) {
            r.push((x - 1, y));
        }
        if x < usize::MAX && self.in_bounds(x + 1, y) {
            r.push((x + 1, y));
        }
        if y > 0 && self.in_bounds(x, y - 1) {
            r.push((x, y - 1));
        }
        if y < usize::MAX && self.in_bounds(x, y + 1) {
            r.push((x, y + 1));
        }
        assert(r@ =~= self@.neighbor_cells(x as int, y as int));
        r
    }

    /// Returns the cardinal neighbours of `(x, y)` that can be walked on.
    pub fn walkable_neighbors(&self, x: usize, y: usize) -> (r: Vec<(usize, usize)>)
        ensures
            r@ == self@.walkable_neighbor_cells(x as int, y as int),
    {
        let mut r: Vec<(usize, usize)> = Vec::new();
        if x > 0 && self.is_walkable(x - 1, y) {
            r.push((x - 1, y));
        }
        if x < usize::MAX && self.is_walkable(x + 1, y) {
            r.push((x + 1, y));
        }
        if y > 0 && self.is_walkable(x, y - 1) {
            r.push((x, y - 1));
        }
        if y < usize::MAX && self.is_walkable(x, y + 1) {
            r.push((x, y + 1));
        }
        assert(r@ =~= self@.walkable_neighbor_cells(x as int, y as int));
        r
    }

    /// Returns the positions of all tiles of the given kind, in row-major
    /// order: each such cell once, rows top to bottom, left to right within
    /// a row.
    pub fn find_tiles(&self, tile: Tile) -> (r: Vec<(usize, usize)>)
        ensures
            forall|i: int| 0 <= i < r@.len() ==> self@.tile(r@[i].0 as int, r@[i].1 as int) == Some(tile),
            forall|x: int, y: int| self@.tile(x, y) == Some(tile) ==> r@.contains((x as usize, y as usize)),
            forall|i: int, j: int| 0 <= i < j < r@.len() ==> row_major_before(r@[i], r@[j]),
    {
        proof {
            use_type_invariant(self);
        }
        let mut r: Vec<(usize, usize)> = Vec::new();
        let mut y: usize = 0;
        while y < self.height
            invariant
                self.wf(),
                y <= self.height,
                forall|i: int| 0 <= i < r@.len() ==> self@.tile(r@[i].0 as int, r@[i].1 as int) == Some(tile),
                forall|i: int| 0 <= i < r@.len() ==> (#[trigger] r@[i]).1 < y,
                forall|i: int, j: int| 0 <= i < j < r@.len() ==> row_major_before(r@[i], r@[j]),
                forall|cx: int, cy: int|
                    self@.tile(cx, cy) == Some(tile) && cy < y ==> r@.contains((cx as usize, cy as usize)),
            decreases self.height - y,
        {
            let mut x: usize = 0;
            while x < self.width
                invariant
                    self.wf(),
                    y < self.height,
                    x <= self.width,
                    forall|i: int| 0 <= i < r@.len() ==> self@.tile(r@[i].0 as int, r@[i].1 as int) == Some(tile),
                    forall|i: int|
                        0 <= i < r@.len() ==> (#[trigger] r@[i]).1 < y || (r@[i].1 == y && r@[i].0 < x),
                    forall|i: int, j: int| 0 <= i < j < r@.len() ==> row_major_before(r@[i], r@[j]),
                    forall|cx: int, cy: int|
                        self@.tile(cx, cy) == Some(tile) && (cy < y || (cy == y && cx < x)) ==> r@.contains(
                            (cx as usize, cy as usize),
                        ),
                decreases self.width - x,
            {
                let ghost before = r@;
                if self.tiles[y][x] == tile {
                    r.push((x, y));
                    assert(r@[before.len() as int] == (x, y));
                }
                assert forall|cx: int, cy: int|
                    self@.tile(cx, cy) == Some(tile) && (cy < y || (cy == y && cx < x + 1)) implies r@.contains(
                    (cx as usize, cy as usize),
                ) by {
                    if cy == y && cx == x {
                        assert(r@[before.len() as int] == (x, y));
                    } else {
                        let k = choose|k: int| 0 <= k < before.len() && before[k] == (cx as usize, cy as usize);
                        assert(r@[k] == (cx as usize, cy as usize));
                    }
                }
                x += 1;
            }
            y += 1;
        }
        r
    }
}

impl Clone for Grid {
    /// An independent grid with the same dimensions and tiles.
    fn clone(&self) -> (g: Grid)
        ensures
            g.wf(),
            g@ == self@,
    {
        proof {
            use_type_invariant(self);
        }
        let mut tiles: Vec<Vec<Tile>> = Vec::new();
        let mut y: usize = 0;
        while y < self.height
            invariant
                self.wf(),
                y <= self.height,
                tiles@.len() == y,
                forall|j: int| 0 <= j < y ==> (#[trigger] tiles@[j])@ == self.tiles@[j]@,
            decreases self.height - y,
        {
            let mut row: Vec<Tile> = Vec::new();
            let mut x: usize = 0;
            while x < self.width
                invariant
                    self.wf(),
                    y < self.height,
                    x <= self.width,
                    row@.len() == x,
                    forall|i: int| 0 <= i < x ==> row@[i] == self.tiles@[y as int]@[i],
                decreases self.width - x,
            {
                row.push(self.tiles[y][x]);
                x += 1;
            }
            assert(row@ =~= self.tiles@[y as int]@);
            tiles.push(row);
            y += 1;
        }
        let g = Grid { width: self.width, height: self.height, tiles };
        assert(g@.rows =~= self@.rows);
        g
    }
}

/// The sequence holding the cell `(x, y)` if `present`, the empty sequence otherwise.
pub open spec fn cell_if(present: bool, x: int, y: int) -> Seq<(usize, usize)> {
    if present {
        seq![(x as usize, y as usize)]
    } else {
        Seq::empty()
    }
}

/// Row-major order on cells `(x, y)`: an earlier row, or the same row and an
/// earlier column.
pub open spec fn row_major_before(a: (usize, usize), b: (usize, usize)) -> bool {
    a.1 < b.1 || (a.1 == b.1 && a.0 < b.0)
}

} // verus!
