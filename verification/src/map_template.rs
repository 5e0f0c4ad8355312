//! Map templates: the static description of a map, and the generation of
//! a match's grid from it with seeded variation and a connectivity check.

use vstd::prelude::*;
use vstd::string::StringExecFns;
use rand::seq::SliceRandom;
use rand::SeedableRng;
use crate::map_system::{Grid, GridView, Tile};
use crate::pathfinding::{closed_under_steps, has_path, lemma_separated, reachable};
use crate::text::{decimal, decimal_text};

verus! {

/// A 2D coordinate point.
#[derive(Debug, Clone, Copy, PartialEq, Eq, Hash, Structural)]
pub struct Point {
    pub x: usize,
    pub y: usize,
}

impl Point {
    pub fn new(x: usize, y: usize) -> (p: Point)
        ensures
            p == (Point { x, y }),
    {
        Point { x, y }
    }
}

/// Loot quality tiers based on zone risk.
#[derive(Debug, Clone, Copy, PartialEq, Eq, Structural)]
pub enum LootTier {
    /// Safe outer edges.
    Common,
    /// Moderate risk middle zones.
    Uncommon,
    /// High risk center zones.
    Rare,
}

/// A zone on the map with its loot tier.
#[derive(Debug)]
pub struct Zone {
    pub id: String,
    pub loot_tier: LootTier,
    pub area: Vec<Point>,
}

/// Map template: the static layout and the rules of procedural variation.
#[derive(Debug)]
pub struct MapTemplate {
    pub name: String,
    pub width: usize,
    pub height: usize,
    /// Static wall positions.
    pub walls: Vec<Point>,
    pub spawn_points: Vec<Point>,
    pub extraction_points: Vec<Point>,
    pub loot_spawns: Vec<Point>,
    /// Zones for risk-tiered loot.
    pub zones: Vec<Zone>,
    /// Cells on which destructible blocks may be placed.
    pub destructible_zones: Vec<Point>,
    /// Share of the destructible zones to fill, in millionths of the
    /// whole: 0 for none of them to `FULL_VARIATION` for all.
    pub variation_percentage: u32,
    /// Raid duration in seconds.
    pub raid_duration_seconds: u64,
}

impl Clone for Zone {
    /// A zone with the same identifier, tier and area.
    fn clone(&self) -> (zone: Zone)
        ensures
            zone@ == self@,
    {
        Zone { id: self.id.clone(), loot_tier: self.loot_tier, area: leading(&self.area, self.area.len()) }
    }
}

impl Clone for MapTemplate {
    /// A template that is the same in every field: each zone keeps its
    /// identifier, its tier and its area.
    fn clone(&self) -> (template: MapTemplate)
        ensures
            template@ == self@,
    {
        let mut zones: Vec<Zone> = Vec::new();
        let mut i: usize = 0;
        while i < self.zones.len()
            invariant
                i <= self.zones@.len(),
                zones@.len() == i,
                forall|j: int| 0 <= j < i ==> (#[trigger] zones@[j])@ == self.zones@[j]@,
            decreases self.zones@.len() - i,
        {
            zones.push(self.zones[i].clone());
            i += 1;
        }
        assert(zone_views(zones@) =~= zone_views(self.zones@));
        MapTemplate {
            name: self.name.clone(),
            width: self.width,
            height: self.height,
            walls: leading(&self.walls, self.walls.len()),
            spawn_points: leading(&self.spawn_points, self.spawn_points.len()),
            extraction_points: leading(&self.extraction_points, self.extraction_points.len()),
            loot_spawns: leading(&self.loot_spawns, self.loot_spawns.len()),
            zones,
            destructible_zones: leading(&self.destructible_zones, self.destructible_zones.len()),
            variation_percentage: self.variation_percentage,
            raid_duration_seconds: self.raid_duration_seconds,
        }
    }
}

/// The variation that fills every destructible zone. A variation is a
/// share of the whole, counted in millionths.
pub const FULL_VARIATION: u32 = 1_000_000;

/// Share of the destructible zones that is filled where a template names
/// none: a quarter.
pub const DEFAULT_VARIATION_PERCENTAGE: u32 = 250_000;

/// Raid duration where a template names none: five minutes.
pub const DEFAULT_RAID_DURATION_SECONDS: u64 = 300;

/// Errors of template loading and grid generation.
#[derive(Debug)]
pub enum TemplateError {
    IoError(String),
    ParseError(String),
    InvalidTemplate(String),
    ConnectivityError(String),
}

/// What can be wrong with a template, in the order in which it is looked for.
pub enum TemplateFault {
    /// A dimension is zero.
    Dimensions,
    /// There is no spawn point.
    NoSpawnPoint,
    /// There is no extraction point.
    NoExtractionPoint,
    /// A wall, spawn point, extraction point, loot spawn or destructible
    /// zone lies outside the map: the first that does, in this order.
    PointOutOfBounds(Point),
    /// The variation is more than the whole.
    Variation,
}

impl TemplateFault {
    /// The message for the fault.
    pub open spec fn text(self) -> Seq<char> {
        match self {
            TemplateFault::Dimensions => "Map dimensions must be greater than zero"@,
            TemplateFault::NoSpawnPoint => "Template must have at least one spawn point"@,
            TemplateFault::NoExtractionPoint => "Template must have at least one extraction point"@,
            TemplateFault::PointOutOfBounds(point) => out_of_bounds_text(point),
            TemplateFault::Variation => "Variation percentage must be between 0.0 and 1.0"@,
        }
    }
}

/// The message for a point outside the map.
pub open spec fn out_of_bounds_text(point: Point) -> Seq<char> {
    "Point ("@ + decimal(point.x as nat) + ", "@ + decimal(point.y as nat) + ") is out of bounds"@
}

/// The message for an extraction point that a spawn point cannot reach.
pub open spec fn unreachable_text(spawn: Point, extract: Point) -> Seq<char> {
    "Spawn ("@ + decimal(spawn.x as nat) + ", "@ + decimal(spawn.y as nat) + ") cannot reach Extract ("@
        + decimal(extract.x as nat) + ", "@ + decimal(extract.y as nat) + ")"@
}

/// The first of the points that lies outside a map of the given
/// dimensions, if one does.
pub open spec fn first_outside(points: Seq<Point>, width: nat, height: nat) -> Option<Point>
    decreases points.len(),
{
    if points.len() == 0 {
        None
    } else if !(points.first().x < width && points.first().y < height) {
        Some(points.first())
    } else {
        first_outside(points.drop_first(), width, height)
    }
}

/// The mathematical model of a zone.
pub struct ZoneView {
    pub id: Seq<char>,
    pub loot_tier: LootTier,
    pub area: Seq<Point>,
}

impl View for Zone {
    type V = ZoneView;

    open spec fn view(&self) -> ZoneView {
        ZoneView { id: self.id@, loot_tier: self.loot_tier, area: self.area@ }
    }
}

/// The models of a sequence of zones, each in its place.
pub open spec fn zone_views(zones: Seq<Zone>) -> Seq<ZoneView> {
    zones.map_values(|z: Zone| z@)
}

/// The mathematical model of a template.
pub struct TemplateView {
    pub name: Seq<char>,
    pub width: nat,
    pub height: nat,
    pub walls: Seq<Point>,
    pub spawn_points: Seq<Point>,
    pub extraction_points: Seq<Point>,
    pub loot_spawns: Seq<Point>,
    pub zones: Seq<ZoneView>,
    pub destructible_zones: Seq<Point>,
    pub variation_percentage: nat,
    pub raid_duration_seconds: u64,
}

impl View for MapTemplate {
    type V = TemplateView;

    open spec fn view(&self) -> TemplateView {
        TemplateView {
            name: self.name@,
            width: self.width as nat,
            height: self.height as nat,
            walls: self.walls@,
            spawn_points: self.spawn_points@,
            extraction_points: self.extraction_points@,
            loot_spawns: self.loot_spawns@,
            zones: zone_views(self.zones@),
            destructible_zones: self.destructible_zones@,
            variation_percentage: self.variation_percentage as nat,
            raid_duration_seconds: self.raid_duration_seconds,
        }
    }
}

/// Whether all points lie on a map of the given dimensions.
pub open spec fn all_inside(points: Seq<Point>, width: nat, height: nat) -> bool {
    forall|i: int| 0 <= i < points.len() ==> (#[trigger] points[i]).x < width && points[i].y < height
}

/// The grid after the given cells have been set to `tile`, one after the
/// other. Cells outside the grid are passed over.
pub open spec fn stamped(grid: GridView, points: Seq<Point>, tile: Tile) -> GridView
    decreases points.len(),
{
    if points.len() == 0 {
        grid
    } else {
        stamped(grid, points.drop_last(), tile).with_tile(points.last().x as int, points.last().y as int, tile)
    }
}

impl TemplateView {
    /// All points that the template places on the map: the walls, the
    /// spawn points, the extraction points, the loot spawns and the
    /// destructible zones, in this order.
    pub open spec fn placed_points(self) -> Seq<Point> {
        self.walls + self.spawn_points + self.extraction_points + self.loot_spawns + self.destructible_zones
    }

    /// The first thing that is wrong with the template, if anything is.
    pub open spec fn fault(self) -> Option<TemplateFault> {
        if self.width == 0 || self.height == 0 {
            Some(TemplateFault::Dimensions)
        } else if self.spawn_points.len() == 0 {
            Some(TemplateFault::NoSpawnPoint)
        } else if self.extraction_points.len() == 0 {
            Some(TemplateFault::NoExtractionPoint)
        } else if first_outside(self.placed_points(), self.width, self.height) is Some {
            Some(
                TemplateFault::PointOutOfBounds(
                    first_outside(self.placed_points(), self.width, self.height).unwrap(),
                ),
            )
        } else if self.variation_percentage > FULL_VARIATION {
            Some(TemplateFault::Variation)
        } else {
            None
        }
    }

    /// A template is valid if nothing is wrong with it: both dimensions
    /// positive, a spawn point and an extraction point, every point on the
    /// map, and a variation of at most the whole.
    pub open spec fn valid(self) -> bool {
        self.fault() is None
    }

    /// The number of destructible blocks to place: the variation's share
    /// of the destructible zones, rounded to the nearest whole, halves up.
    /// A variation beyond the whole, in a template that is not valid,
    /// counts more blocks than there are zones; then all zones are filled.
    pub open spec fn destructible_count(self) -> nat {
        ((self.destructible_zones.len() * self.variation_percentage + 500_000) / 1_000_000) as nat
    }

    /// The destructible blocks to place, given the candidates in the order
    /// in which they were drawn: the first `destructible_count()` of them,
    /// or all where there are fewer.
    pub open spec fn chosen(self, order: Seq<Point>) -> Seq<Point> {
        if self.destructible_count() < order.len() {
            order.take(self.destructible_count() as int)
        } else {
            order
        }
    }

    /// The grid that the template gives for the candidates in the order
    /// `order`: floor everywhere, then the walls, then the extraction
    /// zones, then the loot spawns, then the chosen destructible blocks.
    /// What is set later replaces what was set earlier on the same cell.
    pub open spec fn layout(self, order: Seq<Point>) -> GridView {
        stamped(
            stamped(
                stamped(
                    stamped(GridView::filled(self.width, self.height, Tile::Floor), self.walls, Tile::Wall),
                    self.extraction_points,
                    Tile::Extraction,
                ),
                self.loot_spawns,
                Tile::Loot,
            ),
            self.chosen(order),
            Tile::Destructible,
        )
    }

    /// Whether every extraction point can be reached from every spawn
    /// point on the grid.
    pub open spec fn connected(self, grid: GridView) -> bool {
        forall|i: int, j: int|
            0 <= i < self.spawn_points.len() && 0 <= j < self.extraction_points.len() ==> reachable(
                grid,
                #[trigger] self.spawn_points[i],
                #[trigger] self.extraction_points[j],
            )
    }

    /// Whether the `j`-th extraction point is the first that the `i`-th
    /// spawn point cannot reach, and every spawn point before the `i`-th
    /// reaches every extraction point.
    pub open spec fn first_unreachable(self, grid: GridView, i: int, j: int) -> bool {
        &&& 0 <= i < self.spawn_points.len()
        &&& 0 <= j < self.extraction_points.len()
        &&& !reachable(grid, self.spawn_points[i], self.extraction_points[j])
        &&& forall|a: int, b: int|
            0 <= a < self.spawn_points.len() && 0 <= b < self.extraction_points.len() && (a < i || (a == i && b
                < j)) ==> reachable(grid, #[trigger] self.spawn_points[a], #[trigger] self.extraction_points[b])
    }

    /// Whether `error` reports the first pair of a spawn point and an
    /// extraction point that is not connected on the grid.
    pub open spec fn reports_unreachable(self, grid: GridView, error: TemplateError) -> bool {
        error matches TemplateError::ConnectivityError(message) && exists|i: int, j: int| #[trigger]
            self.first_unreachable(grid, i, j) && message@ == unreachable_text(
                self.spawn_points[i],
                self.extraction_points[j],
            )
    }

    /// Whether `result` is what generation gives for the candidates in the
    /// order `order`: the layout, if it is connected, and else the
    /// connectivity error for the first pair that is not.
    pub open spec fn generated(self, order: Seq<Point>, result: Result<Grid, TemplateError>) -> bool {
        match result {
            Ok(grid) => grid@ == self.layout(order) && self.connected(grid@),
            Err(e) => self.reports_unreachable(self.layout(order), e),
        }
    }
}

/// The order in which `SliceRandom::shuffle` leaves `points` when it draws
/// from a `StdRng` that `SeedableRng::seed_from_u64` made from `seed`, in
/// the version of `rand` that the crate is built with: another version
/// may draw differently.
pub uninterp spec fn seeded_shuffle(points: Seq<Point>, seed: u64) -> Seq<Point>;

/// Shuffles the points in place with `rand`'s `SliceRandom::shuffle`,
/// drawing from a `StdRng` seeded with `SeedableRng::seed_from_u64`.
/// Trusted: the outcome depends on the points and the seed alone, and is a
/// rearrangement of the points, since the shuffle only swaps elements.
#[verifier::external_body]
fn shuffle_seeded(points: &mut Vec<Point>, seed: u64)
    ensures
        final(points)@ == seeded_shuffle(old(points)@, seed),
        final(points)@.to_multiset() == old(points)@.to_multiset(),
{
    let mut rng = rand::rngs::StdRng::seed_from_u64(seed);
    points.shuffle(&mut rng);
}

/// Shuffles the points in place with `rand`'s `SliceRandom::shuffle`,
/// drawing from `rand::thread_rng()`. Trusted: the outcome is a
/// rearrangement of the points; which one is left open.
#[verifier::external_body]
fn shuffle_unseeded(points: &mut Vec<Point>)
    ensures
        final(points)@.to_multiset() == old(points)@.to_multiset(),
{
    let mut rng = rand::thread_rng();
    points.shuffle(&mut rng);
}

/// Words the message for a point outside the map.
fn out_of_bounds_message(point: Point) -> (text: String)
    ensures
        text@ == out_of_bounds_text(point),
{
    let mut text = "Point (".to_owned();
    text.append(decimal_text(point.x).as_str());
    text.append(", ");
    text.append(decimal_text(point.y).as_str());
    text.append(") is out of bounds");
    text
}

/// Words the message for an extraction point that a spawn point cannot
/// reach.
fn unreachable_message(spawn: Point, extract: Point) -> (text: String)
    ensures
        text@ == unreachable_text(spawn, extract),
{
    let mut text = "Spawn (".to_owned();
    text.append(decimal_text(spawn.x).as_str());
    text.append(", ");
    text.append(decimal_text(spawn.y).as_str());
    text.append(") cannot reach Extract (");
    text.append(decimal_text(extract.x).as_str());
    text.append(", ");
    text.append(decimal_text(extract.y).as_str());
    text.append(")");
    text
}

/// The first point outside the map among two lists is the first outside
/// among the first list, or else among the second.
proof fn lemma_first_outside_of_both(front: Seq<Point>, back: Seq<Point>, width: nat, height: nat)
    ensures
        first_outside(front + back, width, height) == match first_outside(front, width, height) {
            Some(point) => Some(point),
            None => first_outside(back, width, height),
        },
    decreases front.len(),
{
    if front.len() == 0 {
        assert(front + back =~= back);
    } else {
        assert((front + back).first() == front.first());
        assert((front + back).drop_first() =~= front.drop_first() + back);
        lemma_first_outside_of_both(front.drop_first(), back, width, height);
    }
}

/// No point is first outside the map exactly if all points are on it.
pub proof fn lemma_none_outside(points: Seq<Point>, width: nat, height: nat)
    ensures
        first_outside(points, width, height) is None <==> all_inside(points, width, height),
        first_outside(points, width, height) matches Some(point) ==> points.contains(point) && !(point.x < width
            && point.y < height),
    decreases points.len(),
{
    if points.len() > 0 {
        let rest = points.drop_first();
        lemma_none_outside(rest, width, height);
        if points.first().x < width && points.first().y < height {
            if all_inside(rest, width, height) {
                assert forall|i: int| 0 <= i < points.len() implies (#[trigger] points[i]).x < width
                    && points[i].y < height by {
                    if i > 0 {
                        assert(points[i] == rest[i - 1]);
                    }
                }
            } else {
                let k = choose|k: int| 0 <= k < rest.len() && !((#[trigger] rest[k]).x < width && rest[k].y < height);
                assert(points[k + 1] == rest[k]);
            }
            if first_outside(points, width, height) is Some {
                let point = first_outside(points, width, height).unwrap();
                let k = choose|k: int| 0 <= k < rest.len() && rest[k] == point;
                assert(points[k + 1] == point);
            }
        } else {
            assert(points[0] == points.first());
        }
    }
}

/// Finds the first of the points that lies outside a map of the given
/// dimensions.
fn find_outside(points: &Vec<Point>, width: usize, height: usize) -> (r: Option<Point>)
    ensures
        r == first_outside(points@, width as nat, height as nat),
{
    let mut i: usize = 0;
    assert(points@.skip(0) =~= points@);
    while i < points.len()
        invariant
            i <= points@.len(),
            first_outside(points@, width as nat, height as nat) == first_outside(
                points@.skip(i as int),
                width as nat,
                height as nat,
            ),
        decreases points@.len() - i,
    {
        let point = points[i];
        assert(points@.skip(i as int).first() == point);
        if point.x >= width || point.y >= height {
            return Some(point);
        }
        assert(points@.skip(i as int).drop_first() =~= points@.skip(i + 1));
        i += 1;
    }
    None
}

/// Sets the cells at the given points to `tile`.
fn stamp(grid: &mut Grid, points: &Vec<Point>, tile: Tile)
    ensures
        final(grid)@ == stamped(old(grid)@, points@, tile),
{
    let mut i: usize = 0;
    assert(points@.take(0) =~= Seq::empty());
    while i < points.len()
        invariant
            i <= points@.len(),
            grid@ == stamped(old(grid)@, points@.take(i as int), tile),
        decreases points@.len() - i,
    {
        let point = points[i];
        grid.set_tile_at(point.x, point.y, tile);
        assert(points@.take(i + 1).drop_last() =~= points@.take(i as int));
        i += 1;
    }
    assert(points@.take(points@.len() as int) =~= points@);
}

/// The first `count` of the points, or all where there are fewer.
fn leading(points: &Vec<Point>, count: usize) -> (r: Vec<Point>)
    ensures
        r@ == if count < points@.len() {
            points@.take(count as int)
        } else {
            points@
        },
{
    let mut r: Vec<Point> = Vec::new();
    let mut i: usize = 0;
    while i < points.len() && i < count
        invariant
            i <= points@.len(),
            i <= count,
            r@ == points@.take(i as int),
        decreases points@.len() - i,
    {
        r.push(points[i]);
        assert(points@.take(i + 1) =~= points@.take(i as int).push(points@[i as int]));
        i += 1;
    }
    assert(points@.take(points@.len() as int) =~= points@);
    r
}

impl MapTemplate {
    /// Checks the template. Reports the first fault found, looking at the
    /// dimensions, the spawn points, the extraction points, the positions
    /// of all points and the variation, in this order.
    pub fn validate(&self) -> (r: Result<(), TemplateError>)
        ensures
            match r {
                Ok(_) => self@.valid(),
                Err(e) => e matches TemplateError::InvalidTemplate(message) && self@.fault() matches Some(fault)
                    && message@ == fault.text(),
            },
    {
        if self.width == 0 || self.height == 0 {
            return Err(TemplateError::InvalidTemplate("Map dimensions must be greater than zero".to_owned()));
        }
        if self.spawn_points.len() == 0 {
            return Err(
                TemplateError::InvalidTemplate("Template must have at least one spawn point".to_owned()),
            );
        }
        if self.extraction_points.len() == 0 {
            return Err(
                TemplateError::InvalidTemplate("Template must have at least one extraction point".to_owned()),
            );
        }
        proof {
            let w = self.width as nat;
            let h = self.height as nat;
            let t = self@;
            lemma_first_outside_of_both(
                t.walls + t.spawn_points + t.extraction_points + t.loot_spawns,
                t.destructible_zones,
                w,
                h,
            );
            lemma_first_outside_of_both(t.walls + t.spawn_points + t.extraction_points, t.loot_spawns, w, h);
            lemma_first_outside_of_both(t.walls + t.spawn_points, t.extraction_points, w, h);
            lemma_first_outside_of_both(t.walls, t.spawn_points, w, h);
        }
        if let Some(point) = find_outside(&self.walls, self.width, self.height) {
            return Err(TemplateError::InvalidTemplate(out_of_bounds_message(point)));
        }
        if let Some(point) = find_outside(&self.spawn_points, self.width, self.height) {
            return Err(TemplateError::InvalidTemplate(out_of_bounds_message(point)));
        }
        if let Some(point) = find_outside(&self.extraction_points, self.width, self.height) {
            return Err(TemplateError::InvalidTemplate(out_of_bounds_message(point)));
        }
        if let Some(point) = find_outside(&self.loot_spawns, self.width, self.height) {
            return Err(TemplateError::InvalidTemplate(out_of_bounds_message(point)));
        }
        if let Some(point) = find_outside(&self.destructible_zones, self.width, self.height) {
            return Err(TemplateError::InvalidTemplate(out_of_bounds_message(point)));
        }
        if self.variation_percentage > FULL_VARIATION {
            return Err(
                TemplateError::InvalidTemplate("Variation percentage must be between 0.0 and 1.0".to_owned()),
            );
        }
        Ok(())
    }

    /// The number of destructible blocks to place.
    fn destructible_count(&self) -> (count: u128)
        ensures
            count == self@.destructible_count(),
    {
        let zones: u128 = self.destructible_zones.len() as u128;
        let share: u128 = self.variation_percentage as u128;
        assert(zones * share <= 0xffff_ffff_ffff_ffff * 0xffff_ffff) by (nonlinear_arith)
            requires
                0 <= zones <= 0xffff_ffff_ffff_ffff,
                0 <= share <= 0xffff_ffff,
        ;
        (zones * share + 500_000) / 1_000_000
    }

    /// Generates a grid from this template. The destructible zones are
    /// shuffled, with a generator made from `seed` if there is one and
    /// with the thread's generator otherwise, and the first of them are
    /// filled. Fails, and returns no grid, if the connectivity check fails.
    pub fn generate_grid(&self, seed: Option<u64>) -> (r: Result<Grid, TemplateError>)
        ensures
            match seed {
                Some(s) => self@.generated(seeded_shuffle(self@.destructible_zones, s), r) && seeded_shuffle(
                    self@.destructible_zones,
                    s,
                ).to_multiset() == self@.destructible_zones.to_multiset(),
                None => exists|order: Seq<Point>|
                    order.to_multiset() == self@.destructible_zones.to_multiset() && #[trigger] self@.generated(
                        order,
                        r,
                    ),
            },
    {
        let mut available_zones = leading(&self.destructible_zones, self.destructible_zones.len());
        match seed {
            Some(s) => shuffle_seeded(&mut available_zones, s),
            None => shuffle_unseeded(&mut available_zones),
        }
        self.build_grid(&available_zones)
    }

    /// Builds the grid for the destructible candidates in the order given
    /// and checks its connectivity.
    pub fn build_grid(&self, order: &Vec<Point>) -> (r: Result<Grid, TemplateError>)
        ensures
            self@.generated(order@, r),
    {
        let mut grid = Grid::new(self.width, self.height);
        stamp(&mut grid, &self.walls, Tile::Wall);
        stamp(&mut grid, &self.extraction_points, Tile::Extraction);
        stamp(&mut grid, &self.loot_spawns, Tile::Loot);
        let count = self.destructible_count();
        let chosen = if count < order.len() as u128 {
            leading(order, count as usize)
        } else {
            leading(order, order.len())
        };
        assert(chosen@ == self@.chosen(order@));
        stamp(&mut grid, &chosen, Tile::Destructible);
        assert(grid@ == self@.layout(order@));
        match self.validate_connectivity(&grid) {
            Ok(_) => Ok(grid),
            Err(e) => Err(e),
        }
    }

    /// Checks that every spawn point can reach every extraction point.
    pub fn validate_connectivity(&self, grid: &Grid) -> (r: Result<(), TemplateError>)
        ensures
            r is Ok <==> self@.connected(grid@),
            r matches Err(e) ==> self@.reports_unreachable(grid@, e),
    {
        let mut i: usize = 0;
        while i < self.spawn_points.len()
            invariant
                i <= self.spawn_points@.len(),
                forall|a: int, b: int|
                    0 <= a < i && 0 <= b < self.extraction_points@.len() ==> reachable(
                        grid@,
                        #[trigger] self.spawn_points@[a],
                        #[trigger] self.extraction_points@[b],
                    ),
            decreases self.spawn_points@.len() - i,
        {
            let spawn = self.spawn_points[i];
            let mut j: usize = 0;
            while j < self.extraction_points.len()
                invariant
                    i < self.spawn_points@.len(),
                    j <= self.extraction_points@.len(),
                    spawn == self.spawn_points@[i as int],
                    forall|a: int, b: int|
                        0 <= a < i && 0 <= b < self.extraction_points@.len() ==> reachable(
                            grid@,
                            #[trigger] self.spawn_points@[a],
                            #[trigger] self.extraction_points@[b],
                        ),
                    forall|b: int| 0 <= b < j ==> reachable(grid@, spawn, #[trigger] self.extraction_points@[b]),
                decreases self.extraction_points@.len() - j,
            {
                let extract = self.extraction_points[j];
                if !has_path(grid, spawn, extract) {
                    assert(!reachable(grid@, self@.spawn_points[i as int], self@.extraction_points[j as int]));
                    assert(!self@.connected(grid@));
                    assert(self@.first_unreachable(grid@, i as int, j as int));
                    return Err(TemplateError::ConnectivityError(unreachable_message(spawn, extract)));
                }
                j += 1;
            }
            i += 1;
        }
        Ok(())
    }

    /// Whether there is a walk from `start` to `end` over walkable tiles.
    pub fn has_path(&self, grid: &Grid, start: Point, end: Point) -> (r: bool)
        ensures
            r == reachable(grid@, start, end),
    {
        has_path(grid, start, end)
    }
}

/// Setting cells keeps the shape of the grid.
pub proof fn lemma_stamped_shape(grid: GridView, points: Seq<Point>, tile: Tile)
    requires
        grid.wf(),
    ensures
        stamped(grid, points, tile).wf(),
        stamped(grid, points, tile).width == grid.width,
        stamped(grid, points, tile).height == grid.height,
    decreases points.len(),
{
    if points.len() > 0 {
        lemma_stamped_shape(grid, points.drop_last(), tile);
        stamped(grid, points.drop_last(), tile).lemma_with_tile(
            points.last().x as int,
            points.last().y as int,
            tile,
        );
    }
}

/// After cells have been set, each of them that lies on the grid holds
/// the tile, and every other cell is as it was.
pub proof fn lemma_stamped_tiles(grid: GridView, points: Seq<Point>, tile: Tile, x: int, y: int)
    requires
        grid.wf(),
        grid.width <= usize::MAX,
        grid.height <= usize::MAX,
    ensures
        stamped(grid, points, tile).tile(x, y) == if grid.contains(x, y) && points.contains(
            Point { x: x as usize, y: y as usize },
        ) {
            Some(tile)
        } else {
            grid.tile(x, y)
        },
    decreases points.len(),
{
    if points.len() > 0 {
        let earlier = stamped(grid, points.drop_last(), tile);
        let last = points.last();
        lemma_stamped_shape(grid, points.drop_last(), tile);
        lemma_stamped_tiles(grid, points.drop_last(), tile, x, y);
        earlier.lemma_with_tile(last.x as int, last.y as int, tile);
        let p = Point { x: x as usize, y: y as usize };
        if grid.contains(x, y) {
            if points.drop_last().contains(p) {
                let k = choose|k: int| 0 <= k < points.drop_last().len() && points.drop_last()[k] == p;
                assert(points[k] == p);
            }
            if last == p {
                assert(points[points.len() - 1] == p);
            }
            if points.contains(p) {
                let k = choose|k: int| 0 <= k < points.len() && points[k] == p;
                if k < points.len() - 1 {
                    assert(points.drop_last()[k] == p);
                }
            }
        }
    }
}

/// What validity means, condition by condition: both dimensions are
/// positive, there is a spawn point and an extraction point, every point
/// that the template places lies on the map, and the variation is at most
/// the whole.
pub proof fn lemma_valid_template(template: TemplateView)
    ensures
        template.valid() <==> {
            &&& template.width > 0
            &&& template.height > 0
            &&& template.spawn_points.len() > 0
            &&& template.extraction_points.len() > 0
            &&& all_inside(template.walls, template.width, template.height)
            &&& all_inside(template.spawn_points, template.width, template.height)
            &&& all_inside(template.extraction_points, template.width, template.height)
            &&& all_inside(template.loot_spawns, template.width, template.height)
            &&& all_inside(template.destructible_zones, template.width, template.height)
            &&& template.variation_percentage <= FULL_VARIATION
        },
{
    let w = template.width;
    let h = template.height;
    lemma_first_outside_of_both(
        template.walls + template.spawn_points + template.extraction_points + template.loot_spawns,
        template.destructible_zones,
        w,
        h,
    );
    lemma_first_outside_of_both(
        template.walls + template.spawn_points + template.extraction_points,
        template.loot_spawns,
        w,
        h,
    );
    lemma_first_outside_of_both(template.walls + template.spawn_points, template.extraction_points, w, h);
    lemma_first_outside_of_both(template.walls, template.spawn_points, w, h);
    lemma_none_outside(template.walls, w, h);
    lemma_none_outside(template.spawn_points, w, h);
    lemma_none_outside(template.extraction_points, w, h);
    lemma_none_outside(template.loot_spawns, w, h);
    lemma_none_outside(template.destructible_zones, w, h);
}

/// Destructible blocks stand on destructible zones only: where the
/// candidates are drawn in an order that rearranges the destructible
/// zones, every destructible block of the layout lies on one of them.
pub proof fn lemma_blocks_stand_on_zones(template: TemplateView, order: Seq<Point>, x: int, y: int)
    requires
        template.width <= usize::MAX,
        template.height <= usize::MAX,
        order.to_multiset() == template.destructible_zones.to_multiset(),
        template.layout(order).tile(x, y) == Some(Tile::Destructible),
    ensures
        template.destructible_zones.contains(Point { x: x as usize, y: y as usize }),
{
    broadcast use vstd::seq_lib::group_to_multiset_ensures;

    let floor = GridView::filled(template.width, template.height, Tile::Floor);
    let walled = stamped(floor, template.walls, Tile::Wall);
    let marked = stamped(walled, template.extraction_points, Tile::Extraction);
    let looted = stamped(marked, template.loot_spawns, Tile::Loot);
    lemma_stamped_shape(floor, template.walls, Tile::Wall);
    lemma_stamped_shape(walled, template.extraction_points, Tile::Extraction);
    lemma_stamped_shape(marked, template.loot_spawns, Tile::Loot);
    lemma_stamped_tiles(floor, template.walls, Tile::Wall, x, y);
    lemma_stamped_tiles(walled, template.extraction_points, Tile::Extraction, x, y);
    lemma_stamped_tiles(marked, template.loot_spawns, Tile::Loot, x, y);
    lemma_stamped_tiles(looted, template.chosen(order), Tile::Destructible, x, y);
    let p = Point { x: x as usize, y: y as usize };
    assert(template.chosen(order).contains(p));
    let k = choose|k: int| 0 <= k < template.chosen(order).len() && template.chosen(order)[k] == p;
    assert(order[k] == p);
    assert(order.contains(p));
    assert(order.to_multiset().count(p) > 0);
    assert(template.destructible_zones.to_multiset().count(p) > 0);
}

/// The destructible blocks of a layout are the chosen candidates: a cell
/// of the map holds a destructible block exactly if it is among them.
pub proof fn lemma_blocks_are_the_chosen(template: TemplateView, order: Seq<Point>, x: int, y: int)
    requires
        template.width <= usize::MAX,
        template.height <= usize::MAX,
        0 <= x < template.width,
        0 <= y < template.height,
    ensures
        template.layout(order).tile(x, y) == Some(Tile::Destructible) <==> template.chosen(order).contains(
            Point { x: x as usize, y: y as usize },
        ),
{
    let floor = GridView::filled(template.width, template.height, Tile::Floor);
    let walled = stamped(floor, template.walls, Tile::Wall);
    let marked = stamped(walled, template.extraction_points, Tile::Extraction);
    let looted = stamped(marked, template.loot_spawns, Tile::Loot);
    lemma_stamped_shape(floor, template.walls, Tile::Wall);
    lemma_stamped_shape(walled, template.extraction_points, Tile::Extraction);
    lemma_stamped_shape(marked, template.loot_spawns, Tile::Loot);
    lemma_stamped_tiles(floor, template.walls, Tile::Wall, x, y);
    lemma_stamped_tiles(walled, template.extraction_points, Tile::Extraction, x, y);
    lemma_stamped_tiles(marked, template.loot_spawns, Tile::Loot, x, y);
    lemma_stamped_tiles(looted, template.chosen(order), Tile::Destructible, x, y);
}

/// Whatever the order in which the candidates are drawn, the layout is the
/// same on every cell that is no destructible zone: two seeds can differ
/// on the destructible zones only.
pub proof fn lemma_orders_agree_off_the_zones(
    template: TemplateView,
    first: Seq<Point>,
    second: Seq<Point>,
    x: int,
    y: int,
)
    requires
        template.width <= usize::MAX,
        template.height <= usize::MAX,
        first.to_multiset() == template.destructible_zones.to_multiset(),
        second.to_multiset() == template.destructible_zones.to_multiset(),
        !template.destructible_zones.contains(Point { x: x as usize, y: y as usize }),
    ensures
        template.layout(first).tile(x, y) == template.layout(second).tile(x, y),
        template.layout(first).width == template.layout(second).width,
        template.layout(first).height == template.layout(second).height,
{
    broadcast use vstd::seq_lib::group_to_multiset_ensures;

    let floor = GridView::filled(template.width, template.height, Tile::Floor);
    let walled = stamped(floor, template.walls, Tile::Wall);
    let marked = stamped(walled, template.extraction_points, Tile::Extraction);
    let looted = stamped(marked, template.loot_spawns, Tile::Loot);
    lemma_stamped_shape(floor, template.walls, Tile::Wall);
    lemma_stamped_shape(walled, template.extraction_points, Tile::Extraction);
    lemma_stamped_shape(marked, template.loot_spawns, Tile::Loot);
    lemma_layout_shape(template, first);
    lemma_layout_shape(template, second);
    lemma_stamped_tiles(looted, template.chosen(first), Tile::Destructible, x, y);
    lemma_stamped_tiles(looted, template.chosen(second), Tile::Destructible, x, y);
    let p = Point { x: x as usize, y: y as usize };
    if template.chosen(first).contains(p) {
        let k = choose|k: int| 0 <= k < template.chosen(first).len() && template.chosen(first)[k] == p;
        assert(first[k] == p);
        assert(first.to_multiset().count(p) > 0);
    }
    if template.chosen(second).contains(p) {
        let k = choose|k: int| 0 <= k < template.chosen(second).len() && template.chosen(second)[k] == p;
        assert(second[k] == p);
        assert(second.to_multiset().count(p) > 0);
    }
}

/// Whatever the order in which the candidates are drawn, equally many of
/// them are chosen: the rounded share of the zones, or all of them. Where
/// no zone is named twice, no candidate is chosen twice, so that two
/// seeds give equally many destructible blocks.
pub proof fn lemma_orders_choose_equally_many(template: TemplateView, first: Seq<Point>, second: Seq<Point>)
    requires
        first.to_multiset() == template.destructible_zones.to_multiset(),
        second.to_multiset() == template.destructible_zones.to_multiset(),
    ensures
        template.chosen(first).len() == template.chosen(second).len(),
        template.chosen(first).len() == if template.destructible_count() < template.destructible_zones.len() {
            template.destructible_count()
        } else {
            template.destructible_zones.len()
        },
        template.destructible_zones.no_duplicates() ==> template.chosen(first).no_duplicates()
            && template.chosen(second).no_duplicates(),
{
    broadcast use vstd::seq_lib::group_to_multiset_ensures;

    assert(first.len() == first.to_multiset().len());
    assert(second.len() == second.to_multiset().len());
    assert(template.destructible_zones.len() == template.destructible_zones.to_multiset().len());
    if template.destructible_zones.no_duplicates() {
        template.destructible_zones.lemma_multiset_has_no_duplicates();
        first.lemma_multiset_has_no_duplicates_conv();
        second.lemma_multiset_has_no_duplicates_conv();
        assert forall|i: int, j: int|
            0 <= i < template.chosen(first).len() && 0 <= j < template.chosen(first).len() && i
                != j implies template.chosen(first)[i] != template.chosen(first)[j] by {
            assert(template.chosen(first)[i] == first[i] && template.chosen(first)[j] == first[j]);
        }
        assert forall|i: int, j: int|
            0 <= i < template.chosen(second).len() && 0 <= j < template.chosen(second).len() && i
                != j implies template.chosen(second)[i] != template.chosen(second)[j] by {
            assert(template.chosen(second)[i] == second[i] && template.chosen(second)[j] == second[j]);
        }
    }
}

/// The layout of a template has the template's dimensions.
pub proof fn lemma_layout_shape(template: TemplateView, order: Seq<Point>)
    ensures
        template.layout(order).wf(),
        template.layout(order).width == template.width,
        template.layout(order).height == template.height,
{
    let floor = GridView::filled(template.width, template.height, Tile::Floor);
    let walled = stamped(floor, template.walls, Tile::Wall);
    let marked = stamped(walled, template.extraction_points, Tile::Extraction);
    let looted = stamped(marked, template.loot_spawns, Tile::Loot);
    lemma_stamped_shape(floor, template.walls, Tile::Wall);
    lemma_stamped_shape(walled, template.extraction_points, Tile::Extraction);
    lemma_stamped_shape(marked, template.loot_spawns, Tile::Loot);
    lemma_stamped_shape(looted, template.chosen(order), Tile::Destructible);
}

/// Generation is a function of the template and the order of the
/// candidates: two results for the same order agree on success, and on
/// success they are the same grid, tile for tile.
pub proof fn lemma_generation_is_deterministic(
    template: TemplateView,
    order: Seq<Point>,
    first: Result<Grid, TemplateError>,
    second: Result<Grid, TemplateError>,
)
    requires
        template.generated(order, first),
        template.generated(order, second),
    ensures
        first is Ok <==> second is Ok,
        first is Ok ==> first->Ok_0@ == second->Ok_0@,
        first is Err ==> first->Err_0 is ConnectivityError && second->Err_0 is ConnectivityError,
{
    if first is Ok {
        if second is Err {
            let (i, j) = choose|i: int, j: int| #[trigger] template.first_unreachable(template.layout(order), i, j);
        }
    } else if second is Ok {
        let (i, j) = choose|i: int, j: int| #[trigger] template.first_unreachable(template.layout(order), i, j);
    }
}

/// With one seed, generation gives one grid: two results of generating
/// from the same template with the same seed agree on success, and on
/// success they are the same grid, tile for tile.
pub proof fn lemma_same_seed_same_grid(
    template: TemplateView,
    seed: u64,
    first: Result<Grid, TemplateError>,
    second: Result<Grid, TemplateError>,
)
    requires
        template.generated(seeded_shuffle(template.destructible_zones, seed), first),
        template.generated(seeded_shuffle(template.destructible_zones, seed), second),
    ensures
        first is Ok <==> second is Ok,
        first is Ok ==> first->Ok_0@ == second->Ok_0@,
{
    lemma_generation_is_deterministic(
        template,
        seeded_shuffle(template.destructible_zones, seed),
        first,
        second,
    );
}

/// A grid that generation returns is connected: every extraction point
/// can be reached from every spawn point.
pub proof fn lemma_generated_grid_is_connected(template: TemplateView, order: Seq<Point>, grid: Grid, i: int, j: int)
    requires
        template.generated(order, Ok(grid)),
        0 <= i < template.spawn_points.len(),
        0 <= j < template.extraction_points.len(),
    ensures
        reachable(grid@, template.spawn_points[i], template.extraction_points[j]),
{
}

/// Where the layout separates a spawn point from an extraction point, by
/// a region around the spawn point that no step leaves and that does not
/// hold the extraction point, generation fails with a connectivity error:
/// it returns no grid.
pub proof fn lemma_separation_fails_generation(
    template: TemplateView,
    order: Seq<Point>,
    region: Set<Point>,
    i: int,
    j: int,
    result: Result<Grid, TemplateError>,
)
    requires
        0 <= i < template.spawn_points.len(),
        0 <= j < template.extraction_points.len(),
        closed_under_steps(template.layout(order), region),
        region.contains(template.spawn_points[i]),
        !region.contains(template.extraction_points[j]),
        template.generated(order, result),
    ensures
        result is Err,
        result->Err_0 is ConnectivityError,
{
    lemma_separated(template.layout(order), region, template.spawn_points[i], template.extraction_points[j]);
}

} // verus!
