//! Players: position, health, bomb inventory, and the rules for moving,
//! taking damage and placing bombs.

use vstd::prelude::*;
use crate::map_system::{Grid, GridView};

verus! {

/// Health of a freshly spawned player, and the most a player can have.
pub const MAX_HEALTH: i32 = 100;

/// Bombs in the inventory of a freshly spawned player.
pub const STARTING_BOMBS: u32 = 1;

/// Cardinal directions for grid-based movement. North is towards row 0.
#[derive(Debug, Clone, Copy, PartialEq, Eq, Structural)]
pub enum Direction {
    North,
    South,
    East,
    West,
}

impl Direction {
    /// The cell one step from `(x, y)` in this direction, in mathematical
    /// coordinates: it may be negative or beyond any grid.
    pub open spec fn offset(self, x: int, y: int) -> (int, int) {
        match self {
            Direction::North => (x, y - 1),
            Direction::South => (x, y + 1),
            Direction::East => (x + 1, y),
            Direction::West => (x - 1, y),
        }
    }

    /// The result of `apply`: the neighbouring cell, or `None` where a
    /// coordinate would become negative.
    pub open spec fn applied(self, x: usize, y: usize) -> Option<(usize, usize)> {
        let (nx, ny) = self.offset(x as int, y as int);
        if nx >= 0 && ny >= 0 {
            Some((nx as usize, ny as usize))
        } else {
            None
        }
    }

    /// Applies the direction to coordinates. Returns `None` if the step
    /// would leave the unsigned range at zero. The upper end is the
    /// caller's to watch: a step east or south from the largest coordinate
    /// is not allowed.
    pub fn apply(&self, x: usize, y: usize) -> (r: Option<(usize, usize)>)
        requires
            self.offset(x as int, y as int).0 <= usize::MAX,
            self.offset(x as int, y as int).1 <= usize::MAX,
        ensures
            r == self.applied(x, y),
    {
        match self {
            Direction::North => {
                if y > 0 {
                    Some((x, y - 1))
                } else {
                    None
                }
            },
            Direction::South => Some((x, y + 1)),
            Direction::East => Some((x + 1, y)),
            Direction::West => {
                if x > 0 {
                    Some((x - 1, y))
                } else {
                    None
                }
            },
        }
    }
}

/// A cell of the grid: the location of a player or a bomb.
#[derive(Debug, Clone, Copy, PartialEq, Eq, Structural)]
pub struct Position {
    pub x: usize,
    pub y: usize,
}

impl Position {
    pub fn new(x: usize, y: usize) -> (p: Position)
        ensures
            p == (Position { x, y }),
    {
        Position { x, y }
    }

    /// The result of `step`: the neighbouring position, or `None` where a
    /// coordinate would become negative.
    pub open spec fn stepped(self, direction: Direction) -> Option<Position> {
        match direction.applied(self.x, self.y) {
            Some((x, y)) => Some(Position { x, y }),
            None => None,
        }
    }

    /// Takes one step in a direction. Returns `None` if the step would
    /// leave the unsigned range at zero; the upper end is not checked here
    /// and must not be crossed.
    pub fn step(&self, direction: Direction) -> (r: Option<Position>)
        requires
            direction.offset(self.x as int, self.y as int).0 <= usize::MAX,
            direction.offset(self.x as int, self.y as int).1 <= usize::MAX,
        ensures
            r == self.stepped(direction),
    {
        match direction.apply(self.x, self.y) {
            Some((x, y)) => Some(Position { x, y }),
            None => None,
        }
    }
}

/// Why a move was rejected.
#[derive(Debug, Clone, Copy, PartialEq, Eq, Structural)]
pub enum MoveError {
    PlayerDead,
    OutOfBounds,
    TileBlocked,
}

impl MoveError {
    /// The text of the rejection, as `message` returns it.
    pub open spec fn text(self) -> Seq<char> {
        match self {
            MoveError::PlayerDead => "Player is dead"@,
            MoveError::OutOfBounds => "Movement would go out of bounds"@,
            MoveError::TileBlocked => "Target tile is blocked"@,
        }
    }

    /// A short human-readable reason for the rejection.
    pub fn message(&self) -> (s: String)
        ensures
            s@ == self.text(),
    {
        match self {
            MoveError::PlayerDead => "Player is dead".to_owned(),
            MoveError::OutOfBounds => "Movement would go out of bounds".to_owned(),
            MoveError::TileBlocked => "Target tile is blocked".to_owned(),
        }
    }
}

/// Why a bomb placement was rejected.
#[derive(Debug, Clone, Copy, PartialEq, Eq, Structural)]
pub enum BombPlacementError {
    PlayerDead,
    NoBombsRemaining,
    CooldownNotElapsed,
    TileOccupied,
}

impl BombPlacementError {
    /// The text of the rejection, as `message` returns it.
    pub open spec fn text(self) -> Seq<char> {
        match self {
            BombPlacementError::PlayerDead => "Player is dead"@,
            BombPlacementError::NoBombsRemaining => "No bombs remaining in inventory"@,
            BombPlacementError::CooldownNotElapsed => "Cooldown not elapsed"@,
            BombPlacementError::TileOccupied => "Tile already has a bomb"@,
        }
    }

    /// A short human-readable reason for the rejection.
    pub fn message(&self) -> (s: String)
        ensures
            s@ == self.text(),
    {
        match self {
            BombPlacementError::PlayerDead => "Player is dead".to_owned(),
            BombPlacementError::NoBombsRemaining => "No bombs remaining in inventory".to_owned(),
            BombPlacementError::CooldownNotElapsed => "Cooldown not elapsed".to_owned(),
            BombPlacementError::TileOccupied => "Tile already has a bomb".to_owned(),
        }
    }
}

/// A player in a match.
#[derive(Debug, Clone, Copy, PartialEq, Eq, Structural)]
pub struct Player {
    pub id: u128,
    pub position: Position,
    pub health: i32,
    pub is_alive: bool,
    /// Sequence number of the last command that changed this player.
    pub last_processed_sequence: u64,
    /// Number of bombs remaining in inventory.
    pub bombs_remaining: u32,
    /// Tick at which the player last placed a bomb; 0 means never.
    pub last_bomb_placement_tick: u64,
}

impl Player {
    /// The state that the rules keep a player in: health between 0 and the
    /// maximum, and alive exactly while health is positive.
    pub open spec fn valid(self) -> bool {
        &&& 0 <= self.health <= MAX_HEALTH
        &&& self.is_alive <==> self.health > 0
    }

    /// What a move in `direction` on `grid` comes to: the new position, or
    /// the reason for which the move is rejected.
    pub open spec fn move_outcome(self, direction: Direction, grid: GridView) -> Result<Position, MoveError> {
        let (nx, ny) = direction.offset(self.position.x as int, self.position.y as int);
        if !self.is_alive {
            Err(MoveError::PlayerDead)
        } else if !grid.contains(nx, ny) {
            Err(MoveError::OutOfBounds)
        } else if !grid.walkable(nx, ny) {
            Err(MoveError::TileBlocked)
        } else {
            Ok(Position { x: nx as usize, y: ny as usize })
        }
    }

    /// The player after a move attempt: at the new position if the move
    /// is legal, unchanged otherwise.
    pub open spec fn after_move(self, direction: Direction, grid: GridView) -> Player {
        match self.move_outcome(direction, grid) {
            Ok(position) => Player { position, ..self },
            Err(_) => self,
        }
    }

    /// The player after taking `amount` damage. A dead player is unchanged,
    /// and so is any player by an amount that is not positive: damage
    /// never heals. A living player loses a positive `amount` of health
    /// and dies, with health 0, if that leaves none.
    pub open spec fn after_damage(self, amount: int) -> Player {
        if !self.is_alive || amount <= 0 {
            self
        } else if self.health - amount <= 0 {
            Player { health: 0, is_alive: false, ..self }
        } else {
            Player { health: (self.health - amount) as i32, ..self }
        }
    }

    /// Whether the player may place a bomb at `current_tick`: alive, with a
    /// bomb in the inventory, and either never having placed one or at
    /// least `cooldown_ticks` after the last placement.
    pub open spec fn may_place_bomb(self, current_tick: u64, cooldown_ticks: u64) -> bool {
        &&& self.is_alive
        &&& self.bombs_remaining > 0
        &&& (self.last_bomb_placement_tick == 0 || ticks_since(current_tick, self.last_bomb_placement_tick)
            >= cooldown_ticks)
    }

    /// What taking a bomb from the inventory comes to.
    pub open spec fn bomb_outcome(self) -> Result<(), BombPlacementError> {
        if !self.is_alive {
            Err(BombPlacementError::PlayerDead)
        } else if self.bombs_remaining == 0 {
            Err(BombPlacementError::NoBombsRemaining)
        } else {
            Ok(())
        }
    }

    /// The player after `place_bomb` at `current_tick`.
    pub open spec fn after_bomb(self, current_tick: u64) -> Player {
        if self.bomb_outcome() is Ok {
            Player {
                bombs_remaining: (self.bombs_remaining - 1) as u32,
                last_bomb_placement_tick: current_tick,
                ..self
            }
        } else {
            self
        }
    }

    /// A player as it joins: at full health at the spawn position, with
    /// the starting inventory and no command processed yet.
    pub open spec fn spawned(id: u128, spawn_position: Position) -> Player {
        Player {
            id,
            position: spawn_position,
            health: MAX_HEALTH,
            is_alive: true,
            last_processed_sequence: 0,
            bombs_remaining: STARTING_BOMBS,
            last_bomb_placement_tick: 0,
        }
    }

    /// Creates a player at the spawn position.
    pub fn new(id: u128, spawn_position: Position) -> (p: Player)
        ensures
            p == Player::spawned(id, spawn_position),
            p.valid(),
    {
        Player {
            id,
            position: spawn_position,
            health: MAX_HEALTH,
            is_alive: true,
            last_processed_sequence: 0,
            bombs_remaining: STARTING_BOMBS,
            last_bomb_placement_tick: 0,
        }
    }

    /// The destination of a step from the current position, if it lies
    /// inside the grid.
    fn destination(&self, direction: Direction, grid: &Grid) -> (r: Option<Position>)
        ensures
            ({
                let (nx, ny) = direction.offset(self.position.x as int, self.position.y as int);
                match r {
                    Some(p) => grid@.contains(nx, ny) && p.x == nx && p.y == ny,
                    None => !grid@.contains(nx, ny),
                }
            }),
    {
        proof {
            use_type_invariant(grid);
            grid.lemma_view_wf();
        }
        let x = self.position.x;
        let y = self.position.y;
        let leaves_range = match direction {
            Direction::South => y == usize::MAX,
            Direction::East => x == usize::MAX,
            Direction::North | Direction::West => false,
        };
        if leaves_range {
            return None;
        }
        match self.position.step(direction) {
            Some(new_pos) => if grid.in_bounds(new_pos.x, new_pos.y) {
                Some(new_pos)
            } else {
                None
            },
            None => None,
        }
    }

    /// Checks whether the player could move in the given direction, without
    /// changing anything.
    pub fn can_move(&self, direction: Direction, grid: &Grid) -> (r: bool)
        ensures
            r == self.move_outcome(direction, grid@) is Ok,
    {
        if !self.is_alive {
            return false;
        }
        match self.destination(direction, grid) {
            Some(new_pos) => grid.is_walkable(new_pos.x, new_pos.y),
            None => false,
        }
    }

    /// Attempts to move the player one step. On success the position
    /// changes and is returned; on failure nothing changes.
    pub fn try_move(&mut self, direction: Direction, grid: &Grid) -> (r: Result<Position, MoveError>)
        ensures
            r == old(self).move_outcome(direction, grid@),
            *final(self) == old(self).after_move(direction, grid@),
            r is Ok <==> old(self).is_alive && grid@.walkable(
                direction.offset(old(self).position.x as int, old(self).position.y as int).0,
                direction.offset(old(self).position.x as int, old(self).position.y as int).1,
            ),
    {
        if !self.is_alive {
            return Err(MoveError::PlayerDead);
        }
        let new_pos = match self.destination(direction, grid) {
            Some(new_pos) => new_pos,
            None => {
                return Err(MoveError::OutOfBounds);
            },
        };
        if !grid.is_walkable(new_pos.x, new_pos.y) {
            return Err(MoveError::TileBlocked);
        }
        self.position = new_pos;
        Ok(new_pos)
    }

    /// Takes damage and dies when no health is left. A dead player is not
    /// changed, and an amount that is not positive changes nothing. Health
    /// never rises, and a valid player stays valid: with health between 0
    /// and the maximum.
    pub fn take_damage(&mut self, amount: i32)
        ensures
            *final(self) == old(self).after_damage(amount as int),
            old(self).health >= 0 ==> 0 <= final(self).health <= old(self).health,
            old(self).valid() ==> final(self).valid(),
    {
        if !self.is_alive || amount <= 0 {
            return ;
        }
        if self.health <= amount {
            self.health = 0;
            self.is_alive = false;
        } else {
            self.health = self.health - amount;
        }
    }

    /// Checks whether the player can place a bomb at the current tick.
    pub fn can_place_bomb(&self, current_tick: u64, cooldown_ticks: u64) -> (r: bool)
        ensures
            r == self.may_place_bomb(current_tick, cooldown_ticks),
    {
        if !self.is_alive {
            return false;
        }
        if self.bombs_remaining == 0 {
            return false;
        }
        if self.last_bomb_placement_tick == 0 {
            return true;
        }
        let ticks_since_last_placement = current_tick.saturating_sub(self.last_bomb_placement_tick);
        ticks_since_last_placement >= cooldown_ticks
    }

    /// Takes one bomb from the inventory and records the tick. Does not
    /// check the cooldown.
    pub fn place_bomb(&mut self, current_tick: u64) -> (r: Result<(), BombPlacementError>)
        ensures
            r == old(self).bomb_outcome(),
            *final(self) == old(self).after_bomb(current_tick),
    {
        if !self.is_alive {
            return Err(BombPlacementError::PlayerDead);
        }
        if self.bombs_remaining == 0 {
            return Err(BombPlacementError::NoBombsRemaining);
        }
        self.bombs_remaining = self.bombs_remaining - 1;
        self.last_bomb_placement_tick = current_tick;
        Ok(())
    }
}

/// Ticks elapsed at `current_tick` since `earlier_tick`; 0 if the clock is
/// behind it.
pub open spec fn ticks_since(current_tick: u64, earlier_tick: u64) -> u64 {
    if current_tick >= earlier_tick {
        (current_tick - earlier_tick) as u64
    } else {
        0
    }
}

/// A move succeeds if and only if the player is alive and the destination
/// is a cell of the grid that can be walked on; then, and only then, the
/// position changes, to that cell.
pub proof fn lemma_move_legality(player: Player, direction: Direction, grid: GridView)
    ensures
        ({
            let (nx, ny) = direction.offset(player.position.x as int, player.position.y as int);
            let legal = player.is_alive && grid.walkable(nx, ny);
            &&& player.move_outcome(direction, grid) is Ok <==> legal
            &&& legal ==> player.move_outcome(direction, grid) == Ok::<Position, MoveError>(
                Position { x: nx as usize, y: ny as usize },
            )
            &&& legal ==> player.after_move(direction, grid).position == (Position {
                x: nx as usize,
                y: ny as usize,
            })
            &&& !legal ==> player.after_move(direction, grid) == player
        }),
{
}

/// A step north from row 0, or west from column 0, is rejected as out of
/// bounds for every living player, whatever the grid.
pub proof fn lemma_boundary_underflow(player: Player, direction: Direction, grid: GridView)
    requires
        player.is_alive,
        (direction == Direction::North && player.position.y == 0) || (direction == Direction::West
            && player.position.x == 0),
    ensures
        player.move_outcome(direction, grid) == Err::<Position, MoveError>(MoveError::OutOfBounds),
        player.after_move(direction, grid) == player,
{
}

/// Damage of any amount, positive or not, never raises the health of a
/// valid player, and keeps the player valid: with health between 0 and
/// the maximum, and dead exactly when no health is left.
pub proof fn lemma_damage_monotonic(player: Player, amount: int)
    requires
        player.valid(),
    ensures
        player.after_damage(amount).health <= player.health,
        0 <= player.after_damage(amount).health <= MAX_HEALTH,
        player.after_damage(amount).valid(),
        !player.after_damage(amount).is_alive ==> player.after_damage(amount).health == 0,
        amount <= 0 ==> player.after_damage(amount) == player,
{
}

/// Death is final. Damage of any amount leaves a dead player exactly as
/// it was, and a player whom damage has killed is dead with health 0
/// whatever damage follows.
pub proof fn lemma_death_is_final(player: Player, amount: int, more: int)
    ensures
        !player.is_alive ==> player.after_damage(amount) == player,
        player.is_alive && !player.after_damage(amount).is_alive ==> {
            &&& player.after_damage(amount).health == 0
            &&& player.after_damage(amount).after_damage(more) == player.after_damage(amount)
        },
{
}

} // verus!
