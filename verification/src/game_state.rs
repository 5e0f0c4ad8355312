//! The state of one match: grid, players, bombs, clock and the events of
//! the current tick, with the rules that change them.

use vstd::prelude::*;
use crate::blast::{blast_tiles, calculate_blast, destroyed_tiles};
use crate::detonation::{
    clear_destroyed, damage_players, detonate, detonate_all, is_armed, is_due, ticked_bombs, trigger_chain,
    Aftermath,
};
use crate::ids::{distinct, first_index, fresh_id, is_random_id, lemma_first_index, lemma_first_index_is};
use crate::map_system::{Grid, GridView};
use crate::player::{ticks_since, BombPlacementError, Direction, MoveError, Player, Position};
use crate::protocol::{BombState, PlayerState};

verus! {

/// Ticks between two bomb placements of one player: one second at 50 ms
/// per tick.
pub const BOMB_COOLDOWN_TICKS: u64 = 20;

/// Fuse of a placed bomb: three seconds at 50 ms per tick.
pub const BOMB_FUSE_TICKS: u32 = 60;

/// Blast range of a placed bomb, in tiles per direction.
pub const BOMB_RANGE: u32 = 2;

/// Damage that a blast does to a player in it: a kill at full health.
pub const BOMB_DAMAGE: i32 = 100;

/// Configuration for a match.
#[derive(Debug, Clone, Copy, PartialEq, Eq, Structural)]
pub struct MatchConfig {
    /// Match duration in milliseconds.
    pub duration_ms: u64,
    /// Length of one tick in milliseconds.
    pub tick_rate_ms: u64,
}

impl Default for MatchConfig {
    /// Five minutes at 20 ticks per second.
    fn default() -> (config: MatchConfig)
        ensures
            config == (MatchConfig { duration_ms: 300_000, tick_rate_ms: 50 }),
    {
        MatchConfig { duration_ms: 300_000, tick_rate_ms: 50 }
    }
}

/// A detonation of this tick: bomb id, position, blast tiles, destroyed tiles.
pub type DetonationEvent = (u128, Position, Vec<Position>, Vec<Position>);

/// Damage done in this tick: player id, damage amount, new health, killer id.
pub type DamageEvent = (u128, i32, i32, Option<u128>);

/// A death of this tick: player id, killer id, position at death.
pub type DeathEvent = (u128, Option<u128>, Position);

/// The model of a detonation event.
pub struct Detonation {
    pub bomb_id: u128,
    pub position: Position,
    pub blast_tiles: Seq<Position>,
    pub destroyed_tiles: Seq<Position>,
}

/// The detonation that an event records.
pub open spec fn detonation_of(event: DetonationEvent) -> Detonation {
    Detonation { bomb_id: event.0, position: event.1, blast_tiles: event.2@, destroyed_tiles: event.3@ }
}

/// A bomb on the grid.
#[derive(Debug, Clone, Copy, PartialEq, Eq, Structural)]
pub struct Bomb {
    pub id: u128,
    pub position: Position,
    pub owner_id: u128,
    /// Ticks remaining until detonation.
    pub ticks_remaining: u32,
    /// Blast range in tiles.
    pub range: u32,
}

impl Bomb {
    /// The bomb one tick later: the fuse is one shorter, unless it has run out.
    pub open spec fn ticked(self) -> Bomb {
        if self.ticks_remaining > 0 {
            Bomb { ticks_remaining: (self.ticks_remaining - 1) as u32, ..self }
        } else {
            self
        }
    }

    /// The bomb with its fuse run out.
    pub open spec fn triggered(self) -> Bomb {
        Bomb { ticks_remaining: 0, ..self }
    }

    /// A bomb with a new random identifier.
    pub fn new(owner_id: u128, position: Position, fuse_ticks: u32, range: u32) -> (bomb: Bomb)
        ensures
            bomb == (Bomb { id: bomb.id, position, owner_id, ticks_remaining: fuse_ticks, range }),
            is_random_id(bomb.id),
    {
        let id = fresh_id();
        Bomb::with_id(id, owner_id, position, fuse_ticks, range)
    }

    /// A bomb with the given identifier.
    pub fn with_id(id: u128, owner_id: u128, position: Position, fuse_ticks: u32, range: u32) -> (bomb: Bomb)
        ensures
            bomb == (Bomb { id, position, owner_id, ticks_remaining: fuse_ticks, range }),
    {
        Bomb { id, position, owner_id, ticks_remaining: fuse_ticks, range }
    }

    /// The time shown for a fuse: ticks times tick length, cut to 32 bits.
    pub open spec fn shown_timer_ms(self, tick_rate_ms: u64) -> u32 {
        ((self.ticks_remaining * tick_rate_ms) % 0x1_0000_0000) as u32
    }

    /// Returns the time remaining in milliseconds, cut to 32 bits. The
    /// product of ticks and tick length must fit 64 bits.
    pub fn timer_ms(&self, tick_rate_ms: u64) -> (ms: u32)
        requires
            self.ticks_remaining * tick_rate_ms <= u64::MAX,
        ensures
            ms == self.shown_timer_ms(tick_rate_ms),
    {
        let product: u64 = self.ticks_remaining as u64 * tick_rate_ms;
        (product % 0x1_0000_0000) as u32
    }
}

/// The identifiers of a sequence of players, in order.
pub open spec fn player_ids(players: Seq<Player>) -> Seq<u128> {
    players.map_values(|p: Player| p.id)
}

/// The identifiers of a sequence of bombs, in order.
pub open spec fn bomb_ids(bombs: Seq<Bomb>) -> Seq<u128> {
    bombs.map_values(|b: Bomb| b.id)
}

/// The positions of a sequence of bombs, in order.
pub open spec fn bomb_positions(bombs: Seq<Bomb>) -> Seq<Position> {
    bombs.map_values(|b: Bomb| b.position)
}

/// Game state for a single match. Players and bombs are kept in the order
/// in which they came in.
#[derive(Debug)]
pub struct GameState {
    pub match_id: u128,
    /// Current tick number.
    pub tick: u64,
    pub grid: Grid,
    pub players: Vec<Player>,
    /// Active bombs.
    pub bombs: Vec<Bomb>,
    pub config: MatchConfig,
    /// Remaining time in milliseconds.
    pub time_remaining_ms: u64,
    /// Whether the match is active. Once false, it stays false.
    pub is_active: bool,
    /// Detonations of the current tick.
    pub pending_detonations: Vec<DetonationEvent>,
    /// Damage done in the current tick.
    pub pending_damage_events: Vec<DamageEvent>,
    /// Deaths of the current tick.
    pub pending_death_events: Vec<DeathEvent>,
}

/// The mathematical model of a match.
pub struct MatchModel {
    pub match_id: u128,
    pub tick: u64,
    pub grid: GridView,
    pub players: Seq<Player>,
    pub bombs: Seq<Bomb>,
    pub config: MatchConfig,
    pub time_remaining_ms: u64,
    pub is_active: bool,
    pub detonations: Seq<Detonation>,
    pub damage_events: Seq<DamageEvent>,
    pub death_events: Seq<DeathEvent>,
}

impl View for GameState {
    type V = MatchModel;

    open spec fn view(&self) -> MatchModel {
        MatchModel {
            match_id: self.match_id,
            tick: self.tick,
            grid: self.grid@,
            players: self.players@,
            bombs: self.bombs@,
            config: self.config,
            time_remaining_ms: self.time_remaining_ms,
            is_active: self.is_active,
            detonations: self.pending_detonations@.map_values(|e: DetonationEvent| detonation_of(e)),
            damage_events: self.pending_damage_events@,
            death_events: self.pending_death_events@,
        }
    }
}

impl MatchModel {
    /// A match at tick 0 on the given grid, with the whole duration left
    /// and nobody in it.
    pub open spec fn initial(match_id: u128, grid: GridView, config: MatchConfig) -> MatchModel {
        MatchModel {
            match_id,
            tick: 0,
            grid,
            players: Seq::empty(),
            bombs: Seq::empty(),
            config,
            time_remaining_ms: config.duration_ms,
            is_active: true,
            detonations: Seq::empty(),
            damage_events: Seq::empty(),
            death_events: Seq::empty(),
        }
    }

    /// The place of the player with this identifier, if it is in the match.
    pub open spec fn player_slot(self, player_id: u128) -> Option<int> {
        first_index(player_ids(self.players), player_id)
    }

    /// The place of the bomb with this identifier, if it is active.
    pub open spec fn bomb_slot(self, bomb_id: u128) -> Option<int> {
        first_index(bomb_ids(self.bombs), bomb_id)
    }

    /// What a request to join comes to: accepted, or rejected with a reason.
    pub open spec fn join_outcome(self, player_id: u128, spawn_position: Position) -> Result<(), Seq<char>> {
        if self.player_slot(player_id) is Some {
            Err("Player already in match"@)
        } else if !self.grid.walkable(spawn_position.x as int, spawn_position.y as int) {
            Err("Invalid spawn position"@)
        } else {
            Ok(())
        }
    }

    /// The match after a request to join: with the new player last, if it
    /// is accepted.
    pub open spec fn after_join(self, player_id: u128, spawn_position: Position) -> MatchModel {
        if self.join_outcome(player_id, spawn_position) is Ok {
            MatchModel { players: self.players.push(Player::spawned(player_id, spawn_position)), ..self }
        } else {
            self
        }
    }

    /// The match without the player with this identifier.
    pub open spec fn after_leave(self, player_id: u128) -> MatchModel {
        match self.player_slot(player_id) {
            Some(i) => MatchModel { players: self.players.remove(i), ..self },
            None => self,
        }
    }

    /// What a move command comes to. A player that is not in the match is
    /// answered as a dead one.
    pub open spec fn move_outcome(self, player_id: u128, direction: Direction) -> Result<Position, MoveError> {
        match self.player_slot(player_id) {
            Some(i) => self.players[i].move_outcome(direction, self.grid),
            None => Err(MoveError::PlayerDead),
        }
    }

    /// The match after a move command: on success the player stands at the
    /// new position and the command's sequence number is recorded; on
    /// failure nothing changes.
    pub open spec fn after_move(self, player_id: u128, direction: Direction, sequence: u64) -> MatchModel {
        match self.player_slot(player_id) {
            Some(i) => match self.players[i].move_outcome(direction, self.grid) {
                Ok(position) => MatchModel {
                    players: self.players.update(
                        i,
                        Player { position, last_processed_sequence: sequence, ..self.players[i] },
                    ),
                    ..self
                },
                Err(_) => self,
            },
            None => self,
        }
    }

    /// The bombs with `bomb` among them: in the place of the bomb with the
    /// same identifier, if there is one, else last.
    pub open spec fn with_bomb(self, bomb: Bomb) -> MatchModel {
        match self.bomb_slot(bomb.id) {
            Some(i) => MatchModel { bombs: self.bombs.update(i, bomb), ..self },
            None => MatchModel { bombs: self.bombs.push(bomb), ..self },
        }
    }

    /// Whether a cooldown is pending for the player at `tick`: the player
    /// has placed a bomb before, fewer than the cooldown's ticks ago. No
    /// cooldown applies before a first placement.
    pub open spec fn cooldown_pending(player: Player, tick: u64) -> bool {
        player.last_bomb_placement_tick != 0 && ticks_since(tick, player.last_bomb_placement_tick)
            < BOMB_COOLDOWN_TICKS
    }

    /// What a command to place a bomb comes to: the cell on which the bomb
    /// is placed, or the reason for which the command is rejected. A
    /// player that is not in the match is answered as a dead one. A
    /// pending cooldown is reported first, then the empty inventory, then
    /// death, then a bomb that already lies on the player's cell.
    pub open spec fn placement_outcome(self, player_id: u128) -> Result<Position, BombPlacementError> {
        match self.player_slot(player_id) {
            None => Err(BombPlacementError::PlayerDead),
            Some(i) => {
                let player = self.players[i];
                if Self::cooldown_pending(player, self.tick) {
                    Err(BombPlacementError::CooldownNotElapsed)
                } else if player.bombs_remaining == 0 {
                    Err(BombPlacementError::NoBombsRemaining)
                } else if !player.is_alive {
                    Err(BombPlacementError::PlayerDead)
                } else if bomb_positions(self.bombs).contains(player.position) {
                    Err(BombPlacementError::TileOccupied)
                } else {
                    Ok(player.position)
                }
            },
        }
    }

    /// The match after a command to place a bomb, where the new bomb gets
    /// the identifier `bomb_id`: on success the player has one bomb fewer,
    /// the tick and the command's sequence number are recorded, and a bomb
    /// with the standard fuse and range lies on the player's cell; on
    /// failure nothing changes.
    pub open spec fn after_placement(self, player_id: u128, sequence: u64, bomb_id: u128) -> MatchModel {
        match self.placement_outcome(player_id) {
            Ok(position) => {
                let i = self.player_slot(player_id).unwrap();
                let player = Player { last_processed_sequence: sequence, ..self.players[i].after_bomb(self.tick) };
                MatchModel { players: self.players.update(i, player), ..self }.with_bomb(
                    Bomb {
                        id: bomb_id,
                        position,
                        owner_id: player_id,
                        ticks_remaining: BOMB_FUSE_TICKS,
                        range: BOMB_RANGE,
                    },
                )
            },
            Err(_) => self,
        }
    }

    /// The match after the bombs have been updated for a tick. Every fuse
    /// that has not run out gets one shorter. The bombs whose fuse is then
    /// 0 detonate, in their order, and leave the match; the others stay,
    /// with their fuse set to 0 if a blast of this tick reached them.
    pub open spec fn after_bombs(self) -> MatchModel {
        let ticked = ticked_bombs(self.bombs);
        let start = Aftermath {
            grid: self.grid,
            players: self.players,
            bombs: ticked.filter(is_armed()),
            detonations: Seq::empty(),
            damage_events: self.damage_events,
            death_events: self.death_events,
        };
        let end = detonate_all(start, ticked.filter(is_due()));
        MatchModel {
            grid: end.grid,
            players: end.players,
            bombs: end.bombs,
            detonations: end.detonations,
            damage_events: end.damage_events,
            death_events: end.death_events,
            ..self
        }
    }

    /// The match one tick later. An ended match does not change. An active
    /// one counts the tick, forgets the events of the tick before, takes
    /// one tick's length off the remaining time, ending the match if that
    /// uses it up, and updates the bombs.
    pub open spec fn after_tick(self) -> MatchModel {
        if !self.is_active {
            self
        } else {
            let expired = self.time_remaining_ms <= self.config.tick_rate_ms;
            MatchModel {
                tick: (self.tick + 1) as u64,
                time_remaining_ms: if expired {
                    0
                } else {
                    (self.time_remaining_ms - self.config.tick_rate_ms) as u64
                },
                is_active: !expired,
                detonations: Seq::empty(),
                damage_events: Seq::empty(),
                death_events: Seq::empty(),
                ..self
            }.after_bombs()
        }
    }

    /// The match `count` ticks later.
    pub open spec fn after_ticks(self, count: nat) -> MatchModel
        decreases count,
    {
        if count == 0 {
            self
        } else {
            self.after_ticks((count - 1) as nat).after_tick()
        }
    }

    /// The state that the rules keep a match in: the grid is a full
    /// rectangle, no two players and no two bombs share an identifier, and
    /// every player is valid.
    pub open spec fn valid(self) -> bool {
        &&& self.grid.wf()
        &&& distinct(player_ids(self.players))
        &&& distinct(bomb_ids(self.bombs))
        &&& forall|i: int| 0 <= i < self.players.len() ==> (#[trigger] self.players[i]).valid()
    }

    /// Whether `tick` can run without leaving the range of the tick
    /// counter.
    pub open spec fn can_tick(self) -> bool {
        self.is_active ==> self.tick < u64::MAX
    }
}

/// Finds the first player with the given identifier.
fn find_player(players: &Vec<Player>, player_id: u128) -> (r: Option<usize>)
    ensures
        match r {
            Some(i) => first_index(player_ids(players@), player_id) == Some(i as int) && i < players@.len()
                && players@[i as int].id == player_id,
            None => first_index(player_ids(players@), player_id) is None,
        },
{
    let ghost ids = player_ids(players@);
    let mut i: usize = 0;
    while i < players.len()
        invariant
            i <= players@.len(),
            ids == player_ids(players@),
            forall|j: int| 0 <= j < i ==> ids[j] != player_id,
        decreases players@.len() - i,
    {
        if players[i].id == player_id {
            proof {
                assert(ids[i as int] == player_id);
                lemma_first_index_is(ids, player_id, i as int);
            }
            return Some(i);
        }
        i += 1;
    }
    proof {
        lemma_first_index(ids, player_id);
    }
    None
}

/// Finds the first bomb with the given identifier.
fn find_bomb(bombs: &Vec<Bomb>, bomb_id: u128) -> (r: Option<usize>)
    ensures
        match r {
            Some(i) => first_index(bomb_ids(bombs@), bomb_id) == Some(i as int) && i < bombs@.len()
                && bombs@[i as int].id == bomb_id,
            None => first_index(bomb_ids(bombs@), bomb_id) is None,
        },
{
    let ghost ids = bomb_ids(bombs@);
    let mut i: usize = 0;
    while i < bombs.len()
        invariant
            i <= bombs@.len(),
            ids == bomb_ids(bombs@),
            forall|j: int| 0 <= j < i ==> ids[j] != bomb_id,
        decreases bombs@.len() - i,
    {
        if bombs[i].id == bomb_id {
            proof {
                assert(ids[i as int] == bomb_id);
                lemma_first_index_is(ids, bomb_id, i as int);
            }
            return Some(i);
        }
        i += 1;
    }
    proof {
        lemma_first_index(ids, bomb_id);
    }
    None
}

/// Whether a bomb lies on the given cell.
fn bomb_at(bombs: &Vec<Bomb>, position: Position) -> (r: bool)
    ensures
        r == bomb_positions(bombs@).contains(position),
{
    let mut i: usize = 0;
    while i < bombs.len()
        invariant
            i <= bombs@.len(),
            forall|j: int| 0 <= j < i ==> bomb_positions(bombs@)[j] != position,
        decreases bombs@.len() - i,
    {
        if bombs[i].position == position {
            assert(bomb_positions(bombs@)[i as int] == position);
            return true;
        }
        i += 1;
    }
    false
}

impl GameState {
    /// Creates the state of a new match on the given grid.
    pub fn new(match_id: u128, grid: Grid, config: MatchConfig) -> (state: GameState)
        ensures
            state@ == MatchModel::initial(match_id, grid@, config),
    {
        let time_remaining_ms = config.duration_ms;
        let state = GameState {
            match_id,
            tick: 0,
            grid,
            players: Vec::new(),
            bombs: Vec::new(),
            config,
            time_remaining_ms,
            is_active: true,
            pending_detonations: Vec::new(),
            pending_damage_events: Vec::new(),
            pending_death_events: Vec::new(),
        };
        assert(state@.detonations =~= Seq::empty());
        state
    }

    /// Adds a player to the match at the given spawn position. Rejects an
    /// identifier that is already in the match, and a spawn position that
    /// cannot be walked on.
    pub fn add_player(&mut self, player_id: u128, spawn_position: Position) -> (r: Result<(), String>)
        ensures
            match r {
                Ok(_) => old(self)@.join_outcome(player_id, spawn_position) is Ok,
                Err(reason) => old(self)@.join_outcome(player_id, spawn_position) == Err::<(), Seq<char>>(
                    reason@,
                ),
            },
            final(self)@ == old(self)@.after_join(player_id, spawn_position),
    {
        if find_player(&self.players, player_id).is_some() {
            return Err("Player already in match".to_owned());
        }
        if !self.grid.is_walkable(spawn_position.x, spawn_position.y) {
            return Err("Invalid spawn position".to_owned());
        }
        let player = Player::new(player_id, spawn_position);
        self.players.push(player);
        Ok(())
    }

    /// Removes a player from the match and returns it, if it was there.
    pub fn remove_player(&mut self, player_id: &u128) -> (r: Option<Player>)
        ensures
            match old(self)@.player_slot(*player_id) {
                Some(i) => r == Some(old(self)@.players[i]),
                None => r is None,
            },
            final(self)@ == old(self)@.after_leave(*player_id),
    {
        match find_player(&self.players, *player_id) {
            Some(i) => Some(self.players.remove(i)),
            None => None,
        }
    }

    /// Gets a player by identifier.
    pub fn get_player(&self, player_id: &u128) -> (r: Option<&Player>)
        ensures
            match self@.player_slot(*player_id) {
                Some(i) => r == Some(&self@.players[i]),
                None => r is None,
            },
    {
        match find_player(&self.players, *player_id) {
            Some(i) => Some(&self.players[i]),
            None => None,
        }
    }

    /// Gets a player by identifier, for changing it in place.
    pub fn get_player_mut(&mut self, player_id: &u128) -> (r: Option<&mut Player>)
        ensures
            match old(self)@.player_slot(*player_id) {
                Some(i) => r matches Some(p) && *p == old(self)@.players[i] && final(self)@ == (MatchModel {
                    players: old(self)@.players.update(i, *final(p)),
                    ..old(self)@
                }),
                None => r is None && final(self)@ == old(self)@,
            },
    {
        match find_player(&self.players, *player_id) {
            Some(i) => Some(&mut self.players[i]),
            None => None,
        }
    }

    /// Gets a bomb by identifier.
    pub fn get_bomb(&self, bomb_id: &u128) -> (r: Option<&Bomb>)
        ensures
            match self@.bomb_slot(*bomb_id) {
                Some(i) => r == Some(&self@.bombs[i]),
                None => r is None,
            },
    {
        match find_bomb(&self.bombs, *bomb_id) {
            Some(i) => Some(&self.bombs[i]),
            None => None,
        }
    }

    /// Processes a movement command for a player. On success the player
    /// moves and its last processed sequence number becomes `sequence`; on
    /// failure nothing changes.
    pub fn process_move(&mut self, player_id: &u128, direction: Direction, sequence: u64) -> (r: Result<
        Position,
        MoveError,
    >)
        ensures
            r == old(self)@.move_outcome(*player_id, direction),
            final(self)@ == old(self)@.after_move(*player_id, direction, sequence),
    {
        let i = match find_player(&self.players, *player_id) {
            Some(i) => i,
            None => {
                return Err(MoveError::PlayerDead);
            },
        };
        let mut player = self.players[i];
        match player.try_move(direction, &self.grid) {
            Ok(position) => {
                player.last_processed_sequence = sequence;
                self.players[i] = player;
                Ok(position)
            },
            Err(e) => Err(e),
        }
    }

    /// Puts a bomb among the active bombs: in the place of the bomb with
    /// the same identifier, if there is one, else last.
    pub fn add_bomb(&mut self, bomb: Bomb)
        ensures
            final(self)@ == old(self)@.with_bomb(bomb),
    {
        match find_bomb(&self.bombs, bomb.id) {
            Some(i) => {
                self.bombs[i] = bomb;
            },
            None => {
                self.bombs.push(bomb);
            },
        }
    }

    /// Processes a command to place a bomb on the player's cell. On success
    /// returns the identifier of the new bomb, a random one; on failure
    /// nothing changes. The cooldown is reported only where one is
    /// pending: a player who has never placed a bomb is told of an empty
    /// inventory or of its death.
    pub fn place_bomb(&mut self, player_id: &u128, sequence: u64) -> (r: Result<u128, BombPlacementError>)
        ensures
            match r {
                Ok(bomb_id) => {
                    &&& old(self)@.placement_outcome(*player_id) is Ok
                    &&& final(self)@ == old(self)@.after_placement(*player_id, sequence, bomb_id)
                    &&& is_random_id(bomb_id)
                },
                Err(e) => {
                    &&& old(self)@.placement_outcome(*player_id) == Err::<Position, BombPlacementError>(e)
                    &&& final(self)@ == old(self)@
                },
            },
    {
        let i = match find_player(&self.players, *player_id) {
            Some(i) => i,
            None => {
                return Err(BombPlacementError::PlayerDead);
            },
        };
        let mut player = self.players[i];
        if !player.can_place_bomb(self.tick, BOMB_COOLDOWN_TICKS) {
            let ticks_since_last = self.tick.saturating_sub(player.last_bomb_placement_tick);
            if player.last_bomb_placement_tick != 0 && ticks_since_last < BOMB_COOLDOWN_TICKS {
                return Err(BombPlacementError::CooldownNotElapsed);
            }
            if player.bombs_remaining == 0 {
                return Err(BombPlacementError::NoBombsRemaining);
            }
            return Err(BombPlacementError::PlayerDead);
        }
        let position = player.position;
        if bomb_at(&self.bombs, position) {
            return Err(BombPlacementError::TileOccupied);
        }
        match player.place_bomb(self.tick) {
            Ok(_) => {},
            Err(e) => {
                return Err(e);
            },
        }
        player.last_processed_sequence = sequence;
        self.players[i] = player;
        let bomb = Bomb::new(*player_id, position, BOMB_FUSE_TICKS, BOMB_RANGE);
        let bomb_id = bomb.id;
        self.add_bomb(bomb);
        Ok(bomb_id)
    }

    /// Advances the match by one tick. Does nothing once the match has
    /// ended.
    pub fn tick(&mut self)
        requires
            old(self)@.can_tick(),
        ensures
            final(self)@ == old(self)@.after_tick(),
            !old(self).is_active ==> final(self)@ == old(self)@,
    {
        if !self.is_active {
            return ;
        }
        self.tick = self.tick + 1;
        self.pending_detonations.clear();
        self.pending_damage_events.clear();
        self.pending_death_events.clear();
        let tick_ms = self.config.tick_rate_ms;
        if self.time_remaining_ms > tick_ms {
            self.time_remaining_ms = self.time_remaining_ms - tick_ms;
        } else {
            self.time_remaining_ms = 0;
            self.is_active = false;
        }
        assert(self@.detonations =~= Seq::empty());
        self.update_bombs();
    }

    /// Computes the blast of a bomb at `position` with the given range on
    /// the grid as it is now: the blast set and the blocks it destroys.
    pub fn calculate_blast(&self, position: Position, range: u32) -> (r: (Vec<Position>, Vec<Position>))
        ensures
            r.0@ == blast_tiles(self@.grid, position, range as nat),
            r.1@ == destroyed_tiles(self@.grid, position, range as nat),
    {
        calculate_blast(&self.grid, position, range)
    }

    /// Shortens the fuses and handles the detonations of this tick.
    fn update_bombs(&mut self)
        ensures
            final(self)@ == old(self)@.after_bombs(),
    {
        let ghost ticked = ticked_bombs(self.bombs@);
        let mut due: Vec<Bomb> = Vec::new();
        let mut armed: Vec<Bomb> = Vec::new();
        let mut i: usize = 0;
        proof {
            assert(ticked.take(0) =~= Seq::empty());
            assert(ticked.take(0).filter(is_due()) =~= Seq::empty()) by {
                reveal(Seq::filter);
            }
            assert(ticked.take(0).filter(is_armed()) =~= Seq::empty()) by {
                reveal(Seq::filter);
            }
        }
        while i < self.bombs.len()
            invariant
                *self == *old(self),
                i <= self.bombs@.len(),
                ticked == ticked_bombs(self.bombs@),
                due@ == ticked.take(i as int).filter(is_due()),
                armed@ == ticked.take(i as int).filter(is_armed()),
            decreases self.bombs@.len() - i,
        {
            let bomb = self.bombs[i];
            let next = if bomb.ticks_remaining > 0 {
                Bomb { ticks_remaining: bomb.ticks_remaining - 1, ..bomb }
            } else {
                bomb
            };
            proof {
                assert(next == ticked[i as int]);
                assert(ticked.take(i + 1) =~= ticked.take(i as int).push(next));
                ticked.take(i as int).lemma_filter_push(next, is_due());
                ticked.take(i as int).lemma_filter_push(next, is_armed());
            }
            if next.ticks_remaining == 0 {
                due.push(next);
            } else {
                armed.push(next);
            }
            i += 1;
        }
        assert(ticked.take(ticked.len() as int) =~= ticked);
        self.bombs = armed;

        let ghost start = Aftermath {
            grid: self.grid@,
            players: self.players@,
            bombs: self.bombs@,
            detonations: Seq::empty(),
            damage_events: self.pending_damage_events@,
            death_events: self.pending_death_events@,
        };
        let mut events: Vec<DetonationEvent> = Vec::new();
        let mut k: usize = 0;
        proof {
            assert(due@.take(0) =~= Seq::empty());
            assert(events@.map_values(|e: DetonationEvent| detonation_of(e)) =~= Seq::empty());
        }
        while k < due.len()
            invariant
                k <= due@.len(),
                self.match_id == old(self).match_id,
                self.tick == old(self).tick,
                self.config == old(self).config,
                self.time_remaining_ms == old(self).time_remaining_ms,
                self.is_active == old(self).is_active,
                ({
                    let now = detonate_all(start, due@.take(k as int));
                    &&& self.grid@ == now.grid
                    &&& self.players@ == now.players
                    &&& self.bombs@ == now.bombs
                    &&& events@.map_values(|e: DetonationEvent| detonation_of(e)) == now.detonations
                    &&& self.pending_damage_events@ == now.damage_events
                    &&& self.pending_death_events@ == now.death_events
                }),
            decreases due@.len() - k,
        {
            let bomb = due[k];
            let ghost before = detonate_all(start, due@.take(k as int));
            let (blast, destroyed) = calculate_blast(&self.grid, bomb.position, bomb.range);
            clear_destroyed(&mut self.grid, &destroyed);
            damage_players(
                &mut self.players,
                &blast,
                bomb.owner_id,
                &mut self.pending_damage_events,
                &mut self.pending_death_events,
            );
            trigger_chain(&mut self.bombs, &blast);
            let ghost recorded = events@.map_values(|e: DetonationEvent| detonation_of(e));
            events.push((bomb.id, bomb.position, blast, destroyed));
            proof {
                assert(due@.take(k + 1).drop_last() =~= due@.take(k as int));
                assert(due@.take(k + 1).last() == bomb);
                assert(detonate_all(start, due@.take(k + 1)) == detonate(before, bomb));
                assert(events@.map_values(|e: DetonationEvent| detonation_of(e)) =~= recorded.push(
                    detonation_of(events@.last()),
                ));
            }
            k += 1;
        }
        assert(due@.take(due@.len() as int) =~= due@);
        self.pending_detonations = events;
    }

    /// The states of all players, in their order, for a state update.
    pub fn get_player_states(&self) -> (r: Vec<PlayerState>)
        ensures
            r@ == player_states(self@.players),
    {
        let mut r: Vec<PlayerState> = Vec::new();
        let mut i: usize = 0;
        while i < self.players.len()
            invariant
                i <= self.players@.len(),
                r@.len() == i,
                forall|j: int| 0 <= j < i ==> r@[j] == player_state(self.players@[j]),
            decreases self.players@.len() - i,
        {
            let p = self.players[i];
            r.push(PlayerState { id: p.id, position: p.position, health: p.health, is_alive: p.is_alive });
            i += 1;
        }
        assert(r@ =~= player_states(self@.players));
        r
    }

    /// The states of all bombs, in their order, for a state update. The
    /// product of each fuse and the tick length must fit 64 bits.
    pub fn get_bomb_states(&self) -> (r: Vec<BombState>)
        requires
            timers_fit(self@.bombs, self.config.tick_rate_ms),
        ensures
            r@ == bomb_states(self@.bombs, self.config.tick_rate_ms),
    {
        let mut r: Vec<BombState> = Vec::new();
        let mut i: usize = 0;
        while i < self.bombs.len()
            invariant
                i <= self.bombs@.len(),
                r@.len() == i,
                timers_fit(self@.bombs, self.config.tick_rate_ms),
                forall|j: int| 0 <= j < i ==> r@[j] == bomb_state(self.bombs@[j], self.config.tick_rate_ms),
            decreases self.bombs@.len() - i,
        {
            let b = self.bombs[i];
            assert(self@.bombs[i as int] == b);
            r.push(
                BombState {
                    id: b.id,
                    position: b.position,
                    owner_id: b.owner_id,
                    timer_ms: b.timer_ms(self.config.tick_rate_ms),
                },
            );
            i += 1;
        }
        assert(r@ =~= bomb_states(self@.bombs, self.config.tick_rate_ms));
        r
    }

    /// The identifiers of the players that are alive, in their order: at
    /// the end of the match, the survivors.
    pub fn survivors(&self) -> (r: Vec<u128>)
        ensures
            r@ == player_ids(self@.players.filter(is_living())),
    {
        let mut r: Vec<u128> = Vec::new();
        let mut i: usize = 0;
        proof {
            assert(self.players@.take(0) =~= Seq::empty());
            assert(self.players@.take(0).filter(is_living()) =~= Seq::empty()) by {
                reveal(Seq::filter);
            }
            assert(r@ =~= player_ids(self.players@.take(0).filter(is_living())));
        }
        while i < self.players.len()
            invariant
                i <= self.players@.len(),
                r@ == player_ids(self.players@.take(i as int).filter(is_living())),
            decreases self.players@.len() - i,
        {
            let ghost living = self.players@.take(i as int).filter(is_living());
            proof {
                assert(self.players@.take(i + 1) =~= self.players@.take(i as int).push(self.players@[i as int]));
                self.players@.take(i as int).lemma_filter_push(self.players@[i as int], is_living());
            }
            if self.players[i].is_alive {
                r.push(self.players[i].id);
                assert(r@ =~= player_ids(living.push(self.players@[i as int])));
            }
            i += 1;
        }
        assert(self.players@.take(self.players@.len() as int) =~= self.players@);
        r
    }

    /// The time that the match has run, in milliseconds: the configured
    /// duration less the time remaining.
    pub fn elapsed_ms(&self) -> (r: u64)
        ensures
            r == if self.config.duration_ms >= self.time_remaining_ms {
                self.config.duration_ms - self.time_remaining_ms
            } else {
                0
            },
    {
        self.config.duration_ms.saturating_sub(self.time_remaining_ms)
    }

    /// The number of players that are alive.
    pub fn alive_player_count(&self) -> (r: usize)
        ensures
            r == self@.players.filter(is_living()).len(),
    {
        let mut r: usize = 0;
        let mut i: usize = 0;
        proof {
            assert(self.players@.take(0) =~= Seq::empty());
            assert(self.players@.take(0).filter(is_living()).len() == 0) by {
                reveal(Seq::filter);
            }
        }
        while i < self.players.len()
            invariant
                i <= self.players@.len(),
                r <= i,
                r == self.players@.take(i as int).filter(is_living()).len(),
            decreases self.players@.len() - i,
        {
            proof {
                assert(self.players@.take(i + 1) =~= self.players@.take(i as int).push(self.players@[i as int]));
                self.players@.take(i as int).lemma_filter_push(self.players@[i as int], is_living());
            }
            if self.players[i].is_alive {
                r += 1;
            }
            i += 1;
        }
        assert(self.players@.take(self.players@.len() as int) =~= self.players@);
        r
    }
}

/// The state of a player as a state update shows it.
pub open spec fn player_state(player: Player) -> PlayerState {
    PlayerState { id: player.id, position: player.position, health: player.health, is_alive: player.is_alive }
}

/// The states of the players, each in its place.
pub open spec fn player_states(players: Seq<Player>) -> Seq<PlayerState> {
    players.map_values(|p: Player| player_state(p))
}

/// The state of a bomb as a state update shows it.
pub open spec fn bomb_state(bomb: Bomb, tick_rate_ms: u64) -> BombState {
    BombState {
        id: bomb.id,
        position: bomb.position,
        owner_id: bomb.owner_id,
        timer_ms: bomb.shown_timer_ms(tick_rate_ms),
    }
}

/// The states of the bombs, each in its place.
pub open spec fn bomb_states(bombs: Seq<Bomb>, tick_rate_ms: u64) -> Seq<BombState> {
    bombs.map_values(|b: Bomb| bomb_state(b, tick_rate_ms))
}

/// Whether the product of each bomb's fuse and the tick length fits 64 bits.
pub open spec fn timers_fit(bombs: Seq<Bomb>, tick_rate_ms: u64) -> bool {
    forall|i: int| 0 <= i < bombs.len() ==> (#[trigger] bombs[i]).ticks_remaining * tick_rate_ms <= u64::MAX
}

/// The test for a player that is alive.
pub open spec fn is_living() -> spec_fn(Player) -> bool {
    |p: Player| p.is_alive
}

} // verus!
