//! Detonations: what the blast of a bomb does to the grid, to the
//! players and to the other bombs, and the events that it leaves.

use vstd::prelude::*;
use crate::blast::{blast_tiles, cleared, destroyed_tiles};
use crate::game_state::{Bomb, DamageEvent, DeathEvent, Detonation, BOMB_DAMAGE};
use crate::map_system::{Grid, GridView, Tile};
use crate::player::{Player, Position};

verus! {

/// Whether a blast strikes a player: only the living are struck.
pub open spec fn struck(player: Player, blast: Seq<Position>) -> bool {
    player.is_alive && blast.contains(player.position)
}

/// The player after a blast: damaged if struck, unchanged otherwise.
pub open spec fn after_blast(player: Player, blast: Seq<Position>) -> Player {
    if struck(player, blast) {
        player.after_damage(BOMB_DAMAGE as int)
    } else {
        player
    }
}

/// The damage event that a blast of `owner_id`'s bomb gives for a player:
/// one for each player struck, with the health left.
pub open spec fn damage_event(player: Player, blast: Seq<Position>, owner_id: u128) -> Option<DamageEvent> {
    if struck(player, blast) {
        Some((player.id, BOMB_DAMAGE, after_blast(player, blast).health, Some(owner_id)))
    } else {
        None
    }
}

/// The death event that a blast of `owner_id`'s bomb gives for a player:
/// one for each player whom it kills, with the position at death.
pub open spec fn death_event(player: Player, blast: Seq<Position>, owner_id: u128) -> Option<DeathEvent> {
    if struck(player, blast) && !after_blast(player, blast).is_alive {
        Some((player.id, Some(owner_id), player.position))
    } else {
        None
    }
}

/// A bomb after another bomb's blast: its fuse has run out if it lies in
/// the blast.
pub open spec fn chained(bomb: Bomb, blast: Seq<Position>) -> Bomb {
    if blast.contains(bomb.position) {
        bomb.triggered()
    } else {
        bomb
    }
}

/// The function that gives each player its damage event, if any.
pub open spec fn damage_event_of(blast: Seq<Position>, owner_id: u128) -> spec_fn(Player) -> Option<DamageEvent> {
    |p: Player| damage_event(p, blast, owner_id)
}

/// The function that gives each player its death event, if any.
pub open spec fn death_event_of(blast: Seq<Position>, owner_id: u128) -> spec_fn(Player) -> Option<DeathEvent> {
    |p: Player| death_event(p, blast, owner_id)
}

/// The players after a blast, each in its place.
pub open spec fn players_after_blast(players: Seq<Player>, blast: Seq<Position>) -> Seq<Player> {
    players.map_values(|p: Player| after_blast(p, blast))
}

/// The bombs after another bomb's blast, each in its place.
pub open spec fn bombs_after_blast(bombs: Seq<Bomb>, blast: Seq<Position>) -> Seq<Bomb> {
    bombs.map_values(|b: Bomb| chained(b, blast))
}

/// The bombs one tick later, each in its place.
pub open spec fn ticked_bombs(bombs: Seq<Bomb>) -> Seq<Bomb> {
    bombs.map_values(|b: Bomb| b.ticked())
}

/// The test for a bomb that detonates now: its fuse has run out.
pub open spec fn is_due() -> spec_fn(Bomb) -> bool {
    |b: Bomb| b.ticks_remaining == 0
}

/// The test for a bomb that does not detonate yet.
pub open spec fn is_armed() -> spec_fn(Bomb) -> bool {
    |b: Bomb| b.ticks_remaining > 0
}

/// What the detonations of one tick have done so far.
pub struct Aftermath {
    pub grid: GridView,
    pub players: Seq<Player>,
    /// The bombs that do not detonate in this tick.
    pub bombs: Seq<Bomb>,
    pub detonations: Seq<Detonation>,
    pub damage_events: Seq<DamageEvent>,
    pub death_events: Seq<DeathEvent>,
}

/// One detonation. The blast is computed on the grid as earlier
/// detonations of the tick left it; the blocks it destroys become floor;
/// every living player in it takes the blast damage, in the order of the
/// players, with a damage event and, if killed, a death event; every bomb
/// in it that was not due in this tick has its fuse set to 0; and the
/// detonation is recorded.
pub open spec fn detonate(before: Aftermath, bomb: Bomb) -> Aftermath {
    let blast = blast_tiles(before.grid, bomb.position, bomb.range as nat);
    let destroyed = destroyed_tiles(before.grid, bomb.position, bomb.range as nat);
    Aftermath {
        grid: cleared(before.grid, destroyed),
        players: players_after_blast(before.players, blast),
        bombs: bombs_after_blast(before.bombs, blast),
        detonations: before.detonations.push(
            Detonation { bomb_id: bomb.id, position: bomb.position, blast_tiles: blast, destroyed_tiles: destroyed },
        ),
        damage_events: before.damage_events + before.players.filter_map(damage_event_of(blast, bomb.owner_id)),
        death_events: before.death_events + before.players.filter_map(death_event_of(blast, bomb.owner_id)),
    }
}

/// The detonations of a batch of bombs, one after the other in the order
/// of the batch.
pub open spec fn detonate_all(before: Aftermath, batch: Seq<Bomb>) -> Aftermath
    decreases batch.len(),
{
    if batch.len() == 0 {
        before
    } else {
        detonate(detonate_all(before, batch.drop_last()), batch.last())
    }
}

/// Whether a position occurs in a list of positions.
pub(crate) fn contains_position(cells: &Vec<Position>, position: Position) -> (r: bool)
    ensures
        r == cells@.contains(position),
{
    let mut i: usize = 0;
    while i < cells.len()
        invariant
            i <= cells@.len(),
            forall|j: int| 0 <= j < i ==> cells@[j] != position,
        decreases cells@.len() - i,
    {
        if cells[i] == position {
            return true;
        }
        i += 1;
    }
    false
}

/// Turns the destroyed blocks into floor.
pub(crate) fn clear_destroyed(grid: &mut Grid, destroyed: &Vec<Position>)
    ensures
        final(grid)@ == cleared(old(grid)@, destroyed@),
{
    let mut j: usize = 0;
    assert(destroyed@.take(0) =~= Seq::empty());
    while j < destroyed.len()
        invariant
            j <= destroyed@.len(),
            grid@ == cleared(old(grid)@, destroyed@.take(j as int)),
        decreases destroyed@.len() - j,
    {
        let cell = destroyed[j];
        grid.set_tile_at(cell.x, cell.y, Tile::Floor);
        assert(destroyed@.take(j + 1).drop_last() =~= destroyed@.take(j as int));
        j += 1;
    }
    assert(destroyed@.take(destroyed@.len() as int) =~= destroyed@);
}

/// Applies the blast damage to every living player in the blast, in the
/// order of the players, and records the damage and the deaths.
pub(crate) fn damage_players(
    players: &mut Vec<Player>,
    blast: &Vec<Position>,
    owner_id: u128,
    damage_events: &mut Vec<DamageEvent>,
    death_events: &mut Vec<DeathEvent>,
)
    ensures
        final(players)@ == players_after_blast(old(players)@, blast@),
        final(damage_events)@ == old(damage_events)@ + old(players)@.filter_map(damage_event_of(blast@, owner_id)),
        final(death_events)@ == old(death_events)@ + old(players)@.filter_map(death_event_of(blast@, owner_id)),
{
    let ghost before = players@;
    let ghost damage_of = damage_event_of(blast@, owner_id);
    let ghost death_of = death_event_of(blast@, owner_id);
    let mut i: usize = 0;
    assert(before.take(0) =~= Seq::empty());
    assert(old(damage_events)@ + before.take(0).filter_map(damage_of) =~= old(damage_events)@);
    assert(old(death_events)@ + before.take(0).filter_map(death_of) =~= old(death_events)@);
    while i < players.len()
        invariant
            i <= before.len(),
            players@.len() == before.len(),
            before == old(players)@,
            damage_of == damage_event_of(blast@, owner_id),
            death_of == death_event_of(blast@, owner_id),
            forall|j: int| 0 <= j < i ==> players@[j] == after_blast(before[j], blast@),
            forall|j: int| i <= j < before.len() ==> players@[j] == before[j],
            damage_events@ == old(damage_events)@ + before.take(i as int).filter_map(damage_of),
            death_events@ == old(death_events)@ + before.take(i as int).filter_map(death_of),
        decreases before.len() - i,
    {
        let player = players[i];
        proof {
            before.lemma_filter_map_take_succ(damage_of, i as int);
            before.lemma_filter_map_take_succ(death_of, i as int);
        }
        if player.is_alive && contains_position(blast, player.position) {
            let position_at_death = player.position;
            let mut hurt = player;
            hurt.take_damage(BOMB_DAMAGE);
            players[i] = hurt;
            damage_events.push((hurt.id, BOMB_DAMAGE, hurt.health, Some(owner_id)));
            if !hurt.is_alive {
                death_events.push((hurt.id, Some(owner_id), position_at_death));
            }
        }
        i += 1;
    }
    assert(before.take(before.len() as int) =~= before);
    assert(players@ =~= players_after_blast(before, blast@));
}

/// Sets the fuse of every bomb in the blast to 0.
pub(crate) fn trigger_chain(bombs: &mut Vec<Bomb>, blast: &Vec<Position>)
    ensures
        final(bombs)@ == bombs_after_blast(old(bombs)@, blast@),
{
    let ghost before = bombs@;
    let mut i: usize = 0;
    while i < bombs.len()
        invariant
            i <= before.len(),
            bombs@.len() == before.len(),
            forall|j: int| 0 <= j < i ==> bombs@[j] == chained(before[j], blast@),
            forall|j: int| i <= j < before.len() ==> bombs@[j] == before[j],
        decreases before.len() - i,
    {
        let bomb = bombs[i];
        if contains_position(blast, bomb.position) {
            bombs[i] = Bomb { ticks_remaining: 0, ..bomb };
        }
        i += 1;
    }
    assert(bombs@ =~= bombs_after_blast(before, blast@));
}

} // verus!
