//! Laws of the match: what every command and every tick keeps true.

use vstd::prelude::*;
use crate::blast::{blast_tiles, destroyed_tiles, lemma_cleared_shape};
use crate::detonation::{
    after_blast, chained, detonate, detonate_all, is_armed, is_due, struck, ticked_bombs, Aftermath,
};
use crate::game_state::{
    bomb_ids, bomb_positions, player_ids, timers_fit, Bomb, MatchConfig, MatchModel, BOMB_COOLDOWN_TICKS,
    BOMB_FUSE_TICKS, BOMB_RANGE,
};
use crate::ids::{distinct, lemma_first_index, lemma_first_index_is};
use crate::map_system::GridView;
use crate::player::{BombPlacementError, Direction, Player, Position};

verus! {

/// Joining keeps the identifiers of the players distinct, and whoever has
/// joined is in the match.
pub proof fn lemma_join_keeps_players_distinct(game: MatchModel, player_id: u128, spawn_position: Position)
    requires
        distinct(player_ids(game.players)),
    ensures
        distinct(player_ids(game.after_join(player_id, spawn_position).players)),
        game.join_outcome(player_id, spawn_position) is Ok ==> game.after_join(
            player_id,
            spawn_position,
        ).player_slot(player_id) == Some(game.players.len() as int),
{
    lemma_first_index(player_ids(game.players), player_id);
    if game.join_outcome(player_id, spawn_position) is Ok {
        let after = game.after_join(player_id, spawn_position).players;
        assert(player_ids(after) =~= player_ids(game.players).push(player_id));
        lemma_first_index_is(player_ids(after), player_id, game.players.len() as int);
    }
}

/// Leaving keeps the identifiers of the players distinct, and whoever has
/// left is no longer in the match.
pub proof fn lemma_leave_keeps_players_distinct(game: MatchModel, player_id: u128)
    requires
        distinct(player_ids(game.players)),
    ensures
        distinct(player_ids(game.after_leave(player_id).players)),
        game.after_leave(player_id).player_slot(player_id) is None,
{
    let ids = player_ids(game.players);
    lemma_first_index(ids, player_id);
    match game.player_slot(player_id) {
        Some(i) => {
            let after = player_ids(game.after_leave(player_id).players);
            assert(after =~= ids.remove(i));
            assert forall|j: int| 0 <= j < after.len() implies after[j] != player_id by {
                if j < i {
                    assert(after[j] == ids[j]);
                } else {
                    assert(after[j] == ids[j + 1]);
                }
            }
            lemma_first_index(after, player_id);
        },
        None => {},
    }
}

/// Putting a bomb among the bombs keeps their identifiers distinct, and
/// the bomb is then found under its identifier.
pub proof fn lemma_with_bomb_keeps_bombs_distinct(game: MatchModel, bomb: Bomb)
    requires
        distinct(bomb_ids(game.bombs)),
    ensures
        distinct(bomb_ids(game.with_bomb(bomb).bombs)),
        game.with_bomb(bomb).bomb_slot(bomb.id) matches Some(i) && game.with_bomb(bomb).bombs[i] == bomb,
{
    let ids = bomb_ids(game.bombs);
    lemma_first_index(ids, bomb.id);
    let after = bomb_ids(game.with_bomb(bomb).bombs);
    match game.bomb_slot(bomb.id) {
        Some(i) => {
            assert(after =~= ids);
            lemma_first_index_is(after, bomb.id, i);
        },
        None => {
            assert(after =~= ids.push(bomb.id));
            lemma_first_index_is(after, bomb.id, game.bombs.len() as int);
        },
    }
}

/// A blast keeps a valid player valid, never raises its health and never
/// moves it. It leaves the dead as they are, and kills whom it strikes.
pub proof fn lemma_blast_on_player(player: Player, blast: Seq<Position>)
    requires
        player.valid(),
    ensures
        after_blast(player, blast).valid(),
        after_blast(player, blast).health <= player.health,
        after_blast(player, blast).id == player.id,
        after_blast(player, blast).position == player.position,
        !player.is_alive ==> after_blast(player, blast) == player,
        struck(player, blast) ==> !after_blast(player, blast).is_alive,
{
}

/// Detonations neither add nor remove a player. Each player keeps its
/// identifier and its position; the health of a valid player never rises,
/// and a valid player stays valid.
pub proof fn lemma_detonations_keep_roster(before: Aftermath, batch: Seq<Bomb>)
    ensures
        detonate_all(before, batch).players.len() == before.players.len(),
        forall|i: int|
            0 <= i < before.players.len() ==> {
                let then = before.players[i];
                let now = #[trigger] detonate_all(before, batch).players[i];
                &&& now.id == then.id
                &&& now.position == then.position
                &&& then.valid() ==> now.valid() && now.health <= then.health
                &&& !then.is_alive ==> now == then
            },
    decreases batch.len(),
{
    if batch.len() > 0 {
        lemma_detonations_keep_roster(before, batch.drop_last());
        let earlier = detonate_all(before, batch.drop_last());
        let blast = blast_tiles(earlier.grid, batch.last().position, batch.last().range as nat);
        assert forall|i: int| 0 <= i < before.players.len() implies {
            let then = before.players[i];
            let now = #[trigger] detonate_all(before, batch).players[i];
            &&& now.id == then.id
            &&& now.position == then.position
            &&& then.valid() ==> now.valid() && now.health <= then.health
            &&& !then.is_alive ==> now == then
        } by {
            let mid = earlier.players[i];
            assert(detonate_all(before, batch).players[i] == after_blast(mid, blast));
            if before.players[i].valid() {
                lemma_blast_on_player(mid, blast);
            }
        }
    }
}

/// A tick neither adds nor removes a player. Each player keeps its
/// identifier and its position; the health of a valid player never rises, a
/// valid player stays valid, and the dead stay as they are.
pub proof fn lemma_tick_keeps_roster(game: MatchModel)
    ensures
        game.after_tick().players.len() == game.players.len(),
        forall|i: int|
            0 <= i < game.players.len() ==> {
                let then = game.players[i];
                let now = #[trigger] game.after_tick().players[i];
                &&& now.id == then.id
                &&& now.position == then.position
                &&& then.valid() ==> now.valid() && now.health <= then.health
                &&& !then.is_alive ==> now == then
            },
{
    if game.is_active {
        let ticked = ticked_bombs(game.bombs);
        let start = Aftermath {
            grid: game.grid,
            players: game.players,
            bombs: ticked.filter(is_armed()),
            detonations: Seq::empty(),
            damage_events: Seq::empty(),
            death_events: Seq::empty(),
        };
        lemma_detonations_keep_roster(start, ticked.filter(is_due()));
    }
}

/// What detonations do to the bombs that stay. None is added or removed;
/// each stays as it is or has its fuse set to 0; each bomb of the batch
/// gives one detonation, in the order of the batch; and every bomb that
/// stays and lies in the blast of one of these detonations has fuse 0.
pub proof fn lemma_detonations_chain(before: Aftermath, batch: Seq<Bomb>)
    requires
        before.detonations.len() == 0,
    ensures
        ({
            let after = detonate_all(before, batch);
            &&& after.bombs.len() == before.bombs.len()
            &&& forall|j: int|
                0 <= j < before.bombs.len() ==> (#[trigger] after.bombs[j]) == before.bombs[j] || after.bombs[j]
                    == before.bombs[j].triggered()
            &&& after.detonations.len() == batch.len()
            &&& forall|k: int|
                0 <= k < batch.len() ==> (#[trigger] after.detonations[k]).bomb_id == batch[k].id
                    && after.detonations[k].position == batch[k].position
            &&& forall|j: int, k: int|
                0 <= j < before.bombs.len() && 0 <= k < batch.len() && (
                #[trigger] after.detonations[k]).blast_tiles.contains((#[trigger] after.bombs[j]).position)
                    ==> after.bombs[j].ticks_remaining == 0
        }),
    decreases batch.len(),
{
    if batch.len() > 0 {
        lemma_detonations_chain(before, batch.drop_last());
        let earlier = detonate_all(before, batch.drop_last());
        let after = detonate_all(before, batch);
        let blast = blast_tiles(earlier.grid, batch.last().position, batch.last().range as nat);
        assert forall|j: int| 0 <= j < before.bombs.len() implies (#[trigger] after.bombs[j]) == before.bombs[j]
            || after.bombs[j] == before.bombs[j].triggered() by {
            assert(after.bombs[j] == chained(earlier.bombs[j], blast));
        }
        assert forall|k: int| 0 <= k < batch.len() implies (#[trigger] after.detonations[k]).bomb_id == batch[k].id
            && after.detonations[k].position == batch[k].position by {
            if k < batch.len() - 1 {
                assert(after.detonations[k] == earlier.detonations[k]);
                assert(batch.drop_last()[k] == batch[k]);
            }
        }
        assert forall|j: int, k: int|
            0 <= j < before.bombs.len() && 0 <= k < batch.len() && (
            #[trigger] after.detonations[k]).blast_tiles.contains(
                (#[trigger] after.bombs[j]).position,
            ) implies after.bombs[j].ticks_remaining == 0 by {
            assert(after.bombs[j] == chained(earlier.bombs[j], blast));
            if k < batch.len() - 1 {
                assert(after.detonations[k] == earlier.detonations[k]);
                assert(earlier.detonations[k].blast_tiles.contains(earlier.bombs[j].position));
            }
        }
    }
}

/// The life of a bomb over one tick of an active match. Each bomb whose
/// fuse is 0 or 1 before the tick detonates in it, giving one detonation,
/// and is gone after it; each other bomb stays, in its place among those
/// that stay, with its fuse one shorter, or 0 if a blast of this tick
/// reached it. So a chain of bombs goes off one link per tick.
pub proof fn lemma_tick_on_bombs(game: MatchModel)
    requires
        game.is_active,
    ensures
        ({
            let after = game.after_tick();
            let due = ticked_bombs(game.bombs).filter(is_due());
            let armed = ticked_bombs(game.bombs).filter(is_armed());
            &&& after.bombs.len() == armed.len()
            &&& after.detonations.len() == due.len()
            &&& after.bombs.len() + after.detonations.len() == game.bombs.len()
            &&& forall|j: int|
                0 <= j < armed.len() ==> (#[trigger] after.bombs[j]) == armed[j] || after.bombs[j]
                    == armed[j].triggered()
            &&& forall|k: int|
                0 <= k < due.len() ==> (#[trigger] after.detonations[k]).bomb_id == due[k].id
                    && after.detonations[k].position == due[k].position
            &&& forall|j: int, k: int|
                0 <= j < armed.len() && 0 <= k < due.len() && (#[trigger] after.detonations[k]).blast_tiles.contains(
                    (#[trigger] after.bombs[j]).position,
                ) ==> after.bombs[j].ticks_remaining == 0
        }),
{
    let ticked = ticked_bombs(game.bombs);
    let start = Aftermath {
        grid: game.grid,
        players: game.players,
        bombs: ticked.filter(is_armed()),
        detonations: Seq::empty(),
        damage_events: Seq::empty(),
        death_events: Seq::empty(),
    };
    lemma_detonations_chain(start, ticked.filter(is_due()));
    lemma_filter_partition(ticked);
}

/// Every bomb is either due or armed.
proof fn lemma_filter_partition(bombs: Seq<Bomb>)
    ensures
        bombs.filter(is_due()).len() + bombs.filter(is_armed()).len() == bombs.len(),
    decreases bombs.len(),
{
    reveal(Seq::filter);
    if bombs.len() > 0 {
        lemma_filter_partition(bombs.drop_last());
    }
}

/// A fuse that is no longer than one whose timer fits has a timer that fits.
proof fn lemma_shorter_fuse_fits(shorter: Bomb, longer: Bomb, tick_rate_ms: u64)
    requires
        shorter.ticks_remaining <= longer.ticks_remaining,
        longer.ticks_remaining * tick_rate_ms <= u64::MAX,
    ensures
        shorter.ticks_remaining * tick_rate_ms <= u64::MAX,
{
    assert(shorter.ticks_remaining * tick_rate_ms <= longer.ticks_remaining * tick_rate_ms) by (nonlinear_arith)
        requires
            0 <= shorter.ticks_remaining <= longer.ticks_remaining,
            0 <= tick_rate_ms,
    ;
}

/// Detonations lengthen no fuse of the bombs that stay.
proof fn lemma_detonations_keep_timers_fit(before: Aftermath, batch: Seq<Bomb>, tick_rate_ms: u64)
    requires
        timers_fit(before.bombs, tick_rate_ms),
    ensures
        timers_fit(detonate_all(before, batch).bombs, tick_rate_ms),
    decreases batch.len(),
{
    if batch.len() > 0 {
        lemma_detonations_keep_timers_fit(before, batch.drop_last(), tick_rate_ms);
        let earlier = detonate_all(before, batch.drop_last());
        let later = detonate(earlier, batch.last());
        assert forall|i: int| 0 <= i < later.bombs.len() implies (#[trigger] later.bombs[i]).ticks_remaining
            * tick_rate_ms <= u64::MAX by {
            lemma_shorter_fuse_fits(later.bombs[i], earlier.bombs[i], tick_rate_ms);
        }
    }
}

/// A tick lengthens no fuse: if the timer of every bomb fits before the
/// tick, it fits after it.
pub proof fn lemma_tick_keeps_timers_fit(game: MatchModel)
    requires
        timers_fit(game.bombs, game.config.tick_rate_ms),
    ensures
        timers_fit(game.after_tick().bombs, game.config.tick_rate_ms),
{
    if game.is_active {
        let rate = game.config.tick_rate_ms;
        let ticked = ticked_bombs(game.bombs);
        let armed = ticked.filter(is_armed());
        assert forall|i: int| 0 <= i < armed.len() implies (#[trigger] armed[i]).ticks_remaining * rate
            <= u64::MAX by {
            assert(armed.contains(armed[i]));
            ticked.lemma_filter_contains_rev(is_armed(), armed[i]);
            let k = choose|k: int| 0 <= k < ticked.len() && ticked[k] == armed[i];
            lemma_shorter_fuse_fits(armed[i], game.bombs[k], rate);
        }
        let start = Aftermath {
            grid: game.grid,
            players: game.players,
            bombs: armed,
            detonations: Seq::empty(),
            damage_events: Seq::empty(),
            death_events: Seq::empty(),
        };
        lemma_detonations_keep_timers_fit(start, ticked.filter(is_due()), rate);
    }
}

/// Once a match has ended, ticks change nothing: not the tick counter, not
/// the remaining time, nor anything else.
pub proof fn lemma_ended_match_stands_still(game: MatchModel, count: nat)
    requires
        !game.is_active,
    ensures
        game.after_ticks(count) == game,
    decreases count,
{
    if count > 0 {
        lemma_ended_match_stands_still(game, (count - 1) as nat);
    }
}

/// Over a tick the tick counter does not run backwards and the remaining
/// time does not grow; a match that has ended stays ended; and the match
/// keeps its identifier and its configuration.
pub proof fn lemma_tick_is_monotonic(game: MatchModel)
    requires
        game.can_tick(),
    ensures
        game.after_tick().tick >= game.tick,
        game.after_tick().time_remaining_ms <= game.time_remaining_ms,
        !game.is_active ==> !game.after_tick().is_active,
        game.after_tick().match_id == game.match_id,
        game.after_tick().config == game.config,
{
}

/// Among bombs with distinct identifiers, those that pass a test have
/// distinct identifiers.
proof fn lemma_filter_keeps_distinct(bombs: Seq<Bomb>, test: spec_fn(Bomb) -> bool)
    requires
        distinct(bomb_ids(bombs)),
    ensures
        distinct(bomb_ids(bombs.filter(test))),
    decreases bombs.len(),
{
    reveal(Seq::filter);
    if bombs.len() > 0 {
        let rest = bombs.drop_last();
        let kept = rest.filter(test);
        assert forall|a: int, b: int| 0 <= a < b < rest.len() implies bomb_ids(rest)[a] != bomb_ids(rest)[b] by {
            assert(bomb_ids(bombs)[a] != bomb_ids(bombs)[b]);
        }
        lemma_filter_keeps_distinct(rest, test);
        if test(bombs.last()) {
            let all = bombs.filter(test);
            assert(all == kept.push(bombs.last()));
            assert forall|a: int, b: int| 0 <= a < b < all.len() implies bomb_ids(all)[a] != bomb_ids(all)[b] by {
                if b < kept.len() {
                    assert(bomb_ids(kept)[a] != bomb_ids(kept)[b]);
                } else {
                    assert(kept.contains(kept[a]));
                    rest.lemma_filter_contains_rev(test, kept[a]);
                    let m = choose|m: int| 0 <= m < rest.len() && rest[m] == kept[a];
                    assert(bomb_ids(bombs)[m] != bomb_ids(bombs)[bombs.len() - 1]);
                }
            }
        }
    }
}

/// Detonations keep the shape of the grid.
proof fn lemma_detonations_keep_grid(before: Aftermath, batch: Seq<Bomb>)
    requires
        before.grid.wf(),
    ensures
        detonate_all(before, batch).grid.wf(),
        detonate_all(before, batch).grid.width == before.grid.width,
        detonate_all(before, batch).grid.height == before.grid.height,
    decreases batch.len(),
{
    if batch.len() > 0 {
        lemma_detonations_keep_grid(before, batch.drop_last());
        let earlier = detonate_all(before, batch.drop_last());
        lemma_cleared_shape(
            earlier.grid,
            destroyed_tiles(earlier.grid, batch.last().position, batch.last().range as nat),
        );
    }
}

/// When a bomb may be placed, and why not. A command of a player in the
/// match succeeds exactly if no cooldown is pending, the inventory is not
/// empty, the player is alive and no bomb lies on its cell. A cooldown is
/// reported exactly where one is pending, and never to a player who has
/// not placed a bomb before.
pub proof fn lemma_placement_reasons(game: MatchModel, player_id: u128)
    ensures
        match game.player_slot(player_id) {
            Some(i) => {
                let player = game.players[i];
                let outcome = game.placement_outcome(player_id);
                let pending = MatchModel::cooldown_pending(player, game.tick);
                &&& outcome is Ok <==> !pending && player.bombs_remaining > 0 && player.is_alive
                    && !bomb_positions(game.bombs).contains(player.position)
                &&& outcome is Ok ==> outcome == Ok::<Position, BombPlacementError>(player.position)
                &&& outcome == Err::<Position, BombPlacementError>(BombPlacementError::CooldownNotElapsed)
                    <==> pending
                &&& player.last_bomb_placement_tick == 0 ==> outcome != Err::<Position, BombPlacementError>(
                    BombPlacementError::CooldownNotElapsed,
                )
                &&& !pending && player.bombs_remaining == 0 ==> outcome == Err::<Position, BombPlacementError>(
                    BombPlacementError::NoBombsRemaining,
                )
                &&& !pending && player.bombs_remaining > 0 && !player.is_alive ==> outcome == Err::<
                    Position,
                    BombPlacementError,
                >(BombPlacementError::PlayerDead)
                &&& player.may_place_bomb(game.tick, BOMB_COOLDOWN_TICKS) <==> !pending && player.bombs_remaining
                    > 0 && player.is_alive
            },
            None => game.placement_outcome(player_id) == Err::<Position, BombPlacementError>(
                BombPlacementError::PlayerDead,
            ),
        },
{
}

/// A new match on a well-formed grid is valid.
pub proof fn lemma_initial_is_valid(match_id: u128, grid: GridView, config: MatchConfig)
    requires
        grid.wf(),
    ensures
        MatchModel::initial(match_id, grid, config).valid(),
{
}

/// Joining keeps a valid match valid.
pub proof fn lemma_join_keeps_valid(game: MatchModel, player_id: u128, spawn_position: Position)
    requires
        game.valid(),
    ensures
        game.after_join(player_id, spawn_position).valid(),
{
    lemma_join_keeps_players_distinct(game, player_id, spawn_position);
}

/// Leaving keeps a valid match valid.
pub proof fn lemma_leave_keeps_valid(game: MatchModel, player_id: u128)
    requires
        game.valid(),
    ensures
        game.after_leave(player_id).valid(),
{
    lemma_leave_keeps_players_distinct(game, player_id);
    lemma_first_index(player_ids(game.players), player_id);
}

/// A move command keeps a valid match valid, and changes nothing but the
/// position and the recorded sequence number of the player who moves.
pub proof fn lemma_move_keeps_valid(game: MatchModel, player_id: u128, direction: Direction, sequence: u64)
    requires
        game.valid(),
    ensures
        game.after_move(player_id, direction, sequence).valid(),
        game.after_move(player_id, direction, sequence).players.len() == game.players.len(),
        forall|i: int|
            0 <= i < game.players.len() && game.players[i].id != player_id ==> #[trigger] game.after_move(
                player_id,
                direction,
                sequence,
            ).players[i] == game.players[i],
{
    let ids = player_ids(game.players);
    lemma_first_index(ids, player_id);
    assert(player_ids(game.after_move(player_id, direction, sequence).players) =~= ids);
}

/// A command to place a bomb keeps a valid match valid.
pub proof fn lemma_placement_keeps_valid(game: MatchModel, player_id: u128, sequence: u64, bomb_id: u128)
    requires
        game.valid(),
    ensures
        game.after_placement(player_id, sequence, bomb_id).valid(),
{
    let ids = player_ids(game.players);
    lemma_first_index(ids, player_id);
    match game.placement_outcome(player_id) {
        Ok(position) => {
            let i = game.player_slot(player_id).unwrap();
            let player = Player { last_processed_sequence: sequence, ..game.players[i].after_bomb(game.tick) };
            let paid = MatchModel { players: game.players.update(i, player), ..game };
            assert(player_ids(paid.players) =~= ids);
            lemma_with_bomb_keeps_bombs_distinct(
                paid,
                Bomb {
                    id: bomb_id,
                    position,
                    owner_id: player_id,
                    ticks_remaining: BOMB_FUSE_TICKS,
                    range: BOMB_RANGE,
                },
            );
        },
        Err(_) => {},
    }
}

/// A tick keeps a valid match valid.
pub proof fn lemma_tick_keeps_valid(game: MatchModel)
    requires
        game.valid(),
    ensures
        game.after_tick().valid(),
{
    if game.is_active {
        let after = game.after_tick();
        let ticked = ticked_bombs(game.bombs);
        let armed = ticked.filter(is_armed());
        let start = Aftermath {
            grid: game.grid,
            players: game.players,
            bombs: armed,
            detonations: Seq::empty(),
            damage_events: Seq::empty(),
            death_events: Seq::empty(),
        };
        lemma_detonations_keep_grid(start, ticked.filter(is_due()));
        lemma_tick_keeps_roster(game);
        assert(player_ids(after.players) =~= player_ids(game.players));
        assert(bomb_ids(ticked) =~= bomb_ids(game.bombs));
        lemma_filter_keeps_distinct(ticked, is_armed());
        lemma_tick_on_bombs(game);
        assert(bomb_ids(after.bombs) =~= bomb_ids(armed));
    }
}

} // verus!
