//! The coordinator of a match: it applies the commands of the players and
//! the ticks of the clock to the one state of the match, one at a time,
//! and says what is to be sent, to whom, in what order.
//!
//! The coordinator does no input or output. Whoever drives it hands it
//! each command and each tick as it comes, and carries out what it
//! returns.

use vstd::prelude::*;
use crate::game_state::{
    bomb_states, player_ids, player_states, timers_fit, DamageEvent, DeathEvent, Detonation, GameState,
    MatchConfig, MatchModel,
};
use crate::match_laws::{
    lemma_join_keeps_players_distinct, lemma_leave_keeps_players_distinct, lemma_tick_keeps_roster,
    lemma_tick_keeps_timers_fit,
};
use crate::ids::{distinct, first_index, lemma_first_index, lemma_first_index_is};
use crate::map_system::Grid;
use crate::player::{BombPlacementError, Direction, MoveError, Position};
use crate::protocol::{message_views, ClientMessage, MessageView, ServerMessage};

verus! {

/// A command from a connection to the match.
#[derive(Debug, Clone, Copy, PartialEq, Eq, Structural)]
pub enum GameCommand {
    /// A player asks to join at a spawn position.
    PlayerJoin { player_id: u128, spawn_position: Position },
    /// A player sent a movement command.
    PlayerMove { player_id: u128, direction: Direction, sequence: u64 },
    /// A player placed a bomb.
    PlaceBomb { player_id: u128, sequence: u64 },
    /// A player disconnected.
    PlayerDisconnect { player_id: u128 },
}

impl GameCommand {
    /// The player that the command comes from.
    pub open spec fn sender(self) -> u128 {
        match self {
            GameCommand::PlayerJoin { player_id, .. } => player_id,
            GameCommand::PlayerMove { player_id, .. } => player_id,
            GameCommand::PlaceBomb { player_id, .. } => player_id,
            GameCommand::PlayerDisconnect { player_id } => player_id,
        }
    }
}

/// What is to be done for the sender of a command once the command has
/// been applied.
#[derive(Debug)]
pub enum CommandEffect {
    /// The player is in the match now and has a route: acknowledgments
    /// of its commands go to it from now on.
    Joined,
    /// The request to join was refused, for the reason given. Nothing is
    /// sent.
    Refused(String),
    /// This acknowledgment is sent to the sender of the command, and to
    /// nobody else.
    Reply(ServerMessage),
    /// The sender has no route: nothing is sent.
    Silent,
    /// The player has left the match and its route is gone.
    Left,
}

/// The mathematical model of a command's effect.
pub enum EffectView {
    Joined,
    Refused(Seq<char>),
    Reply(MessageView),
    Silent,
    Left,
}

impl View for CommandEffect {
    type V = EffectView;

    open spec fn view(&self) -> EffectView {
        match *self {
            CommandEffect::Joined => EffectView::Joined,
            CommandEffect::Refused(reason) => EffectView::Refused(reason@),
            CommandEffect::Reply(message) => EffectView::Reply(message@),
            CommandEffect::Silent => EffectView::Silent,
            CommandEffect::Left => EffectView::Left,
        }
    }
}

/// The command that a client's message stands for, if it stands for one.
/// Extraction is accepted and has no effect yet; a ping is answered by
/// the transport.
pub open spec fn command_of(message: ClientMessage, player_id: u128) -> Option<GameCommand> {
    match message {
        ClientMessage::Move { direction, sequence } => Some(
            GameCommand::PlayerMove { player_id, direction, sequence },
        ),
        ClientMessage::PlaceBomb { sequence } => Some(GameCommand::PlaceBomb { player_id, sequence }),
        ClientMessage::Extract { .. } => None,
        ClientMessage::Ping { .. } => None,
    }
}

/// Turns a message of the client `player_id` into the command to apply,
/// if there is one.
pub fn handle_client_message(message: ClientMessage, player_id: u128) -> (r: Option<GameCommand>)
    ensures
        r == command_of(message, player_id),
{
    match message {
        ClientMessage::Move { direction, sequence } => Some(
            GameCommand::PlayerMove { player_id, direction, sequence },
        ),
        ClientMessage::PlaceBomb { sequence } => Some(GameCommand::PlaceBomb { player_id, sequence }),
        ClientMessage::Extract { sequence: _ } => None,
        ClientMessage::Ping { timestamp: _ } => None,
    }
}

/// The message that welcomes a new connection.
pub fn welcome(player_id: u128, tick_rate_ms: u32) -> (message: ServerMessage)
    ensures
        message@ == (MessageView::Welcome { player_id, tick_rate_ms }),
{
    ServerMessage::Welcome { player_id, tick_rate_ms }
}

/// The acknowledgment of a move. A move that succeeded is acknowledged
/// with the new position. A move that was rejected is acknowledged with
/// the reason and with the position at which the player still stands, if
/// it is in the match.
pub open spec fn move_ack(
    sequence: u64,
    outcome: Result<Position, MoveError>,
    standing: Option<Position>,
) -> MessageView {
    match outcome {
        Ok(position) => MessageView::CommandAck { sequence, success: true, position: Some(position), error: None },
        Err(e) => MessageView::CommandAck { sequence, success: false, position: standing, error: Some(e.text()) },
    }
}

/// The acknowledgment of a bomb placement. It carries no position.
pub open spec fn bomb_ack(sequence: u64, outcome: Result<Position, BombPlacementError>) -> MessageView {
    match outcome {
        Ok(_) => MessageView::CommandAck { sequence, success: true, position: None, error: None },
        Err(e) => MessageView::CommandAck { sequence, success: false, position: None, error: Some(e.text()) },
    }
}

/// The notification of a detonation.
pub open spec fn detonation_message(event: Detonation) -> MessageView {
    MessageView::BombDetonation {
        bomb_id: event.bomb_id,
        position: event.position,
        blast_tiles: event.blast_tiles,
        destroyed_tiles: event.destroyed_tiles,
    }
}

/// The notification of damage.
pub open spec fn damage_message(event: DamageEvent) -> MessageView {
    MessageView::PlayerDamaged {
        player_id: event.0,
        damage_amount: event.1,
        new_health: event.2,
        killer_id: event.3,
    }
}

/// The notification of a death.
pub open spec fn death_message(event: DeathEvent) -> MessageView {
    MessageView::PlayerDied { player_id: event.0, killer_id: event.1, position: event.2 }
}

/// The snapshot of the match.
pub open spec fn state_update(game: MatchModel) -> MessageView {
    MessageView::StateUpdate {
        tick: game.tick,
        players: player_states(game.players),
        bombs: bomb_states(game.bombs, game.config.tick_rate_ms),
        time_remaining_ms: game.time_remaining_ms,
    }
}

/// What is broadcast after a tick, in this order: the detonations, the
/// damage, the deaths, each in the order in which it happened, and last
/// the snapshot of the match.
pub open spec fn tick_broadcast(game: MatchModel) -> Seq<MessageView> {
    game.detonations.map_values(|e: Detonation| detonation_message(e)) + game.damage_events.map_values(
        |e: DamageEvent| damage_message(e),
    ) + game.death_events.map_values(|e: DeathEvent| death_message(e)) + seq![state_update(game)]
}

/// The coordinator of one match: the state of the match and the players
/// to whom acknowledgments can be sent.
#[derive(Debug)]
pub struct GameServer {
    pub state: GameState,
    /// The players that have a route, in the order in which they joined.
    pub routes: Vec<u128>,
}

/// The mathematical model of the coordinator.
pub struct ServerView {
    pub game: MatchModel,
    pub routes: Seq<u128>,
}

impl View for GameServer {
    type V = ServerView;

    open spec fn view(&self) -> ServerView {
        ServerView { game: self.state@, routes: self.routes@ }
    }
}

impl ServerView {
    /// Whether acknowledgments can be sent to the player.
    pub open spec fn routed(self, player_id: u128) -> bool {
        self.routes.contains(player_id)
    }

    /// The routes with the player's route among them.
    pub open spec fn with_route(self, player_id: u128) -> Seq<u128> {
        if self.routed(player_id) {
            self.routes
        } else {
            self.routes.push(player_id)
        }
    }

    /// The routes without the player's route.
    pub open spec fn without_route(self, player_id: u128) -> Seq<u128> {
        match first_index(self.routes, player_id) {
            Some(i) => self.routes.remove(i),
            None => self.routes,
        }
    }

    /// The position at which the player stands, if it is in the match.
    pub open spec fn standing(self, player_id: u128) -> Option<Position> {
        match self.game.player_slot(player_id) {
            Some(i) => Some(self.game.players[i].position),
            None => None,
        }
    }

    /// What is to be done for the sender once the command has been
    /// applied. A command of a player without a route is applied and not
    /// acknowledged.
    pub open spec fn effect(self, command: GameCommand) -> EffectView {
        match command {
            GameCommand::PlayerJoin { player_id, spawn_position } => match self.game.join_outcome(
                player_id,
                spawn_position,
            ) {
                Ok(_) => EffectView::Joined,
                Err(reason) => EffectView::Refused(reason),
            },
            GameCommand::PlayerMove { player_id, direction, sequence } => if self.routed(player_id) {
                EffectView::Reply(
                    move_ack(sequence, self.game.move_outcome(player_id, direction), self.standing(player_id)),
                )
            } else {
                EffectView::Silent
            },
            GameCommand::PlaceBomb { player_id, sequence } => if self.routed(player_id) {
                EffectView::Reply(bomb_ack(sequence, self.game.placement_outcome(player_id)))
            } else {
                EffectView::Silent
            },
            GameCommand::PlayerDisconnect { .. } => EffectView::Left,
        }
    }

    /// The coordinator after the command, where a bomb that the command
    /// places gets the identifier `bomb_id`.
    pub open spec fn after_command(self, command: GameCommand, bomb_id: u128) -> ServerView {
        match command {
            GameCommand::PlayerJoin { player_id, spawn_position } => ServerView {
                game: self.game.after_join(player_id, spawn_position),
                routes: if self.game.join_outcome(player_id, spawn_position) is Ok {
                    self.with_route(player_id)
                } else {
                    self.routes
                },
            },
            GameCommand::PlayerMove { player_id, direction, sequence } => ServerView {
                game: self.game.after_move(player_id, direction, sequence),
                ..self
            },
            GameCommand::PlaceBomb { player_id, sequence } => ServerView {
                game: self.game.after_placement(player_id, sequence, bomb_id),
                ..self
            },
            GameCommand::PlayerDisconnect { player_id } => ServerView {
                game: self.game.after_leave(player_id),
                routes: self.without_route(player_id),
            },
        }
    }
}

impl ServerView {
    /// The routes and the players agree: no player has two routes, no
    /// identifier is in the match twice, and a player has a route exactly
    /// if it is in the match.
    pub open spec fn consistent(self) -> bool {
        &&& distinct(self.routes)
        &&& distinct(player_ids(self.game.players))
        &&& forall|player_id: u128| #[trigger]
            self.routed(player_id) <==> player_ids(self.game.players).contains(player_id)
    }
}

/// Commands keep routes and players in agreement: after any command, as
/// before it, a player has a route exactly if it is in the match.
pub proof fn lemma_commands_keep_routes(server: ServerView, command: GameCommand, bomb_id: u128)
    requires
        server.consistent(),
    ensures
        server.after_command(command, bomb_id).consistent(),
{
    let after = server.after_command(command, bomb_id);
    let ids = player_ids(server.game.players);
    let ids_after = player_ids(after.game.players);
    match command {
        GameCommand::PlayerJoin { player_id, spawn_position } => {
            lemma_join_keeps_players_distinct(server.game, player_id, spawn_position);
            lemma_first_index(ids, player_id);
            if server.game.join_outcome(player_id, spawn_position) is Ok {
                assert(!server.routed(player_id));
                assert(ids_after =~= ids.push(player_id));
                assert(after.routes == server.routes.push(player_id));
                assert forall|a: int, b: int| 0 <= a < b < after.routes.len() implies after.routes[a]
                    != after.routes[b] by {
                    if b == server.routes.len() {
                        assert(server.routes[a] != player_id);
                    }
                }
                assert forall|other: u128| #[trigger] after.routed(other) <==> ids_after.contains(other) by {
                    lemma_push_contains(server.routes, player_id, other);
                    lemma_push_contains(ids, player_id, other);
                    assert(server.routed(other) <==> ids.contains(other));
                }
            }
        },
        GameCommand::PlayerMove { player_id, direction, sequence } => {
            lemma_first_index(ids, player_id);
            assert(ids_after =~= ids);
            assert forall|other: u128| #[trigger] after.routed(other) <==> ids_after.contains(other) by {
                assert(server.routed(other) <==> ids.contains(other));
            }
        },
        GameCommand::PlaceBomb { player_id, sequence } => {
            lemma_first_index(ids, player_id);
            assert(ids_after =~= ids);
            assert forall|other: u128| #[trigger] after.routed(other) <==> ids_after.contains(other) by {
                assert(server.routed(other) <==> ids.contains(other));
            }
        },
        GameCommand::PlayerDisconnect { player_id } => {
            lemma_leave_keeps_players_distinct(server.game, player_id);
            lemma_first_index(ids, player_id);
            lemma_first_index(server.routes, player_id);
            assert(server.routed(player_id) <==> ids.contains(player_id));
            match first_index(server.routes, player_id) {
                Some(r) => {
                    let p = first_index(ids, player_id).unwrap();
                    assert(ids_after =~= ids.remove(p));
                    assert forall|other: u128| #[trigger] after.routed(other) <==> ids_after.contains(other) by {
                        lemma_remove_contains(server.routes, r, other);
                        lemma_remove_contains(ids, p, other);
                        assert(server.routed(other) <==> ids.contains(other));
                    }
                },
                None => {
                    assert(ids_after == ids);
                },
            }
        },
    }
}

/// Ticks keep routes and players in agreement: a tick neither adds nor
/// removes a player.
pub proof fn lemma_ticks_keep_routes(server: ServerView)
    requires
        server.consistent(),
    ensures
        (ServerView { game: server.game.after_tick(), ..server }).consistent(),
{
    let after = ServerView { game: server.game.after_tick(), ..server };
    lemma_tick_keeps_roster(server.game);
    assert(player_ids(after.game.players) =~= player_ids(server.game.players));
    assert forall|other: u128| #[trigger] after.routed(other) <==> player_ids(after.game.players).contains(
        other,
    ) by {
        assert(server.routed(other) <==> player_ids(server.game.players).contains(other));
    }
}

/// What a sequence holds after a push: what it held, and the new element.
proof fn lemma_push_contains(ids: Seq<u128>, new: u128, other: u128)
    ensures
        ids.push(new).contains(other) <==> ids.contains(other) || other == new,
{
    if ids.contains(other) {
        let k = choose|k: int| 0 <= k < ids.len() && ids[k] == other;
        assert(ids.push(new)[k] == other);
    }
    if other == new {
        assert(ids.push(new)[ids.len() as int] == other);
    }
}

/// What a sequence of distinct elements holds after one is removed: what
/// it held, but for that element.
proof fn lemma_remove_contains(ids: Seq<u128>, i: int, other: u128)
    requires
        distinct(ids),
        0 <= i < ids.len(),
    ensures
        distinct(ids.remove(i)),
        ids.remove(i).contains(other) <==> ids.contains(other) && other != ids[i],
{
    let rest = ids.remove(i);
    assert forall|a: int, b: int| 0 <= a < b < rest.len() implies rest[a] != rest[b] by {
        let a0 = if a < i { a } else { a + 1 };
        let b0 = if b < i { b } else { b + 1 };
        assert(rest[a] == ids[a0] && rest[b] == ids[b0]);
    }
    if rest.contains(other) {
        let k = choose|k: int| 0 <= k < rest.len() && rest[k] == other;
        let k0 = if k < i { k } else { k + 1 };
        assert(ids[k0] == other);
    }
    if ids.contains(other) && other != ids[i] {
        let k = choose|k: int| 0 <= k < ids.len() && ids[k] == other;
        if k < i {
            assert(rest[k] == other);
        } else {
            assert(rest[k - 1] == other);
        }
    }
}

/// An acknowledgment carries the sequence number of the command that it
/// answers, whether the command succeeded or not, while the sequence
/// number that the match records for the player moves on only with a
/// command that succeeded.
pub proof fn lemma_ack_carries_sequence(server: ServerView, command: GameCommand, bomb_id: u128)
    requires
        server.routed(command.sender()),
    ensures
        match command {
            GameCommand::PlayerMove { player_id, direction, sequence } => {
                &&& server.effect(command) matches EffectView::Reply(
                    MessageView::CommandAck { sequence: acked, success, .. },
                )
                &&& acked == sequence
                &&& success == server.game.move_outcome(player_id, direction) is Ok
                &&& !success ==> server.after_command(command, bomb_id) == server
            },
            GameCommand::PlaceBomb { player_id, sequence } => {
                &&& server.effect(command) matches EffectView::Reply(
                    MessageView::CommandAck { sequence: acked, success, .. },
                )
                &&& acked == sequence
                &&& success == server.game.placement_outcome(player_id) is Ok
                &&& !success ==> server.after_command(command, bomb_id) == server
            },
            _ => true,
        },
{
}

/// A copy of a list of positions.
fn copy_positions(cells: &Vec<Position>) -> (r: Vec<Position>)
    ensures
        r@ == cells@,
{
    let mut r: Vec<Position> = Vec::new();
    let mut i: usize = 0;
    while i < cells.len()
        invariant
            i <= cells@.len(),
            r@ == cells@.take(i as int),
        decreases cells@.len() - i,
    {
        r.push(cells[i]);
        assert(cells@.take(i + 1) =~= cells@.take(i as int).push(cells@[i as int]));
        i += 1;
    }
    assert(cells@.take(cells@.len() as int) =~= cells@);
    r
}

/// Finds the first route of the player.
fn find_route(routes: &Vec<u128>, player_id: u128) -> (r: Option<usize>)
    ensures
        match r {
            Some(i) => first_index(routes@, player_id) == Some(i as int) && i < routes@.len(),
            None => first_index(routes@, player_id) is None,
        },
        r is Some <==> routes@.contains(player_id),
{
    let mut i: usize = 0;
    while i < routes.len()
        invariant
            i <= routes@.len(),
            forall|j: int| 0 <= j < i ==> routes@[j] != player_id,
        decreases routes@.len() - i,
    {
        if routes[i] == player_id {
            proof {
                lemma_first_index_is(routes@, player_id, i as int);
            }
            return Some(i);
        }
        i += 1;
    }
    proof {
        lemma_first_index(routes@, player_id);
    }
    None
}

impl GameServer {
    /// A coordinator for a new match on the given grid.
    pub fn new(match_id: u128, grid: Grid, config: MatchConfig) -> (server: GameServer)
        ensures
            server@ == (ServerView { game: MatchModel::initial(match_id, grid@, config), routes: Seq::empty() }),
    {
        GameServer { state: GameState::new(match_id, grid, config), routes: Vec::new() }
    }

    /// The current tick count.
    pub fn get_tick(&self) -> (tick: u64)
        ensures
            tick == self@.game.tick,
    {
        self.state.tick
    }

    /// Whether the match is active. Once it is not, no further tick is
    /// to be scheduled.
    pub fn is_active(&self) -> (active: bool)
        ensures
            active == self@.game.is_active,
    {
        self.state.is_active
    }

    /// Advances the match by one tick and returns what is to be broadcast
    /// to all players, in the order in which it is to be sent.
    pub fn process_tick(&mut self) -> (messages: Vec<ServerMessage>)
        requires
            old(self)@.game.can_tick(),
            timers_fit(old(self)@.game.bombs, old(self)@.game.config.tick_rate_ms),
        ensures
            final(self)@ == (ServerView { game: old(self)@.game.after_tick(), ..old(self)@ }),
            message_views(messages@) == tick_broadcast(final(self)@.game),
    {
        proof {
            lemma_tick_keeps_timers_fit(self@.game);
        }
        self.state.tick();
        let ghost game = self@.game;
        let ghost first = game.detonations.map_values(|e: Detonation| detonation_message(e));
        let ghost second = game.damage_events.map_values(|e: DamageEvent| damage_message(e));
        let ghost third = game.death_events.map_values(|e: DeathEvent| death_message(e));
        let mut messages: Vec<ServerMessage> = Vec::new();
        let mut i: usize = 0;
        while i < self.state.pending_detonations.len()
            invariant
                game == self@.game,
                first == game.detonations.map_values(|e: Detonation| detonation_message(e)),
                i <= first.len(),
                messages@.len() == i,
                forall|j: int| 0 <= j < i ==> (#[trigger] messages@[j])@ == first[j],
            decreases first.len() - i,
        {
            let event = &self.state.pending_detonations[i];
            messages.push(
                ServerMessage::BombDetonation {
                    bomb_id: event.0,
                    position: event.1,
                    blast_tiles: copy_positions(&event.2),
                    destroyed_tiles: copy_positions(&event.3),
                },
            );
            i += 1;
        }
        let mut i: usize = 0;
        while i < self.state.pending_damage_events.len()
            invariant
                game == self@.game,
                second == game.damage_events.map_values(|e: DamageEvent| damage_message(e)),
                i <= second.len(),
                messages@.len() == first.len() + i,
                forall|j: int| 0 <= j < first.len() ==> (#[trigger] messages@[j])@ == first[j],
                forall|j: int| 0 <= j < i ==> (#[trigger] messages@[first.len() + j])@ == second[j],
            decreases second.len() - i,
        {
            let event = self.state.pending_damage_events[i];
            messages.push(
                ServerMessage::PlayerDamaged {
                    player_id: event.0,
                    damage_amount: event.1,
                    new_health: event.2,
                    killer_id: event.3,
                },
            );
            i += 1;
        }
        let mut i: usize = 0;
        while i < self.state.pending_death_events.len()
            invariant
                game == self@.game,
                third == game.death_events.map_values(|e: DeathEvent| death_message(e)),
                i <= third.len(),
                messages@.len() == first.len() + second.len() + i,
                forall|j: int| 0 <= j < first.len() ==> (#[trigger] messages@[j])@ == first[j],
                forall|j: int| 0 <= j < second.len() ==> (#[trigger] messages@[first.len() + j])@ == second[j],
                forall|j: int|
                    0 <= j < i ==> (#[trigger] messages@[first.len() + second.len() + j])@ == third[j],
            decreases third.len() - i,
        {
            let event = self.state.pending_death_events[i];
            messages.push(
                ServerMessage::PlayerDied { player_id: event.0, killer_id: event.1, position: event.2 },
            );
            i += 1;
        }
        messages.push(
            ServerMessage::StateUpdate {
                tick: self.state.tick,
                players: self.state.get_player_states(),
                bombs: self.state.get_bomb_states(),
                time_remaining_ms: self.state.time_remaining_ms,
            },
        );
        proof {
            let sent = message_views(messages@);
            let due = tick_broadcast(game);
            assert(sent.len() == due.len());
            assert forall|j: int| 0 <= j < sent.len() implies sent[j] == due[j] by {
                if j < first.len() {
                    assert(messages@[j]@ == first[j]);
                } else if j < first.len() + second.len() {
                    assert(messages@[first.len() + (j - first.len())]@ == second[j - first.len()]);
                } else if j < first.len() + second.len() + third.len() {
                    assert(messages@[first.len() + second.len() + (j - first.len() - second.len())]@
                        == third[j - first.len() - second.len()]);
                } else {
                }
            }
            assert(sent =~= due);
        }
        messages
    }

    /// Applies one command to the match and says what is to be done for
    /// its sender.
    pub fn process_command(&mut self, command: GameCommand) -> (effect: CommandEffect)
        ensures
            effect@ == old(self)@.effect(command),
            exists|bomb_id: u128| final(self)@ == #[trigger] old(self)@.after_command(command, bomb_id),
    {
        match command {
            GameCommand::PlayerJoin { player_id, spawn_position } => {
                match self.state.add_player(player_id, spawn_position) {
                    Ok(_) => {
                        if find_route(&self.routes, player_id).is_none() {
                            self.routes.push(player_id);
                        }
                        assert(self@ == old(self)@.after_command(command, 0));
                        CommandEffect::Joined
                    },
                    Err(reason) => {
                        assert(self@ == old(self)@.after_command(command, 0));
                        CommandEffect::Refused(reason)
                    },
                }
            },
            GameCommand::PlayerMove { player_id, direction, sequence } => {
                let standing = match self.state.get_player(&player_id) {
                    Some(player) => Some(player.position),
                    None => None,
                };
                let result = self.state.process_move(&player_id, direction, sequence);
                assert(self@ == old(self)@.after_command(command, 0));
                if find_route(&self.routes, player_id).is_some() {
                    let ack = match result {
                        Ok(position) => ServerMessage::CommandAck {
                            sequence,
                            success: true,
                            position: Some(position),
                            error: None,
                        },
                        Err(e) => ServerMessage::CommandAck {
                            sequence,
                            success: false,
                            position: standing,
                            error: Some(e.message()),
                        },
                    };
                    CommandEffect::Reply(ack)
                } else {
                    CommandEffect::Silent
                }
            },
            GameCommand::PlaceBomb { player_id, sequence } => {
                let result = self.state.place_bomb(&player_id, sequence);
                proof {
                    match result {
                        Ok(bomb_id) => {
                            assert(self@ == old(self)@.after_command(command, bomb_id));
                        },
                        Err(_) => {
                            assert(self@ == old(self)@.after_command(command, 0));
                        },
                    }
                }
                if find_route(&self.routes, player_id).is_some() {
                    let ack = match result {
                        Ok(_) => ServerMessage::CommandAck { sequence, success: true, position: None, error: None },
                        Err(e) => ServerMessage::CommandAck {
                            sequence,
                            success: false,
                            position: None,
                            error: Some(e.message()),
                        },
                    };
                    CommandEffect::Reply(ack)
                } else {
                    CommandEffect::Silent
                }
            },
            GameCommand::PlayerDisconnect { player_id } => {
                self.state.remove_player(&player_id);
                match find_route(&self.routes, player_id) {
                    Some(i) => {
                        self.routes.remove(i);
                    },
                    None => {},
                }
                assert(self@ == old(self)@.after_command(command, 0));
                CommandEffect::Left
            },
        }
    }
}

} // verus!
