//! Messages between clients and the server.

use vstd::prelude::*;
use crate::player::{Direction, Position};

verus! {

/// Messages sent from client to server.
#[derive(Debug, Clone, Copy, PartialEq, Eq, Structural)]
pub enum ClientMessage {
    /// Player movement command.
    Move { direction: Direction, sequence: u64 },
    /// Place a bomb at the current position.
    PlaceBomb { sequence: u64 },
    /// Request extraction at the current position.
    Extract { sequence: u64 },
    /// Ping for latency measurement.
    Ping { timestamp: u64 },
}

/// Player state for state updates.
#[derive(Debug, Clone, Copy, PartialEq, Eq, Structural)]
pub struct PlayerState {
    pub id: u128,
    pub position: Position,
    pub health: i32,
    pub is_alive: bool,
}

/// Bomb state for state updates.
#[derive(Debug, Clone, Copy, PartialEq, Eq, Structural)]
pub struct BombState {
    pub id: u128,
    pub position: Position,
    pub owner_id: u128,
    pub timer_ms: u32,
}

/// Reason for match ending.
#[derive(Debug, Clone, Copy, PartialEq, Eq, Structural)]
pub enum MatchEndReason {
    TimerExpired,
    AllPlayersExtracted,
    AllPlayersDead,
    ServerShutdown,
}

/// Messages sent from server to client.
#[derive(Debug)]
#[allow(inconsistent_fields)]
pub enum ServerMessage {
    /// Welcome message on connection.
    Welcome { player_id: u128, tick_rate_ms: u32 },
    /// Full game state update, broadcast every tick.
    StateUpdate { tick: u64, players: Vec<PlayerState>, bombs: Vec<BombState>, time_remaining_ms: u64 },
    /// Acknowledgment of a client command, carrying the command's sequence
    /// number.
    CommandAck { sequence: u64, success: bool, position: Option<Position>, error: Option<String> },
    /// Player died notification.
    PlayerDied { player_id: u128, killer_id: Option<u128>, position: Position },
    /// Match ended.
    MatchEnded { reason: MatchEndReason },
    /// A bomb detonated.
    BombDetonation { bomb_id: u128, position: Position, blast_tiles: Vec<Position>, destroyed_tiles: Vec<Position> },
    /// A player took damage.
    PlayerDamaged { player_id: u128, damage_amount: i32, new_health: i32, killer_id: Option<u128> },
    /// A player extracted.
    PlayerExtracted { player_id: u128, position: Position },
    /// Pong response.
    Pong { timestamp: u64 },
    /// Error message.
    Error { message: String },
    /// Countdown in the lobby.
    LobbyCountdown { seconds_remaining: u32 },
    /// A player disconnected.
    PlayerDisconnected { player_id: u128 },
}

/// The mathematical model of a server message.
#[allow(inconsistent_fields)]
pub enum MessageView {
    Welcome { player_id: u128, tick_rate_ms: u32 },
    StateUpdate { tick: u64, players: Seq<PlayerState>, bombs: Seq<BombState>, time_remaining_ms: u64 },
    CommandAck { sequence: u64, success: bool, position: Option<Position>, error: Option<Seq<char>> },
    PlayerDied { player_id: u128, killer_id: Option<u128>, position: Position },
    MatchEnded { reason: MatchEndReason },
    BombDetonation { bomb_id: u128, position: Position, blast_tiles: Seq<Position>, destroyed_tiles: Seq<Position> },
    PlayerDamaged { player_id: u128, damage_amount: i32, new_health: i32, killer_id: Option<u128> },
    PlayerExtracted { player_id: u128, position: Position },
    Pong { timestamp: u64 },
    Error { message: Seq<char> },
    LobbyCountdown { seconds_remaining: u32 },
    PlayerDisconnected { player_id: u128 },
}

impl View for ServerMessage {
    type V = MessageView;

    open spec fn view(&self) -> MessageView {
        match *self {
            ServerMessage::Welcome { player_id, tick_rate_ms } => MessageView::Welcome { player_id, tick_rate_ms },
            ServerMessage::StateUpdate { tick, players, bombs, time_remaining_ms } => MessageView::StateUpdate {
                tick,
                players: players@,
                bombs: bombs@,
                time_remaining_ms,
            },
            ServerMessage::CommandAck { sequence, success, position, error } => MessageView::CommandAck {
                sequence,
                success,
                position,
                error: match error {
                    Some(text) => Some(text@),
                    None => None,
                },
            },
            ServerMessage::PlayerDied { player_id, killer_id, position } => MessageView::PlayerDied {
                player_id,
                killer_id,
                position,
            },
            ServerMessage::MatchEnded { reason } => MessageView::MatchEnded { reason },
            ServerMessage::BombDetonation {
                bomb_id,
                position,
                blast_tiles,
                destroyed_tiles,
            } => MessageView::BombDetonation {
                bomb_id,
                position,
                blast_tiles: blast_tiles@,
                destroyed_tiles: destroyed_tiles@,
            },
            ServerMessage::PlayerDamaged {
                player_id,
                damage_amount,
                new_health,
                killer_id,
            } => MessageView::PlayerDamaged { player_id, damage_amount, new_health, killer_id },
            ServerMessage::PlayerExtracted { player_id, position } => MessageView::PlayerExtracted {
                player_id,
                position,
            },
            ServerMessage::Pong { timestamp } => MessageView::Pong { timestamp },
            ServerMessage::Error { message } => MessageView::Error { message: message@ },
            ServerMessage::LobbyCountdown { seconds_remaining } => MessageView::LobbyCountdown {
                seconds_remaining,
            },
            ServerMessage::PlayerDisconnected { player_id } => MessageView::PlayerDisconnected { player_id },
        }
    }
}

/// The models of a sequence of messages, each in its place.
pub open spec fn message_views(messages: Seq<ServerMessage>) -> Seq<MessageView> {
    messages.map_values(|m: ServerMessage| m@)
}

} // verus!
