use vstd::prelude::*;
use vstd::string::StringExecFns;
use crate::position::{Position, clamp_pos, COORD_LIMIT};
use crate::player::{Player, new_player_spec};
use crate::enemy::Enemy;
use crate::projectile::Projectile;
use crate::score::ScoreEntry;
use crate::upgrades::UpgradeType;
use crate::world::{GameState, UpgradeError, state_wf, has_player, has_pending, moved_player_spec};

verus! {

/// Client-to-server intents.
#[derive(Debug, Clone)]
pub enum ClientMessage {
    /// Join the game
    Join,
    /// Move the player toward a target position
    Move { target: Position },
    /// Choose an upgrade after leveling up
    ChooseUpgrade { upgrade: UpgradeType },
}

/// Server-to-client snapshots and notices.
#[derive(Debug, Clone)]
pub enum ServerMessage {
    /// Welcome message with the assigned player identity
    Welcome { player_id: u64 },
    /// Full game state update (not a delta)
    GameState {
        players: Vec<Player>,
        enemies: Vec<Enemy>,
        projectiles: Vec<Projectile>,
        game_time: u64,
    },
    /// Player death notification
    PlayerDied {
        player_id: u64,
        max_ring: u32,
        survival_time: u64,
        enemies_defeated: u32,
        score_recorded: bool,
    },
    /// Top scores
    Scoreboard { scores: Vec<ScoreEntry> },
    /// Player leveled up: present the upgrade choices
    LevelUp { player_id: u64, new_level: u64, upgrade_choices: Vec<UpgradeType> },
    /// Error message
    Error { message: String },
}

/// Apply one inbound client intent to the world. `Join` assigns a fresh
/// identity (returned as the new session identity, with a `Welcome` reply).
/// `Move` walks the player toward the target, first clamped into the arena's
/// coordinate bound; it is a silent no-op for a session without an identity
/// or a stale identity. `ChooseUpgrade` resolves a pending level-up,
/// answering a validation failure with an `Error` reply for this client only.
pub fn apply_client_message(
    state: &mut GameState,
    session_player: Option<u64>,
    msg: &ClientMessage,
) -> (r: (Option<u64>, Option<ServerMessage>))
    requires
        state_wf(*old(state)),
        (msg is Join) ==> old(state).next_entity_id < u64::MAX,
    ensures
        state_wf(*final(state)),
        (msg is Join) ==> {
            &&& r.0 == Some(old(state).next_entity_id)
            &&& r.1 == Some(ServerMessage::Welcome { player_id: old(state).next_entity_id })
            &&& exists|t: i64| final(state).players@
                == old(state).players@.push(new_player_spec(old(state).next_entity_id, t))
            &&& final(state).next_entity_id == old(state).next_entity_id + 1
        },
        (match msg {
            ClientMessage::Move { target } => {
                &&& r.0 == session_player
                &&& r.1 is None
                &&& (session_player is None) ==> *final(state) == *old(state)
                &&& (session_player is Some) ==> {
                    &&& final(state).players@.len() == old(state).players@.len()
                    &&& forall|j: int| 0 <= j < old(state).players@.len()
                        ==> final(state).players@[j] == (if old(state).players@[j].id
                            == session_player.unwrap() {
                            moved_player_spec(
                                #[trigger] old(state).players@[j],
                                clamp_pos(*target),
                                old(state).config.ring_radius as int,
                                1000 as int / old(state).config.tick_rate as int,
                            )
                        } else {
                            old(state).players@[j]
                        })
                    &&& *final(state) == (GameState {
                        players: final(state).players,
                        ..*old(state)
                    })
                }
            },
            _ => true,
        }),
        (match msg {
            ClientMessage::ChooseUpgrade { upgrade } => {
                &&& r.0 == session_player
                &&& (match session_player {
                    Some(pid) => {
                        &&& (has_player(old(state).players@, pid)
                            && has_pending(old(state).pending_level_ups@, pid)) ==> {
                            &&& r.1 is None
                            &&& final(state).players@.len() == old(state).players@.len()
                            &&& (forall|j: int| 0 <= j < old(state).players@.len()
                                ==> final(state).players@[j]
                                    == (if old(state).players@[j].id == pid {
                                        crate::player::upgraded_player_spec(
                                            #[trigger] old(state).players@[j],
                                            *upgrade,
                                        )
                                    } else {
                                        old(state).players@[j]
                                    }))
                            &&& exists|pi: int| 0 <= pi < old(state).pending_level_ups@.len()
                                && old(state).pending_level_ups@[pi].player_id == pid
                                && final(state).pending_level_ups@
                                    == old(state).pending_level_ups@.remove(pi)
                            &&& *final(state) == (GameState {
                                players: final(state).players,
                                pending_level_ups: final(state).pending_level_ups,
                                ..*old(state)
                            })
                        }
                        &&& !(has_player(old(state).players@, pid)
                            && has_pending(old(state).pending_level_ups@, pid))
                            ==> (r.1 is Some && *final(state) == *old(state))
                    },
                    None => *final(state) == *old(state) && r.1 is Some,
                })
            },
            _ => true,
        }),
{
    match msg {
        ClientMessage::Join => {
            let id = state.next_entity_id;
            let _player = state.add_player();
            (Some(id), Some(ServerMessage::Welcome { player_id: id }))
        }
        ClientMessage::Move { target } => {
            match session_player {
                Some(pid) => {
                    let clamped = Position {
                        x: clamp_into_bounds(target.x),
                        y: clamp_into_bounds(target.y),
                    };
                    let delta_time = 1000 / state.config.tick_rate;
                    state.move_player(pid, clamped, delta_time as i64);
                    (session_player, None)
                }
                None => (session_player, None),
            }
        }
        ClientMessage::ChooseUpgrade { upgrade } => {
            match session_player {
                Some(pid) => {
                    match state.apply_upgrade(pid, *upgrade) {
                        Ok(()) => (session_player, None),
                        Err(e) => {
                            let message = match e {
                                UpgradeError::PlayerNotFound => String::from_str("Player not found"),
                                UpgradeError::NoPendingLevelUp => String::from_str(
                                    "No pending level up",
                                ),
                            };
                            (session_player, Some(ServerMessage::Error { message }))
                        }
                    }
                }
                None => (
                    session_player,
                    Some(ServerMessage::Error { message: String::from_str("Join first") }),
                ),
            }
        }
    }
}

/// One coordinate clamped into the arena's coordinate bound.
fn clamp_into_bounds(x: i64) -> (r: i64)
    ensures
        r == crate::position::clamp_coord(x as int),
{
    if x > COORD_LIMIT {
        COORD_LIMIT
    } else if x < -COORD_LIMIT {
        -COORD_LIMIT
    } else {
        x
    }
}

} // verus!
