use vstd::prelude::*;
use crate::config::{GameConfig, config_wf};
use crate::player::{Player, player_wf, new_player_spec, can_attack_at, in_safe_zone_spec, damaged,
    TIME_CAP, CLOCK_CAP};
use crate::enemy::{Enemy, enemy_wf};
use crate::projectile::{Projectile, projectile_wf};
use crate::score::{ScoreEntry, score_entry_wf, sorted_desc, total_score_spec, SURVIVAL_CAP,
    insert_pos, insert_score_spec, lemma_insert_pos_unique, lemma_insert_score_sorted};
use crate::upgrades::{UpgradeType, valid_choices};
use crate::position::{Position, in_bounds, ring_spec, move_towards_spec, dist, dist_sq, origin,
    DT_CAP};
use crate::enemy::{EnemyType, pool_for_ring, stats_for_ring_spec, xp_for_ring_spec};
use crate::config::spawn_interval_ms;
use crate::external::{now_unix_ms, random_u64};

verus! {

/// One player's pending level-up: the upgrade choices offered and not yet
/// resolved.
#[derive(Debug, Clone)]
pub struct PendingLevelUp {
    pub player_id: u64,
    pub choices: Vec<UpgradeType>,
}

/// Why an upgrade selection was rejected.
#[derive(Debug, Clone, Copy, PartialEq, Eq, Structural)]
pub enum UpgradeError {
    PlayerNotFound,
    NoPendingLevelUp,
}

pub open spec fn players_unique(s: Seq<Player>) -> bool {
    forall|i: int, j: int| 0 <= i < j < s.len() ==> s[i].id != s[j].id
}

pub open spec fn enemies_unique(s: Seq<Enemy>) -> bool {
    forall|i: int, j: int| 0 <= i < j < s.len() ==> s[i].id != s[j].id
}

pub open spec fn projectiles_unique(s: Seq<Projectile>) -> bool {
    forall|i: int, j: int| 0 <= i < j < s.len() ==> s[i].id != s[j].id
}

pub open spec fn pending_unique(s: Seq<PendingLevelUp>) -> bool {
    forall|i: int, j: int| 0 <= i < j < s.len() ==> s[i].player_id != s[j].player_id
}

pub open spec fn has_player(s: Seq<Player>, id: u64) -> bool {
    exists|i: int| 0 <= i < s.len() && s[i].id == id
}

pub open spec fn has_pending(s: Seq<PendingLevelUp>, id: u64) -> bool {
    exists|i: int| 0 <= i < s.len() && s[i].player_id == id
}

/// The aggregate world state: every entity of one shared arena, keyed by
/// id inside its own list, plus the simulation bookkeeping.
#[derive(Debug)]
pub struct GameState {
    pub config: GameConfig,
    pub players: Vec<Player>,
    pub enemies: Vec<Enemy>,
    pub projectiles: Vec<Projectile>,
    pub scores: Vec<ScoreEntry>,
    /// simulation clock, ms
    pub game_time: u64,
    /// simulation time of the last spawn wave, ms
    pub last_spawn_time: u64,
    /// player id -> offered upgrade choices, at most one entry per player
    pub pending_level_ups: Vec<PendingLevelUp>,
    /// source of fresh entity identities: larger than every id in use
    pub next_entity_id: u64,
}

/// The world invariant: a usable configuration, well-formed entities with
/// pairwise distinct ids all below the id counter, a sorted and bounded
/// scoreboard, and a simulation clock within its cap.
pub open spec fn state_wf(s: GameState) -> bool {
    &&& config_wf(s.config)
    &&& forall|i: int| 0 <= i < s.players@.len()
        ==> player_wf(#[trigger] s.players@[i]) && s.players@[i].id < s.next_entity_id
    &&& players_unique(s.players@)
    &&& forall|i: int| 0 <= i < s.enemies@.len()
        ==> enemy_wf(#[trigger] s.enemies@[i]) && s.enemies@[i].id < s.next_entity_id
    &&& enemies_unique(s.enemies@)
    &&& forall|i: int| 0 <= i < s.projectiles@.len()
        ==> projectile_wf(#[trigger] s.projectiles@[i]) && s.projectiles@[i].id < s.next_entity_id
    &&& projectiles_unique(s.projectiles@)
    &&& sorted_desc(s.scores@)
    &&& s.scores@.len() <= s.config.max_scoreboard_entries
    &&& forall|i: int| 0 <= i < s.scores@.len() ==> score_entry_wf(#[trigger] s.scores@[i])
    &&& s.game_time <= TIME_CAP
    &&& s.last_spawn_time <= s.game_time
    &&& pending_unique(s.pending_level_ups@)
    &&& forall|i: int| 0 <= i < s.pending_level_ups@.len()
        ==> valid_choices((#[trigger] s.pending_level_ups@[i]).choices@, Seq::empty())
}

/// Survival time in whole seconds between the spawn wall-clock time and
/// `now`, clamped to `[0, SURVIVAL_CAP]`.
pub open spec fn survival_secs(spawn: int, now: int) -> int {
    if now <= spawn {
        0
    } else if (now - spawn) / 1000 > SURVIVAL_CAP {
        SURVIVAL_CAP as int
    } else {
        (now - spawn) / 1000
    }
}

/// The score entry recorded for a departing player at wall-clock `now`.
pub open spec fn score_entry_spec(p: Player, now: int) -> ScoreEntry {
    ScoreEntry {
        player_id: p.id,
        max_ring_reached: p.max_ring_reached,
        survival_time_seconds: survival_secs(p.spawn_time as int, now) as u64,
        enemies_defeated: p.enemies_defeated,
        timestamp: now as i64,
    }
}

/// A player after a `move_towards` step toward `target`, with the deepest
/// ring reached kept monotone.
pub open spec fn moved_player_spec(p: Player, target: Position, ring_radius: int, dt: int) -> Player {
    let pos = move_towards_spec(p.position, target, p.movement_speed as int, dt);
    let r = ring_spec(pos, ring_radius);
    Player {
        position: pos,
        max_ring_reached: (if r > p.max_ring_reached { r } else { p.max_ring_reached as int }) as u32,
        ..p
    }
}

impl GameState {
    pub fn new(config: GameConfig) -> (r: GameState)
        requires
            config_wf(config),
        ensures
            r.config == config,
            r.players@.len() == 0,
            r.enemies@.len() == 0,
            r.projectiles@.len() == 0,
            r.scores@.len() == 0,
            r.game_time == 0,
            r.last_spawn_time == 0,
            r.pending_level_ups@.len() == 0,
            r.next_entity_id == 0,
            state_wf(r),
    {
        GameState {
            config,
            players: Vec::new(),
            enemies: Vec::new(),
            projectiles: Vec::new(),
            scores: Vec::new(),
            game_time: 0,
            last_spawn_time: 0,
            pending_level_ups: Vec::new(),
            next_entity_id: 0,
        }
    }

    /// Add a new player: allocate a fresh identity, create a baseline player
    /// spawned at wall-clock time `now_ms`, insert it, and return a copy.
    pub fn add_player_at(&mut self, now_ms: i64) -> (r: Player)
        requires
            state_wf(*old(self)),
            old(self).next_entity_id < u64::MAX,
            -CLOCK_CAP <= now_ms <= CLOCK_CAP,
        ensures
            state_wf(*final(self)),
            r == new_player_spec(old(self).next_entity_id, now_ms),
            final(self).players@ == old(self).players@.push(r),
            final(self).next_entity_id == old(self).next_entity_id + 1,
            *final(self) == (GameState {
                players: final(self).players,
                next_entity_id: final(self).next_entity_id,
                ..*old(self)
            }),
    {
        let id = self.next_entity_id;
        self.next_entity_id = self.next_entity_id + 1;
        let player = Player::new(id, now_ms);
        self.players.push(player);
        player
    }

    /// Add a new player, stamped with the wall clock. The clock's reading is
    /// outside the model, so the spawn time is existential here; everything
    /// else is pinned by `add_player_at`.
    pub fn add_player(&mut self) -> (r: Player)
        requires
            state_wf(*old(self)),
            old(self).next_entity_id < u64::MAX,
        ensures
            state_wf(*final(self)),
            exists|t: i64| r == new_player_spec(old(self).next_entity_id, t)
                && final(self).players@ == old(self).players@.push(
                    new_player_spec(old(self).next_entity_id, t),
                ),
            final(self).next_entity_id == old(self).next_entity_id + 1,
            *final(self) == (GameState {
                players: final(self).players,
                next_entity_id: final(self).next_entity_id,
                ..*old(self)
            }),
    {
        let now = clamp_clock(now_unix_ms());
        self.add_player_at(now)
    }

    /// Move a player toward `target` at the player's own movement speed.
    /// A stale or unknown identity is a silent no-op.
    pub fn move_player(&mut self, player_id: u64, target: Position, delta_time: i64)
        requires
            state_wf(*old(self)),
            in_bounds(target),
            0 <= delta_time <= DT_CAP,
        ensures
            state_wf(*final(self)),
            final(self).players@.len() == old(self).players@.len(),
            forall|j: int| 0 <= j < old(self).players@.len()
                ==> final(self).players@[j] == (if old(self).players@[j].id == player_id {
                    moved_player_spec(
                        #[trigger] old(self).players@[j],
                        target,
                        old(self).config.ring_radius as int,
                        delta_time as int,
                    )
                } else {
                    old(self).players@[j]
                }),
            *final(self) == (GameState { players: final(self).players, ..*old(self) }),
    {
        let ghost orig = *self;
        let n = self.players.len();
        let mut i: usize = 0;
        while i < n
            invariant
                state_wf(orig),
                n == orig.players@.len(),
                i <= n,
                in_bounds(target),
                0 <= delta_time <= DT_CAP,
                self.players@.len() == n,
                forall|j: int| i <= j < n ==> self.players@[j] == orig.players@[j],
                forall|j: int| 0 <= j < i
                    ==> self.players@[j] == (if orig.players@[j].id == player_id {
                        moved_player_spec(
                            #[trigger] orig.players@[j],
                            target,
                            orig.config.ring_radius as int,
                            delta_time as int,
                        )
                    } else {
                        orig.players@[j]
                    }),
                forall|j: int| 0 <= j < n
                    ==> player_wf(#[trigger] self.players@[j])
                        && self.players@[j].id == orig.players@[j].id,
                *self == (GameState { players: self.players, ..orig }),
            decreases n - i,
        {
            if self.players[i].id == player_id {
                proof {
                    assert(player_wf(orig.players@[i as int]));
                }
                let mut p = self.players[i];
                p.position.move_towards(&target, p.movement_speed, delta_time);
                let current_ring = p.position.ring(self.config.ring_radius);
                if current_ring > p.max_ring_reached {
                    p.max_ring_reached = current_ring;
                }
                proof {
                    assert(player_wf(p));
                }
                self.players[i] = p;
                proof {
                    assert(self.players@[i as int] == moved_player_spec(
                        orig.players@[i as int],
                        target,
                        orig.config.ring_radius as int,
                        delta_time as int,
                    ));
                }
            }
            i += 1;
        }
    }

    /// Insert a score entry, keeping the scoreboard sorted descending by the
    /// composite score and truncated to the configured maximum. An entry that
    /// would land past the cap (scoring no higher than every kept entry on a
    /// full board) is dropped.
    pub fn add_score(&mut self, score: ScoreEntry)
        requires
            state_wf(*old(self)),
            score_entry_wf(score),
        ensures
            state_wf(*final(self)),
            final(self).scores@ == insert_score_spec(
                old(self).scores@,
                score,
                old(self).config.max_scoreboard_entries as int,
            ),
            sorted_desc(final(self).scores@),
            final(self).scores@.len() <= old(self).config.max_scoreboard_entries,
            (old(self).scores@.len() == old(self).config.max_scoreboard_entries
                && (forall|j: int| 0 <= j < old(self).scores@.len()
                    ==> total_score_spec(#[trigger] old(self).scores@[j])
                        >= total_score_spec(score)))
                ==> final(self).scores@ == old(self).scores@,
            *final(self) == (GameState { scores: final(self).scores, ..*old(self) }),
    {
        let ghost orig = *self;
        let n = self.scores.len();
        let target = score.total_score();
        let mut i: usize = 0;
        while i < n && self.scores[i].total_score() >= target
            invariant
                state_wf(orig),
                *self == orig,
                n == orig.scores@.len(),
                i <= n,
                target == total_score_spec(score),
                score_entry_wf(score),
                forall|j: int| 0 <= j < i
                    ==> total_score_spec(#[trigger] orig.scores@[j]) >= total_score_spec(score),
            decreases n - i,
        {
            i += 1;
        }
        proof {
            lemma_insert_pos_unique(orig.scores@, score, i as int);
            lemma_insert_score_sorted(
                orig.scores@,
                score,
                orig.config.max_scoreboard_entries as int,
            );
        }
        self.scores.insert(i, score);
        let cap = self.config.max_scoreboard_entries;
        if self.scores.len() > cap {
            self.scores.truncate(cap);
        }
        proof {
            assert(self.scores@ =~= insert_score_spec(
                orig.scores@,
                score,
                orig.config.max_scoreboard_entries as int,
            ));
        }
    }

    /// Remove a player at wall-clock time `now_ms`; if (and only if) the
    /// departing player's deepest ring meets the configured qualifying ring,
    /// a score entry is recorded. Returns the removed player, or `None` for
    /// an unknown identity (then nothing changes).
    pub fn remove_player_at(&mut self, player_id: u64, now_ms: i64) -> (r: Option<Player>)
        requires
            state_wf(*old(self)),
            -CLOCK_CAP <= now_ms <= CLOCK_CAP,
        ensures
            state_wf(*final(self)),
            !has_player(old(self).players@, player_id)
                ==> r.is_none() && *final(self) == *old(self),
            has_player(old(self).players@, player_id) ==> exists|i: int| {
                &&& 0 <= i < old(self).players@.len()
                &&& old(self).players@[i].id == player_id
                &&& r == Some(old(self).players@[i])
                &&& final(self).players@ == old(self).players@.remove(i)
                &&& (old(self).players@[i].max_ring_reached >= old(self).config.score_min_ring
                    ==> final(self).scores@ == insert_score_spec(
                        old(self).scores@,
                        score_entry_spec(old(self).players@[i], now_ms as int),
                        old(self).config.max_scoreboard_entries as int,
                    ))
                &&& (old(self).players@[i].max_ring_reached < old(self).config.score_min_ring
                    ==> final(self).scores@ == old(self).scores@)
            },
            sorted_desc(final(self).scores@),
            final(self).enemies@ == old(self).enemies@,
            final(self).projectiles@ == old(self).projectiles@,
            final(self).pending_level_ups@ == old(self).pending_level_ups@,
            final(self).game_time == old(self).game_time,
            final(self).last_spawn_time == old(self).last_spawn_time,
            final(self).next_entity_id == old(self).next_entity_id,
            final(self).config == old(self).config,
    {
        let ghost orig = *self;
        let n = self.players.len();
        let mut idx: usize = 0;
        while idx < n && self.players[idx].id != player_id
            invariant
                n == self.players@.len(),
                idx <= n,
                forall|j: int| 0 <= j < idx ==> self.players@[j].id != player_id,
            decreases n - idx,
        {
            idx += 1;
        }
        if idx == n {
            proof {
                assert(!has_player(orig.players@, player_id));
            }
            return None;
        }
        let player = self.players.remove(idx);
        proof {
            assert forall|a: int, b: int| 0 <= a < b < self.players@.len()
                implies self.players@[a].id != self.players@[b].id by {
                let ai = if a < idx { a } else { a + 1 };
                let bi = if b < idx { b } else { b + 1 };
                assert(self.players@[a] == orig.players@[ai]);
                assert(self.players@[b] == orig.players@[bi]);
            }
            assert forall|a: int| 0 <= a < self.players@.len()
                implies player_wf(#[trigger] self.players@[a])
                    && self.players@[a].id < self.next_entity_id by {
                let ai = if a < idx { a } else { a + 1 };
                assert(self.players@[a] == orig.players@[ai]);
            }
        }

        // Record a score if the run qualifies
        if player.max_ring_reached >= self.config.score_min_ring {
            let survival = survival_seconds(player.spawn_time, now_ms);
            let score = ScoreEntry {
                player_id: player.id,
                max_ring_reached: player.max_ring_reached,
                survival_time_seconds: survival,
                enemies_defeated: player.enemies_defeated,
                timestamp: now_ms,
            };
            proof {
                assert(score == score_entry_spec(orig.players@[idx as int], now_ms as int));
            }
            self.add_score(score);
        }
        Some(player)
    }

    /// Remove a player, stamped with the wall clock; the clock's reading is
    /// outside the model, so the recorded survival time is existential here.
    pub fn remove_player(&mut self, player_id: u64) -> (r: Option<Player>)
        requires
            state_wf(*old(self)),
        ensures
            state_wf(*final(self)),
            !has_player(old(self).players@, player_id)
                ==> r.is_none() && *final(self) == *old(self),
            has_player(old(self).players@, player_id) ==> exists|i: int| {
                &&& 0 <= i < old(self).players@.len()
                &&& old(self).players@[i].id == player_id
                &&& r == Some(old(self).players@[i])
                &&& final(self).players@ == old(self).players@.remove(i)
                &&& (old(self).players@[i].max_ring_reached >= old(self).config.score_min_ring
                    ==> exists|now: int| -CLOCK_CAP <= now <= CLOCK_CAP
                        && final(self).scores@ == insert_score_spec(
                            old(self).scores@,
                            score_entry_spec(old(self).players@[i], now),
                            old(self).config.max_scoreboard_entries as int,
                        ))
                &&& (old(self).players@[i].max_ring_reached < old(self).config.score_min_ring
                    ==> final(self).scores@ == old(self).scores@)
            },
            sorted_desc(final(self).scores@),
            final(self).enemies@ == old(self).enemies@,
            final(self).projectiles@ == old(self).projectiles@,
            final(self).pending_level_ups@ == old(self).pending_level_ups@,
            final(self).game_time == old(self).game_time,
    {
        let now = clamp_clock(now_unix_ms());
        self.remove_player_at(player_id, now)
    }

    /// The rings in which enemies spawn right now: every player's own ring
    /// and the next ring out, clamped to the configured maximum, each ring
    /// once (a set, not a multiset).
    pub fn get_active_rings(&self) -> (r: Vec<u32>)
        requires
            state_wf(*self),
        ensures
            forall|a: int, b: int| 0 <= a < b < r@.len() ==> r@[a] != r@[b],
            forall|j: int| 0 <= j < r@.len() ==> 1 <= #[trigger] r@[j] <= self.config.max_rings,
            forall|j: int| 0 <= j < r@.len() ==> is_active_ring(
                self.players@,
                self.config.ring_radius as int,
                self.config.max_rings as int,
                #[trigger] r@[j] as int,
            ),
            forall|ru: u32| is_active_ring(
                self.players@,
                self.config.ring_radius as int,
                self.config.max_rings as int,
                ru as int,
            ) ==> r@.contains(ru),
            r@.len() <= 2 * self.players@.len(),
    {
        let ghost rr = self.config.ring_radius as int;
        let ghost mx = self.config.max_rings as int;
        let mut rings: Vec<u32> = Vec::new();
        let n = self.players.len();
        let mut i: usize = 0;
        while i < n
            invariant
                state_wf(*self),
                n == self.players@.len(),
                rr == self.config.ring_radius as int,
                mx == self.config.max_rings as int,
                i <= n,
                forall|a: int, b: int| 0 <= a < b < rings@.len() ==> rings@[a] != rings@[b],
                forall|j: int| 0 <= j < rings@.len()
                    ==> 1 <= #[trigger] rings@[j] <= self.config.max_rings,
                forall|j: int| 0 <= j < rings@.len()
                    ==> is_active_ring(self.players@, rr, mx, #[trigger] rings@[j] as int),
                forall|k: int| 0 <= k < i ==> {
                    let pr = ring_spec(#[trigger] self.players@[k].position, rr);
                    rings@.contains(clamp_ring(pr, mx) as u32)
                        && rings@.contains(clamp_ring(pr + 1, mx) as u32)
                },
                rings@.len() <= 2 * i,
            decreases n - i,
        {
            proof {
                assert(player_wf(self.players@[i as int]));
            }
            let player_ring = self.players[i].position.ring(self.config.ring_radius);
            // spawn in the player's ring and the adjacent ring out
            let r0 = if player_ring > self.config.max_rings {
                self.config.max_rings
            } else {
                player_ring
            };
            let r1 = if player_ring >= self.config.max_rings {
                self.config.max_rings
            } else {
                player_ring + 1
            };
            proof {
                assert(r0 as int == clamp_ring(ring_spec(self.players@[i as int].position, rr), mx));
                assert(r1 as int == clamp_ring(
                    ring_spec(self.players@[i as int].position, rr) + 1,
                    mx,
                ));
            }
            let ghost before0 = rings@;
            if !contains_u32(&rings, r0) {
                rings.push(r0);
            }
            proof {
                lemma_contains_after_push(before0, rings@, r0);
            }
            let ghost before1 = rings@;
            if !contains_u32(&rings, r1) {
                rings.push(r1);
            }
            proof {
                lemma_contains_after_push(before1, rings@, r1);
                let pr = ring_spec(self.players@[i as int].position, rr);
                assert(rings@.contains(clamp_ring(pr, mx) as u32));
                assert(rings@.contains(clamp_ring(pr + 1, mx) as u32));
                assert forall|k: int| 0 <= k < i + 1 implies {
                    let prk = ring_spec(#[trigger] self.players@[k].position, rr);
                    rings@.contains(clamp_ring(prk, mx) as u32)
                        && rings@.contains(clamp_ring(prk + 1, mx) as u32)
                } by {
                    if k < i {
                        let prk = ring_spec(self.players@[k].position, rr);
                        assert(before0.contains(clamp_ring(prk, mx) as u32));
                        assert(before0.contains(clamp_ring(prk + 1, mx) as u32));
                    }
                }
            }
            i += 1;
        }
        proof {
            assert forall|ru: u32| is_active_ring(self.players@, rr, mx, ru as int)
                implies rings@.contains(ru) by {
                let k = choose|k: int| 0 <= k < self.players@.len() && {
                    let pr = ring_spec(#[trigger] self.players@[k].position, rr);
                    ru as int == clamp_ring(pr, mx) || ru as int == clamp_ring(pr + 1, mx)
                };
                let pr = ring_spec(self.players@[k].position, rr);
                assert(rings@.contains(clamp_ring(pr, mx) as u32));
                assert(rings@.contains(clamp_ring(pr + 1, mx) as u32));
                assert(1 <= clamp_ring(pr, mx));
            }
        }
        rings
    }

    /// Spawn one enemy in `ring`: a uniformly chosen kind from the ring's
    /// pool, at a random position inside the ring's annulus. Which kind and
    /// position come back is random; everything else is pinned.
    pub fn spawn_enemy_in_ring(&mut self, ring: u32)
        requires
            state_wf(*old(self)),
            1 <= ring <= old(self).config.max_rings,
            old(self).next_entity_id < u64::MAX,
        ensures
            state_wf(*final(self)),
            exists|e: Enemy| final(self).enemies@ == old(self).enemies@.push(e)
                && spawned_enemy_ok(e, old(self).config, ring as int, old(self).next_entity_id),
            final(self).next_entity_id == old(self).next_entity_id + 1,
            *final(self) == (GameState {
                enemies: final(self).enemies,
                next_entity_id: final(self).next_entity_id,
                ..*old(self)
            }),
    {
        // Choose a ring-appropriate enemy kind
        let enemy_types = EnemyType::for_ring(ring);
        let type_pick = (random_u64() % (enemy_types.len() as u64)) as usize;
        let enemy_type = enemy_types[type_pick];

        // Choose a random position in the ring's annulus
        let position = spawn_position_in_ring(&self.config, ring, random_u64(), random_u64());

        let enemy_id = self.next_entity_id;
        self.next_entity_id = self.next_entity_id + 1;
        let enemy = Enemy::new(enemy_id, enemy_type, position, ring);
        self.enemies.push(enemy);
        proof {
            assert(pool_for_ring(ring as int).contains(enemy.enemy_type));
            assert(spawned_enemy_ok(enemy, old(self).config, ring as int, enemy_id));
        }
    }

    /// Spawn enemies if the fixed spawn interval has elapsed: exactly one
    /// enemy per active ring. If the interval has not elapsed, nothing happens.
    pub fn spawn_enemies(&mut self, _delta_time: i64)
        requires
            state_wf(*old(self)),
            old(self).next_entity_id + 2 * old(self).players@.len() < u64::MAX,
        ensures
            state_wf(*final(self)),
            spawn_enemies_rel(*old(self), *final(self)),
    {
        let interval = 1_000_000u64 / self.config.enemy_spawn_rate;
        if self.game_time - self.last_spawn_time < interval {
            return;
        }
        self.last_spawn_time = self.game_time;

        let rings = self.get_active_rings();
        let ghost orig = *self;
        let ghost ringseq = rings@;
        let n = rings.len();
        let mut i: usize = 0;
        while i < n
            invariant
                state_wf(*self),
                n == ringseq.len(),
                rings@ == ringseq,
                i <= n,
                forall|j: int| 0 <= j < n ==> 1 <= #[trigger] ringseq[j] <= orig.config.max_rings,
                orig.next_entity_id + n < u64::MAX,
                self.next_entity_id == orig.next_entity_id + i,
                self.enemies@.len() == orig.enemies@.len() + i,
                forall|j: int| 0 <= j < orig.enemies@.len()
                    ==> self.enemies@[j] == orig.enemies@[j],
                forall|j: int| 0 <= j < i ==> spawned_enemy_ok(
                    #[trigger] self.enemies@[orig.enemies@.len() + j],
                    orig.config,
                    ringseq[j] as int,
                    (orig.next_entity_id + j) as u64,
                ),
                *self == (GameState {
                    enemies: self.enemies,
                    next_entity_id: self.next_entity_id,
                    ..orig
                }),
            decreases n - i,
        {
            let ring = rings[i];
            self.spawn_enemy_in_ring(ring);
            i += 1;
        }
    }

    /// Update enemy AI and movement: every enemy picks the nearest living
    /// player (earlier insertion wins exact ties), records it as its target,
    /// and moves toward it. With no living player, enemies do not move.
    pub fn update_enemies(&mut self, delta_time: i64)
        requires
            state_wf(*old(self)),
            0 <= delta_time <= DT_CAP,
        ensures
            state_wf(*final(self)),
            update_enemies_rel(*old(self), *final(self), delta_time as int),
    {
        let ghost orig = *self;
        let n = self.enemies.len();
        let mut i: usize = 0;
        while i < n
            invariant
                state_wf(orig),
                n == orig.enemies@.len(),
                i <= n,
                0 <= delta_time <= DT_CAP,
                self.enemies@.len() == n,
                forall|j: int| i <= j < n ==> self.enemies@[j] == orig.enemies@[j],
                !any_living_player(orig.players@)
                    ==> forall|j: int| 0 <= j < i ==> self.enemies@[j] == orig.enemies@[j],
                any_living_player(orig.players@)
                    ==> forall|j: int| 0 <= j < i
                        ==> exists|k: int| is_nearest_living_player(
                            orig.players@,
                            (#[trigger] orig.enemies@[j]).position,
                            k,
                        ) && self.enemies@[j] == enemy_chasing(
                            orig.enemies@[j],
                            orig.players@[k],
                            delta_time as int,
                        ),
                forall|j: int| 0 <= j < n
                    ==> enemy_wf(#[trigger] self.enemies@[j])
                        && self.enemies@[j].id == orig.enemies@[j].id,
                *self == (GameState { enemies: self.enemies, ..orig }),
            decreases n - i,
        {
            proof {
                assert(enemy_wf(orig.enemies@[i as int]));
            }
            let pos = self.enemies[i].position;
            let closest = nearest_living_player_idx(&self.players, &pos);
            match closest {
                Some(k) => {
                    let mut e = self.enemies[i];
                    proof {
                        assert(player_wf(orig.players@[k as int]));
                    }
                    e.target_player_id = Some(self.players[k].id);
                    e.position.move_towards(
                        &self.players[k].position,
                        e.movement_speed,
                        delta_time,
                    );
                    self.enemies[i] = e;
                    proof {
                        assert(self.enemies@[i as int] == enemy_chasing(
                            orig.enemies@[i as int],
                            orig.players@[k as int],
                            delta_time as int,
                        ));
                    }
                }
                None => {
                    proof {
                        assert(!any_living_player(orig.players@));
                    }
                }
            }
            i += 1;
        }
        proof {
            if !any_living_player(orig.players@) {
                assert(self.enemies@ =~= orig.enemies@);
            }
        }
    }

    /// Process combat once per tick, after movement, in two passes to avoid
    /// order bias: player offense (each living, attack-ready player outside
    /// the safe zone fires a projectile at the nearest living enemy within
    /// auto-attack range and resets its cooldown), then enemy offense (each
    /// living, attack-ready enemy whose recorded target is connected, outside
    /// the safe zone and within melee range applies its damage and resets its
    /// cooldown), then cleanup of dead enemies. Dead players are never
    /// removed here. Safe-zone immunity is symmetric: a player in the safe
    /// zone neither attacks nor takes damage.
    #[verifier::loop_isolation(false)]
    pub fn process_combat(&mut self)
        requires
            state_wf(*old(self)),
            old(self).next_entity_id + old(self).players@.len() < u64::MAX,
        ensures
            state_wf(*final(self)),
            process_combat_rel(*old(self), *final(self)),
    {
        let ghost orig = *self;
        let t = self.game_time;
        proof {
            lemma_fired_len(orig.players@, orig.enemies@, orig.config, t, orig.next_entity_id as int, 0);
            assert(orig.config.max_rings * orig.config.ring_radius >= 1000) by (nonlinear_arith)
                requires orig.config.max_rings >= 1, orig.config.ring_radius >= 1000;
        }

        // Player offense: spawn projectiles (auto-attack the closest enemy)
        let np = self.players.len();
        let mut i: usize = 0;
        while i < np
            invariant
                state_wf(orig),
                t == orig.game_time,
                np == orig.players@.len(),
                i <= np,
                orig.next_entity_id + np < u64::MAX,
                self.players@.len() == np,
                forall|j: int| i <= j < np ==> self.players@[j] == orig.players@[j],
                forall|j: int| 0 <= j < i
                    ==> self.players@[j] == (if player_fires(
                        orig.players@,
                        orig.enemies@,
                        orig.config,
                        t,
                        j,
                    ) {
                        Player { last_attack_time: t, ..(#[trigger] orig.players@[j]) }
                    } else {
                        orig.players@[j]
                    }),
                forall|j: int| 0 <= j < np
                    ==> player_wf(#[trigger] self.players@[j])
                        && self.players@[j].id == orig.players@[j].id,
                self.enemies@ == orig.enemies@,
                orig.next_entity_id <= self.next_entity_id,
                self.next_entity_id - orig.next_entity_id <= i,
                self.projectiles@.len() == orig.projectiles@.len()
                    + (self.next_entity_id - orig.next_entity_id),
                fired_projectiles(
                    orig.players@,
                    orig.enemies@,
                    orig.config,
                    t,
                    orig.next_entity_id as int,
                    0,
                ) == self.projectiles@.skip(orig.projectiles@.len() as int) + fired_projectiles(
                    orig.players@,
                    orig.enemies@,
                    orig.config,
                    t,
                    self.next_entity_id as int,
                    i as int,
                ),
                forall|j: int| 0 <= j < orig.projectiles@.len()
                    ==> self.projectiles@[j] == orig.projectiles@[j],
                forall|j: int| 0 <= j < self.projectiles@.len()
                    ==> projectile_wf(#[trigger] self.projectiles@[j])
                        && self.projectiles@[j].id < self.next_entity_id,
                projectiles_unique(self.projectiles@),
                *self == (GameState {
                    players: self.players,
                    projectiles: self.projectiles,
                    next_entity_id: self.next_entity_id,
                    ..orig
                }),
            decreases np - i,
        {
            proof {
                assert(player_wf(orig.players@[i as int]));
                assert(self.players@[i as int] == orig.players@[i as int]);
            }
            let ghost pre_next = self.next_entity_id;
            let p = self.players[i];
            let mut fired_now = false;
            if p.health > 0 && p.can_attack(t) {
                if !p.is_in_safe_zone(self.config.safe_zone_radius) {
                    let nearest = nearest_living_enemy_idx(&self.enemies, &p.position);
                    match nearest {
                        Some(k) => {
                            let d2 = p.position.distance_sq_to(&self.enemies[k].position);
                            if d2 <= AUTO_ATTACK_RANGE * AUTO_ATTACK_RANGE {
                                proof {
                                    assert(player_fires(orig.players@, orig.enemies@, orig.config, t, i as int));
                                    let kk = nearest_enemy_of(orig.enemies@, orig.players@[i as int].position);
                                    assert(is_nearest_living_enemy(orig.enemies@, orig.players@[i as int].position, kk));
                                    lemma_nearest_enemy_unique(
                                        orig.enemies@,
                                        orig.players@[i as int].position,
                                        k as int,
                                        kk,
                                    );
                                }
                                let id = self.next_entity_id;
                                let direction = Position {
                                    x: self.enemies[k].position.x - p.position.x,
                                    y: self.enemies[k].position.y - p.position.y,
                                };
                                let proj = Projectile::new(
                                    id,
                                    p.id,
                                    p.position,
                                    direction,
                                    PROJECTILE_SPEED,
                                    p.damage,
                                    PROJECTILE_LIFETIME_MS,
                                );
                                let ghost pre_projs = self.projectiles@;
                                self.projectiles.push(proj);
                                self.next_entity_id = self.next_entity_id + 1;
                                let mut p2 = p;
                                p2.last_attack_time = t;
                                self.players[i] = p2;
                                fired_now = true;
                                proof {
                                    assert(proj == aim_projectile(
                                        orig.players@[i as int],
                                        orig.enemies@[nearest_enemy_of(
                                            orig.enemies@,
                                            orig.players@[i as int].position,
                                        )],
                                        pre_next,
                                    ));
                                    assert(fired_projectiles(
                                        orig.players@, orig.enemies@, orig.config, t,
                                        pre_next as int, i as int,
                                    ) == seq![proj] + fired_projectiles(
                                        orig.players@, orig.enemies@, orig.config, t,
                                        pre_next as int + 1, i + 1,
                                    ));
                                    assert(self.projectiles@.skip(orig.projectiles@.len() as int)
                                        =~= pre_projs.skip(orig.projectiles@.len() as int).push(proj));
                                    assert(pre_projs.skip(orig.projectiles@.len() as int)
                                        + (seq![proj] + fired_projectiles(
                                            orig.players@, orig.enemies@, orig.config, t,
                                            pre_next as int + 1, i + 1,
                                        ))
                                        =~= pre_projs.skip(orig.projectiles@.len() as int).push(proj)
                                            + fired_projectiles(
                                                orig.players@, orig.enemies@, orig.config, t,
                                                pre_next as int + 1, i + 1,
                                            ));
                                }
                            } else {
                                proof {
                                    if player_fires(orig.players@, orig.enemies@, orig.config, t, i as int) {
                                        let kk = choose|kk: int| is_nearest_living_enemy(
                                            orig.enemies@,
                                            orig.players@[i as int].position,
                                            kk,
                                        ) && dist_sq(
                                            orig.players@[i as int].position,
                                            orig.enemies@[kk].position,
                                        ) <= AUTO_ATTACK_RANGE * AUTO_ATTACK_RANGE;
                                        lemma_nearest_enemy_unique(
                                            orig.enemies@,
                                            orig.players@[i as int].position,
                                            k as int,
                                            kk,
                                        );
                                    }
                                }
                            }
                        }
                        None => {
                            proof {
                                if player_fires(orig.players@, orig.enemies@, orig.config, t, i as int) {
                                    let kk = choose|kk: int| is_nearest_living_enemy(
                                        orig.enemies@,
                                        orig.players@[i as int].position,
                                        kk,
                                    ) && dist_sq(
                                        orig.players@[i as int].position,
                                        orig.enemies@[kk].position,
                                    ) <= AUTO_ATTACK_RANGE * AUTO_ATTACK_RANGE;
                                    assert(orig.enemies@[kk].health > 0);
                                }
                            }
                        }
                    }
                }
            }
            proof {
                if !fired_now {
                    assert(!player_fires(orig.players@, orig.enemies@, orig.config, t, i as int));
                    assert(fired_projectiles(
                        orig.players@, orig.enemies@, orig.config, t,
                        self.next_entity_id as int, i as int,
                    ) == fired_projectiles(
                        orig.players@, orig.enemies@, orig.config, t,
                        self.next_entity_id as int, i + 1,
                    ));
                }
            }
            i += 1;
        }

        let ghost mid = *self;
        proof {
            assert(mid.players@ =~= players_after_fire(orig.players@, orig.enemies@, orig.config, t));
            assert(fired_projectiles(
                orig.players@, orig.enemies@, orig.config, t, mid.next_entity_id as int, np as int,
            ) =~= Seq::<Projectile>::empty());
            assert(mid.projectiles@ =~= orig.projectiles@ + fired_projectiles(
                orig.players@, orig.enemies@, orig.config, t, orig.next_entity_id as int, 0,
            ));
        }

        // Enemy offense: melee on the recorded target
        let ne = self.enemies.len();
        let mut j: usize = 0;
        while j < ne
            invariant
                state_wf(orig),
                t == orig.game_time,
                ne == orig.enemies@.len(),
                j <= ne,
                self.enemies@.len() == ne,
                self.players@.len() == orig.players@.len(),
                melee_fold(mid.players@, mid.enemies@, orig.config, t, 0)
                    == melee_fold(self.players@, self.enemies@, orig.config, t, j as int),
                forall|l: int| j <= l < ne ==> self.enemies@[l] == mid.enemies@[l],
                forall|l: int| 0 <= l < ne
                    ==> enemy_wf(#[trigger] self.enemies@[l])
                        && self.enemies@[l].id == orig.enemies@[l].id,
                forall|l: int| 0 <= l < self.players@.len()
                    ==> player_wf(#[trigger] self.players@[l])
                        && self.players@[l].id == orig.players@[l].id,
                *self == (GameState { players: self.players, enemies: self.enemies, ..mid }),
            decreases ne - j,
        {
            let ghost pre_p = self.players@;
            let ghost pre_e = self.enemies@;
            let e = self.enemies[j];
            let mut did_hit = false;
            if e.health > 0 && e.can_attack(t) {
                match e.target_player_id {
                    Some(tid) => {
                        let npl = self.players.len();
                        let mut k: usize = 0;
                        while k < npl && self.players[k].id != tid
                            invariant
                                npl == self.players@.len(),
                                k <= npl,
                                forall|l: int| 0 <= l < k ==> self.players@[l].id != tid,
                            decreases npl - k,
                        {
                            k += 1;
                        }
                        if k < npl {
                            proof {
                                assert(players_unique(self.players@));
                                lemma_player_index_of(self.players@, tid, k as int);
                                assert(player_wf(self.players@[k as int]));
                                assert(pre_p[k as int].id == tid);
                                assert(has_player(pre_p, tid));
                                assert(orig.config.max_rings * orig.config.ring_radius >= 1000)
                                    by (nonlinear_arith)
                                    requires
                                        orig.config.max_rings >= 1,
                                        orig.config.ring_radius >= 1000;
                            }
                            let tp = self.players[k];
                            if !tp.is_in_safe_zone(self.config.safe_zone_radius) {
                                let d2 = e.position.distance_sq_to(&tp.position);
                                if d2 <= MELEE_RANGE * MELEE_RANGE {
                                    proof {
                                        assert(melee_hit(pre_p, e, orig.config, t));
                                    }
                                    let mut tp2 = tp;
                                    tp2.take_damage(e.damage);
                                    self.players[k] = tp2;
                                    let mut e2 = e;
                                    e2.last_attack_time = t;
                                    self.enemies[j] = e2;
                                    did_hit = true;
                                    proof {
                                        assert(self.players@ == pre_p.update(
                                            k as int,
                                            Player { health: damaged(tp.health, e.damage), ..tp },
                                        ));
                                        assert(self.enemies@ == pre_e.update(
                                            j as int,
                                            Enemy { last_attack_time: t, ..e },
                                        ));
                                        assert(melee_fold(pre_p, pre_e, orig.config, t, j as int)
                                            == melee_fold(self.players@, self.enemies@, orig.config, t, j + 1));
                                    }
                                } else {
                                    proof {
                                        assert(!melee_hit(pre_p, e, orig.config, t));
                                    }
                                }
                            } else {
                                proof {
                                    assert(!melee_hit(pre_p, e, orig.config, t));
                                }
                            }
                        } else {
                            proof {
                                assert(!has_player(pre_p, tid));
                                assert(!melee_hit(pre_p, e, orig.config, t));
                            }
                        }
                    }
                    None => {}
                }
            }
            proof {
                if !did_hit {
                    assert(!melee_hit(pre_p, e, orig.config, t));
                    assert(melee_fold(pre_p, pre_e, orig.config, t, j as int)
                        == melee_fold(pre_p, pre_e, orig.config, t, j + 1));
                }
            }
            j += 1;
        }

        let ghost after_melee = *self;
        proof {
            assert(melee_fold(mid.players@, mid.enemies@, orig.config, t, 0)
                == (after_melee.players@, after_melee.enemies@));
        }

        // Clean up dead enemies
        let mut kept: Vec<Enemy> = Vec::new();
        let nall = self.enemies.len();
        let mut l: usize = 0;
        while l < nall
            invariant
                nall == self.enemies@.len(),
                l <= nall,
                *self == after_melee,
                kept@ == alive_enemies(self.enemies@.take(l as int)),
            decreases nall - l,
        {
            let el = self.enemies[l];
            proof {
                assert(self.enemies@.take(l + 1).drop_last() =~= self.enemies@.take(l as int));
                assert(self.enemies@.take(l + 1).last() == self.enemies@[l as int]);
            }
            if el.health > 0 {
                kept.push(el);
            }
            l += 1;
        }
        proof {
            assert(self.enemies@.take(nall as int) =~= self.enemies@);
        }
        self.enemies = kept;

        proof {
            lemma_alive_enemies_props(after_melee.enemies@);
            assert forall|x: int| 0 <= x < self.enemies@.len()
                implies enemy_wf(#[trigger] self.enemies@[x])
                    && self.enemies@[x].id < self.next_entity_id by {
                assert(self.enemies@.contains(self.enemies@[x]));
                assert(after_melee.enemies@.contains(self.enemies@[x]));
                let v = choose|v: int| 0 <= v < after_melee.enemies@.len()
                    && after_melee.enemies@[v] == self.enemies@[x];
                assert(enemy_wf(after_melee.enemies@[v]));
                assert(after_melee.enemies@[v].id == orig.enemies@[v].id);
            }
            lemma_melee_fold_props(mid.players@, mid.enemies@, orig.config, t, 0);
            let fired = fired_projectiles(
                orig.players@, orig.enemies@, orig.config, t, orig.next_entity_id as int, 0,
            );
            assert(self.projectiles@ == orig.projectiles@ + fired);
            assert(self.next_entity_id == orig.next_entity_id + fired.len());
            assert forall|x: int| 0 <= x < orig.players@.len()
                && in_safe_zone_spec(
                    (#[trigger] orig.players@[x]).position,
                    orig.config.safe_zone_radius as int,
                ) implies self.players@[x].health == orig.players@[x].health by {
                assert(mid.players@[x] == orig.players@[x]);
                assert(in_safe_zone_spec(mid.players@[x].position, orig.config.safe_zone_radius as int));
            }
        }
    }

    /// Update projectiles and resolve collisions: every projectile advances
    /// by `velocity * dt` and loses `dt` of lifetime; then, in projectile
    /// order, each projectile whose nearest living enemy is within the
    /// collision radius (boundary inclusive) applies its damage and is
    /// consumed. An enemy kill credits the owning player with a kill and its
    /// XP reward; a resulting level-up stores a fresh pending choice of
    /// upgrades for that player (the offered upgrades themselves are random).
    /// Expired and consumed projectiles are removed.
    #[verifier::loop_isolation(false)]
    pub fn update_projectiles(&mut self, delta_time: u64)
        requires
            state_wf(*old(self)),
            delta_time <= crate::projectile::PROJ_DT_CAP,
        ensures
            state_wf(*final(self)),
            update_projectiles_rel(*old(self), *final(self), delta_time as int),
    {
        let ghost orig = *self;

        // Advance projectile positions and lifetimes
        let npr = self.projectiles.len();
        let mut i: usize = 0;
        while i < npr
            invariant
                i <= npr,
                self.projectiles@.len() == npr,
                forall|x: int| i <= x < npr ==> self.projectiles@[x] == orig.projectiles@[x],
                forall|x: int| 0 <= x < i
                    ==> self.projectiles@[x] == crate::projectile::projectile_update_spec(
                        #[trigger] orig.projectiles@[x],
                        delta_time as int,
                    ),
                forall|x: int| 0 <= x < npr
                    ==> projectile_wf(#[trigger] self.projectiles@[x])
                        && self.projectiles@[x].id == orig.projectiles@[x].id,
                *self == (GameState { projectiles: self.projectiles, ..orig }),
            decreases npr - i,
        {
            let mut pr = self.projectiles[i];
            pr.update(delta_time);
            self.projectiles[i] = pr;
            i += 1;
        }

        let ghost moved = Seq::new(
            orig.projectiles@.len(),
            |x: int| crate::projectile::projectile_update_spec(
                orig.projectiles@[x],
                delta_time as int,
            ),
        );
        proof {
            assert(self.projectiles@ =~= moved);
        }
        let ghost mid = *self;
        let ghost full = collide_fold(mid.projectiles@, mid.enemies@, mid.players@, 0);

        // Resolve collisions with enemies
        let ghost mut emitted: Seq<u64> = Seq::empty();
        let mut j: usize = 0;
        while j < npr
            invariant
                j <= npr,
                self.projectiles@.len() == npr,
                self.players@.len() == orig.players@.len(),
                self.enemies@.len() == orig.enemies@.len(),
                full.0 == collide_fold(self.projectiles@, self.enemies@, self.players@, j as int).0,
                full.1 == collide_fold(self.projectiles@, self.enemies@, self.players@, j as int).1,
                full.2 == collide_fold(self.projectiles@, self.enemies@, self.players@, j as int).2,
                full.3 == emitted + collide_fold(
                    self.projectiles@,
                    self.enemies@,
                    self.players@,
                    j as int,
                ).3,
                forall|x: int| j <= x < npr ==> self.projectiles@[x] == mid.projectiles@[x],
                forall|x: int| 0 <= x < npr
                    ==> projectile_wf(#[trigger] self.projectiles@[x])
                        && self.projectiles@[x].id == orig.projectiles@[x].id,
                forall|x: int| 0 <= x < self.enemies@.len()
                    ==> enemy_wf(#[trigger] self.enemies@[x])
                        && self.enemies@[x].id == orig.enemies@[x].id,
                forall|x: int| 0 <= x < self.players@.len()
                    ==> player_wf(#[trigger] self.players@[x])
                        && self.players@[x].id == orig.players@[x].id,
                // pending bookkeeping
                self.pending_level_ups@.len() >= orig.pending_level_ups@.len(),
                forall|x: int| 0 <= x < orig.pending_level_ups@.len()
                    ==> (#[trigger] self.pending_level_ups@[x]).player_id
                        == orig.pending_level_ups@[x].player_id,
                forall|x: int| 0 <= x < orig.pending_level_ups@.len()
                    && !emitted.contains(orig.pending_level_ups@[x].player_id)
                    ==> #[trigger] self.pending_level_ups@[x] == orig.pending_level_ups@[x],
                forall|x: int| orig.pending_level_ups@.len() <= x < self.pending_level_ups@.len()
                    ==> emitted.contains((#[trigger] self.pending_level_ups@[x]).player_id),
                forall|x: int| 0 <= x < self.pending_level_ups@.len()
                    ==> valid_choices(
                        (#[trigger] self.pending_level_ups@[x]).choices@,
                        Seq::empty(),
                    ),
                pending_unique(self.pending_level_ups@),
                forall|id: u64| emitted.contains(id) ==> has_pending(self.pending_level_ups@, id),
                *self == (GameState {
                    projectiles: self.projectiles,
                    enemies: self.enemies,
                    players: self.players,
                    pending_level_ups: self.pending_level_ups,
                    ..mid
                }),
            decreases npr - j,
        {
            let ghost pre_pr = self.projectiles@;
            let ghost pre_e = self.enemies@;
            let ghost pre_pl = self.players@;
            let ghost pre_pending = self.pending_level_ups@;
            let ghost pre_emitted = emitted;
            let pr = self.projectiles[j];
            let mut hit = false;
            let nearest = nearest_living_enemy_idx(&self.enemies, &pr.position);
            match nearest {
                Some(k) => {
                    let d2 = pr.position.distance_sq_to(&self.enemies[k].position);
                    if d2 <= COLLISION_RADIUS * COLLISION_RADIUS {
                        hit = true;
                        proof {
                            assert(proj_hits(pre_e, pr));
                            let kk = nearest_enemy_of(pre_e, pr.position);
                            assert(is_nearest_living_enemy(pre_e, pr.position, kk));
                            lemma_nearest_enemy_unique(pre_e, pr.position, k as int, kk);
                        }
                        // Get the XP reward before applying damage
                        let xp_reward = self.enemies[k].xp_reward;
                        let mut e2 = self.enemies[k];
                        e2.take_damage(pr.damage);
                        self.enemies[k] = e2;
                        // the projectile is consumed by the hit
                        let mut pr2 = pr;
                        pr2.lifetime = 0;
                        self.projectiles[j] = pr2;

                        if e2.health == 0 {
                            // Credit the owning player, if still connected
                            let npl = self.players.len();
                            let mut o: usize = 0;
                            while o < npl && self.players[o].id != pr.owner_id
                                invariant
                                    npl == self.players@.len(),
                                    o <= npl,
                                    forall|l: int| 0 <= l < o
                                        ==> self.players@[l].id != pr.owner_id,
                                decreases npl - o,
                            {
                                o += 1;
                            }
                            if o < npl {
                                proof {
                                    assert(players_unique(self.players@));
                                    assert(self.players@[o as int].id == pr.owner_id);
                                    assert(has_player(pre_pl, pr.owner_id));
                                    lemma_player_index_of(self.players@, pr.owner_id, o as int);
                                }
                                let mut p2 = self.players[o];
                                if p2.enemies_defeated < u32::MAX {
                                    p2.enemies_defeated = p2.enemies_defeated + 1;
                                }
                                let leveled = p2.grant_xp(xp_reward as u64);
                                self.players[o] = p2;
                                proof {
                                    assert(self.players@[o as int]
                                        == credited_player(pre_pl[o as int], xp_reward));
                                    assert(self.players@ == pre_pl.update(
                                        o as int,
                                        credited_player(pre_pl[o as int], xp_reward),
                                    ));
                                }
                                if leveled {
                                    // Offer fresh upgrade choices for this level-up
                                    let exclude: Vec<UpgradeType> = Vec::new();
                                    let choices = UpgradeType::random_choices(&exclude);
                                    let entry = PendingLevelUp { player_id: pr.owner_id, choices };
                                    proof {
                                        emitted = emitted + seq![pr.owner_id];
                                    }
                                    let nq = self.pending_level_ups.len();
                                    let mut q: usize = 0;
                                    while q < nq && self.pending_level_ups[q].player_id != pr.owner_id
                                        invariant
                                            nq == self.pending_level_ups@.len(),
                                            q <= nq,
                                            forall|l: int| 0 <= l < q
                                                ==> self.pending_level_ups@[l].player_id
                                                    != pr.owner_id,
                                        decreases nq - q,
                                    {
                                        q += 1;
                                    }
                                    if q < nq {
                                        self.pending_level_ups[q] = entry;
                                    } else {
                                        self.pending_level_ups.push(entry);
                                    }
                                    proof {
                                        assert(emitted[emitted.len() - 1] == pr.owner_id);
                                        assert(emitted.contains(pr.owner_id));
                                        assert forall|id: u64| pre_emitted.contains(id)
                                            implies emitted.contains(id) by {
                                            let w = choose|w: int| 0 <= w < pre_emitted.len()
                                                && pre_emitted[w] == id;
                                            assert(emitted[w] == id);
                                        }
                                        assert(self.pending_level_ups@[(
                                            if q < nq { q as int } else { nq as int }
                                        )].player_id == pr.owner_id);
                                        assert(has_pending(self.pending_level_ups@, pr.owner_id));
                                        assert forall|id: u64| emitted.contains(id)
                                            implies has_pending(self.pending_level_ups@, id) by {
                                            if id == pr.owner_id {
                                            } else {
                                                let w0 = choose|w0: int| 0 <= w0 < emitted.len()
                                                    && emitted[w0] == id;
                                                assert(pre_emitted[w0] == id);
                                                assert(pre_emitted.contains(id));
                                                let w = choose|w: int| 0 <= w < pre_pending.len()
                                                    && pre_pending[w].player_id == id;
                                                assert(self.pending_level_ups@[w].player_id == id);
                                            }
                                        }
                                        assert forall|x: int| 0 <= x < orig.pending_level_ups@.len()
                                            && !emitted.contains(
                                                orig.pending_level_ups@[x].player_id,
                                            )
                                            implies #[trigger] self.pending_level_ups@[x]
                                                == orig.pending_level_ups@[x] by {
                                            let idx = orig.pending_level_ups@[x].player_id;
                                            assert(!pre_emitted.contains(idx));
                                            assert(idx != pr.owner_id);
                                            assert(pre_pending[x].player_id == idx);
                                            if q < nq && x == q as int {
                                                assert(pre_pending[q as int].player_id
                                                    == pr.owner_id);
                                                assert(false);
                                            }
                                            assert(self.pending_level_ups@[x] == pre_pending[x]);
                                        }
                                        assert forall|x: int| orig.pending_level_ups@.len() <= x
                                            < self.pending_level_ups@.len()
                                            implies emitted.contains(
                                                (#[trigger] self.pending_level_ups@[x]).player_id,
                                            ) by {
                                            if q < nq {
                                                if x == q as int {
                                                } else {
                                                    assert(self.pending_level_ups@[x]
                                                        == pre_pending[x]);
                                                    assert(pre_emitted.contains(
                                                        pre_pending[x].player_id,
                                                    ));
                                                }
                                            } else {
                                                if x == nq as int {
                                                } else {
                                                    assert(self.pending_level_ups@[x]
                                                        == pre_pending[x]);
                                                    assert(pre_emitted.contains(
                                                        pre_pending[x].player_id,
                                                    ));
                                                }
                                            }
                                        }
                                    }
                                }
                            }
                        }
                    }
                }
                None => {}
            }
            proof {
                if hit {
                    assert(collide_fold(pre_pr, pre_e, pre_pl, j as int).0
                        == collide_fold(self.projectiles@, self.enemies@, self.players@, j + 1).0);
                    if collide_fold(pre_pr, pre_e, pre_pl, j as int).3
                        != collide_fold(self.projectiles@, self.enemies@, self.players@, j + 1).3 {
                        assert(emitted + collide_fold(
                            self.projectiles@, self.enemies@, self.players@, j + 1,
                        ).3 =~= pre_emitted + collide_fold(pre_pr, pre_e, pre_pl, j as int).3);
                    } else {
                        assert(emitted + collide_fold(
                            self.projectiles@, self.enemies@, self.players@, j + 1,
                        ).3 =~= pre_emitted + collide_fold(pre_pr, pre_e, pre_pl, j as int).3);
                    }
                } else {
                    assert(!proj_hits(pre_e, pr)) by {
                        if proj_hits(pre_e, pr) {
                            let kk = choose|kk: int| is_nearest_living_enemy(pre_e, pr.position, kk)
                                && dist_sq(pr.position, pre_e[kk].position)
                                    <= COLLISION_RADIUS * COLLISION_RADIUS;
                            assert(pre_e[kk].health > 0);
                            match nearest {
                                Some(k) => {
                                    lemma_nearest_enemy_unique(pre_e, pr.position, k as int, kk);
                                }
                                None => {}
                            }
                        }
                    }
                }
            }
            j += 1;
        }

        let ghost after_hits = *self;
        proof {
            assert(collide_fold(after_hits.projectiles@, after_hits.enemies@, after_hits.players@, npr as int).3
                =~= Seq::<u64>::empty());
            assert(full.3 =~= emitted);
        }

        // Remove consumed and expired projectiles
        let mut kept: Vec<Projectile> = Vec::new();
        let mut l: usize = 0;
        while l < npr
            invariant
                l <= npr,
                *self == after_hits,
                self.projectiles@.len() == npr,
                kept@ == alive_projectiles(self.projectiles@.take(l as int)),
            decreases npr - l,
        {
            let pl = self.projectiles[l];
            proof {
                assert(self.projectiles@.take(l + 1).drop_last() =~= self.projectiles@.take(l as int));
                assert(self.projectiles@.take(l + 1).last() == self.projectiles@[l as int]);
            }
            if pl.lifetime > 0 {
                kept.push(pl);
            }
            l += 1;
        }
        proof {
            assert(self.projectiles@.take(npr as int) =~= self.projectiles@);
        }
        self.projectiles = kept;

        proof {
            lemma_alive_projectiles_props(after_hits.projectiles@);
            assert forall|x: int| 0 <= x < self.projectiles@.len()
                implies projectile_wf(#[trigger] self.projectiles@[x])
                    && self.projectiles@[x].id < self.next_entity_id by {
                assert(self.projectiles@.contains(self.projectiles@[x]));
                assert(after_hits.projectiles@.contains(self.projectiles@[x]));
                let v = choose|v: int| 0 <= v < after_hits.projectiles@.len()
                    && after_hits.projectiles@[v] == self.projectiles@[x];
                assert(projectile_wf(after_hits.projectiles@[v]));
                assert(after_hits.projectiles@[v].id == orig.projectiles@[v].id);
            }
            lemma_collide_fold_props(mid.projectiles@, mid.enemies@, mid.players@, 0);
        }
    }

    /// Apply a chosen upgrade to a player. Selecting an upgrade for an
    /// unknown player, or for a player with no pending level-up offer, fails
    /// with a validation error and leaves the state unchanged.
    pub fn apply_upgrade(&mut self, player_id: u64, upgrade: UpgradeType) -> (r: Result<(), UpgradeError>)
        requires
            state_wf(*old(self)),
        ensures
            state_wf(*final(self)),
            r.is_ok() <==> has_player(old(self).players@, player_id)
                && has_pending(old(self).pending_level_ups@, player_id),
            !has_player(old(self).players@, player_id)
                ==> r == Result::<(), UpgradeError>::Err(UpgradeError::PlayerNotFound)
                    && *final(self) == *old(self),
            has_player(old(self).players@, player_id)
                && !has_pending(old(self).pending_level_ups@, player_id)
                ==> r == Result::<(), UpgradeError>::Err(UpgradeError::NoPendingLevelUp)
                    && *final(self) == *old(self),
            r.is_ok() ==> {
                &&& final(self).players@.len() == old(self).players@.len()
                &&& (forall|j: int| 0 <= j < old(self).players@.len()
                    ==> final(self).players@[j] == (if old(self).players@[j].id == player_id {
                        crate::player::upgraded_player_spec(#[trigger] old(self).players@[j], upgrade)
                    } else {
                        old(self).players@[j]
                    }))
                &&& exists|pi: int| 0 <= pi < old(self).pending_level_ups@.len()
                    && old(self).pending_level_ups@[pi].player_id == player_id
                    && final(self).pending_level_ups@ == old(self).pending_level_ups@.remove(pi)
                &&& *final(self) == (GameState {
                    players: final(self).players,
                    pending_level_ups: final(self).pending_level_ups,
                    ..*old(self)
                })
            },
    {
        let ghost orig = *self;
        let np = self.players.len();
        let mut pi: usize = 0;
        while pi < np && self.players[pi].id != player_id
            invariant
                np == self.players@.len(),
                pi <= np,
                forall|j: int| 0 <= j < pi ==> self.players@[j].id != player_id,
            decreases np - pi,
        {
            pi += 1;
        }
        if pi == np {
            proof {
                assert(!has_player(orig.players@, player_id));
            }
            return Err(UpgradeError::PlayerNotFound);
        }

        let nq = self.pending_level_ups.len();
        let mut qi: usize = 0;
        while qi < nq && self.pending_level_ups[qi].player_id != player_id
            invariant
                nq == self.pending_level_ups@.len(),
                qi <= nq,
                forall|j: int| 0 <= j < qi ==> self.pending_level_ups@[j].player_id != player_id,
            decreases nq - qi,
        {
            qi += 1;
        }
        if qi == nq {
            proof {
                assert(!has_pending(orig.pending_level_ups@, player_id));
            }
            return Err(UpgradeError::NoPendingLevelUp);
        }

        // Resolve the pending offer and apply the chosen upgrade
        self.pending_level_ups.remove(qi);
        proof {
            assert forall|a: int, b: int| 0 <= a < b < self.pending_level_ups@.len()
                implies self.pending_level_ups@[a].player_id
                    != self.pending_level_ups@[b].player_id by {
                let ai = if a < qi { a } else { a + 1 };
                let bi = if b < qi { b } else { b + 1 };
                assert(self.pending_level_ups@[a] == orig.pending_level_ups@[ai]);
                assert(self.pending_level_ups@[b] == orig.pending_level_ups@[bi]);
            }
            assert forall|a: int| 0 <= a < self.pending_level_ups@.len()
                implies valid_choices(
                    (#[trigger] self.pending_level_ups@[a]).choices@,
                    Seq::empty(),
                ) by {
                let ai = if a < qi { a } else { a + 1 };
                assert(self.pending_level_ups@[a] == orig.pending_level_ups@[ai]);
            }
        }

        let ghost mid = *self;
        let n = self.players.len();
        let mut i: usize = 0;
        while i < n
            invariant
                n == self.players@.len(),
                n == orig.players@.len(),
                i <= n,
                forall|j: int| i <= j < n ==> self.players@[j] == orig.players@[j],
                forall|j: int| 0 <= j < i
                    ==> self.players@[j] == (if orig.players@[j].id == player_id {
                        crate::player::upgraded_player_spec(#[trigger] orig.players@[j], upgrade)
                    } else {
                        orig.players@[j]
                    }),
                forall|j: int| 0 <= j < n
                    ==> player_wf(#[trigger] self.players@[j])
                        && self.players@[j].id == orig.players@[j].id,
                forall|j: int| 0 <= j < n ==> player_wf(#[trigger] orig.players@[j]),
                *self == (GameState { players: self.players, ..mid }),
            decreases n - i,
        {
            if self.players[i].id == player_id {
                let mut p = self.players[i];
                p.apply_chosen_upgrade(upgrade);
                proof {
                    assert(p.id == orig.players@[i as int].id);
                }
                self.players[i] = p;
            }
            i += 1;
        }
        Ok(())
    }

    /// One full simulation tick: advance the clock by the fixed tick
    /// interval, then run enemy spawning, enemy AI movement, projectile
    /// movement and collision, and player/enemy combat resolution, in that
    /// fixed phase order (the chained phase relations below pin the whole
    /// pipeline). A player standing in the safe zone takes no damage in a
    /// tick, and no tick moves a player.
    pub fn tick(&mut self)
        requires
            state_wf(*old(self)),
            old(self).game_time + 1000 <= TIME_CAP,
            old(self).next_entity_id + 3 * old(self).players@.len() < u64::MAX,
        ensures
            state_wf(*final(self)),
            final(self).game_time
                == old(self).game_time + 1000 as int / old(self).config.tick_rate as int,
            // the four phases run on the clock-advanced state, in order
            ({
                let dt = 1000 as int / old(self).config.tick_rate as int;
                let clocked = GameState {
                    game_time: (old(self).game_time + dt) as u64,
                    ..*old(self)
                };
                exists|s1: GameState, s2: GameState, s3: GameState|
                    #![trigger spawn_enemies_rel(clocked, s1), update_enemies_rel(s1, s2, dt),
                        update_projectiles_rel(s2, s3, dt)]
                {
                    &&& spawn_enemies_rel(clocked, s1)
                    &&& update_enemies_rel(s1, s2, dt)
                    &&& update_projectiles_rel(s2, s3, dt)
                    &&& process_combat_rel(s3, *final(self))
                }
            }),
            final(self).players@.len() == old(self).players@.len(),
            forall|i: int| 0 <= i < old(self).players@.len()
                ==> (#[trigger] final(self).players@[i]).id == old(self).players@[i].id
                    && final(self).players@[i].position == old(self).players@[i].position,
            forall|i: int| 0 <= i < old(self).players@.len()
                && in_safe_zone_spec(
                    (#[trigger] old(self).players@[i]).position,
                    old(self).config.safe_zone_radius as int,
                ) ==> final(self).players@[i].health == old(self).players@[i].health,
            final(self).scores@ == old(self).scores@,
            final(self).config == old(self).config,
    {
        let delta_ms = 1000 / self.config.tick_rate;

        // Update game time
        self.game_time = self.game_time + delta_ms;
        let ghost clocked = *self;

        // Spawn enemies
        self.spawn_enemies(delta_ms as i64);
        let ghost s1 = *self;

        // Update enemy AI
        self.update_enemies(delta_ms as i64);
        let ghost s2 = *self;

        // Update projectiles and collisions
        self.update_projectiles(delta_ms);
        let ghost s3 = *self;

        // Process combat (spawn projectiles, enemy melee, cleanup)
        self.process_combat();
        proof {
            assert(spawn_enemies_rel(clocked, s1));
            assert(update_enemies_rel(s1, s2, delta_ms as int));
            assert(update_projectiles_rel(s2, s3, delta_ms as int));
            assert(process_combat_rel(s3, *self));
        }
    }

    /// The top `limit` scores, best first.
    pub fn get_top_scores(&self, limit: usize) -> (r: Vec<ScoreEntry>)
        ensures
            r@ == self.scores@.take(
                if limit <= self.scores@.len() { limit as int } else { self.scores@.len() as int },
            ),
    {
        let mut r: Vec<ScoreEntry> = Vec::new();
        let count = if limit <= self.scores.len() {
            limit
        } else {
            self.scores.len()
        };
        let mut i: usize = 0;
        while i < count
            invariant
                i <= count,
                count <= self.scores@.len(),
                r@ == self.scores@.take(i as int),
            decreases count - i,
        {
            r.push(self.scores[i]);
            proof {
                assert(r@ =~= self.scores@.take(i + 1));
            }
            i += 1;
        }
        r
    }
}

/// A ring index clamped to the configured maximum.
pub open spec fn clamp_ring(r: int, max_rings: int) -> int {
    if r > max_rings {
        max_rings
    } else {
        r
    }
}

/// Whether `r` is an active ring: some player's own ring, or the next ring
/// out, both clamped to the configured maximum.
pub open spec fn is_active_ring(players: Seq<Player>, ring_radius: int, max_rings: int, r: int) -> bool {
    exists|k: int| 0 <= k < players.len() && {
        let pr = ring_spec(#[trigger] players[k].position, ring_radius);
        r == clamp_ring(pr, max_rings) || r == clamp_ring(pr + 1, max_rings)
    }
}

/// With a single connected player at ring `R`, the active-ring set is exactly
/// `{ min(R, max_rings), min(R + 1, max_rings) }`.
pub proof fn lemma_active_rings_single_player(
    players: Seq<Player>,
    ring_radius: int,
    max_rings: int,
    r: int,
)
    requires
        players.len() == 1,
    ensures
        is_active_ring(players, ring_radius, max_rings, r) <==> {
            let pr = ring_spec(players[0].position, ring_radius);
            r == clamp_ring(pr, max_rings) || r == clamp_ring(pr + 1, max_rings)
        },
{
    let pr = ring_spec(players[0].position, ring_radius);
    if r == clamp_ring(pr, max_rings) || r == clamp_ring(pr + 1, max_rings) {
        assert(is_active_ring(players, ring_radius, max_rings, r)) by {
            assert(0 <= 0 < players.len() && {
                let pr0 = ring_spec(players[0].position, ring_radius);
                r == clamp_ring(pr0, max_rings) || r == clamp_ring(pr0 + 1, max_rings)
            });
        }
    }
}

/// The inner radius of a ring's spawn annulus.
pub open spec fn ring_inner(c: GameConfig, ring: int) -> int {
    (ring - 1) * c.ring_radius + c.safe_zone_radius
}

/// The outer radius of a ring's spawn annulus.
pub open spec fn ring_outer(c: GameConfig, ring: int) -> int {
    ring * c.ring_radius + c.safe_zone_radius
}

/// What holds of every enemy the spawner makes for `ring`: a fresh id, a
/// kind from the ring's pool, full health at the ring-scaled stats, and a
/// position inside the ring's spawn annulus.
pub open spec fn spawned_enemy_ok(e: Enemy, c: GameConfig, ring: int, id: u64) -> bool {
    &&& e.id == id
    &&& e.spawn_ring == ring
    &&& pool_for_ring(ring).contains(e.enemy_type)
    &&& e.health == stats_for_ring_spec(e.enemy_type, ring).max_health
    &&& e.max_health == stats_for_ring_spec(e.enemy_type, ring).max_health
    &&& e.damage == stats_for_ring_spec(e.enemy_type, ring).damage
    &&& e.movement_speed == stats_for_ring_spec(e.enemy_type, ring).movement_speed
    &&& e.attack_speed == stats_for_ring_spec(e.enemy_type, ring).attack_speed
    &&& e.xp_reward == xp_for_ring_spec(e.enemy_type, ring)
    &&& e.last_attack_time == 0
    &&& e.target_player_id.is_none()
    &&& in_bounds(e.position)
    &&& ring_inner(c, ring) <= dist(e.position, origin()) < ring_outer(c, ring)
}

/// Whether the fixed spawn interval has elapsed.
pub open spec fn spawn_due(s: GameState) -> bool {
    s.game_time - s.last_spawn_time >= spawn_interval_ms(s.config)
}

/// Exactly what the spawning phase does to the world: nothing before the
/// spawn interval elapses; otherwise one fresh enemy per active ring
/// (witnessed by the duplicate-free list of exactly the active rings), with
/// sequential identities, and nothing else changed.
pub open spec fn spawn_enemies_rel(pre: GameState, post: GameState) -> bool {
    &&& pre.next_entity_id <= post.next_entity_id
        <= pre.next_entity_id + 2 * pre.players@.len()
    &&& (!spawn_due(pre) ==> post == pre)
    &&& (spawn_due(pre) ==> {
        &&& post.last_spawn_time == pre.game_time
        &&& exists|rings: Seq<u32>| #![trigger rings.len()] {
            &&& (forall|a: int, b: int| 0 <= a < b < rings.len() ==> rings[a] != rings[b])
            &&& (forall|j: int| 0 <= j < rings.len()
                ==> 1 <= #[trigger] rings[j] <= pre.config.max_rings
                    && is_active_ring(
                        pre.players@,
                        pre.config.ring_radius as int,
                        pre.config.max_rings as int,
                        rings[j] as int,
                    ))
            &&& (forall|ru: u32| is_active_ring(
                pre.players@,
                pre.config.ring_radius as int,
                pre.config.max_rings as int,
                ru as int,
            ) ==> rings.contains(ru))
            &&& post.enemies@.len() == pre.enemies@.len() + rings.len()
            &&& (forall|j: int| 0 <= j < pre.enemies@.len()
                ==> post.enemies@[j] == pre.enemies@[j])
            &&& (forall|j: int| 0 <= j < rings.len() ==> spawned_enemy_ok(
                #[trigger] post.enemies@[pre.enemies@.len() + j],
                pre.config,
                rings[j] as int,
                (pre.next_entity_id + j) as u64,
            ))
            &&& post.next_entity_id == pre.next_entity_id + rings.len()
        }
        &&& post.players@ == pre.players@
        &&& post.projectiles@ == pre.projectiles@
        &&& post.scores@ == pre.scores@
        &&& post.pending_level_ups@ == pre.pending_level_ups@
        &&& post.game_time == pre.game_time
        &&& post.config == pre.config
    })
}

/// Projectile speed, milli-units per second.
pub const PROJECTILE_SPEED: i64 = 300_000;

/// Projectile lifetime, milliseconds.
pub const PROJECTILE_LIFETIME_MS: u64 = 3_000;

/// Auto-aim range for the player's auto-attack, milli-units.
pub const AUTO_ATTACK_RANGE: i64 = 400_000;

/// Melee range of enemy attacks, milli-units.
pub const MELEE_RANGE: i64 = 50_000;

/// Projectile hit detection radius, milli-units (boundary inclusive).
pub const COLLISION_RADIUS: i64 = 20_000;

/// `k` points at the first living player nearest to `pos` (nearness compared
/// on exact squared distances; earlier insertion wins ties).
pub open spec fn is_nearest_living_player(players: Seq<Player>, pos: Position, k: int) -> bool {
    &&& 0 <= k < players.len()
    &&& players[k].health > 0
    &&& forall|j: int| 0 <= j < k && (#[trigger] players[j]).health > 0
        ==> dist_sq(pos, players[j].position) > dist_sq(pos, players[k].position)
    &&& forall|j: int| k <= j < players.len() && (#[trigger] players[j]).health > 0
        ==> dist_sq(pos, players[j].position) >= dist_sq(pos, players[k].position)
}

/// `k` points at the first living enemy nearest to `pos`.
pub open spec fn is_nearest_living_enemy(enemies: Seq<Enemy>, pos: Position, k: int) -> bool {
    &&& 0 <= k < enemies.len()
    &&& enemies[k].health > 0
    &&& forall|j: int| 0 <= j < k && (#[trigger] enemies[j]).health > 0
        ==> dist_sq(pos, enemies[j].position) > dist_sq(pos, enemies[k].position)
    &&& forall|j: int| k <= j < enemies.len() && (#[trigger] enemies[j]).health > 0
        ==> dist_sq(pos, enemies[j].position) >= dist_sq(pos, enemies[k].position)
}

pub open spec fn any_living_player(players: Seq<Player>) -> bool {
    exists|j: int| 0 <= j < players.len() && (#[trigger] players[j]).health > 0
}

/// There is at most one first-nearest living target.
pub proof fn lemma_nearest_enemy_unique(enemies: Seq<Enemy>, pos: Position, k1: int, k2: int)
    requires
        is_nearest_living_enemy(enemies, pos, k1),
        is_nearest_living_enemy(enemies, pos, k2),
    ensures
        k1 == k2,
{
    if k1 < k2 {
        assert(dist_sq(pos, enemies[k1].position) > dist_sq(pos, enemies[k2].position));
        assert(dist_sq(pos, enemies[k2].position) >= dist_sq(pos, enemies[k1].position));
    }
    if k2 < k1 {
        assert(dist_sq(pos, enemies[k2].position) > dist_sq(pos, enemies[k1].position));
        assert(dist_sq(pos, enemies[k1].position) >= dist_sq(pos, enemies[k2].position));
    }
}

/// An enemy after one chase step toward a player: the player becomes its
/// recorded target and the enemy moves toward that player.
pub open spec fn enemy_chasing(e: Enemy, p: Player, dt: int) -> Enemy {
    Enemy {
        target_player_id: Some(p.id),
        position: move_towards_spec(e.position, p.position, e.movement_speed as int, dt),
        ..e
    }
}

/// Exactly what the enemy AI phase does to the world: every enemy chases the
/// first-nearest living player; with no living player, enemies do not move;
/// nothing else changes.
pub open spec fn update_enemies_rel(pre: GameState, post: GameState, dt: int) -> bool {
    &&& post.enemies@.len() == pre.enemies@.len()
    &&& (!any_living_player(pre.players@) ==> post.enemies@ == pre.enemies@)
    &&& (any_living_player(pre.players@)
        ==> forall|i: int| 0 <= i < pre.enemies@.len()
            ==> exists|k: int| is_nearest_living_player(
                pre.players@,
                (#[trigger] pre.enemies@[i]).position,
                k,
            ) && post.enemies@[i] == enemy_chasing(pre.enemies@[i], pre.players@[k], dt))
    &&& post == (GameState { enemies: post.enemies, ..pre })
}

/// The index of the player with `id` (unique when ids are distinct).
pub open spec fn player_index_of(players: Seq<Player>, id: u64) -> int {
    choose|k: int| 0 <= k < players.len() && players[k].id == id
}

/// Under distinct ids, any found index is the `player_index_of`.
pub proof fn lemma_player_index_of(players: Seq<Player>, id: u64, k: int)
    requires
        players_unique(players),
        0 <= k < players.len(),
        players[k].id == id,
    ensures
        k == player_index_of(players, id),
{
    let k2 = player_index_of(players, id);
    assert(0 <= k2 < players.len() && players[k2].id == id);
    if k < k2 {
        assert(players[k].id != players[k2].id);
    }
    if k2 < k {
        assert(players[k2].id != players[k].id);
    }
}

/// The index of the first-nearest living enemy (unique when one exists).
pub open spec fn nearest_enemy_of(enemies: Seq<Enemy>, pos: Position) -> int {
    choose|k: int| is_nearest_living_enemy(enemies, pos, k)
}

/// Whether player `i` fires this tick: alive, attack-ready, outside the safe
/// zone, with a living enemy within auto-attack range.
pub open spec fn player_fires(
    players: Seq<Player>,
    enemies: Seq<Enemy>,
    cfg: GameConfig,
    t: u64,
    i: int,
) -> bool {
    &&& players[i].health > 0
    &&& can_attack_at(players[i].attack_speed, players[i].last_attack_time, t)
    &&& !in_safe_zone_spec(players[i].position, cfg.safe_zone_radius as int)
    &&& exists|k: int| is_nearest_living_enemy(enemies, #[trigger] players[i].position, k)
        && dist_sq(players[i].position, enemies[k].position)
            <= AUTO_ATTACK_RANGE * AUTO_ATTACK_RANGE
}

/// The projectile a firing player launches at an enemy.
pub open spec fn aim_projectile(p: Player, e: Enemy, id: u64) -> Projectile {
    crate::projectile::projectile_new_spec(
        id,
        p.id,
        p.position,
        Position {
            x: (e.position.x - p.position.x) as i64,
            y: (e.position.y - p.position.y) as i64,
        },
        PROJECTILE_SPEED as int,
        p.damage,
        PROJECTILE_LIFETIME_MS,
    )
}

/// The players after the firing pass: each firing player's attack cooldown
/// is reset; nothing else changes.
pub open spec fn players_after_fire(
    players: Seq<Player>,
    enemies: Seq<Enemy>,
    cfg: GameConfig,
    t: u64,
) -> Seq<Player> {
    Seq::new(
        players.len(),
        |i: int| if player_fires(players, enemies, cfg, t, i) {
            Player { last_attack_time: t, ..players[i] }
        } else {
            players[i]
        },
    )
}

/// The projectiles launched this tick, in player order, with sequential ids
/// starting at `id0`.
pub open spec fn fired_projectiles(
    players: Seq<Player>,
    enemies: Seq<Enemy>,
    cfg: GameConfig,
    t: u64,
    id0: int,
    i: int,
) -> Seq<Projectile>
    decreases players.len() - i when 0 <= i <= players.len()
{
    if i >= players.len() {
        Seq::empty()
    } else if player_fires(players, enemies, cfg, t, i) {
        seq![aim_projectile(players[i], enemies[nearest_enemy_of(enemies, players[i].position)], id0 as u64)]
            + fired_projectiles(players, enemies, cfg, t, id0 + 1, i + 1)
    } else {
        fired_projectiles(players, enemies, cfg, t, id0, i + 1)
    }
}

/// At most one projectile is fired per player.
pub proof fn lemma_fired_len(
    players: Seq<Player>,
    enemies: Seq<Enemy>,
    cfg: GameConfig,
    t: u64,
    id0: int,
    i: int,
)
    requires
        0 <= i <= players.len(),
    ensures
        fired_projectiles(players, enemies, cfg, t, id0, i).len() <= players.len() - i,
    decreases players.len() - i,
{
    if i < players.len() {
        lemma_fired_len(players, enemies, cfg, t, id0 + 1, i + 1);
        lemma_fired_len(players, enemies, cfg, t, id0, i + 1);
    }
}

/// Whether an enemy lands its melee attack this tick: alive, attack-ready,
/// with a recorded target who is connected, outside the safe zone, and
/// within melee range.
pub open spec fn melee_hit(players: Seq<Player>, e: Enemy, cfg: GameConfig, t: u64) -> bool {
    &&& e.health > 0
    &&& can_attack_at(e.attack_speed, e.last_attack_time, t)
    &&& e.target_player_id.is_some()
    &&& has_player(players, e.target_player_id.unwrap())
    &&& {
        let k = player_index_of(players, e.target_player_id.unwrap());
        &&& !in_safe_zone_spec(players[k].position, cfg.safe_zone_radius as int)
        &&& dist_sq(e.position, players[k].position) <= MELEE_RANGE * MELEE_RANGE
    }
}

/// The enemy-offense pass: each attack-ready enemy whose recorded target is
/// reachable applies its damage to that target and resets its cooldown, in
/// enemy order.
pub open spec fn melee_fold(
    players: Seq<Player>,
    enemies: Seq<Enemy>,
    cfg: GameConfig,
    t: u64,
    j: int,
) -> (Seq<Player>, Seq<Enemy>)
    decreases enemies.len() - j when 0 <= j <= enemies.len()
{
    if j >= enemies.len() {
        (players, enemies)
    } else {
        let e = enemies[j];
        if melee_hit(players, e, cfg, t) {
            let k = player_index_of(players, e.target_player_id.unwrap());
            let p = players[k];
            melee_fold(
                players.update(k, Player { health: damaged(p.health, e.damage), ..p }),
                enemies.update(j, Enemy { last_attack_time: t, ..e }),
                cfg,
                t,
                j + 1,
            )
        } else {
            melee_fold(players, enemies, cfg, t, j + 1)
        }
    }
}

/// The enemy-offense pass only lowers health of players outside the safe
/// zone and only resets enemy cooldowns: lengths, ids and positions are kept,
/// and a player standing in the safe zone is untouched.
pub proof fn lemma_melee_fold_props(
    players: Seq<Player>,
    enemies: Seq<Enemy>,
    cfg: GameConfig,
    t: u64,
    j: int,
)
    requires
        0 <= j <= enemies.len(),
    ensures
        melee_fold(players, enemies, cfg, t, j).0.len() == players.len(),
        melee_fold(players, enemies, cfg, t, j).1.len() == enemies.len(),
        forall|i: int| 0 <= i < players.len()
            ==> #[trigger] melee_fold(players, enemies, cfg, t, j).0[i]
                == (Player {
                    health: melee_fold(players, enemies, cfg, t, j).0[i].health,
                    ..players[i]
                }),
        forall|i: int| 0 <= i < players.len()
            && in_safe_zone_spec(players[i].position, cfg.safe_zone_radius as int)
            ==> #[trigger] melee_fold(players, enemies, cfg, t, j).0[i] == players[i],
        forall|i: int| 0 <= i < enemies.len()
            ==> #[trigger] melee_fold(players, enemies, cfg, t, j).1[i]
                == (Enemy {
                    last_attack_time: melee_fold(players, enemies, cfg, t, j).1[i].last_attack_time,
                    ..enemies[i]
                }),
    decreases enemies.len() - j,
{
    if j < enemies.len() {
        let e = enemies[j];
        if melee_hit(players, e, cfg, t) {
            let k = player_index_of(players, e.target_player_id.unwrap());
            let p = players[k];
            let players2 = players.update(k, Player { health: damaged(p.health, e.damage), ..p });
            let enemies2 = enemies.update(j, Enemy { last_attack_time: t, ..e });
            lemma_melee_fold_props(players2, enemies2, cfg, t, j + 1);
        } else {
            lemma_melee_fold_props(players, enemies, cfg, t, j + 1);
        }
    }
}

/// Exactly what the combat phase does to the world: the firing pass appends
/// `fired_projectiles` (with sequential identities) and resets the firing
/// players' cooldowns, the melee pass is `melee_fold`, dead enemies are then
/// cleaned up; player ids and positions are kept, a player in the safe zone
/// keeps its health, and everything else is unchanged.
pub open spec fn process_combat_rel(pre: GameState, post: GameState) -> bool {
    &&& ({
        let fired = fired_projectiles(
            pre.players@,
            pre.enemies@,
            pre.config,
            pre.game_time,
            pre.next_entity_id as int,
            0,
        );
        let p1 = players_after_fire(pre.players@, pre.enemies@, pre.config, pre.game_time);
        let folded = melee_fold(p1, pre.enemies@, pre.config, pre.game_time, 0);
        &&& post.projectiles@ == pre.projectiles@ + fired
        &&& post.next_entity_id == pre.next_entity_id + fired.len()
        &&& post.players@ == folded.0
        &&& post.enemies@ == alive_enemies(folded.1)
    })
    &&& post.players@.len() == pre.players@.len()
    &&& (forall|i: int| 0 <= i < pre.players@.len()
        ==> (#[trigger] post.players@[i]).id == pre.players@[i].id
            && post.players@[i].position == pre.players@[i].position)
    &&& (forall|i: int| 0 <= i < pre.players@.len()
        && in_safe_zone_spec(
            (#[trigger] pre.players@[i]).position,
            pre.config.safe_zone_radius as int,
        ) ==> post.players@[i].health == pre.players@[i].health)
    &&& post.scores@ == pre.scores@
    &&& post.pending_level_ups@ == pre.pending_level_ups@
    &&& post.game_time == pre.game_time
    &&& post.last_spawn_time == pre.last_spawn_time
    &&& post.config == pre.config
}

/// The living enemies of a list, in order (the cleanup pass).
pub open spec fn alive_enemies(s: Seq<Enemy>) -> Seq<Enemy>
    decreases s.len(),
{
    if s.len() == 0 {
        Seq::empty()
    } else {
        let rest = alive_enemies(s.drop_last());
        if s.last().health > 0 {
            rest.push(s.last())
        } else {
            rest
        }
    }
}

/// Saturating kill-counter bump.
pub open spec fn bumped32(x: u32) -> u32 {
    if x < u32::MAX {
        (x + 1) as u32
    } else {
        x
    }
}

/// Whether a projectile hits this tick: the nearest living enemy is within
/// the collision radius (boundary inclusive).
pub open spec fn proj_hits(enemies: Seq<Enemy>, pr: Projectile) -> bool {
    exists|k: int| is_nearest_living_enemy(enemies, pr.position, k)
        && dist_sq(pr.position, enemies[k].position) <= COLLISION_RADIUS * COLLISION_RADIUS
}

/// A player credited with one kill worth `xp` XP: the kill counter bumps and
/// the XP ledger levels up as `grant_spec` says.
pub open spec fn credited_player(p: Player, xp: u32) -> Player {
    let g = crate::player::grant_spec(p.level as int, p.current_xp + xp, p.xp_to_next_level as int);
    Player {
        enemies_defeated: bumped32(p.enemies_defeated),
        level: g.0 as u64,
        current_xp: g.1 as u64,
        xp_to_next_level: g.2 as u64,
        ..p
    }
}

/// The projectile-collision pass, in projectile order: a hitting projectile
/// damages the nearest living enemy and is consumed; if the enemy dies and
/// the owner is still connected, the owner is credited, and owners that
/// level up are collected (in order) for a pending level-up offer.
pub open spec fn collide_fold(
    projectiles: Seq<Projectile>,
    enemies: Seq<Enemy>,
    players: Seq<Player>,
    j: int,
) -> (Seq<Projectile>, Seq<Enemy>, Seq<Player>, Seq<u64>)
    decreases projectiles.len() - j when 0 <= j <= projectiles.len()
{
    if j >= projectiles.len() {
        (projectiles, enemies, players, Seq::empty())
    } else {
        let pr = projectiles[j];
        if proj_hits(enemies, pr) {
            let k = nearest_enemy_of(enemies, pr.position);
            let e = enemies[k];
            let enemies2 = enemies.update(k, Enemy { health: damaged(e.health, pr.damage), ..e });
            let projectiles2 = projectiles.update(j, Projectile { lifetime: 0, ..pr });
            if damaged(e.health, pr.damage) == 0 && has_player(players, pr.owner_id) {
                let o = player_index_of(players, pr.owner_id);
                let p = players[o];
                let players2 = players.update(o, credited_player(p, e.xp_reward));
                let leveled = p.current_xp + e.xp_reward >= p.xp_to_next_level;
                let rest = collide_fold(projectiles2, enemies2, players2, j + 1);
                (rest.0, rest.1, rest.2, if leveled {
                    seq![pr.owner_id] + rest.3
                } else {
                    rest.3
                })
            } else {
                collide_fold(projectiles2, enemies2, players, j + 1)
            }
        } else {
            collide_fold(projectiles, enemies, players, j + 1)
        }
    }
}

/// The collision pass only consumes projectile lifetimes, lowers enemy
/// health, and credits kills: every other field is kept, so in particular
/// player health and positions are untouched here.
pub proof fn lemma_collide_fold_props(
    projectiles: Seq<Projectile>,
    enemies: Seq<Enemy>,
    players: Seq<Player>,
    j: int,
)
    requires
        0 <= j <= projectiles.len(),
    ensures
        collide_fold(projectiles, enemies, players, j).0.len() == projectiles.len(),
        collide_fold(projectiles, enemies, players, j).1.len() == enemies.len(),
        collide_fold(projectiles, enemies, players, j).2.len() == players.len(),
        forall|i: int| 0 <= i < projectiles.len()
            ==> #[trigger] collide_fold(projectiles, enemies, players, j).0[i]
                == (Projectile {
                    lifetime: collide_fold(projectiles, enemies, players, j).0[i].lifetime,
                    ..projectiles[i]
                }),
        forall|i: int| 0 <= i < enemies.len()
            ==> #[trigger] collide_fold(projectiles, enemies, players, j).1[i]
                == (Enemy {
                    health: collide_fold(projectiles, enemies, players, j).1[i].health,
                    ..enemies[i]
                }),
        forall|i: int| 0 <= i < players.len()
            ==> #[trigger] collide_fold(projectiles, enemies, players, j).2[i]
                == (Player {
                    enemies_defeated: collide_fold(projectiles, enemies, players, j).2[i].enemies_defeated,
                    level: collide_fold(projectiles, enemies, players, j).2[i].level,
                    current_xp: collide_fold(projectiles, enemies, players, j).2[i].current_xp,
                    xp_to_next_level: collide_fold(projectiles, enemies, players, j).2[i].xp_to_next_level,
                    ..players[i]
                }),
    decreases projectiles.len() - j,
{
    if j < projectiles.len() {
        let pr = projectiles[j];
        if proj_hits(enemies, pr) {
            let k = nearest_enemy_of(enemies, pr.position);
            let e = enemies[k];
            let enemies2 = enemies.update(k, Enemy { health: damaged(e.health, pr.damage), ..e });
            let projectiles2 = projectiles.update(j, Projectile { lifetime: 0, ..pr });
            if damaged(e.health, pr.damage) == 0 && has_player(players, pr.owner_id) {
                let o = player_index_of(players, pr.owner_id);
                let p = players[o];
                let players2 = players.update(o, credited_player(p, e.xp_reward));
                lemma_collide_fold_props(projectiles2, enemies2, players2, j + 1);
            } else {
                lemma_collide_fold_props(projectiles2, enemies2, players, j + 1);
            }
        } else {
            lemma_collide_fold_props(projectiles, enemies, players, j + 1);
        }
    }
}

/// The projectiles still alive after a pass, in order (consumed and expired
/// ones are dropped).
pub open spec fn alive_projectiles(s: Seq<Projectile>) -> Seq<Projectile>
    decreases s.len(),
{
    if s.len() == 0 {
        Seq::empty()
    } else {
        let rest = alive_projectiles(s.drop_last());
        if s.last().lifetime > 0 {
            rest.push(s.last())
        } else {
            rest
        }
    }
}

/// Exactly what the projectile phase does to the world: every projectile
/// advances and ages per `projectile_update_spec`, the collision pass is
/// `collide_fold` (its fourth component lists the owners that leveled up),
/// consumed and expired projectiles are dropped, each leveled owner gets a
/// fresh valid pending choice set (the choices themselves are random), and
/// everything else — including every player's health and position — is
/// unchanged.
pub open spec fn update_projectiles_rel(pre: GameState, post: GameState, dt: int) -> bool {
    &&& ({
        let moved = Seq::new(
            pre.projectiles@.len(),
            |x: int| crate::projectile::projectile_update_spec(pre.projectiles@[x], dt),
        );
        let folded = collide_fold(moved, pre.enemies@, pre.players@, 0);
        &&& post.enemies@ == folded.1
        &&& post.players@ == folded.2
        &&& post.projectiles@ == alive_projectiles(folded.0)
        // pending level-ups: existing entries keep their place; every
        // player that leveled has a (fresh, valid) pending choice set
        &&& post.pending_level_ups@.len() >= pre.pending_level_ups@.len()
        &&& (forall|x: int| 0 <= x < pre.pending_level_ups@.len()
            ==> (#[trigger] post.pending_level_ups@[x]).player_id
                == pre.pending_level_ups@[x].player_id)
        &&& (forall|x: int| 0 <= x < pre.pending_level_ups@.len()
            && !folded.3.contains(pre.pending_level_ups@[x].player_id)
            ==> #[trigger] post.pending_level_ups@[x] == pre.pending_level_ups@[x])
        &&& (forall|x: int| pre.pending_level_ups@.len() <= x < post.pending_level_ups@.len()
            ==> folded.3.contains((#[trigger] post.pending_level_ups@[x]).player_id))
        &&& (forall|id: u64| folded.3.contains(id)
            ==> has_pending(post.pending_level_ups@, id))
    })
    &&& post.players@.len() == pre.players@.len()
    &&& (forall|i: int| 0 <= i < pre.players@.len()
        ==> (#[trigger] post.players@[i]).id == pre.players@[i].id
            && post.players@[i].position == pre.players@[i].position
            && post.players@[i].health == pre.players@[i].health)
    &&& post.scores@ == pre.scores@
    &&& post.game_time == pre.game_time
    &&& post.last_spawn_time == pre.last_spawn_time
    &&& post.next_entity_id == pre.next_entity_id
    &&& post.config == pre.config
}

/// Cleanup keeps only entries of the incoming list, and keeps distinct ids
/// distinct.
pub proof fn lemma_alive_projectiles_props(s: Seq<Projectile>)
    ensures
        forall|x: Projectile| #[trigger] alive_projectiles(s).contains(x) ==> s.contains(x),
        (forall|a: int, b: int| 0 <= a < b < s.len() ==> s[a].id != s[b].id)
            ==> (forall|a: int, b: int| 0 <= a < b < alive_projectiles(s).len()
                ==> alive_projectiles(s)[a].id != alive_projectiles(s)[b].id),
        alive_projectiles(s).len() <= s.len(),
    decreases s.len(),
{
    if s.len() > 0 {
        let d = s.drop_last();
        lemma_alive_projectiles_props(d);
        assert forall|x: Projectile| #[trigger] alive_projectiles(s).contains(x)
            implies s.contains(x) by {
            let w = choose|w: int| 0 <= w < alive_projectiles(s).len() && alive_projectiles(s)[w] == x;
            if s.last().lifetime > 0 && w == alive_projectiles(s).len() - 1 {
                assert(s[s.len() - 1] == x);
            } else {
                assert(alive_projectiles(d)[w] == x);
                assert(alive_projectiles(d).contains(x));
                let v = choose|v: int| 0 <= v < d.len() && d[v] == x;
                assert(s[v] == x);
            }
        }
        if forall|a: int, b: int| 0 <= a < b < s.len() ==> s[a].id != s[b].id {
            assert(forall|a: int, b: int| 0 <= a < b < d.len() ==> d[a].id != d[b].id);
            assert forall|a: int, b: int| 0 <= a < b < alive_projectiles(s).len()
                implies alive_projectiles(s)[a].id != alive_projectiles(s)[b].id by {
                if s.last().lifetime > 0 && b == alive_projectiles(s).len() - 1 {
                    assert(alive_projectiles(s)[a] == alive_projectiles(d)[a]);
                    assert(alive_projectiles(d).contains(alive_projectiles(d)[a]));
                    let v = choose|v: int| 0 <= v < d.len() && d[v] == alive_projectiles(s)[a];
                    assert(s[v].id != s[s.len() - 1].id);
                } else {
                    assert(alive_projectiles(s)[a] == alive_projectiles(d)[a]);
                    assert(alive_projectiles(s)[b] == alive_projectiles(d)[b]);
                }
            }
        }
    }
}

/// Cleanup keeps only entries of the incoming list, and keeps distinct ids
/// distinct.
pub proof fn lemma_alive_enemies_props(s: Seq<Enemy>)
    ensures
        forall|x: Enemy| #[trigger] alive_enemies(s).contains(x) ==> s.contains(x),
        (forall|a: int, b: int| 0 <= a < b < s.len() ==> s[a].id != s[b].id)
            ==> (forall|a: int, b: int| 0 <= a < b < alive_enemies(s).len()
                ==> alive_enemies(s)[a].id != alive_enemies(s)[b].id),
        alive_enemies(s).len() <= s.len(),
    decreases s.len(),
{
    if s.len() > 0 {
        let d = s.drop_last();
        lemma_alive_enemies_props(d);
        assert forall|x: Enemy| #[trigger] alive_enemies(s).contains(x) implies s.contains(x) by {
            let w = choose|w: int| 0 <= w < alive_enemies(s).len() && alive_enemies(s)[w] == x;
            if s.last().health > 0 && w == alive_enemies(s).len() - 1 {
                assert(s[s.len() - 1] == x);
            } else {
                assert(alive_enemies(d)[w] == x);
                assert(alive_enemies(d).contains(x));
                let v = choose|v: int| 0 <= v < d.len() && d[v] == x;
                assert(s[v] == x);
            }
        }
        if forall|a: int, b: int| 0 <= a < b < s.len() ==> s[a].id != s[b].id {
            assert(forall|a: int, b: int| 0 <= a < b < d.len() ==> d[a].id != d[b].id);
            assert forall|a: int, b: int| 0 <= a < b < alive_enemies(s).len()
                implies alive_enemies(s)[a].id != alive_enemies(s)[b].id by {
                if s.last().health > 0 && b == alive_enemies(s).len() - 1 {
                    assert(alive_enemies(s)[a] == alive_enemies(d)[a]);
                    assert(alive_enemies(d).contains(alive_enemies(d)[a]));
                    let v = choose|v: int| 0 <= v < d.len() && d[v] == alive_enemies(s)[a];
                    assert(s[v].id != s[s.len() - 1].id);
                } else {
                    assert(alive_enemies(s)[a] == alive_enemies(d)[a]);
                    assert(alive_enemies(s)[b] == alive_enemies(d)[b]);
                }
            }
        }
    }
}

/// Pushing onto a ring list keeps everything it held, and makes it hold the
/// pushed ring; not pushing (because it was held) changes nothing.
proof fn lemma_contains_after_push(before: Seq<u32>, after: Seq<u32>, x: u32)
    requires
        after == before || (!before.contains(x) && after == before.push(x)),
        after == before ==> before.contains(x),
    ensures
        after.contains(x),
        forall|y: u32| before.contains(y) ==> after.contains(y),
{
    if after != before {
        assert(after[after.len() - 1] == x);
        assert(after.contains(x));
        assert forall|y: u32| before.contains(y) implies after.contains(y) by {
            let w = choose|w: int| 0 <= w < before.len() && before[w] == y;
            assert(after[w] == y);
        }
    }
}

/// The first living player nearest to `pos`, by exact squared distance;
/// `None` when no player lives.
fn nearest_living_player_idx(players: &Vec<Player>, pos: &Position) -> (r: Option<usize>)
    requires
        in_bounds(*pos),
        forall|j: int| 0 <= j < players@.len() ==> player_wf(#[trigger] players@[j]),
    ensures
        r.is_none() <==> !any_living_player(players@),
        r.is_some() ==> is_nearest_living_player(players@, *pos, r.unwrap() as int),
{
    let n = players.len();
    let mut best: usize = 0;
    let mut best_d2: i64 = 0;
    let mut found = false;
    let mut j: usize = 0;
    while j < n
        invariant
            n == players@.len(),
            j <= n,
            in_bounds(*pos),
            forall|l: int| 0 <= l < players@.len() ==> player_wf(#[trigger] players@[l]),
            found <==> exists|l: int| 0 <= l < j && (#[trigger] players@[l]).health > 0,
            found ==> best < j && players@[best as int].health > 0
                && best_d2 == dist_sq(*pos, players@[best as int].position),
            found ==> forall|l: int| 0 <= l < best && (#[trigger] players@[l]).health > 0
                ==> dist_sq(*pos, players@[l].position) > best_d2,
            found ==> forall|l: int| best <= l < j && (#[trigger] players@[l]).health > 0
                ==> dist_sq(*pos, players@[l].position) >= best_d2,
        decreases n - j,
    {
        if players[j].health > 0 {
            let d2 = pos.distance_sq_to(&players[j].position);
            if !found || d2 < best_d2 {
                found = true;
                best = j;
                best_d2 = d2;
            }
        }
        j += 1;
    }
    if found {
        Some(best)
    } else {
        None
    }
}

/// The first living enemy nearest to `pos`, by exact squared distance;
/// `None` when no enemy lives.
fn nearest_living_enemy_idx(enemies: &Vec<Enemy>, pos: &Position) -> (r: Option<usize>)
    requires
        in_bounds(*pos),
        forall|j: int| 0 <= j < enemies@.len() ==> enemy_wf(#[trigger] enemies@[j]),
    ensures
        r.is_none() <==> !(exists|j: int| 0 <= j < enemies@.len()
            && (#[trigger] enemies@[j]).health > 0),
        r.is_some() ==> is_nearest_living_enemy(enemies@, *pos, r.unwrap() as int),
{
    let n = enemies.len();
    let mut best: usize = 0;
    let mut best_d2: i64 = 0;
    let mut found = false;
    let mut j: usize = 0;
    while j < n
        invariant
            n == enemies@.len(),
            j <= n,
            in_bounds(*pos),
            forall|l: int| 0 <= l < enemies@.len() ==> enemy_wf(#[trigger] enemies@[l]),
            found <==> exists|l: int| 0 <= l < j && (#[trigger] enemies@[l]).health > 0,
            found ==> best < j && enemies@[best as int].health > 0
                && best_d2 == dist_sq(*pos, enemies@[best as int].position),
            found ==> forall|l: int| 0 <= l < best && (#[trigger] enemies@[l]).health > 0
                ==> dist_sq(*pos, enemies@[l].position) > best_d2,
            found ==> forall|l: int| best <= l < j && (#[trigger] enemies@[l]).health > 0
                ==> dist_sq(*pos, enemies@[l].position) >= best_d2,
        decreases n - j,
    {
        if enemies[j].health > 0 {
            let d2 = pos.distance_sq_to(&enemies[j].position);
            if !found || d2 < best_d2 {
                found = true;
                best = j;
                best_d2 = d2;
            }
        }
        j += 1;
    }
    if found {
        Some(best)
    } else {
        None
    }
}

/// Whether a ring list already holds `x`.
fn contains_u32(v: &Vec<u32>, x: u32) -> (r: bool)
    ensures
        r == v@.contains(x),
{
    let n = v.len();
    let mut i: usize = 0;
    while i < n
        invariant
            n == v@.len(),
            i <= n,
            forall|j: int| 0 <= j < i ==> v@[j] != x,
        decreases n - i,
    {
        if v[i] == x {
            return true;
        }
        i += 1;
    }
    proof {
        assert(!v@.contains(x));
    }
    false
}

/// A position inside the spawn annulus of `ring`: the radius is drawn from
/// the multiples of 65 milli-units in `[inner, outer)` and the direction from
/// the 36 exact unit directions of hypotenuse 65 (about ten degrees apart),
/// so the distance from the center is exact.
pub fn spawn_position_in_ring(config: &GameConfig, ring: u32, dir_pick: u64, rad_pick: u64) -> (r: Position)
    requires
        config_wf(*config),
        1 <= ring <= config.max_rings,
    ensures
        in_bounds(r),
        ring_inner(*config, ring as int) <= dist(r, origin()) < ring_outer(*config, ring as int),
{
    proof {
        assert(0 <= (ring - 1) * config.ring_radius
            && (ring - 1) * config.ring_radius <= config.max_rings * config.ring_radius
            && config.ring_radius <= ring * config.ring_radius
            && ring * config.ring_radius <= config.max_rings * config.ring_radius
            && ring * config.ring_radius - (ring - 1) * config.ring_radius
                == config.ring_radius) by (nonlinear_arith)
            requires 1 <= ring <= config.max_rings, config.ring_radius >= 1;
    }
    let inner = (ring as i64 - 1) * config.ring_radius + config.safe_zone_radius;
    let outer = (ring as i64) * config.ring_radius + config.safe_zone_radius;

    // The smallest multiple of 65 at or above `inner` is `65 * q`
    let q = ((inner as u64) + 64) / 65;
    proof {
        vstd::arithmetic::div_mod::lemma_fundamental_div_mod((inner + 64) as int, 65);
        vstd::arithmetic::div_mod::lemma_mod_bound((inner + 64) as int, 65);
        assert(inner <= 65 * (q as int) <= inner + 64);
    }
    let span = (outer - 65 * (q as i64)) as u64;
    let count = (span + 64) / 65;
    proof {
        vstd::arithmetic::div_mod::lemma_fundamental_div_mod((span + 64) as int, 65);
        vstd::arithmetic::div_mod::lemma_mod_bound((span + 64) as int, 65);
        assert(count >= 1 && 65 * (count as int) <= span + 64);
    }
    let k = rad_pick % count;
    let m = (q + k) as i64;
    proof {
        assert(inner <= 65 * m < outer && 0 <= m <= 15_384_615);
    }

    // One of ten exact magnitude pairs with px^2 + py^2 == 65^2, then a
    // quadrant; the four lattice decompositions of 65^2 give 36 distinct
    // directions, roughly ten degrees apart
    let sel = dir_pick % 40;
    let pair = sel / 4;
    let quad = sel % 4;
    let (mx, my): (i64, i64) = if pair == 0 {
        (65, 0)
    } else if pair == 1 {
        (63, 16)
    } else if pair == 2 {
        (60, 25)
    } else if pair == 3 {
        (56, 33)
    } else if pair == 4 {
        (52, 39)
    } else if pair == 5 {
        (39, 52)
    } else if pair == 6 {
        (33, 56)
    } else if pair == 7 {
        (25, 60)
    } else if pair == 8 {
        (16, 63)
    } else {
        (0, 65)
    };
    let px = if quad == 1 || quad == 2 {
        -mx
    } else {
        mx
    };
    let py = if quad == 2 || quad == 3 {
        -my
    } else {
        my
    };
    proof {
        assert(px * px + py * py == 4_225) by (nonlinear_arith)
            requires
                mx * mx + my * my == 4_225,
                px == mx || px == -mx,
                py == my || py == -my;
    }
    let r = annulus_point(m, px, py);
    r
}

/// The point `m * (px, py)` for an exact direction with `px^2 + py^2 == 65^2`:
/// its distance from the center is exactly `65 * m`.
fn annulus_point(m: i64, px: i64, py: i64) -> (r: Position)
    requires
        0 <= m <= 15_384_615,
        -65 <= px <= 65,
        -65 <= py <= 65,
        px * px + py * py == 4_225,
    ensures
        r.x == m * px,
        r.y == m * py,
        in_bounds(r),
        dist(r, origin()) == 65 * m,
{
    proof {
        assert(-1_000_000_000 <= m * px <= 1_000_000_000
            && -1_000_000_000 <= m * py <= 1_000_000_000) by (nonlinear_arith)
            requires 0 <= m <= 15_384_615, -65 <= px <= 65, -65 <= py <= 65;
    }
    let x = m * px;
    let y = m * py;
    proof {
        let p = Position { x, y };
        assert(crate::position::dist_sq(p, origin()) == (m * px) * (m * px) + (m * py) * (m * py));
        assert((m * px) * (m * px) + (m * py) * (m * py) == 4_225 * m * m) by (nonlinear_arith)
            requires px * px + py * py == 4_225;
        assert((65 * m) * (65 * m) == 4_225 * m * m) by (nonlinear_arith);
        assert((65 * m + 1) * (65 * m + 1) > 4_225 * m * m) by (nonlinear_arith)
            requires m >= 0;
        crate::math::lemma_sqrt_floor_unique(4_225 * m * m, 65 * m);
    }
    Position { x, y }
}

/// A wall-clock reading clamped into the model's accepted range.
fn clamp_clock(t: i64) -> (r: i64)
    ensures
        -CLOCK_CAP <= r <= CLOCK_CAP,
        -CLOCK_CAP <= t <= CLOCK_CAP ==> r == t,
{
    if t > CLOCK_CAP {
        CLOCK_CAP
    } else if t < -CLOCK_CAP {
        -CLOCK_CAP
    } else {
        t
    }
}

/// Survival time in whole seconds, clamped to `[0, SURVIVAL_CAP]`.
fn survival_seconds(spawn: i64, now: i64) -> (r: u64)
    requires
        -CLOCK_CAP <= spawn <= CLOCK_CAP,
        -CLOCK_CAP <= now <= CLOCK_CAP,
    ensures
        r == survival_secs(spawn as int, now as int),
{
    if now <= spawn {
        0
    } else {
        let diff = (now - spawn) as u64;
        let secs = diff / 1000;
        if secs > SURVIVAL_CAP {
            SURVIVAL_CAP
        } else {
            secs
        }
    }
}

} // verus!
