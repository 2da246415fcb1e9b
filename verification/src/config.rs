use vstd::prelude::*;
use crate::position::COORD_LIMIT;
use crate::enemy::RING_CAP;

verus! {

/// Configuration surface of the arena, loaded once at process start.
/// Lengths are milli-units, rates are per-second quantities scaled as noted.
#[derive(Debug, Clone, Copy)]
pub struct GameConfig {
    /// ticks per second
    pub tick_rate: u64,
    /// radius of safe zone, milli-units
    pub safe_zone_radius: i64,
    /// radius of each ring, milli-units
    pub ring_radius: i64,
    /// number of rings
    pub max_rings: u32,
    /// enemies per second per ring, in thousandths
    pub enemy_spawn_rate: u64,
    /// total map radius, milli-units
    pub map_size: i64,
    /// minimum ring to qualify for the scoreboard
    pub score_min_ring: u32,
    pub max_scoreboard_entries: usize,
}

/// A usable configuration: positive rates, at least one ring, and every ring
/// annulus inside the arena's coordinate bound (wide enough to hold a spawn
/// point).
pub open spec fn config_wf(c: GameConfig) -> bool {
    &&& 1 <= c.tick_rate <= 1000
    &&& 0 <= c.safe_zone_radius
    &&& 1000 <= c.ring_radius
    &&& 1 <= c.max_rings <= RING_CAP
    &&& c.max_rings * c.ring_radius + c.safe_zone_radius <= COORD_LIMIT
    &&& 1 <= c.enemy_spawn_rate <= 1_000_000
    &&& 0 <= c.map_size <= COORD_LIMIT
    &&& c.score_min_ring >= 1
    &&& c.max_scoreboard_entries >= 1
}

/// The fixed spawn pacing: enemies spawn once per `1_000_000 / enemy_spawn_rate`
/// milliseconds (the rate is in thousandths of enemies per second).
pub open spec fn spawn_interval_ms(c: GameConfig) -> int {
    1_000_000 as int / c.enemy_spawn_rate as int
}

impl Default for GameConfig {
    /// 20 ticks per second, a 100-unit safe zone, 200-unit rings, ten rings,
    /// one enemy per two seconds per ring, and a scoreboard that takes ring
    /// 10 runs and keeps its best 100 entries.
    fn default() -> (r: Self)
        ensures
            r.tick_rate == 20,
            r.safe_zone_radius == 100_000,
            r.ring_radius == 200_000,
            r.max_rings == 10,
            r.enemy_spawn_rate == 500,
            r.map_size == 2_500_000,
            r.score_min_ring == 10,
            r.max_scoreboard_entries == 100,
            config_wf(r),
    {
        GameConfig {
            tick_rate: 20,
            safe_zone_radius: 100_000,
            ring_radius: 200_000,
            max_rings: 10,
            enemy_spawn_rate: 500,
            map_size: 2_500_000,
            score_min_ring: 10,
            max_scoreboard_entries: 100,
        }
    }
}

} // verus!
