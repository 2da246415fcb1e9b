use vstd::prelude::*;

verus! {

/// Largest survival time a score entry can carry, in whole seconds.
pub const SURVIVAL_CAP: u64 = 1_000_000_000_000;

/// Score entry for the leaderboard.
#[derive(Debug, Clone, Copy)]
pub struct ScoreEntry {
    pub player_id: u64,
    pub max_ring_reached: u32,
    pub survival_time_seconds: u64,
    pub enemies_defeated: u32,
    /// wall clock, Unix ms
    pub timestamp: i64,
}

/// Composite ranking key: the ring dominates, then survival time, then kills.
pub open spec fn total_score_spec(e: ScoreEntry) -> int {
    e.max_ring_reached * 10_000 + e.survival_time_seconds * 10 + e.enemies_defeated
}

pub open spec fn score_entry_wf(e: ScoreEntry) -> bool {
    e.survival_time_seconds <= SURVIVAL_CAP
}

impl ScoreEntry {
    /// Composite score for sorting: primary the deepest ring reached,
    /// secondary the survival time, tertiary the enemies defeated.
    pub fn total_score(&self) -> (r: u64)
        requires
            score_entry_wf(*self),
        ensures
            r == total_score_spec(*self),
    {
        (self.max_ring_reached as u64) * 10_000 + self.survival_time_seconds * 10
            + (self.enemies_defeated as u64)
    }
}

/// A score list sorted in descending order of the composite score.
pub open spec fn sorted_desc(s: Seq<ScoreEntry>) -> bool {
    forall|i: int, j: int| 0 <= i < j < s.len()
        ==> total_score_spec(s[i]) >= total_score_spec(s[j])
}

/// The position at which a new entry is inserted: after every kept entry
/// that scores at least as much (a stable insert: equal scores keep their
/// seniority).
pub open spec fn insert_pos(s: Seq<ScoreEntry>, e: ScoreEntry) -> int
    decreases s.len(),
{
    if s.len() == 0 {
        0
    } else if total_score_spec(s[0]) < total_score_spec(e) {
        0
    } else {
        1 + insert_pos(s.skip(1), e)
    }
}

/// A scoreboard after one insertion: the entry goes to its rank, and the
/// list is cut back to `cap` entries.
pub open spec fn insert_score_spec(s: Seq<ScoreEntry>, e: ScoreEntry, cap: int) -> Seq<ScoreEntry> {
    let t = s.insert(insert_pos(s, e), e);
    if t.len() <= cap {
        t
    } else {
        t.take(cap)
    }
}

pub proof fn lemma_insert_pos_props(s: Seq<ScoreEntry>, e: ScoreEntry)
    ensures
        0 <= insert_pos(s, e) <= s.len(),
        forall|j: int| 0 <= j < insert_pos(s, e)
            ==> total_score_spec(#[trigger] s[j]) >= total_score_spec(e),
        insert_pos(s, e) < s.len() ==> total_score_spec(s[insert_pos(s, e)]) < total_score_spec(e),
    decreases s.len(),
{
    if s.len() == 0 {
    } else if total_score_spec(s[0]) < total_score_spec(e) {
    } else {
        lemma_insert_pos_props(s.skip(1), e);
        let p = insert_pos(s, e);
        assert forall|j: int| 0 <= j < p
            implies total_score_spec(#[trigger] s[j]) >= total_score_spec(e) by {
            if j > 0 {
                assert(s.skip(1)[j - 1] == s[j]);
            }
        }
        if p < s.len() {
            assert(s.skip(1)[p - 1] == s[p]);
        }
    }
}

/// The insert position is the unique index bounded below by higher-or-equal
/// scores and above by a strictly lower one.
pub proof fn lemma_insert_pos_unique(s: Seq<ScoreEntry>, e: ScoreEntry, i: int)
    requires
        0 <= i <= s.len(),
        forall|j: int| 0 <= j < i ==> total_score_spec(#[trigger] s[j]) >= total_score_spec(e),
        i < s.len() ==> total_score_spec(s[i]) < total_score_spec(e),
    ensures
        i == insert_pos(s, e),
    decreases s.len(),
{
    if s.len() == 0 {
    } else if total_score_spec(s[0]) < total_score_spec(e) {
        assert(i == 0);
    } else {
        assert(i >= 1);
        lemma_insert_pos_unique(s.skip(1), e, i - 1);
    }
}

/// Inserting into a sorted, bounded scoreboard keeps it sorted and bounded;
/// an entry scoring no higher than every entry of a full board is dropped.
pub proof fn lemma_insert_score_sorted(s: Seq<ScoreEntry>, e: ScoreEntry, cap: int)
    requires
        sorted_desc(s),
        s.len() <= cap,
        1 <= cap,
    ensures
        sorted_desc(insert_score_spec(s, e, cap)),
        insert_score_spec(s, e, cap).len()
            == (if s.len() + 1 <= cap { s.len() + 1int } else { cap }),
        (s.len() == cap && (forall|j: int| 0 <= j < s.len()
            ==> total_score_spec(#[trigger] s[j]) >= total_score_spec(e)))
            ==> insert_score_spec(s, e, cap) == s,
{
    lemma_insert_pos_props(s, e);
    let p = insert_pos(s, e);
    let t = s.insert(p, e);
    assert forall|a: int, b: int| 0 <= a < b < t.len()
        implies total_score_spec(t[a]) >= total_score_spec(t[b]) by {
        if b < p {
            assert(t[a] == s[a] && t[b] == s[b]);
        } else if a < p && b == p {
            assert(t[a] == s[a]);
        } else if a < p && b > p {
            assert(t[a] == s[a] && t[b] == s[b - 1]);
            if a < b - 1 {
            } else {
                assert(a == p - 1 && b - 1 == p - 1);
            }
        } else if a == p && b > p {
            assert(t[b] == s[b - 1]);
        } else {
            assert(t[a] == s[a - 1] && t[b] == s[b - 1]);
        }
    }
    let r = insert_score_spec(s, e, cap);
    assert forall|a: int, b: int| 0 <= a < b < r.len()
        implies total_score_spec(r[a]) >= total_score_spec(r[b]) by {
        assert(r[a] == t[a] && r[b] == t[b]);
    }
    if s.len() == cap && (forall|j: int| 0 <= j < s.len()
        ==> total_score_spec(#[trigger] s[j]) >= total_score_spec(e)) {
        lemma_insert_pos_unique(s, e, s.len() as int);
        assert(r =~= s);
    }
}

} // verus!
