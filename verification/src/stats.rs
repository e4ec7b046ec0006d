//! The stat accumulator: one boxscore record per active roster slot,
//! created at game start and mutated by reference lookup on player id as
//! plays resolve; plus-minus is written once at the end.
//!
//! The central bookkeeping facts live here: the per-team sum of player
//! goals and assists over a record collection, the lemmas that track those
//! sums through single-record updates, and the coverage predicate saying
//! that every skater slot has a record — together they let the phase
//! controller prove that the boxscore adds up to the score.

use vstd::prelude::*;
use crate::fixed::{fp_mul, fp_mul_spec, lemma_fp_mul_le, SCALE};
use crate::rating::{playoff_phys, rating_ice_weight, spec_playoff_phys, spec_rating_ice_weight};
use crate::rng::GameRng;
use crate::types::{
    LineAssignment, LineKind, PlayerGameStat, PlayerType, PlayStyleModifiers, Team,
};

verus! {

/// Sum of the goals over a record collection.
pub open spec fn spec_sum_goals(s: Seq<PlayerGameStat>) -> int
    decreases s.len(),
{
    if s.len() == 0 {
        0
    } else {
        spec_sum_goals(s.drop_last()) + s.last().goals
    }
}

/// Sum of the assists over a record collection.
pub open spec fn spec_sum_assists(s: Seq<PlayerGameStat>) -> int
    decreases s.len(),
{
    if s.len() == 0 {
        0
    } else {
        spec_sum_assists(s.drop_last()) + s.last().assists
    }
}

/// Goal and assist sums grow by the pushed record's counters.
pub proof fn lemma_sums_push(s: Seq<PlayerGameStat>, x: PlayerGameStat)
    ensures
        spec_sum_goals(s.push(x)) == spec_sum_goals(s) + x.goals,
        spec_sum_assists(s.push(x)) == spec_sum_assists(s) + x.assists,
{
    assert(s.push(x).drop_last() =~= s);
}

/// Replacing one record changes the sums by exactly the difference in its
/// counters.
pub proof fn lemma_sums_update(s: Seq<PlayerGameStat>, i: int, v: PlayerGameStat)
    requires
        0 <= i < s.len(),
    ensures
        spec_sum_goals(s.update(i, v)) == spec_sum_goals(s) - s[i].goals + v.goals,
        spec_sum_assists(s.update(i, v)) == spec_sum_assists(s) - s[i].assists + v.assists,
    decreases s.len(),
{
    if s.len() > 0 {
        if i == s.len() - 1 {
            assert(s.update(i, v).drop_last() =~= s.drop_last());
        } else {
            lemma_sums_update(s.drop_last(), i, v);
            assert(s.update(i, v).drop_last() =~= s.drop_last().update(i, v));
            assert(s.update(i, v).last() == s.last());
        }
    }
}

/// Sums are nonnegative and bound every element's counter.
pub proof fn lemma_sums_nonneg(s: Seq<PlayerGameStat>)
    ensures
        spec_sum_goals(s) >= 0,
        spec_sum_assists(s) >= 0,
    decreases s.len(),
{
    if s.len() > 0 {
        lemma_sums_nonneg(s.drop_last());
    }
}

/// Each record's goal counter is at most the goal sum.
pub proof fn lemma_goals_elem_le_sum(s: Seq<PlayerGameStat>, i: int)
    requires
        0 <= i < s.len(),
    ensures
        s[i].goals <= spec_sum_goals(s),
        s[i].assists <= spec_sum_assists(s),
    decreases s.len(),
{
    if i == s.len() - 1 {
        lemma_sums_nonneg(s.drop_last());
    } else {
        lemma_goals_elem_le_sum(s.drop_last(), i);
    }
}

/// Whether some record carries this player id.
pub open spec fn spec_has_record(s: Seq<PlayerGameStat>, id: int) -> bool {
    exists|j: int| 0 <= j < s.len() && s[j].player_id == id
}

/// Every non-goalie slot's player has a record.
pub open spec fn spec_stats_cover(s: Seq<PlayerGameStat>, lines: Seq<LineAssignment>) -> bool {
    forall|k: int|
        0 <= k < lines.len() && !((#[trigger] lines[k]).kind is Goalie) ==> spec_has_record(
            s,
            lines[k].player.id as int,
        )
}

/// Time on ice (seconds of a 3600-second game) precomputed for a slot from
/// the fixed ice-time tables; the active goalie plays the full game.
pub open spec fn spec_slot_toi(kind: LineKind, depth: int) -> int {
    match kind {
        LineKind::Forward => if depth <= 1 {
            1260
        } else if depth == 2 {
            1080
        } else if depth == 3 {
            720
        } else {
            540
        },
        LineKind::Defense => if depth <= 1 {
            1620
        } else if depth == 2 {
            1260
        } else {
            720
        },
        LineKind::Goalie => 3600,
        LineKind::Other => 0,
    }
}

/// Time on ice precomputed for a slot.
pub fn slot_toi(kind: LineKind, depth: u32) -> (r: u32)
    ensures
        r == spec_slot_toi(kind, depth as int),
        r <= 3600,
{
    match kind {
        LineKind::Forward => if depth <= 1 {
            1260
        } else if depth == 2 {
            1080
        } else if depth == 3 {
            720
        } else {
            540
        },
        LineKind::Defense => if depth <= 1 {
            1620
        } else if depth == 2 {
            1260
        } else {
            720
        },
        LineKind::Goalie => 3600,
        LineKind::Other => 0,
    }
}

/// A record whose counters are all zero.
pub open spec fn spec_fresh_record(s: PlayerGameStat) -> bool {
    &&& s.goals == 0
    &&& s.assists == 0
    &&& s.shots == 0
    &&& s.hits == 0
    &&& s.blocks == 0
    &&& s.plus_minus == 0
    &&& s.takeaways == 0
    &&& s.giveaways == 0
    &&& s.saves == 0
    &&& s.goals_against == 0
    &&& s.shots_against == 0
}

/// The fresh record one slot receives at game start.
pub open spec fn spec_init_record(la: LineAssignment) -> PlayerGameStat {
    PlayerGameStat {
        player_id: la.player.id,
        player_name: la.player.name,
        goals: 0,
        assists: 0,
        shots: 0,
        hits: 0,
        blocks: 0,
        plus_minus: 0,
        time_on_ice: spec_slot_toi(la.kind, la.depth as int) as u32,
        takeaways: 0,
        giveaways: 0,
        saves: 0,
        goals_against: 0,
        shots_against: 0,
    }
}

/// The exact boxscore a roster starts with: one fresh record per slot, in
/// roster order, skipping every goalie slot other than the active one.
pub open spec fn spec_init_stats(lines: Seq<LineAssignment>, active: int) -> Seq<PlayerGameStat>
    decreases lines.len(),
{
    if lines.len() == 0 {
        Seq::empty()
    } else {
        let rest = spec_init_stats(lines.drop_last(), active);
        if lines.last().kind is Goalie && lines.len() - 1 != active {
            rest
        } else {
            rest.push(spec_init_record(lines.last()))
        }
    }
}

/// Number of non-goalie slots of a roster.
pub open spec fn spec_count_skaters(lines: Seq<LineAssignment>) -> int
    decreases lines.len(),
{
    if lines.len() == 0 {
        0
    } else {
        spec_count_skaters(lines.drop_last()) + (if lines.last().kind is Goalie {
            0int
        } else {
            1int
        })
    }
}

/// The starting boxscore holds one record per non-goalie slot, plus one
/// for the active goalie when that index names a goalie slot.
pub proof fn lemma_init_stats_len(lines: Seq<LineAssignment>, active: int)
    ensures
        spec_init_stats(lines, active).len() == spec_count_skaters(lines) + (if 0 <= active
            < lines.len() && lines[active].kind is Goalie {
            1int
        } else {
            0int
        }),
    decreases lines.len(),
{
    if lines.len() > 0 {
        lemma_init_stats_len(lines.drop_last(), active);
    }
}

/// Creates one zeroed record per active slot: every slot except the
/// goalies not selected for this game.  Time on ice comes from the fixed
/// tables.
pub fn init_team_stats(team: &Team, active_goalie_idx: usize) -> (stats: Vec<PlayerGameStat>)
    requires
        team.wf(),
    ensures
        stats@ == spec_init_stats(team.lines@, active_goalie_idx as int),
        spec_stats_cover(stats@, team.lines@),
        spec_sum_goals(stats@) == 0,
        spec_sum_assists(stats@) == 0,
        forall|i: int| 0 <= i < stats@.len() ==> spec_fresh_record(#[trigger] stats@[i]),
        forall|i: int| 0 <= i < stats@.len() ==> (#[trigger] stats@[i]).time_on_ice <= 3600,
        stats@.len() <= team.lines@.len(),
{
    let n = team.lines.len();
    let mut stats: Vec<PlayerGameStat> = Vec::new();
    let mut i: usize = 0;
    while i < n
        invariant
            team.wf(),
            n == team.lines@.len(),
            i <= n,
            stats@.len() <= i,
            stats@ == spec_init_stats(team.lines@.take(i as int), active_goalie_idx as int),
            spec_sum_goals(stats@) == 0,
            spec_sum_assists(stats@) == 0,
            forall|j: int| 0 <= j < stats@.len() ==> spec_fresh_record(#[trigger] stats@[j]),
            forall|j: int| 0 <= j < stats@.len() ==> (#[trigger] stats@[j]).time_on_ice <= 3600,
            forall|k: int|
                0 <= k < i && !((#[trigger] team.lines@[k]).kind is Goalie) ==> spec_has_record(
                    stats@,
                    team.lines@[k].player.id as int,
                ),
        decreases n - i,
    {
        let ghost pre = stats@;
        proof {
            assert(team.lines@.take(i + 1).drop_last() =~= team.lines@.take(i as int));
            assert(team.lines@.take(i + 1).last() == team.lines@[i as int]);
        }
        let la = &team.lines[i];
        let skip = matches!(la.kind, LineKind::Goalie) && i != active_goalie_idx;
        if !skip {
            let toi = slot_toi(la.kind, la.depth);
            let rec = PlayerGameStat::new_zeroed(la.player.id, la.player.name.clone(), toi);
            proof {
                lemma_sums_push(pre, rec);
            }
            stats.push(rec);
            proof {
                assert(stats@[stats@.len() - 1].player_id == la.player.id);
                assert(forall|j: int| 0 <= j < pre.len() ==> stats@[j] == pre[j]);
            }
        }
        i = i + 1;
    }
    proof {
        assert(team.lines@.take(n as int) =~= team.lines@);
    }
    stats
}

/// Finds the record of the player occupying a line slot, by player id;
/// `None` exactly when the slot index is out of range or no record carries
/// that id.
pub fn find_player_stat_idx(stats: &Vec<PlayerGameStat>, team: &Team, line_idx: usize) -> (r:
    Option<usize>)
    ensures
        match r {
            Option::Some(i) => line_idx < team.lines@.len() && i < stats@.len()
                && stats@[i as int].player_id == team.lines@[line_idx as int].player.id
                && forall|k: int|
                0 <= k < i ==> (#[trigger] stats@[k]).player_id
                    != team.lines@[line_idx as int].player.id,
            Option::None => line_idx >= team.lines@.len() || !spec_has_record(
                stats@,
                team.lines@[line_idx as int].player.id as int,
            ),
        },
{
    if line_idx >= team.lines.len() {
        return Option::None;
    }
    let id = team.lines[line_idx].player.id;
    let n = stats.len();
    let mut j: usize = 0;
    while j < n
        invariant
            n == stats@.len(),
            j <= n,
            line_idx < team.lines@.len(),
            id == team.lines@[line_idx as int].player.id,
            forall|k: int| 0 <= k < j ==> (#[trigger] stats@[k]).player_id != id,
        decreases n - j,
    {
        if stats[j].player_id == id {
            return Option::Some(j);
        }
        j = j + 1;
    }
    Option::None
}

/// Finds the active goalie's record; the same id lookup as any player's.
pub fn find_goalie_stat_idx(stats: &Vec<PlayerGameStat>, team: &Team, goalie_line_idx: usize) -> (r:
    Option<usize>)
    ensures
        match r {
            Option::Some(i) => goalie_line_idx < team.lines@.len() && i < stats@.len()
                && stats@[i as int].player_id == team.lines@[goalie_line_idx as int].player.id
                && forall|k: int|
                0 <= k < i ==> (#[trigger] stats@[k]).player_id
                    != team.lines@[goalie_line_idx as int].player.id,
            Option::None => goalie_line_idx >= team.lines@.len() || !spec_has_record(
                stats@,
                team.lines@[goalie_line_idx as int].player.id as int,
            ),
        },
{
    find_player_stat_idx(stats, team, goalie_line_idx)
}

/// Saturating counter step: boxscore counters other than goals and assists
/// clamp at the type's maximum instead of overflowing; a real game stays
/// far below it.
pub open spec fn spec_inc(x: u32) -> u32 {
    if x < u32::MAX {
        (x + 1) as u32
    } else {
        x
    }
}

/// Saturating counter addition.
pub open spec fn spec_add_sat(x: u32, c: u32) -> u32 {
    if x + c <= u32::MAX {
        (x + c) as u32
    } else {
        u32::MAX
    }
}

/// The record after a shot is charged to it.
pub open spec fn spec_with_shot(s: PlayerGameStat) -> PlayerGameStat {
    PlayerGameStat { shots: spec_inc(s.shots), ..s }
}

/// The record after a goal is credited to it.
pub open spec fn spec_with_goal(s: PlayerGameStat) -> PlayerGameStat {
    PlayerGameStat { goals: (s.goals + 1) as u32, ..s }
}

/// The record after an assist is credited to it.
pub open spec fn spec_with_assist(s: PlayerGameStat) -> PlayerGameStat {
    PlayerGameStat { assists: (s.assists + 1) as u32, ..s }
}

/// The goalie's record after facing one shot: a goal against or a save.
pub open spec fn spec_with_faced_shot(s: PlayerGameStat, goal: bool) -> PlayerGameStat {
    if goal {
        PlayerGameStat {
            shots_against: spec_inc(s.shots_against),
            goals_against: spec_inc(s.goals_against),
            ..s
        }
    } else {
        PlayerGameStat { shots_against: spec_inc(s.shots_against), saves: spec_inc(s.saves), ..s }
    }
}

/// Clones one record field-for-field with new counter values where given.
fn clone_record(r: &PlayerGameStat) -> (v: PlayerGameStat)
    ensures
        v == *r,
{
    PlayerGameStat {
        player_id: r.player_id,
        player_name: r.player_name.clone(),
        goals: r.goals,
        assists: r.assists,
        shots: r.shots,
        hits: r.hits,
        blocks: r.blocks,
        plus_minus: r.plus_minus,
        time_on_ice: r.time_on_ice,
        takeaways: r.takeaways,
        giveaways: r.giveaways,
        saves: r.saves,
        goals_against: r.goals_against,
        shots_against: r.shots_against,
    }
}

/// Charges a shot to a record (saturating).
pub fn record_shot(stats: &mut Vec<PlayerGameStat>, i: usize)
    requires
        i < old(stats)@.len(),
    ensures
        final(stats)@ == old(stats)@.update(i as int, spec_with_shot(old(stats)@[i as int])),
{
    let mut v = clone_record(&stats[i]);
    if v.shots < u32::MAX {
        v.shots = v.shots + 1;
    }
    stats.set(i, v);
}

/// Credits a goal to a record.
pub fn record_goal(stats: &mut Vec<PlayerGameStat>, i: usize)
    requires
        i < old(stats)@.len(),
        old(stats)@[i as int].goals < u32::MAX,
    ensures
        final(stats)@ == old(stats)@.update(i as int, spec_with_goal(old(stats)@[i as int])),
{
    let mut v = clone_record(&stats[i]);
    v.goals = v.goals + 1;
    stats.set(i, v);
}

/// Credits an assist to a record.
pub fn record_assist(stats: &mut Vec<PlayerGameStat>, i: usize)
    requires
        i < old(stats)@.len(),
        old(stats)@[i as int].assists < u32::MAX,
    ensures
        final(stats)@ == old(stats)@.update(i as int, spec_with_assist(old(stats)@[i as int])),
{
    let mut v = clone_record(&stats[i]);
    v.assists = v.assists + 1;
    stats.set(i, v);
}

/// Charges one faced shot to the opposing goalie's record (saturating).
pub fn record_faced_shot(stats: &mut Vec<PlayerGameStat>, i: usize, goal: bool)
    requires
        i < old(stats)@.len(),
    ensures
        final(stats)@ == old(stats)@.update(
            i as int,
            spec_with_faced_shot(old(stats)@[i as int], goal),
        ),
{
    let mut v = clone_record(&stats[i]);
    if v.shots_against < u32::MAX {
        v.shots_against = v.shots_against + 1;
    }
    if goal {
        if v.goals_against < u32::MAX {
            v.goals_against = v.goals_against + 1;
        }
    } else {
        if v.saves < u32::MAX {
            v.saves = v.saves + 1;
        }
    }
    stats.set(i, v);
}

/// Hits multiplier of a player type (millionths).
pub open spec fn spec_hit_type_modifier(t: PlayerType) -> int {
    match t {
        PlayerType::PowerForward => 1_400_000,
        PlayerType::PowerDefense => 1_350_000,
        PlayerType::Defensive => 1_150_000,
        PlayerType::Gamer => 1_100_000,
        PlayerType::TwoWay => 1_000_000,
        PlayerType::Offensive => 750_000,
        PlayerType::Playmaker => 600_000,
        PlayerType::Sniper => 550_000,
        PlayerType::Unknown => 1_000_000,
    }
}

/// Hits multiplier of a player type.
pub fn hit_type_modifier(t: PlayerType) -> (r: u64)
    ensures
        r == spec_hit_type_modifier(t),
        550_000 <= r <= 1_400_000,
{
    match t {
        PlayerType::PowerForward => 1_400_000,
        PlayerType::PowerDefense => 1_350_000,
        PlayerType::Defensive => 1_150_000,
        PlayerType::Gamer => 1_100_000,
        PlayerType::TwoWay => 1_000_000,
        PlayerType::Offensive => 750_000,
        PlayerType::Playmaker => 600_000,
        PlayerType::Sniper => 550_000,
        PlayerType::Unknown => 1_000_000,
    }
}

/// Blocks multiplier of a player type (millionths).
pub open spec fn spec_block_type_modifier(t: PlayerType) -> int {
    match t {
        PlayerType::Defensive => 1_400_000,
        PlayerType::PowerDefense => 1_300_000,
        PlayerType::TwoWay => 1_150_000,
        PlayerType::Gamer => 1_100_000,
        PlayerType::PowerForward => 900_000,
        PlayerType::Offensive => 550_000,
        PlayerType::Playmaker => 500_000,
        PlayerType::Sniper => 450_000,
        PlayerType::Unknown => 1_000_000,
    }
}

/// Blocks multiplier of a player type.
pub fn block_type_modifier(t: PlayerType) -> (r: u64)
    ensures
        r == spec_block_type_modifier(t),
        450_000 <= r <= 1_400_000,
{
    match t {
        PlayerType::Defensive => 1_400_000,
        PlayerType::PowerDefense => 1_300_000,
        PlayerType::TwoWay => 1_150_000,
        PlayerType::Gamer => 1_100_000,
        PlayerType::PowerForward => 900_000,
        PlayerType::Offensive => 550_000,
        PlayerType::Playmaker => 500_000,
        PlayerType::Sniper => 450_000,
        PlayerType::Unknown => 1_000_000,
    }
}

/// Takeaways multiplier of a player type (millionths).
pub open spec fn spec_takeaway_type_modifier(t: PlayerType) -> int {
    match t {
        PlayerType::Defensive => 1_400_000,
        PlayerType::TwoWay => 1_250_000,
        PlayerType::PowerDefense => 1_150_000,
        PlayerType::Gamer => 1_120_000,
        PlayerType::Playmaker => 1_100_000,
        PlayerType::PowerForward => 1_000_000,
        PlayerType::Sniper => 750_000,
        PlayerType::Offensive => 800_000,
        PlayerType::Unknown => 1_000_000,
    }
}

/// Takeaways multiplier of a player type.
pub fn takeaway_type_modifier(t: PlayerType) -> (r: u64)
    ensures
        r == spec_takeaway_type_modifier(t),
        750_000 <= r <= 1_400_000,
{
    match t {
        PlayerType::Defensive => 1_400_000,
        PlayerType::TwoWay => 1_250_000,
        PlayerType::PowerDefense => 1_150_000,
        PlayerType::Gamer => 1_120_000,
        PlayerType::Playmaker => 1_100_000,
        PlayerType::PowerForward => 1_000_000,
        PlayerType::Sniper => 750_000,
        PlayerType::Offensive => 800_000,
        PlayerType::Unknown => 1_000_000,
    }
}

/// Giveaways multiplier of a player type (millionths).
pub open spec fn spec_giveaway_type_modifier(t: PlayerType) -> int {
    match t {
        PlayerType::Offensive => 1_150_000,
        PlayerType::Playmaker => 1_100_000,
        PlayerType::Sniper => 1_050_000,
        PlayerType::PowerForward => 950_000,
        PlayerType::Gamer => 900_000,
        PlayerType::TwoWay => 850_000,
        PlayerType::PowerDefense => 800_000,
        PlayerType::Defensive => 700_000,
        PlayerType::Unknown => 1_000_000,
    }
}

/// Giveaways multiplier of a player type.
pub fn giveaway_type_modifier(t: PlayerType) -> (r: u64)
    ensures
        r == spec_giveaway_type_modifier(t),
        700_000 <= r <= 1_150_000,
{
    match t {
        PlayerType::Offensive => 1_150_000,
        PlayerType::Playmaker => 1_100_000,
        PlayerType::Sniper => 1_050_000,
        PlayerType::PowerForward => 950_000,
        PlayerType::Gamer => 900_000,
        PlayerType::TwoWay => 850_000,
        PlayerType::PowerDefense => 800_000,
        PlayerType::Defensive => 700_000,
        PlayerType::Unknown => 1_000_000,
    }
}

/// Per-opportunity hit probability of one skater (millionths): physicality
/// share times `0.04`, scaled by the style's physical bonus and the type
/// multiplier.
pub open spec fn spec_hit_chance(
    la: LineAssignment,
    style: PlayStyleModifiers,
    is_playoff: bool,
) -> int {
    fp_mul_spec(
        fp_mul_spec(
            fp_mul_spec(spec_playoff_phys(la.player.phys as int, is_playoff) / 100, 40_000),
            style.physical_bonus as int,
        ),
        spec_hit_type_modifier(la.player.player_type),
    )
}

/// Per-opportunity hit probability, at most `0.08` (millionths).
pub fn hit_chance(la: &LineAssignment, style: &PlayStyleModifiers, is_playoff: bool) -> (r: u64)
    requires
        la.wf(),
        style.wf(),
    ensures
        r == spec_hit_chance(*la, *style, is_playoff),
        r <= 80_000,
{
    let p = playoff_phys(la.player.phys, is_playoff);
    proof {
        lemma_fp_mul_le((p / 100) as int, 40_000, 1_000_000, 40_000);
        lemma_fp_mul_le(
            fp_mul_spec((p / 100) as int, 40_000),
            style.physical_bonus as int,
            40_000,
            1_400_000,
        );
        lemma_fp_mul_le(
            fp_mul_spec(fp_mul_spec((p / 100) as int, 40_000), style.physical_bonus as int),
            spec_hit_type_modifier(la.player.player_type),
            56_000,
            1_400_000,
        );
    }
    fp_mul(
        fp_mul(fp_mul(p / 100, 40_000), style.physical_bonus),
        hit_type_modifier(la.player.player_type),
    )
}

/// Per-opportunity block probability of one skater (millionths): defense
/// share times `0.025`, scaled by the type multiplier and a `1.5` position
/// bonus for defensemen.
pub open spec fn spec_block_chance(la: LineAssignment) -> int {
    let pos = if la.kind is Defense {
        1_500_000int
    } else {
        1_000_000int
    };
    fp_mul_spec(
        fp_mul_spec(
            fp_mul_spec(la.player.def * 10_000, 25_000),
            spec_block_type_modifier(la.player.player_type),
        ),
        pos,
    )
}

/// Per-opportunity block probability, at most `0.053` (millionths).
pub fn block_chance(la: &LineAssignment) -> (r: u64)
    requires
        la.wf(),
    ensures
        r == spec_block_chance(*la),
        r <= 53_000,
{
    let pos: u64 = if matches!(la.kind, LineKind::Defense) {
        1_500_000
    } else {
        1_000_000
    };
    let d: u64 = la.player.def as u64 * 10_000;
    proof {
        lemma_fp_mul_le(d as int, 25_000, 1_000_000, 25_000);
        lemma_fp_mul_le(
            fp_mul_spec(d as int, 25_000),
            spec_block_type_modifier(la.player.player_type),
            25_000,
            1_400_000,
        );
        lemma_fp_mul_le(
            fp_mul_spec(
                fp_mul_spec(d as int, 25_000),
                spec_block_type_modifier(la.player.player_type),
            ),
            pos as int,
            35_000,
            1_500_000,
        );
    }
    fp_mul(fp_mul(fp_mul(d, 25_000), block_type_modifier(la.player.player_type)), pos)
}

/// Per-opportunity takeaway probability of one skater (millionths):
/// defense share times `0.02`, scaled by the type multiplier and a `1.3`
/// position bonus for defensemen.
pub open spec fn spec_takeaway_chance(la: LineAssignment) -> int {
    let pos = if la.kind is Defense {
        1_300_000int
    } else {
        1_000_000int
    };
    fp_mul_spec(
        fp_mul_spec(
            fp_mul_spec(la.player.def * 10_000, 20_000),
            spec_takeaway_type_modifier(la.player.player_type),
        ),
        pos,
    )
}

/// Per-opportunity takeaway probability, at most `0.037` (millionths).
pub fn takeaway_chance(la: &LineAssignment) -> (r: u64)
    requires
        la.wf(),
    ensures
        r == spec_takeaway_chance(*la),
        r <= 37_000,
{
    let pos: u64 = if matches!(la.kind, LineKind::Defense) {
        1_300_000
    } else {
        1_000_000
    };
    let d: u64 = la.player.def as u64 * 10_000;
    proof {
        lemma_fp_mul_le(d as int, 20_000, 1_000_000, 20_000);
        lemma_fp_mul_le(
            fp_mul_spec(d as int, 20_000),
            spec_takeaway_type_modifier(la.player.player_type),
            20_000,
            1_400_000,
        );
        lemma_fp_mul_le(
            fp_mul_spec(
                fp_mul_spec(d as int, 20_000),
                spec_takeaway_type_modifier(la.player.player_type),
            ),
            pos as int,
            28_000,
            1_300_000,
        );
    }
    fp_mul(fp_mul(fp_mul(d, 20_000), takeaway_type_modifier(la.player.player_type)), pos)
}

/// Per-opportunity giveaway probability of one skater (millionths): the
/// inverse of consistency times `0.03` plus a `0.005` base, scaled by the
/// type multiplier.
pub open spec fn spec_giveaway_chance(la: LineAssignment) -> int {
    fp_mul_spec(
        (100 - la.player.consistency) * 300 + 5_000,
        spec_giveaway_type_modifier(la.player.player_type),
    )
}

/// Per-opportunity giveaway probability, at most `0.041` (millionths).
pub fn giveaway_chance(la: &LineAssignment) -> (r: u64)
    requires
        la.wf(),
    ensures
        r == spec_giveaway_chance(*la),
        r <= 41_000,
{
    let g0: u64 = (100 - la.player.consistency as u64) * 300 + 5_000;
    proof {
        lemma_fp_mul_le(
            g0 as int,
            spec_giveaway_type_modifier(la.player.player_type),
            35_000,
            1_150_000,
        );
    }
    fp_mul(g0, giveaway_type_modifier(la.player.player_type))
}

/// Counts successes over a fixed number of independent trials with the
/// same probability (millionths).
pub fn bernoulli_count(opportunities: u32, chance: u64, rng: &mut GameRng) -> (c: u32)
    ensures
        c <= opportunities,
{
    let mut c: u32 = 0;
    let mut o: u32 = 0;
    while o < opportunities
        invariant
            c <= o <= opportunities,
        decreases opportunities - o,
    {
        if rng.unit() < chance {
            c = c + 1;
        }
        o = o + 1;
    }
    c
}

/// What the physical and turnover passes leave untouched of each record,
/// and how far the touched counters can grow in one pass.
pub open spec fn spec_pass_shape(a: PlayerGameStat, b: PlayerGameStat) -> bool {
    &&& b.player_id == a.player_id
    &&& b.player_name == a.player_name
    &&& b.goals == a.goals
    &&& b.assists == a.assists
    &&& b.shots == a.shots
    &&& b.plus_minus == a.plus_minus
    &&& b.time_on_ice == a.time_on_ice
    &&& b.saves == a.saves
    &&& b.goals_against == a.goals_against
    &&& b.shots_against == a.shots_against
    &&& a.hits <= b.hits
    &&& a.blocks <= b.blocks
    &&& a.takeaways <= b.takeaways
    &&& a.giveaways <= b.giveaways
}

/// Pointwise-equal goal and assist counters give equal sums.
pub proof fn lemma_sums_pointwise(a: Seq<PlayerGameStat>, b: Seq<PlayerGameStat>)
    requires
        a.len() == b.len(),
        forall|i: int| 0 <= i < a.len() ==> (#[trigger] b[i]).goals == a[i].goals && b[i].assists
            == a[i].assists,
    ensures
        spec_sum_goals(b) == spec_sum_goals(a),
        spec_sum_assists(b) == spec_sum_assists(a),
    decreases a.len(),
{
    if a.len() > 0 {
        lemma_sums_pointwise(a.drop_last(), b.drop_last());
    }
}

/// Pointwise-equal player ids preserve coverage.
pub proof fn lemma_cover_pointwise(
    a: Seq<PlayerGameStat>,
    b: Seq<PlayerGameStat>,
    lines: Seq<LineAssignment>,
)
    requires
        spec_stats_cover(a, lines),
        a.len() == b.len(),
        forall|i: int| 0 <= i < a.len() ==> (#[trigger] b[i]).player_id == a[i].player_id,
    ensures
        spec_stats_cover(b, lines),
{
    assert forall|k: int|
        0 <= k < lines.len() && !((#[trigger] lines[k]).kind is Goalie) implies spec_has_record(
        b,
        lines[k].player.id as int,
    ) by {
        let id = lines[k].player.id as int;
        let j = choose|j: int| 0 <= j < a.len() && a[j].player_id == id;
        assert(b[j].player_id == id);
    }
}

/// Opportunity total of one player id across a roster's non-goalie slots,
/// at `factor` opportunities per full game of ice time: the sum of
/// `factor * iceTimeWeight` over the slots the player occupies.
pub open spec fn spec_opportunities(lines: Seq<LineAssignment>, id: int, factor: int) -> int
    decreases lines.len(),
{
    if lines.len() == 0 {
        0
    } else {
        spec_opportunities(lines.drop_last(), id, factor) + (if !(lines.last().kind is Goalie)
            && lines.last().player.id == id {
            factor * spec_rating_ice_weight(lines.last().kind, lines.last().depth as int) / (
            SCALE as int)
        } else {
            0
        })
    }
}

/// An opportunity total is nonnegative and at most 22 per slot.
pub proof fn lemma_opportunities_bound(lines: Seq<LineAssignment>, id: int, factor: int)
    requires
        0 <= factor <= 50,
    ensures
        0 <= spec_opportunities(lines, id, factor) <= 22 * lines.len(),
    decreases lines.len(),
{
    if lines.len() > 0 {
        lemma_opportunities_bound(lines.drop_last(), id, factor);
        let w = spec_rating_ice_weight(lines.last().kind, lines.last().depth as int);
        assert(0 <= factor * w / (SCALE as int) <= 22) by (nonlinear_arith)
            requires
                0 <= factor <= 50,
                0 <= w <= 450_000,
        ;
        assert(22 * (lines.len() - 1) + 22 == 22 * lines.len()) by (nonlinear_arith);
    }
}

/// The post-period physical pass: for every skater, a fixed number of hit
/// and block opportunities scaled by ice time, each converted by an
/// independent trial against the player's hit or block chance.
pub fn simulate_physical_stats(
    stats: &mut Vec<PlayerGameStat>,
    team: &Team,
    style: &PlayStyleModifiers,
    is_playoff: bool,
    rng: &mut GameRng,
)
    requires
        team.wf(),
        style.wf(),
        forall|i: int|
            0 <= i < old(stats)@.len() ==> (#[trigger] old(stats)@[i]).hits <= 4_000_000_000 && old(stats)@[i].blocks <= 4_000_000_000,
    ensures
        final(stats)@.len() == old(stats)@.len(),
        forall|i: int|
            0 <= i < final(stats)@.len() ==> spec_pass_shape(
                old(stats)@[i],
                #[trigger] final(stats)@[i],
            ) && final(stats)@[i].hits - old(stats)@[i].hits <= spec_opportunities(
                team.lines@,
                old(stats)@[i].player_id as int,
                50,
            ) && final(stats)@[i].blocks - old(stats)@[i].blocks <= spec_opportunities(
                team.lines@,
                old(stats)@[i].player_id as int,
                40,
            ) && final(stats)@[i].takeaways == old(stats)@[i].takeaways && final(stats)@[i].giveaways == old(stats)@[i].giveaways,
{
    let n = team.lines.len();
    let mut k: usize = 0;
    while k < n
        invariant
            team.wf(),
            style.wf(),
            n == team.lines@.len(),
            k <= n,
            stats@.len() == old(stats)@.len(),
            forall|i: int|
                0 <= i < stats@.len() ==> spec_pass_shape(old(stats)@[i], #[trigger] stats@[i])
                    && stats@[i].hits - old(stats)@[i].hits <= spec_opportunities(
                    team.lines@.take(k as int),
                    old(stats)@[i].player_id as int,
                    50,
                ) && stats@[i].blocks - old(stats)@[i].blocks <= spec_opportunities(
                    team.lines@.take(k as int),
                    old(stats)@[i].player_id as int,
                    40,
                ) && stats@[i].hits <= old(stats)@[i].hits + 25 * k && stats@[i].blocks <= old(stats)@[i].blocks + 25 * k && stats@[i].takeaways == old(stats)@[i].takeaways
                    && stats@[i].giveaways == old(stats)@[i].giveaways,
            forall|i: int|
                0 <= i < old(stats)@.len() ==> (#[trigger] old(stats)@[i]).hits
                    <= 4_000_000_000 && old(stats)@[i].blocks <= 4_000_000_000,
        decreases n - k,
    {
        let ghost prelines = team.lines@.take(k as int);
        proof {
            assert(team.lines@.take(k + 1).drop_last() =~= prelines);
            assert(team.lines@.take(k + 1).last() == team.lines@[k as int]);
            lemma_opportunities_bound(prelines, 0, 50);
        }
        let la = &team.lines[k];
        if !matches!(la.kind, LineKind::Goalie) {
            if let Option::Some(idx) = find_player_stat_idx(stats, team, k) {
                let w = rating_ice_weight(la.kind, la.depth);
                let hit_opportunities: u32 = (50 * w / SCALE) as u32;
                assert(hit_opportunities <= 22);
                let hc = hit_chance(la, style, is_playoff);
                let hits_made = bernoulli_count(hit_opportunities, hc, rng);
                let block_opportunities: u32 = (40 * w / SCALE) as u32;
                assert(block_opportunities <= 18);
                let bc = block_chance(la);
                let blocks_made = bernoulli_count(block_opportunities, bc, rng);
                let ghost pre = stats@;
                let mut v = clone_record(&stats[idx]);
                v.hits = v.hits + hits_made;
                v.blocks = v.blocks + blocks_made;
                stats.set(idx, v);
                proof {
                    assert(forall|i: int|
                        0 <= i < stats@.len() && i != idx ==> stats@[i] == pre[i]);
                    assert forall|i: int| 0 <= i < stats@.len() implies (#[trigger] stats@[i]).hits
                        - old(stats)@[i].hits <= spec_opportunities(
                        team.lines@.take(k + 1),
                        old(stats)@[i].player_id as int,
                        50,
                    ) && stats@[i].blocks - old(stats)@[i].blocks <= spec_opportunities(
                        team.lines@.take(k + 1),
                        old(stats)@[i].player_id as int,
                        40,
                    ) by {
                        lemma_opportunities_bound(prelines, old(stats)@[i].player_id as int, 50);
                        lemma_opportunities_bound(prelines, old(stats)@[i].player_id as int, 40);
                    }
                }
            }
        }
        proof {
            assert forall|i: int| 0 <= i < stats@.len() implies (#[trigger] stats@[i]).hits - old(
                stats,
            )@[i].hits <= spec_opportunities(
                team.lines@.take(k + 1),
                old(stats)@[i].player_id as int,
                50,
            ) && stats@[i].blocks - old(stats)@[i].blocks <= spec_opportunities(
                team.lines@.take(k + 1),
                old(stats)@[i].player_id as int,
                40,
            ) by {
                lemma_opportunities_bound(prelines, old(stats)@[i].player_id as int, 50);
                lemma_opportunities_bound(prelines, old(stats)@[i].player_id as int, 40);
            }
        }
        k = k + 1;
    }
    proof {
        assert(team.lines@.take(n as int) =~= team.lines@);
    }
}

/// The post-period turnover pass: takeaway opportunities convert by
/// defense skill, giveaway opportunities by lack of consistency.
pub fn simulate_turnovers(stats: &mut Vec<PlayerGameStat>, team: &Team, rng: &mut GameRng)
    requires
        team.wf(),
        forall|i: int|
            0 <= i < old(stats)@.len() ==> (#[trigger] old(stats)@[i]).takeaways
                <= 4_000_000_000 && old(stats)@[i].giveaways <= 4_000_000_000,
    ensures
        final(stats)@.len() == old(stats)@.len(),
        forall|i: int|
            0 <= i < final(stats)@.len() ==> spec_pass_shape(
                old(stats)@[i],
                #[trigger] final(stats)@[i],
            ) && final(stats)@[i].takeaways - old(stats)@[i].takeaways <= spec_opportunities(
                team.lines@,
                old(stats)@[i].player_id as int,
                30,
            ) && final(stats)@[i].giveaways - old(stats)@[i].giveaways <= spec_opportunities(
                team.lines@,
                old(stats)@[i].player_id as int,
                25,
            ) && final(stats)@[i].hits == old(stats)@[i].hits && final(stats)@[i].blocks == old(stats)@[i].blocks,
{
    let n = team.lines.len();
    let mut k: usize = 0;
    while k < n
        invariant
            team.wf(),
            n == team.lines@.len(),
            k <= n,
            stats@.len() == old(stats)@.len(),
            forall|i: int|
                0 <= i < stats@.len() ==> spec_pass_shape(old(stats)@[i], #[trigger] stats@[i])
                    && stats@[i].takeaways - old(stats)@[i].takeaways <= spec_opportunities(
                    team.lines@.take(k as int),
                    old(stats)@[i].player_id as int,
                    30,
                ) && stats@[i].giveaways - old(stats)@[i].giveaways <= spec_opportunities(
                    team.lines@.take(k as int),
                    old(stats)@[i].player_id as int,
                    25,
                ) && stats@[i].takeaways <= old(stats)@[i].takeaways + 25 * k
                    && stats@[i].giveaways <= old(stats)@[i].giveaways + 25 * k && stats@[i].hits
                    == old(stats)@[i].hits && stats@[i].blocks == old(stats)@[i].blocks,
            forall|i: int|
                0 <= i < old(stats)@.len() ==> (#[trigger] old(stats)@[i]).takeaways
                    <= 4_000_000_000 && old(stats)@[i].giveaways <= 4_000_000_000,
        decreases n - k,
    {
        let ghost prelines = team.lines@.take(k as int);
        proof {
            assert(team.lines@.take(k + 1).drop_last() =~= prelines);
            assert(team.lines@.take(k + 1).last() == team.lines@[k as int]);
        }
        let la = &team.lines[k];
        if !matches!(la.kind, LineKind::Goalie) {
            if let Option::Some(idx) = find_player_stat_idx(stats, team, k) {
                let w = rating_ice_weight(la.kind, la.depth);
                let takeaway_opportunities: u32 = (30 * w / SCALE) as u32;
                assert(takeaway_opportunities <= 13);
                let tc = takeaway_chance(la);
                let takeaways_made = bernoulli_count(takeaway_opportunities, tc, rng);
                let giveaway_opportunities: u32 = (25 * w / SCALE) as u32;
                assert(giveaway_opportunities <= 11);
                let gc = giveaway_chance(la);
                let giveaways_made = bernoulli_count(giveaway_opportunities, gc, rng);
                let ghost pre = stats@;
                let mut v = clone_record(&stats[idx]);
                v.takeaways = v.takeaways + takeaways_made;
                v.giveaways = v.giveaways + giveaways_made;
                stats.set(idx, v);
                proof {
                    assert(forall|i: int|
                        0 <= i < stats@.len() && i != idx ==> stats@[i] == pre[i]);
                }
            }
        }
        proof {
            assert forall|i: int| 0 <= i < stats@.len() implies (#[trigger] stats@[i]).takeaways
                - old(stats)@[i].takeaways <= spec_opportunities(
                team.lines@.take(k + 1),
                old(stats)@[i].player_id as int,
                30,
            ) && stats@[i].giveaways - old(stats)@[i].giveaways <= spec_opportunities(
                team.lines@.take(k + 1),
                old(stats)@[i].player_id as int,
                25,
            ) by {
                lemma_opportunities_bound(prelines, old(stats)@[i].player_id as int, 30);
                lemma_opportunities_bound(prelines, old(stats)@[i].player_id as int, 25);
            }
        }
        k = k + 1;
    }
    proof {
        assert(team.lines@.take(n as int) =~= team.lines@);
    }
}

/// Time on ice summed over the records that faced no shot (the skaters,
/// under the role heuristic the plus-minus pass uses).
pub open spec fn spec_skater_toi_total(s: Seq<PlayerGameStat>) -> int
    decreases s.len(),
{
    if s.len() == 0 {
        0
    } else {
        spec_skater_toi_total(s.drop_last()) + (if s.last().shots_against == 0 {
            s.last().time_on_ice as int
        } else {
            0
        })
    }
}

/// A skater record's time on ice is at most the skater total.
pub proof fn lemma_toi_elem_le_total(s: Seq<PlayerGameStat>, i: int)
    requires
        0 <= i < s.len(),
        s[i].shots_against == 0,
    ensures
        s[i].time_on_ice <= spec_skater_toi_total(s),
    decreases s.len(),
{
    if i == s.len() - 1 {
        lemma_skater_toi_nonneg(s.drop_last());
    } else {
        lemma_toi_elem_le_total(s.drop_last(), i);
    }
}

/// The skater time-on-ice total is nonnegative.
pub proof fn lemma_skater_toi_nonneg(s: Seq<PlayerGameStat>)
    ensures
        spec_skater_toi_total(s) >= 0,
    decreases s.len(),
{
    if s.len() > 0 {
        lemma_skater_toi_nonneg(s.drop_last());
    }
}

/// The finalized plus-minus of one skater: the goal differential weighted
/// by the player's share of skater ice time, tripled, rounded half away
/// from zero.
pub open spec fn spec_plus_minus(diff: int, toi: int, total: int) -> int {
    if total <= 0 {
        0
    } else {
        let num = diff * toi * 3;
        if num >= 0 {
            (2 * num + total) / (2 * total)
        } else {
            -((2 * (-num) + total) / (2 * total))
        }
    }
}

/// A record with its plus-minus written.
pub open spec fn spec_with_pm(s: PlayerGameStat, v: int) -> PlayerGameStat {
    PlayerGameStat { plus_minus: v as i32, ..s }
}

/// Writes each skater's plus-minus: the goal differential distributed by
/// time-on-ice share and tripled, rounded half away from zero.  Records
/// that faced a shot count as goalies and keep a zero plus-minus; if no
/// skater ice time accumulated nothing changes.
pub fn finalize_plus_minus(stats: &mut Vec<PlayerGameStat>, team_goals: u32, opponent_goals: u32)
    requires
        team_goals <= 1000,
        opponent_goals <= 1000,
        old(stats)@.len() <= 512,
        forall|i: int| 0 <= i < old(stats)@.len() ==> (#[trigger] old(stats)@[i]).time_on_ice
            <= 3600,
    ensures
        final(stats)@.len() == old(stats)@.len(),
        spec_skater_toi_total(old(stats)@) == 0 ==> final(stats)@ == old(stats)@,
        spec_skater_toi_total(old(stats)@) > 0 ==> forall|i: int|
            0 <= i < final(stats)@.len() ==> #[trigger] final(stats)@[i] == (if old(stats)@[i].shots_against == 0 {
                spec_with_pm(
                    old(stats)@[i],
                    spec_plus_minus(
                        team_goals - opponent_goals,
                        old(stats)@[i].time_on_ice as int,
                        spec_skater_toi_total(old(stats)@),
                    ),
                )
            } else {
                old(stats)@[i]
            }),
{
    let n = stats.len();
    let mut total: u64 = 0;
    let mut i: usize = 0;
    while i < n
        invariant
            n == stats@.len() <= 512,
            i <= n,
            stats@ == old(stats)@,
            total == spec_skater_toi_total(stats@.take(i as int)),
            total <= 3600 * i,
            forall|j: int| 0 <= j < stats@.len() ==> (#[trigger] stats@[j]).time_on_ice <= 3600,
        decreases n - i,
    {
        proof {
            assert(stats@.take(i + 1).drop_last() =~= stats@.take(i as int));
            assert(stats@.take(i + 1).last() == stats@[i as int]);
        }
        if stats[i].shots_against == 0 {
            total = total + stats[i].time_on_ice as u64;
        }
        i = i + 1;
    }
    proof {
        assert(stats@.take(n as int) =~= stats@);
    }
    if total == 0 {
        return ;
    }
    let diff: i64 = team_goals as i64 - opponent_goals as i64;
    let mut i: usize = 0;
    while i < n
        invariant
            n == stats@.len() <= 512,
            i <= n,
            stats@.len() == old(stats)@.len(),
            diff == team_goals - opponent_goals,
            -1000 <= diff <= 1000,
            0 < total == spec_skater_toi_total(old(stats)@) <= 3600 * 512,
            forall|j: int| 0 <= j < old(stats)@.len() ==> (#[trigger] old(stats)@[j]).time_on_ice
                <= 3600,
            forall|j: int| i <= j < stats@.len() ==> #[trigger] stats@[j] == old(stats)@[j],
            forall|j: int|
                0 <= j < i ==> #[trigger] stats@[j] == (if old(stats)@[j].shots_against == 0 {
                    spec_with_pm(
                        old(stats)@[j],
                        spec_plus_minus(
                            team_goals - opponent_goals,
                            old(stats)@[j].time_on_ice as int,
                            spec_skater_toi_total(old(stats)@),
                        ),
                    )
                } else {
                    old(stats)@[j]
                }),
        decreases n - i,
    {
        if stats[i].shots_against == 0 {
            let toi: i64 = stats[i].time_on_ice as i64;
            proof {
                lemma_toi_elem_le_total(old(stats)@, i as int);
            }
            proof {
                assert(-11_000_000 <= diff * toi * 3 <= 11_000_000) by (nonlinear_arith)
                    requires
                        -1000 <= diff <= 1000,
                        0 <= toi <= 3600,
                ;
            }
            let num: i64 = diff * toi * 3;
            let pm: i64 = if num >= 0 {
                (2 * num + total as i64) / (2 * total as i64)
            } else {
                -((2 * (-num) + total as i64) / (2 * total as i64))
            };
            proof {
                assert(-30_000_000 <= pm <= 30_000_000) by (nonlinear_arith)
                    requires
                        -11_000_000 <= num <= 11_000_000,
                        0 < total <= 3600 * 512,
                        pm == (if num >= 0 {
                            (2 * num + total as int) / (2 * total as int)
                        } else {
                            -((2 * (-num) + total as int) / (2 * total as int))
                        }),
                ;
            }
            let ghost pre = stats@;
            let mut v = clone_record(&stats[i]);
            v.plus_minus = pm as i32;
            stats.set(i, v);
            proof {
                assert(forall|j: int| 0 <= j < stats@.len() && j != i ==> stats@[j] == pre[j]);
            }
        }
        i = i + 1;
    }
}

} // verus!
