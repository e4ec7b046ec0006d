//! The rating engine: pure, randomness-free functions turning a roster and
//! contextual flags into scalar ratings, all in fixed-point millionths.
//!
//! Every function here is deterministic: its contract equates the result
//! with a spec-level formula of the inputs alone, so repeated calls on
//! unchanged input provably return the same value, and every result carries
//! an explicit finite bound.

use vstd::prelude::*;
use crate::fixed::{
    fp_mul, fp_mul_spec, lemma_div_le, lemma_fp_mul_le, lemma_mul_le,
    lemma_ratio_cap, SCALE,
};
use crate::types::{Coach, LineAssignment, LineKind, PlayerType, Team};

verus! {

/// No team rating the formulas produce exceeds this (about `113.6 * SCALE`:
/// perfect roster, perfect coach, home ice, in the playoffs).
pub const RATING_CAP: u64 = 120_000_000;

/// Ice-time share (millionths) a slot carries in the roster-wide weighted
/// averages.  Depth indices beyond the tables are clamped to the last entry;
/// slots of unknown kind skate a small fixed share.
pub open spec fn spec_rating_ice_weight(kind: LineKind, depth: int) -> int {
    match kind {
        LineKind::Forward => if depth <= 1 {
            350_000
        } else if depth == 2 {
            300_000
        } else if depth == 3 {
            200_000
        } else {
            150_000
        },
        LineKind::Defense => if depth <= 1 {
            450_000
        } else if depth == 2 {
            350_000
        } else {
            200_000
        },
        LineKind::Goalie => 0,
        LineKind::Other => 100_000,
    }
}

/// Ice-time share of a slot for the roster-wide averages.
pub fn rating_ice_weight(kind: LineKind, depth: u32) -> (r: u64)
    ensures
        r == spec_rating_ice_weight(kind, depth as int),
        r <= 450_000,
{
    match kind {
        LineKind::Forward => if depth <= 1 {
            350_000
        } else if depth == 2 {
            300_000
        } else if depth == 3 {
            200_000
        } else {
            150_000
        },
        LineKind::Defense => if depth <= 1 {
            450_000
        } else if depth == 2 {
            350_000
        } else {
            200_000
        },
        LineKind::Goalie => 0,
        LineKind::Other => 100_000,
    }
}

/// Total ice-time weight of the non-goalie slots of a roster.
pub open spec fn spec_skater_weight(lines: Seq<LineAssignment>) -> int
    decreases lines.len(),
{
    if lines.len() == 0 {
        0
    } else {
        spec_skater_weight(lines.drop_last()) + (if lines.last().kind is Goalie {
            0
        } else {
            spec_rating_ice_weight(lines.last().kind, lines.last().depth as int)
        })
    }
}

/// Defensive-impact multiplier of a player type (millionths).
pub open spec fn spec_defense_bonus(t: PlayerType) -> int {
    match t {
        PlayerType::Defensive => 1_150_000,
        PlayerType::PowerDefense => 1_120_000,
        PlayerType::TwoWay => 1_080_000,
        PlayerType::Gamer => 1_050_000,
        PlayerType::PowerForward => 1_000_000,
        PlayerType::Offensive => 900_000,
        PlayerType::Playmaker => 920_000,
        PlayerType::Sniper => 880_000,
        PlayerType::Unknown => 1_000_000,
    }
}

/// Defensive-impact multiplier of a player type.
pub fn defense_bonus(t: PlayerType) -> (r: u64)
    ensures
        r == spec_defense_bonus(t),
        880_000 <= r <= 1_150_000,
{
    match t {
        PlayerType::Defensive => 1_150_000,
        PlayerType::PowerDefense => 1_120_000,
        PlayerType::TwoWay => 1_080_000,
        PlayerType::Gamer => 1_050_000,
        PlayerType::PowerForward => 1_000_000,
        PlayerType::Offensive => 900_000,
        PlayerType::Playmaker => 920_000,
        PlayerType::Sniper => 880_000,
        PlayerType::Unknown => 1_000_000,
    }
}

/// One skater's contribution to the defense total: defense attribute times
/// ice weight times type multiplier.
pub open spec fn spec_def_term(la: LineAssignment) -> int {
    la.player.def * spec_rating_ice_weight(la.kind, la.depth as int) * spec_defense_bonus(
        la.player.player_type,
    ) / (SCALE as int)
}

/// Defense total of the non-goalie slots.
pub open spec fn spec_def_total(lines: Seq<LineAssignment>) -> int
    decreases lines.len(),
{
    if lines.len() == 0 {
        0
    } else {
        spec_def_total(lines.drop_last()) + (if lines.last().kind is Goalie {
            0
        } else {
            spec_def_term(lines.last())
        })
    }
}

/// Ice-time-weighted average defense rating of a roster's skaters
/// (millionths); `75.0` when no weight accumulates.
pub open spec fn spec_team_defense_rating(lines: Seq<LineAssignment>) -> int {
    let w = spec_skater_weight(lines);
    if w > 0 {
        spec_def_total(lines) * (SCALE as int) / w
    } else {
        75 * (SCALE as int)
    }
}

/// One step of the defense accumulation keeps the `total <= 115 * weight`
/// ratio that caps the weighted average.
proof fn lemma_def_term_cap(la: LineAssignment)
    requires
        la.wf(),
    ensures
        0 <= spec_def_term(la) <= 115 * spec_rating_ice_weight(la.kind, la.depth as int),
{
    let w = spec_rating_ice_weight(la.kind, la.depth as int);
    let d = la.player.def as int;
    let b = spec_defense_bonus(la.player.player_type);
    assert(0 <= d * w * b / (SCALE as int) <= 115 * w) by (nonlinear_arith)
        requires
            0 <= d <= 100,
            0 <= w,
            880_000 <= b <= 1_150_000,
    ;
}

/// Ice-time-weighted average defense rating of a team's skaters, each scaled
/// by the type multiplier; `75.0` if no weight accumulates.
pub fn calculate_team_defense_rating(team: &Team) -> (r: u64)
    requires
        team.wf(),
    ensures
        r == spec_team_defense_rating(team.lines@),
        r <= 115_000_000,
{
    let n = team.lines.len();
    let mut total: u64 = 0;
    let mut weight: u64 = 0;
    let mut i: usize = 0;
    while i < n
        invariant
            team.wf(),
            n == team.lines@.len(),
            i <= n,
            total == spec_def_total(team.lines@.take(i as int)),
            weight == spec_skater_weight(team.lines@.take(i as int)),
            total <= 115 * weight,
            weight <= 450_000 * i,
        decreases n - i,
    {
        let ghost pre = team.lines@.take(i as int);
        let la = &team.lines[i];
        proof {
            assert(team.lines@.take(i + 1).drop_last() =~= pre);
            assert(team.lines@.take(i + 1).last() == team.lines@[i as int]);
        }
        if !matches!(la.kind, LineKind::Goalie) {
            let w = rating_ice_weight(la.kind, la.depth);
            let bonus = defense_bonus(la.player.player_type);
            proof {
                lemma_mul_le(la.player.def as int, w as int, 100, 450_000);
                lemma_mul_le((la.player.def * w) as int, bonus as int, 45_000_000, 1_150_000);
                lemma_def_term_cap(*la);
            }
            let term: u64 = (la.player.def as u64 * w) * bonus / SCALE;
            total = total + term;
            weight = weight + w;
        }
        i = i + 1;
    }
    proof {
        assert(team.lines@.take(n as int) =~= team.lines@);
    }
    if weight > 0 {
        proof {
            lemma_mul_le(total as int, SCALE as int, 115 * weight, SCALE as int);
            lemma_ratio_cap(total as int, weight as int, 115);
        }
        total * SCALE / weight
    } else {
        75 * SCALE
    }
}

/// Intimidation multiplier of a player type (millionths).
pub open spec fn spec_intimidation_bonus(t: PlayerType) -> int {
    match t {
        PlayerType::PowerForward => 1_200_000,
        PlayerType::PowerDefense => 1_180_000,
        PlayerType::Defensive => 1_100_000,
        PlayerType::Gamer => 1_050_000,
        PlayerType::TwoWay => 1_000_000,
        PlayerType::Offensive => 850_000,
        PlayerType::Playmaker => 800_000,
        PlayerType::Sniper => 750_000,
        PlayerType::Unknown => 1_000_000,
    }
}

/// Intimidation multiplier of a player type.
pub fn intimidation_bonus(t: PlayerType) -> (r: u64)
    ensures
        r == spec_intimidation_bonus(t),
        750_000 <= r <= 1_200_000,
{
    match t {
        PlayerType::PowerForward => 1_200_000,
        PlayerType::PowerDefense => 1_180_000,
        PlayerType::Defensive => 1_100_000,
        PlayerType::Gamer => 1_050_000,
        PlayerType::TwoWay => 1_000_000,
        PlayerType::Offensive => 850_000,
        PlayerType::Playmaker => 800_000,
        PlayerType::Sniper => 750_000,
        PlayerType::Unknown => 1_000_000,
    }
}

/// A player's physicality in millionths, boosted by 20% and capped at 100
/// in the playoffs.
pub open spec fn spec_playoff_phys(phys: int, is_playoff: bool) -> int {
    if is_playoff {
        if phys * 1_200_000 > 100_000_000 {
            100_000_000
        } else {
            phys * 1_200_000
        }
    } else {
        phys * 1_000_000
    }
}

/// A player's physicality in millionths under the playoff boost.
pub fn playoff_phys(phys: u32, is_playoff: bool) -> (r: u64)
    requires
        phys <= 100,
    ensures
        r == spec_playoff_phys(phys as int, is_playoff),
        r <= 100_000_000,
{
    if is_playoff {
        let b: u64 = phys as u64 * 1_200_000;
        if b > 100_000_000 {
            100_000_000
        } else {
            b
        }
    } else {
        phys as u64 * 1_000_000
    }
}

/// One skater's contribution to the physicality total.
pub open spec fn spec_intim_term(la: LineAssignment, is_playoff: bool) -> int {
    spec_playoff_phys(la.player.phys as int, is_playoff) * spec_rating_ice_weight(
        la.kind,
        la.depth as int,
    ) / (SCALE as int) * spec_intimidation_bonus(la.player.player_type) / (SCALE as int)
}

/// Physicality total of the non-goalie slots.
pub open spec fn spec_intim_total(lines: Seq<LineAssignment>, is_playoff: bool) -> int
    decreases lines.len(),
{
    if lines.len() == 0 {
        0
    } else {
        spec_intim_total(lines.drop_last(), is_playoff) + (if lines.last().kind is Goalie {
            0
        } else {
            spec_intim_term(lines.last(), is_playoff)
        })
    }
}

/// Ice-time-weighted average physicality (millionths); `75.0` when no
/// weight accumulates.
pub open spec fn spec_avg_phys(lines: Seq<LineAssignment>, is_playoff: bool) -> int {
    let w = spec_skater_weight(lines);
    if w > 0 {
        spec_intim_total(lines, is_playoff) * (SCALE as int) / w
    } else {
        75 * (SCALE as int)
    }
}

/// The suppression factor an intimidating roster applies to opposing
/// scoring chances: `max(0, (avgPhys - 75) / 150)`, in millionths.
pub open spec fn spec_team_intimidation(lines: Seq<LineAssignment>, is_playoff: bool) -> int {
    let avg = spec_avg_phys(lines, is_playoff);
    if avg > 75 * (SCALE as int) {
        (avg - 75 * (SCALE as int)) / 150
    } else {
        0
    }
}

proof fn lemma_intim_term_cap(la: LineAssignment, is_playoff: bool)
    requires
        la.wf(),
    ensures
        0 <= spec_intim_term(la, is_playoff) <= 120 * spec_rating_ice_weight(
            la.kind,
            la.depth as int,
        ),
{
    let w = spec_rating_ice_weight(la.kind, la.depth as int);
    let p = spec_playoff_phys(la.player.phys as int, is_playoff);
    let b = spec_intimidation_bonus(la.player.player_type);
    assert(0 <= p * w / (SCALE as int) * b / (SCALE as int) <= 120 * w) by (nonlinear_arith)
        requires
            0 <= p <= 100_000_000,
            0 <= w,
            750_000 <= b <= 1_200_000,
    ;
}

/// Team intimidation: the suppression factor derived from the ice-time
/// weighted (and playoff-boosted) physicality of the skaters, scaled by the
/// type multiplier; at most `0.30` (in millionths).
pub fn calculate_team_intimidation(team: &Team, is_playoff: bool) -> (r: u64)
    requires
        team.wf(),
    ensures
        r == spec_team_intimidation(team.lines@, is_playoff),
        r <= 300_000,
{
    let n = team.lines.len();
    let mut total: u64 = 0;
    let mut weight: u64 = 0;
    let mut i: usize = 0;
    while i < n
        invariant
            team.wf(),
            n == team.lines@.len(),
            i <= n,
            total == spec_intim_total(team.lines@.take(i as int), is_playoff),
            weight == spec_skater_weight(team.lines@.take(i as int)),
            total <= 120 * weight,
            weight <= 450_000 * i,
        decreases n - i,
    {
        let ghost pre = team.lines@.take(i as int);
        let la = &team.lines[i];
        proof {
            assert(team.lines@.take(i + 1).drop_last() =~= pre);
            assert(team.lines@.take(i + 1).last() == team.lines@[i as int]);
        }
        if !matches!(la.kind, LineKind::Goalie) {
            let w = rating_ice_weight(la.kind, la.depth);
            let bonus = intimidation_bonus(la.player.player_type);
            let p = playoff_phys(la.player.phys, is_playoff);
            proof {
                lemma_mul_le(p as int, w as int, 100_000_000, 450_000);
                lemma_mul_le(
                    (p * w / (SCALE as int)) as int,
                    bonus as int,
                    45_000_000,
                    1_200_000,
                );
                lemma_intim_term_cap(*la, is_playoff);
            }
            let term: u64 = (p * w / SCALE) * bonus / SCALE;
            total = total + term;
            weight = weight + w;
        }
        i = i + 1;
    }
    proof {
        assert(team.lines@.take(n as int) =~= team.lines@);
    }
    let avg: u64 = if weight > 0 {
        proof {
            lemma_mul_le(total as int, SCALE as int, 120 * weight, SCALE as int);
            lemma_ratio_cap(total as int, weight as int, 120);
        }
        total * SCALE / weight
    } else {
        75 * SCALE
    };
    if avg > 75 * SCALE {
        (avg - 75 * SCALE) / 150
    } else {
        0
    }
}

/// One skater's contribution to the leadership total.
pub open spec fn spec_lead_term(la: LineAssignment) -> int {
    la.player.lead * spec_rating_ice_weight(la.kind, la.depth as int)
}

/// Leadership total of the non-goalie slots.
pub open spec fn spec_lead_total(lines: Seq<LineAssignment>) -> int
    decreases lines.len(),
{
    if lines.len() == 0 {
        0
    } else {
        spec_lead_total(lines.drop_last()) + (if lines.last().kind is Goalie {
            0
        } else {
            spec_lead_term(lines.last())
        })
    }
}

/// Ice-time-weighted average leadership (millionths); `75.0` when no weight
/// accumulates.
pub open spec fn spec_avg_lead(lines: Seq<LineAssignment>) -> int {
    let w = spec_skater_weight(lines);
    if w > 0 {
        spec_lead_total(lines) * (SCALE as int) / w
    } else {
        75 * (SCALE as int)
    }
}

/// Highest leadership attribute among non-goalie slots, `-1` when there is
/// none.
pub open spec fn spec_max_lead_raw(lines: Seq<LineAssignment>) -> int
    decreases lines.len(),
{
    if lines.len() == 0 {
        -1
    } else {
        let rest = spec_max_lead_raw(lines.drop_last());
        let last = if lines.last().kind is Goalie {
            -1
        } else {
            lines.last().player.lead as int
        };
        if last > rest {
            last
        } else {
            rest
        }
    }
}

/// Highest leadership among skaters, defaulting to 75 for a roster without
/// skaters.
pub open spec fn spec_max_lead(lines: Seq<LineAssignment>) -> int {
    if spec_max_lead_raw(lines) < 0 {
        75
    } else {
        spec_max_lead_raw(lines)
    }
}

/// The leadership bonus: chemistry (linear in the highest leadership),
/// playoff intensity (linear in average leadership, playoffs only), clutch
/// (linear in the highest leadership, clutch situations only), less a
/// penalty for a below-70 average; floored at `0.90`.  In millionths.
pub open spec fn spec_team_leadership(
    lines: Seq<LineAssignment>,
    is_playoff: bool,
    is_clutch: bool,
) -> int {
    let s = SCALE as int;
    let maxl = spec_max_lead(lines);
    let avg = spec_avg_lead(lines);
    let chem = if maxl > 70 {
        (maxl - 70) * s / 600
    } else {
        0
    };
    let b1 = s + chem;
    let b2 = if is_playoff {
        let pb = if avg > 75 * s {
            (avg - 75 * s) / 500
        } else {
            0
        };
        fp_mul_spec(b1, s + pb)
    } else {
        b1
    };
    let b3 = if is_clutch {
        let cb = if maxl > 70 {
            (maxl - 70) * s / 500
        } else {
            0
        };
        fp_mul_spec(b2, s + cb)
    } else {
        b2
    };
    let pen = if avg < 70 * s {
        (70 * s - avg) / 200
    } else {
        0
    };
    let b4 = fp_mul_spec(b3, s - pen);
    if b4 < 900_000 {
        900_000
    } else {
        b4
    }
}

proof fn lemma_lead_term_cap(la: LineAssignment)
    requires
        la.wf(),
    ensures
        0 <= spec_lead_term(la) <= 100 * spec_rating_ice_weight(la.kind, la.depth as int),
{
    let w = spec_rating_ice_weight(la.kind, la.depth as int);
    assert(0 <= la.player.lead * w <= 100 * w) by (nonlinear_arith)
        requires
            0 <= la.player.lead <= 100,
            0 <= w,
    ;
}

/// Team leadership bonus; always in `[0.90, 1.20]` (in millionths).
pub fn calculate_team_leadership(team: &Team, is_playoff: bool, is_clutch: bool) -> (r: u64)
    requires
        team.wf(),
    ensures
        r == spec_team_leadership(team.lines@, is_playoff, is_clutch),
        900_000 <= r <= 1_200_000,
{
    let n = team.lines.len();
    let mut total: u64 = 0;
    let mut weight: u64 = 0;
    let mut maxl: u32 = 0;
    let mut has_skater: bool = false;
    let mut i: usize = 0;
    while i < n
        invariant
            team.wf(),
            n == team.lines@.len(),
            i <= n,
            total == spec_lead_total(team.lines@.take(i as int)),
            weight == spec_skater_weight(team.lines@.take(i as int)),
            spec_max_lead_raw(team.lines@.take(i as int)) == (if has_skater {
                maxl as int
            } else {
                -1
            }),
            maxl <= 100,
            total <= 100 * weight,
            weight <= 450_000 * i,
        decreases n - i,
    {
        let ghost pre = team.lines@.take(i as int);
        let la = &team.lines[i];
        proof {
            assert(team.lines@.take(i + 1).drop_last() =~= pre);
            assert(team.lines@.take(i + 1).last() == team.lines@[i as int]);
        }
        if !matches!(la.kind, LineKind::Goalie) {
            let w = rating_ice_weight(la.kind, la.depth);
            proof {
                lemma_mul_le(la.player.lead as int, w as int, 100, 450_000);
                lemma_lead_term_cap(*la);
            }
            let term: u64 = la.player.lead as u64 * w;
            total = total + term;
            weight = weight + w;
            if !has_skater || la.player.lead > maxl {
                maxl = la.player.lead;
                has_skater = true;
            }
        }
        i = i + 1;
    }
    proof {
        assert(team.lines@.take(n as int) =~= team.lines@);
    }
    let max_lead: u32 = if has_skater {
        maxl
    } else {
        75
    };
    let avg: u64 = if weight > 0 {
        proof {
            lemma_mul_le(total as int, SCALE as int, 100 * weight, SCALE as int);
            lemma_ratio_cap(total as int, weight as int, 100);
        }
        total * SCALE / weight
    } else {
        75 * SCALE
    };
    let chem: u64 = if max_lead > 70 {
        (max_lead as u64 - 70) * SCALE / 600
    } else {
        0
    };
    let mut bonus: u64 = SCALE + chem;
    if is_playoff {
        let pb: u64 = if avg > 75 * SCALE {
            (avg - 75 * SCALE) / 500
        } else {
            0
        };
        proof {
            lemma_fp_mul_le(bonus as int, (SCALE + pb) as int, 1_050_000, 1_050_000);
        }
        bonus = fp_mul(bonus, SCALE + pb);
    }
    assert(bonus <= 1_102_500);
    if is_clutch {
        let cb: u64 = if max_lead > 70 {
            (max_lead as u64 - 70) * SCALE / 500
        } else {
            0
        };
        proof {
            lemma_fp_mul_le(bonus as int, (SCALE + cb) as int, 1_102_500, 1_060_000);
        }
        bonus = fp_mul(bonus, SCALE + cb);
    }
    assert(bonus <= 1_168_650);
    let pen: u64 = if avg < 70 * SCALE {
        (70 * SCALE - avg) / 200
    } else {
        0
    };
    proof {
        lemma_fp_mul_le(bonus as int, (SCALE - pen) as int, 1_168_650, 1_000_000);
    }
    bonus = fp_mul(bonus, SCALE - pen);
    if bonus < 900_000 {
        900_000
    } else {
        bonus
    }
}

/// Ice-time share a slot carries toward net-front presence: forwards their
/// full share, defensemen 30% of theirs, others none.
pub open spec fn spec_nf_weight(kind: LineKind, depth: int) -> int {
    match kind {
        LineKind::Forward => spec_rating_ice_weight(LineKind::Forward, depth),
        LineKind::Defense => if depth <= 1 {
            135_000
        } else if depth == 2 {
            105_000
        } else {
            60_000
        },
        LineKind::Goalie => 0,
        LineKind::Other => 0,
    }
}

/// Net-front bonus rate of a player type (millionths).
pub open spec fn spec_nf_bonus(t: PlayerType) -> int {
    match t {
        PlayerType::PowerForward => 200_000,
        PlayerType::PowerDefense => 120_000,
        PlayerType::Gamer => 80_000,
        _ => 0,
    }
}

/// One skater's contribution to net-front presence.
pub open spec fn spec_nf_term(la: LineAssignment) -> int {
    spec_nf_bonus(la.player.player_type) * spec_nf_weight(la.kind, la.depth as int) * 2 / (
    SCALE as int)
}

/// Net-front total of the non-goalie slots.
pub open spec fn spec_nf_total(lines: Seq<LineAssignment>) -> int
    decreases lines.len(),
{
    if lines.len() == 0 {
        0
    } else {
        spec_nf_total(lines.drop_last()) + (if lines.last().kind is Goalie {
            0
        } else {
            spec_nf_term(lines.last())
        })
    }
}

/// Net-front presence: a rebound-conversion multiplier starting at `1.0`,
/// grown by physical forward types, capped at `1.35` (in millionths).
pub open spec fn spec_netfront_presence(lines: Seq<LineAssignment>) -> int {
    let p = SCALE as int + spec_nf_total(lines);
    if p > 1_350_000 {
        1_350_000
    } else {
        p
    }
}

proof fn lemma_nf_term_cap(la: LineAssignment)
    ensures
        0 <= spec_nf_term(la) <= 180_000,
{
    let w = spec_nf_weight(la.kind, la.depth as int);
    let b = spec_nf_bonus(la.player.player_type);
    assert(0 <= b * w * 2 / (SCALE as int) <= 180_000) by (nonlinear_arith)
        requires
            0 <= b <= 200_000,
            0 <= w <= 450_000,
    ;
}

/// Net-front presence of a roster, in `[1.0, 1.35]` (millionths).
pub fn calculate_netfront_presence(team: &Team) -> (r: u64)
    requires
        team.wf(),
    ensures
        r == spec_netfront_presence(team.lines@),
        1_000_000 <= r <= 1_350_000,
{
    let n = team.lines.len();
    let mut total: u64 = 0;
    let mut i: usize = 0;
    while i < n
        invariant
            team.wf(),
            n == team.lines@.len(),
            i <= n,
            total == spec_nf_total(team.lines@.take(i as int)),
            total <= 180_000 * i,
        decreases n - i,
    {
        let ghost pre = team.lines@.take(i as int);
        let la = &team.lines[i];
        proof {
            assert(team.lines@.take(i + 1).drop_last() =~= pre);
            assert(team.lines@.take(i + 1).last() == team.lines@[i as int]);
        }
        if !matches!(la.kind, LineKind::Goalie) {
            let w: u64 = match la.kind {
                LineKind::Forward => rating_ice_weight(LineKind::Forward, la.depth),
                LineKind::Defense => if la.depth <= 1 {
                    135_000
                } else if la.depth == 2 {
                    105_000
                } else {
                    60_000
                },
                LineKind::Goalie => 0,
                LineKind::Other => 0,
            };
            let b: u64 = match la.player.player_type {
                PlayerType::PowerForward => 200_000,
                PlayerType::PowerDefense => 120_000,
                PlayerType::Gamer => 80_000,
                _ => 0,
            };
            proof {
                lemma_mul_le(b as int, w as int, 200_000, 450_000);
                lemma_nf_term_cap(*la);
            }
            let term: u64 = b * w * 2 / SCALE;
            total = total + term;
        }
        i = i + 1;
    }
    proof {
        assert(team.lines@.take(n as int) =~= team.lines@);
    }
    let presence: u64 = SCALE + total;
    if presence > 1_350_000 {
        1_350_000
    } else {
        presence
    }
}

/// Attribute weights (offense, defense, physicality; millionths, summing to
/// one) of a forward line by depth.
pub open spec fn spec_forward_weights(depth: int) -> (int, int, int) {
    if depth <= 1 {
        (500_000int, 300_000int, 200_000int)
    } else if depth == 2 {
        (400_000int, 400_000int, 200_000int)
    } else if depth == 3 {
        (250_000int, 500_000int, 250_000int)
    } else {
        (200_000int, 400_000int, 400_000int)
    }
}

/// Attribute weights of a defense pair by depth.
pub open spec fn spec_defense_weights(depth: int) -> (int, int, int) {
    if depth <= 1 {
        (400_000int, 300_000int, 300_000int)
    } else if depth == 2 {
        (300_000int, 400_000int, 300_000int)
    } else {
        (100_000int, 500_000int, 400_000int)
    }
}

/// One player's weighted attribute blend (millionths) for a line of the
/// given kind and depth.
pub open spec fn spec_slot_blend(la: LineAssignment, is_playoff: bool) -> int {
    let w = if la.kind is Defense {
        spec_defense_weights(la.depth as int)
    } else {
        spec_forward_weights(la.depth as int)
    };
    la.player.off * w.0 + la.player.def * w.1 + spec_playoff_phys(la.player.phys as int, is_playoff)
        * w.2 / (SCALE as int)
}

/// Number of slots of the given kind and exact depth.
pub open spec fn spec_line_count(lines: Seq<LineAssignment>, kind: LineKind, depth: int) -> int
    decreases lines.len(),
{
    if lines.len() == 0 {
        0
    } else {
        spec_line_count(lines.drop_last(), kind, depth) + (if lines.last().kind == kind
            && lines.last().depth == depth {
            1int
        } else {
            0int
        })
    }
}

/// Sum of the weighted attribute blends of the slots of a line.
pub open spec fn spec_line_blend_total(
    lines: Seq<LineAssignment>,
    kind: LineKind,
    depth: int,
    is_playoff: bool,
) -> int
    decreases lines.len(),
{
    if lines.len() == 0 {
        0
    } else {
        spec_line_blend_total(lines.drop_last(), kind, depth, is_playoff) + (if lines.last().kind
            == kind && lines.last().depth == depth {
            spec_slot_blend(lines.last(), is_playoff)
        } else {
            0
        })
    }
}

/// Sum of the leadership attributes of the slots of a line.
pub open spec fn spec_line_lead_total(
    lines: Seq<LineAssignment>,
    kind: LineKind,
    depth: int,
) -> int
    decreases lines.len(),
{
    if lines.len() == 0 {
        0
    } else {
        spec_line_lead_total(lines.drop_last(), kind, depth) + (if lines.last().kind == kind
            && lines.last().depth == depth {
            lines.last().player.lead as int
        } else {
            0
        })
    }
}

/// Rating of a forward line (millionths): the average weighted attribute
/// blend of its players times a leadership multiplier
/// `1 + (avgLead - 75) / 1000`; `50.0` when the line has no players.
pub open spec fn spec_line_rating(lines: Seq<LineAssignment>, depth: int, is_playoff: bool) -> int {
    let s = SCALE as int;
    let c = spec_line_count(lines, LineKind::Forward, depth);
    if c == 0 {
        50 * s
    } else {
        let avg = spec_line_blend_total(lines, LineKind::Forward, depth, is_playoff) / c;
        let avg_lead = spec_line_lead_total(lines, LineKind::Forward, depth) * s / c;
        let lm = if avg_lead >= 75 * s {
            s + (avg_lead - 75 * s) / 1000
        } else {
            s - (75 * s - avg_lead) / 1000
        };
        fp_mul_spec(avg, lm)
    }
}

/// Rating of a defense pair (millionths): the average weighted attribute
/// blend of its players; `50.0` when the pair has no players.
pub open spec fn spec_pair_rating(lines: Seq<LineAssignment>, depth: int, is_playoff: bool) -> int {
    let c = spec_line_count(lines, LineKind::Defense, depth);
    if c == 0 {
        50 * (SCALE as int)
    } else {
        spec_line_blend_total(lines, LineKind::Defense, depth, is_playoff) / c
    }
}

proof fn lemma_slot_blend_cap(la: LineAssignment, is_playoff: bool)
    requires
        la.wf(),
    ensures
        0 <= spec_slot_blend(la, is_playoff) <= 100_000_000,
{
    let w = if la.kind is Defense {
        spec_defense_weights(la.depth as int)
    } else {
        spec_forward_weights(la.depth as int)
    };
    let p = spec_playoff_phys(la.player.phys as int, is_playoff);
    assert(w.0 + w.1 + w.2 == 1_000_000);
    assert(0 <= la.player.off * w.0 + la.player.def * w.1 + p * w.2 / (SCALE as int) <= 100_000_000)
        by (nonlinear_arith)
        requires
            0 <= la.player.off <= 100,
            0 <= la.player.def <= 100,
            0 <= p <= 100_000_000,
            0 <= w.0,
            0 <= w.1,
            0 <= w.2,
            w.0 + w.1 + w.2 == 1_000_000,
    ;
}

/// Average of a nonnegative total bounded per item stays bounded.
proof fn lemma_avg_cap(total: int, count: int, cap: int)
    requires
        0 <= total,
        0 < count,
        0 <= cap,
        total <= count * cap,
    ensures
        0 <= total / count <= cap,
{
    assert(0 <= total / count <= cap) by (nonlinear_arith)
        requires
            0 <= total,
            0 < count,
            0 <= cap,
            total <= count * cap,
    ;
}

/// Accumulates blend total, leadership total and player count of one line.
fn line_sums(team: &Team, kind: LineKind, depth: u32, is_playoff: bool) -> (r: (u64, u64, u64))
    requires
        team.wf(),
    ensures
        r.0 == spec_line_blend_total(team.lines@, kind, depth as int, is_playoff),
        r.1 == spec_line_lead_total(team.lines@, kind, depth as int),
        r.2 == spec_line_count(team.lines@, kind, depth as int),
        r.0 <= r.2 * 100_000_000,
        r.1 <= r.2 * 100,
        r.2 <= team.lines@.len(),
{
    let n = team.lines.len();
    let mut blend: u64 = 0;
    let mut lead: u64 = 0;
    let mut count: u64 = 0;
    let mut i: usize = 0;
    while i < n
        invariant
            team.wf(),
            n == team.lines@.len(),
            i <= n,
            blend == spec_line_blend_total(team.lines@.take(i as int), kind, depth as int,
            is_playoff),
            lead == spec_line_lead_total(team.lines@.take(i as int), kind, depth as int),
            count == spec_line_count(team.lines@.take(i as int), kind, depth as int),
            blend <= count * 100_000_000,
            lead <= count * 100,
            count <= i,
        decreases n - i,
    {
        let ghost pre = team.lines@.take(i as int);
        let la = &team.lines[i];
        proof {
            assert(team.lines@.take(i + 1).drop_last() =~= pre);
            assert(team.lines@.take(i + 1).last() == team.lines@[i as int]);
        }
        if la.kind == kind && la.depth == depth {
            let w: (u64, u64, u64) = if matches!(la.kind, LineKind::Defense) {
                if la.depth <= 1 {
                    (400_000, 300_000, 300_000)
                } else if la.depth == 2 {
                    (300_000, 400_000, 300_000)
                } else {
                    (100_000, 500_000, 400_000)
                }
            } else {
                if la.depth <= 1 {
                    (500_000, 300_000, 200_000)
                } else if la.depth == 2 {
                    (400_000, 400_000, 200_000)
                } else if la.depth == 3 {
                    (250_000, 500_000, 250_000)
                } else {
                    (200_000, 400_000, 400_000)
                }
            };
            let p = playoff_phys(la.player.phys, is_playoff);
            proof {
                lemma_mul_le(la.player.off as int, w.0 as int, 100, 500_000);
                lemma_mul_le(la.player.def as int, w.1 as int, 100, 500_000);
                lemma_mul_le(p as int, w.2 as int, 100_000_000, 400_000);
                lemma_slot_blend_cap(*la, is_playoff);
                lemma_mul_le(count as int, 100_000_000, (i as int), 100_000_000);
            }
            let term: u64 = la.player.off as u64 * w.0 + la.player.def as u64 * w.1 + p * w.2
                / SCALE;
            blend = blend + term;
            lead = lead + la.player.lead as u64;
            count = count + 1;
            proof {
                assert(blend <= count * 100_000_000) by (nonlinear_arith)
                    requires
                        blend <= (count - 1) * 100_000_000 + 100_000_000,
                ;
                assert(lead <= count * 100) by (nonlinear_arith)
                    requires
                        lead <= (count - 1) * 100 + 100,
                ;
            }
        }
        i = i + 1;
    }
    proof {
        assert(team.lines@.take(n as int) =~= team.lines@);
    }
    (blend, lead, count)
}

/// Rating of one forward line of a team, in `[0, 102.5]` (millionths).
pub fn calculate_line_rating(team: &Team, depth: u32, is_playoff: bool) -> (r: u64)
    requires
        team.wf(),
    ensures
        r == spec_line_rating(team.lines@, depth as int, is_playoff),
        r <= 103_000_000,
{
    let (blend, lead, count) = line_sums(team, LineKind::Forward, depth, is_playoff);
    if count == 0 {
        50 * SCALE
    } else {
        proof {
            lemma_avg_cap(blend as int, count as int, 100_000_000);
            lemma_mul_le(lead as int, SCALE as int, count as int * 100, SCALE as int);
            lemma_ratio_cap(lead as int, count as int, 100);
        }
        let avg: u64 = blend / count;
        let avg_lead: u64 = lead * SCALE / count;
        let lm: u64 = if avg_lead >= 75 * SCALE {
            SCALE + (avg_lead - 75 * SCALE) / 1000
        } else {
            SCALE - (75 * SCALE - avg_lead) / 1000
        };
        proof {
            lemma_fp_mul_le(avg as int, lm as int, 100_000_000, 1_025_000);
        }
        fp_mul(avg, lm)
    }
}

/// Rating of one defense pair of a team, in `[0, 100]` (millionths).
pub fn calculate_defense_rating(team: &Team, depth: u32, is_playoff: bool) -> (r: u64)
    requires
        team.wf(),
    ensures
        r == spec_pair_rating(team.lines@, depth as int, is_playoff),
        r <= 100_000_000,
{
    let (blend, _lead, count) = line_sums(team, LineKind::Defense, depth, is_playoff);
    if count == 0 {
        50 * SCALE
    } else {
        proof {
            lemma_avg_cap(blend as int, count as int, 100_000_000);
        }
        blend / count
    }
}

/// The coach modifier: `1 + (rating - 75) / 500`, or `0.98` without a
/// coach (millionths).
pub open spec fn spec_coach_modifier(coach: Option<Coach>) -> int {
    let s = SCALE as int;
    match coach {
        Option::Some(c) => if c.rating >= 75 {
            s + (c.rating - 75) * s / 500
        } else {
            s - (75 - c.rating) * s / 500
        },
        Option::None => 980_000,
    }
}

/// The blended team rating (millionths): forward lines and defense pairs
/// weighted by fixed ice-time fractions (a missing line counts as `50.0`),
/// the active goalie's general rating at weight `0.30`, divided by the total
/// weight `2.30`, times the coach modifier, times `1.05` at home.
pub open spec fn spec_team_rating(
    team: Team,
    goalie_idx: int,
    is_home: bool,
    is_playoff: bool,
) -> int {
    let s = SCALE as int;
    let lines = team.lines@;
    let fwd = fp_mul_spec(spec_line_rating(lines, 1, is_playoff), 350_000) + fp_mul_spec(
        spec_line_rating(lines, 2, is_playoff),
        300_000,
    ) + fp_mul_spec(spec_line_rating(lines, 3, is_playoff), 200_000) + fp_mul_spec(
        spec_line_rating(lines, 4, is_playoff),
        150_000,
    );
    let def = fp_mul_spec(spec_pair_rating(lines, 1, is_playoff), 450_000) + fp_mul_spec(
        spec_pair_rating(lines, 2, is_playoff),
        350_000,
    ) + fp_mul_spec(spec_pair_rating(lines, 3, is_playoff), 200_000);
    let goalie = if 0 <= goalie_idx < lines.len() && lines[goalie_idx].kind is Goalie {
        fp_mul_spec(lines[goalie_idx].player.off * s, 300_000)
    } else {
        fp_mul_spec(50 * s, 300_000)
    };
    let base = (fwd + def + goalie) * s / 2_300_000;
    let coached = fp_mul_spec(base, spec_coach_modifier(team.coach));
    if is_home {
        fp_mul_spec(coached, 1_050_000)
    } else {
        coached
    }
}

/// Overall team rating, at most [`RATING_CAP`] (millionths).
pub fn calculate_team_rating(team: &Team, goalie_idx: usize, is_home: bool, is_playoff: bool) -> (r:
    u64)
    requires
        team.wf(),
    ensures
        r == spec_team_rating(*team, goalie_idx as int, is_home, is_playoff),
        r <= RATING_CAP,
{
    let l1 = calculate_line_rating(team, 1, is_playoff);
    let l2 = calculate_line_rating(team, 2, is_playoff);
    let l3 = calculate_line_rating(team, 3, is_playoff);
    let l4 = calculate_line_rating(team, 4, is_playoff);
    let d1 = calculate_defense_rating(team, 1, is_playoff);
    let d2 = calculate_defense_rating(team, 2, is_playoff);
    let d3 = calculate_defense_rating(team, 3, is_playoff);
    proof {
        lemma_fp_mul_le(l1 as int, 350_000, 103_000_000, 350_000);
        lemma_fp_mul_le(l2 as int, 300_000, 103_000_000, 300_000);
        lemma_fp_mul_le(l3 as int, 200_000, 103_000_000, 200_000);
        lemma_fp_mul_le(l4 as int, 150_000, 103_000_000, 150_000);
        lemma_fp_mul_le(d1 as int, 450_000, 100_000_000, 450_000);
        lemma_fp_mul_le(d2 as int, 350_000, 100_000_000, 350_000);
        lemma_fp_mul_le(d3 as int, 200_000, 100_000_000, 200_000);
    }
    let mut total: u64 = fp_mul(l1, 350_000) + fp_mul(l2, 300_000) + fp_mul(l3, 200_000) + fp_mul(
        l4,
        150_000,
    );
    total = total + fp_mul(d1, 450_000) + fp_mul(d2, 350_000) + fp_mul(d3, 200_000);
    let goalie_term: u64 = if goalie_idx < team.lines.len() && matches!(
        team.lines[goalie_idx].kind,
        LineKind::Goalie,
    ) {
        let g = team.lines[goalie_idx].player.off as u64 * SCALE;
        proof {
            lemma_fp_mul_le(g as int, 300_000, 100_000_000, 300_000);
        }
        fp_mul(g, 300_000)
    } else {
        fp_mul(50 * SCALE, 300_000)
    };
    total = total + goalie_term;
    proof {
        lemma_mul_le(total as int, SCALE as int, 236_000_000, SCALE as int);
        lemma_div_le(total as int * SCALE as int, 236_000_000 * SCALE as int, 2_300_000);
    }
    let base: u64 = total * SCALE / 2_300_000;
    let cm: u64 = match &team.coach {
        Option::Some(c) => if c.rating >= 75 {
            SCALE + (c.rating as u64 - 75) * SCALE / 500
        } else {
            SCALE - (75 - c.rating as u64) * SCALE / 500
        },
        Option::None => 980_000,
    };
    proof {
        lemma_fp_mul_le(base as int, cm as int, 103_000_000, 1_050_000);
    }
    let coached: u64 = fp_mul(base, cm);
    if is_home {
        proof {
            lemma_fp_mul_le(coached as int, 1_050_000, 108_150_000, 1_050_000);
        }
        fp_mul(coached, 1_050_000)
    } else {
        coached
    }
}

} // verus!

