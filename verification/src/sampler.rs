//! The event sampler: one invocation models a single play for an attacking
//! team against a defending team and returns either nothing (no shot) or a
//! shot outcome (goal or save, shooter, up to two assists).
//!
//! The shape of every outcome is pinned by contracts — the shooter and the
//! assists are always distinct non-goalie roster slots, and the capped goal
//! probability fed into the scoring trial never exceeds one half — while the
//! draws themselves come from the explicit random source.

use vstd::prelude::*;
use crate::fixed::{fp_mul, fp_mul_spec, lemma_fp_mul_le, lemma_mul_le, SCALE};
use crate::rating::RATING_CAP;
use crate::rng::GameRng;
use crate::types::{LineKind, PlayerType, PlayStyleModifiers, ShotQuality, Team};

verus! {

/// A capped goal probability never exceeds one half (in millionths).
pub const GOAL_PROB_CAP: u64 = 500_000;

/// Share of plays that become a shot attempt in regulation (millionths).
pub const SHOT_ATTEMPT_RATE: u64 = 250_000;

/// Share of plays that become a shot attempt in overtime (millionths).
pub const OT_SHOT_ATTEMPT_RATE: u64 = 350_000;

/// Goal-rate multiplier of a player type (millionths).
pub open spec fn spec_goal_modifier(t: PlayerType) -> int {
    match t {
        PlayerType::Sniper => 1_250_000,
        PlayerType::Offensive => 1_200_000,
        PlayerType::PowerForward => 1_150_000,
        PlayerType::Gamer => 1_080_000,
        PlayerType::TwoWay => 1_000_000,
        PlayerType::PowerDefense => 950_000,
        PlayerType::Playmaker => 850_000,
        PlayerType::Defensive => 700_000,
        PlayerType::Unknown => 1_000_000,
    }
}

/// Goal-rate multiplier of a player type.
pub fn goal_modifier(t: PlayerType) -> (r: u64)
    ensures
        r == spec_goal_modifier(t),
        700_000 <= r <= 1_250_000,
{
    match t {
        PlayerType::Sniper => 1_250_000,
        PlayerType::Offensive => 1_200_000,
        PlayerType::PowerForward => 1_150_000,
        PlayerType::Gamer => 1_080_000,
        PlayerType::TwoWay => 1_000_000,
        PlayerType::PowerDefense => 950_000,
        PlayerType::Playmaker => 850_000,
        PlayerType::Defensive => 700_000,
        PlayerType::Unknown => 1_000_000,
    }
}

/// Assist-rate multiplier of a player type (millionths).
pub open spec fn spec_assist_modifier(t: PlayerType) -> int {
    match t {
        PlayerType::Playmaker => 1_500_000,
        PlayerType::Offensive => 1_400_000,
        PlayerType::TwoWay => 1_150_000,
        PlayerType::Gamer => 1_100_000,
        PlayerType::PowerForward => 1_050_000,
        PlayerType::PowerDefense => 1_000_000,
        PlayerType::Sniper => 750_000,
        PlayerType::Defensive => 600_000,
        PlayerType::Unknown => 1_000_000,
    }
}

/// Assist-rate multiplier of a player type.
pub fn assist_modifier(t: PlayerType) -> (r: u64)
    ensures
        r == spec_assist_modifier(t),
        600_000 <= r <= 1_500_000,
{
    match t {
        PlayerType::Playmaker => 1_500_000,
        PlayerType::Offensive => 1_400_000,
        PlayerType::TwoWay => 1_150_000,
        PlayerType::Gamer => 1_100_000,
        PlayerType::PowerForward => 1_050_000,
        PlayerType::PowerDefense => 1_000_000,
        PlayerType::Sniper => 750_000,
        PlayerType::Defensive => 600_000,
        PlayerType::Unknown => 1_000_000,
    }
}

/// Shot-quality multiplier of a player type (millionths).
pub open spec fn spec_shot_quality_modifier(t: PlayerType) -> int {
    match t {
        PlayerType::Sniper => 1_150_000,
        PlayerType::PowerForward => 1_120_000,
        PlayerType::Offensive => 1_100_000,
        PlayerType::Playmaker => 1_050_000,
        PlayerType::Gamer => 1_050_000,
        PlayerType::TwoWay => 1_000_000,
        PlayerType::PowerDefense => 950_000,
        PlayerType::Defensive => 880_000,
        PlayerType::Unknown => 1_000_000,
    }
}

/// Shot-quality multiplier of a player type.
pub fn shot_quality_modifier(t: PlayerType) -> (r: u64)
    ensures
        r == spec_shot_quality_modifier(t),
        880_000 <= r <= 1_150_000,
{
    match t {
        PlayerType::Sniper => 1_150_000,
        PlayerType::PowerForward => 1_120_000,
        PlayerType::Offensive => 1_100_000,
        PlayerType::Playmaker => 1_050_000,
        PlayerType::Gamer => 1_050_000,
        PlayerType::TwoWay => 1_000_000,
        PlayerType::PowerDefense => 950_000,
        PlayerType::Defensive => 880_000,
        PlayerType::Unknown => 1_000_000,
    }
}

/// Tenth powers, used to express the fractional exponent of the shooter
/// weight as an integer tenth root.
pub open spec fn spec_pow10(x: int) -> int {
    x * x * x * x * x * x * x * x * x * x
}

/// Tenth power of a small value, exactly.
fn pow10_u128(x: u64) -> (r: u128)
    requires
        x <= 4000,
    ensures
        r == spec_pow10(x as int),
{
    let x1: u128 = x as u128;
    assert(x1 * x1 <= 16_000_000) by (nonlinear_arith)
        requires
            x1 <= 4000,
    ;
    let x2: u128 = x1 * x1;
    assert(x2 * x2 <= 256_000_000_000_000) by (nonlinear_arith)
        requires
            x2 <= 16_000_000,
    ;
    let x4: u128 = x2 * x2;
    assert(x4 * x1 <= 1_024_000_000_000_000_000) by (nonlinear_arith)
        requires
            x4 <= 256_000_000_000_000,
            x1 <= 4000,
    ;
    let x5: u128 = x4 * x1;
    assert(x5 * x5 <= 1_048_576_000_000_000_000_000_000_000_000_000_000) by (nonlinear_arith)
        requires
            x5 <= 1_024_000_000_000_000_000,
    ;
    let r: u128 = x5 * x5;
    proof {
        assert(r == spec_pow10(x as int)) by (nonlinear_arith)
            requires
                x2 == x1 * x1,
                x4 == x2 * x2,
                x5 == x4 * x1,
                r == x5 * x5,
                x1 == x as int,
        ;
    }
    r
}

/// The thirteenth power of `off / 80`, kept in thousandths by flooring
/// after each multiplication; the basis of the shooter skill weight
/// `(off / 80) ^ 1.3`.
pub open spec fn spec_frac_pow13(off: int, k: nat) -> int
    decreases k,
{
    if k == 0 {
        1000
    } else {
        spec_frac_pow13(off, (k - 1) as nat) * off / 80
    }
}

/// Computes `spec_frac_pow13(off, 13)`; at most `18_175`.
fn frac_pow13(off: u64) -> (a: u64)
    requires
        off <= 100,
    ensures
        a == spec_frac_pow13(off as int, 13),
        a <= 18_175,
{
    let mut a: u64 = 1000;
    assert(a == spec_frac_pow13(off as int, 0));
    proof {
        lemma_mul_le(a as int, off as int, 1000, 100);
    }
    a = a * off / 80;
    assert(a <= 1250);
    assert(a == spec_frac_pow13(off as int, 1));
    proof {
        lemma_mul_le(a as int, off as int, 1250, 100);
    }
    a = a * off / 80;
    assert(a <= 1562);
    assert(a == spec_frac_pow13(off as int, 2));
    proof {
        lemma_mul_le(a as int, off as int, 1562, 100);
    }
    a = a * off / 80;
    assert(a <= 1952);
    assert(a == spec_frac_pow13(off as int, 3));
    proof {
        lemma_mul_le(a as int, off as int, 1952, 100);
    }
    a = a * off / 80;
    assert(a <= 2440);
    assert(a == spec_frac_pow13(off as int, 4));
    proof {
        lemma_mul_le(a as int, off as int, 2440, 100);
    }
    a = a * off / 80;
    assert(a <= 3050);
    assert(a == spec_frac_pow13(off as int, 5));
    proof {
        lemma_mul_le(a as int, off as int, 3050, 100);
    }
    a = a * off / 80;
    assert(a <= 3812);
    assert(a == spec_frac_pow13(off as int, 6));
    proof {
        lemma_mul_le(a as int, off as int, 3812, 100);
    }
    a = a * off / 80;
    assert(a <= 4765);
    assert(a == spec_frac_pow13(off as int, 7));
    proof {
        lemma_mul_le(a as int, off as int, 4765, 100);
    }
    a = a * off / 80;
    assert(a <= 5956);
    assert(a == spec_frac_pow13(off as int, 8));
    proof {
        lemma_mul_le(a as int, off as int, 5956, 100);
    }
    a = a * off / 80;
    assert(a <= 7445);
    assert(a == spec_frac_pow13(off as int, 9));
    proof {
        lemma_mul_le(a as int, off as int, 7445, 100);
    }
    a = a * off / 80;
    assert(a <= 9306);
    assert(a == spec_frac_pow13(off as int, 10));
    proof {
        lemma_mul_le(a as int, off as int, 9306, 100);
    }
    a = a * off / 80;
    assert(a <= 11632);
    assert(a == spec_frac_pow13(off as int, 11));
    proof {
        lemma_mul_le(a as int, off as int, 11632, 100);
    }
    a = a * off / 80;
    assert(a <= 14540);
    assert(a == spec_frac_pow13(off as int, 12));
    proof {
        lemma_mul_le(a as int, off as int, 14540, 100);
    }
    a = a * off / 80;
    assert(a <= 18175);
    assert(a == spec_frac_pow13(off as int, 13));
    a
}

/// The shooter skill weight `(off / 80) ^ 1.3` in millionths: the floor
/// tenth root (in thousandths) of the iterated thirteenth power, rescaled.
pub fn pow13_factor(off: u32) -> (r: u64)
    requires
        off <= 100,
    ensures
        r % 1000 == 0,
        r <= 2_000_000,
        spec_pow10((r / 1000) as int) <= spec_frac_pow13(off as int, 13)
            * 1_000_000_000_000_000_000_000_000_000 < spec_pow10((r / 1000) as int + 1),
{
    let a = frac_pow13(off as u64);
    let target: u128 = (a as u128) * 1_000_000_000_000_000_000_000_000_000;
    let mut lo: u64 = 0;
    let mut hi: u64 = 2001;
    proof {
        assert(spec_pow10(0) == 0);
        assert(spec_pow10(2001) == 1029131535373448067360960180020001int);
        assert(target <= 18175 * 1_000_000_000_000_000_000_000_000_000);
    }
    while lo + 1 < hi
        invariant
            lo < hi <= 2001,
            spec_pow10(lo as int) <= target as int,
            (target as int) < spec_pow10(hi as int),
            target == a as int * 1_000_000_000_000_000_000_000_000_000,
        decreases hi - lo,
    {
        let mid = lo + (hi - lo) / 2;
        let pv = pow10_u128(mid);
        if pv <= target {
            lo = mid;
        } else {
            hi = mid;
        }
    }
    lo * 1000
}


/// Ice-time weight of a slot in the shooter draw: the rating share to the
/// power `1.5` (millionths), with defense shares scaled by `0.4` first;
/// goalies never shoot.
pub open spec fn spec_shooter_time_weight(kind: LineKind, depth: int) -> int {
    match kind {
        LineKind::Forward => if depth <= 1 {
            207_063
        } else if depth == 2 {
            164_317
        } else if depth == 3 {
            89_443
        } else {
            58_095
        },
        LineKind::Defense => if depth <= 1 {
            76_368
        } else if depth == 2 {
            52_383
        } else {
            22_627
        },
        LineKind::Goalie => 0,
        LineKind::Other => 31_623,
    }
}

/// Ice-time weight of a slot in the shooter draw.
pub fn shooter_time_weight(kind: LineKind, depth: u32) -> (r: u64)
    ensures
        r == spec_shooter_time_weight(kind, depth as int),
        r <= 207_063,
{
    match kind {
        LineKind::Forward => if depth <= 1 {
            207_063
        } else if depth == 2 {
            164_317
        } else if depth == 3 {
            89_443
        } else {
            58_095
        },
        LineKind::Defense => if depth <= 1 {
            76_368
        } else if depth == 2 {
            52_383
        } else {
            22_627
        },
        LineKind::Goalie => 0,
        LineKind::Other => 31_623,
    }
}

/// Positional weight of a primary-assist candidate: the ice-time share to
/// the power `1.3` for forwards and `2.0` for defensemen (millionths).
pub open spec fn spec_assist_pos_weight(kind: LineKind, depth: int) -> int {
    match kind {
        LineKind::Defense => if depth <= 1 {
            202_500
        } else if depth == 2 {
            122_500
        } else {
            40_000
        },
        LineKind::Forward => if depth <= 1 {
            255_440
        } else if depth == 2 {
            209_054
        } else if depth == 3 {
            123_407
        } else {
            84_902
        },
        LineKind::Goalie => 0,
        LineKind::Other => 50_119,
    }
}

/// Positional weight of a primary-assist candidate.
pub fn assist_pos_weight(kind: LineKind, depth: u32) -> (r: u64)
    ensures
        r == spec_assist_pos_weight(kind, depth as int),
        r <= 255_440,
{
    match kind {
        LineKind::Defense => if depth <= 1 {
            202_500
        } else if depth == 2 {
            122_500
        } else {
            40_000
        },
        LineKind::Forward => if depth <= 1 {
            255_440
        } else if depth == 2 {
            209_054
        } else if depth == 3 {
            123_407
        } else {
            84_902
        },
        LineKind::Goalie => 0,
        LineKind::Other => 50_119,
    }
}

/// Positional weight of a secondary-assist candidate: the ice-time share to
/// the power `1.5` for forwards and `2.5` for defensemen (millionths).
pub open spec fn spec_secondary_pos_weight(kind: LineKind, depth: int) -> int {
    match kind {
        LineKind::Defense => if depth <= 1 {
            135_841
        } else if depth == 2 {
            72_472
        } else {
            17_889
        },
        LineKind::Forward => if depth <= 1 {
            207_063
        } else if depth == 2 {
            164_317
        } else if depth == 3 {
            89_443
        } else {
            58_095
        },
        LineKind::Goalie => 0,
        LineKind::Other => 31_623,
    }
}

/// Positional weight of a secondary-assist candidate.
pub fn secondary_pos_weight(kind: LineKind, depth: u32) -> (r: u64)
    ensures
        r == spec_secondary_pos_weight(kind, depth as int),
        r <= 207_063,
{
    match kind {
        LineKind::Defense => if depth <= 1 {
            135_841
        } else if depth == 2 {
            72_472
        } else {
            17_889
        },
        LineKind::Forward => if depth <= 1 {
            207_063
        } else if depth == 2 {
            164_317
        } else if depth == 3 {
            89_443
        } else {
            58_095
        },
        LineKind::Goalie => 0,
        LineKind::Other => 31_623,
    }
}

/// Picks an index into `candidates` by the aligned weights: a
/// weight-proportional draw, or a uniform draw over all candidates when
/// every weight is zero.
fn pick_weighted(candidates: &Vec<usize>, weights: &Vec<u64>, rng: &mut GameRng) -> (r: usize)
    requires
        candidates@.len() == weights@.len(),
        0 < candidates@.len() <= 512,
        forall|j: int| 0 <= j < weights@.len() ==> weights@[j] <= 2_000_000,
    ensures
        exists|j: int| 0 <= j < candidates@.len() && r == candidates@[j],
{
    let n = weights.len();
    let mut total: u64 = 0;
    let mut i: usize = 0;
    while i < n
        invariant
            n == weights@.len() <= 512,
            i <= n,
            total == crate::rng::spec_weight_sum(weights@.take(i as int)),
            total <= i * 2_000_000,
            forall|j: int| 0 <= j < weights@.len() ==> weights@[j] <= 2_000_000,
        decreases n - i,
    {
        proof {
            assert(weights@.take(i + 1).drop_last() =~= weights@.take(i as int));
            assert(weights@.take(i + 1).last() == weights@[i as int]);
        }
        total = total + weights[i];
        i = i + 1;
    }
    proof {
        assert(weights@.take(n as int) =~= weights@);
    }
    if total == 0 {
        let k = rng.below(candidates.len() as u64);
        assert(k < candidates@.len());
        candidates[k as usize]
    } else {
        let k = rng.weighted_index(weights);
        candidates[k]
    }
}

/// Chooses the shooter for a regular play: a weighted draw over the
/// non-goalie slots (ice time to the power `1.5` times offense-skill to the
/// power `1.3`), falling back to a uniform draw over those slots when every
/// weight is zero.  `None` exactly when the roster has no non-goalie slot,
/// in which case no shot can happen.
pub fn select_shooter_weighted(team: &Team, rng: &mut GameRng) -> (r: Option<usize>)
    requires
        team.wf(),
    ensures
        match r {
            Option::Some(i) => i < team.lines@.len() && !(team.lines@[i as int].kind is Goalie),
            Option::None => forall|k: int|
                0 <= k < team.lines@.len() ==> (#[trigger] team.lines@[k]).kind is Goalie,
        },
{
    let n = team.lines.len();
    let mut candidates: Vec<usize> = Vec::new();
    let mut weights: Vec<u64> = Vec::new();
    let mut i: usize = 0;
    while i < n
        invariant
            team.wf(),
            n == team.lines@.len(),
            i <= n,
            candidates@.len() == weights@.len(),
            candidates@.len() <= i,
            forall|j: int|
                0 <= j < candidates@.len() ==> (#[trigger] candidates@[j]) < n && !(
                team.lines@[candidates@[j] as int].kind is Goalie),
            forall|j: int| 0 <= j < weights@.len() ==> (#[trigger] weights@[j]) <= 2_000_000,
            candidates@.len() == 0 ==> forall|k: int|
                0 <= k < i ==> (#[trigger] team.lines@[k]).kind is Goalie,
        decreases n - i,
    {
        let la = &team.lines[i];
        if !matches!(la.kind, LineKind::Goalie) {
            let tw = shooter_time_weight(la.kind, la.depth);
            let sk = pow13_factor(la.player.off);
            proof {
                lemma_fp_mul_le(tw as int, sk as int, 207_063, 2_000_000);
            }
            let w = fp_mul(tw, sk);
            candidates.push(i);
            weights.push(w);
        }
        i = i + 1;
    }
    if candidates.len() == 0 {
        return Option::None;
    }
    Option::Some(pick_weighted(&candidates, &weights, rng))
}

/// The outcome of one play that produced a shot attempt.
#[derive(Clone, Copy, Debug, PartialEq, Eq, Structural)]
pub struct PlayOutcome {
    pub is_goal: bool,
    pub shooter_idx: usize,
    pub primary_assist: Option<usize>,
    pub secondary_assist: Option<usize>,
}

/// Structural soundness of a play outcome against the attacking roster:
/// shooter and assists are distinct non-goalie slots, and a secondary
/// assist only ever accompanies a primary one.
pub open spec fn spec_outcome_ok(o: PlayOutcome, lines: Seq<crate::types::LineAssignment>) -> bool {
    &&& o.shooter_idx < lines.len()
    &&& !(lines[o.shooter_idx as int].kind is Goalie)
    &&& match o.primary_assist {
        Option::Some(a) => a < lines.len() && a != o.shooter_idx && !(
        lines[a as int].kind is Goalie),
        Option::None => true,
    }
    &&& match o.secondary_assist {
        Option::Some(b) => b < lines.len() && b != o.shooter_idx && !(
        lines[b as int].kind is Goalie) && o.primary_assist != Option::Some(b),
        Option::None => true,
    }
    &&& (o.primary_assist is None ==> o.secondary_assist is None)
}

/// Chooses the primary assist: 75% of the time the draw prefers teammates
/// on the shooter's own line, otherwise skaters of the opposite kind; if
/// the preferred pool is empty it falls back to any other skater.  Weighted
/// by assist type modifier, positional weight and offense.
pub fn select_assist_player(
    team: &Team,
    shooter_idx: usize,
    shooter_depth: u32,
    rng: &mut GameRng,
) -> (r: Option<usize>)
    requires
        team.wf(),
        shooter_idx < team.lines@.len(),
    ensures
        match r {
            Option::Some(a) => a < team.lines@.len() && a != shooter_idx && !(
            team.lines@[a as int].kind is Goalie),
            Option::None => true,
        },
        (r is None) <==> (forall|k: int|
            0 <= k < team.lines@.len() ==> k == shooter_idx || (
            #[trigger] team.lines@[k]).kind is Goalie),
{
    let n = team.lines.len();
    let shooter_kind = team.lines[shooter_idx].kind;
    let prefer_same = rng.unit() < 750_000;
    let mut candidates: Vec<usize> = Vec::new();
    let mut i: usize = 0;
    while i < n
        invariant
            team.wf(),
            n == team.lines@.len(),
            i <= n,
            shooter_idx < n,
            candidates@.len() <= i,
            forall|j: int|
                0 <= j < candidates@.len() ==> (#[trigger] candidates@[j]) < n
                    && candidates@[j] != shooter_idx && !(
                team.lines@[candidates@[j] as int].kind is Goalie),
        decreases n - i,
    {
        let la = &team.lines[i];
        let eligible = i != shooter_idx && !matches!(la.kind, LineKind::Goalie) && (if prefer_same {
            la.kind == shooter_kind && la.depth == shooter_depth
        } else {
            la.kind != shooter_kind
        });
        if eligible {
            candidates.push(i);
        }
        i = i + 1;
    }
    if candidates.len() == 0 {
        let mut j: usize = 0;
        while j < n
            invariant
                team.wf(),
                n == team.lines@.len(),
                j <= n,
                shooter_idx < n,
                candidates@.len() <= j,
                forall|k: int|
                    0 <= k < candidates@.len() ==> (#[trigger] candidates@[k]) < n
                        && candidates@[k] != shooter_idx && !(
                    team.lines@[candidates@[k] as int].kind is Goalie),
                candidates@.len() == 0 ==> forall|k: int|
                    0 <= k < j ==> k == shooter_idx || (
                    #[trigger] team.lines@[k]).kind is Goalie,
            decreases n - j,
        {
            let la = &team.lines[j];
            if j != shooter_idx && !matches!(la.kind, LineKind::Goalie) {
                candidates.push(j);
            }
            j = j + 1;
        }
    }
    if candidates.len() == 0 {
        return Option::None;
    }
    proof {
        assert(0 <= candidates@[0] < team.lines@.len() && candidates@[0] != shooter_idx && !(
        team.lines@[candidates@[0] as int].kind is Goalie));
    }
    let m = candidates.len();
    let mut weights: Vec<u64> = Vec::new();
    let mut j: usize = 0;
    while j < m
        invariant
            team.wf(),
            m == candidates@.len() <= 512,
            j <= m,
            weights@.len() == j,
            forall|k: int|
                0 <= k < candidates@.len() ==> (#[trigger] candidates@[k])
                    < team.lines@.len() && candidates@[k] != shooter_idx && !(
                team.lines@[candidates@[k] as int].kind is Goalie),
            forall|k: int| 0 <= k < weights@.len() ==> (#[trigger] weights@[k]) <= 2_000_000,
        decreases m - j,
    {
        let idx = candidates[j];
        let la = &team.lines[idx];
        let tm = assist_modifier(la.player.player_type);
        let pw = assist_pos_weight(la.kind, la.depth);
        let off_fp: u64 = la.player.off as u64 * 12_500;
        proof {
            lemma_fp_mul_le(tm as int, pw as int, 1_500_000, 255_440);
            lemma_fp_mul_le(
                fp_mul_spec(tm as int, pw as int),
                off_fp as int,
                383_160,
                1_250_000,
            );
        }
        let w = fp_mul(fp_mul(tm, pw), off_fp);
        weights.push(w);
        j = j + 1;
    }
    Option::Some(pick_weighted(&candidates, &weights, rng))
}

/// Chooses the secondary assist: half the time the draw prefers a
/// crossover (the kind opposite the shooter's), otherwise the shooter's own
/// line; falls back to any other eligible skater.  Steeper positional
/// weighting than the primary assist.
pub fn select_secondary_assist(
    team: &Team,
    shooter_idx: usize,
    primary: Option<usize>,
    shooter_depth: u32,
    rng: &mut GameRng,
) -> (r: Option<usize>)
    requires
        team.wf(),
        shooter_idx < team.lines@.len(),
    ensures
        match r {
            Option::Some(b) => b < team.lines@.len() && b != shooter_idx && !(
            team.lines@[b as int].kind is Goalie) && primary != Option::Some(b),
            Option::None => true,
        },
        (r is None) <==> (forall|k: int|
            0 <= k < team.lines@.len() ==> k == shooter_idx || primary == Option::Some(
                k as usize,
            ) || (#[trigger] team.lines@[k]).kind is Goalie),
{
    let n = team.lines.len();
    let shooter_kind = team.lines[shooter_idx].kind;
    let prefer_crossover = rng.unit() < 500_000;
    let mut candidates: Vec<usize> = Vec::new();
    let mut i: usize = 0;
    while i < n
        invariant
            team.wf(),
            n == team.lines@.len(),
            i <= n,
            shooter_idx < n,
            candidates@.len() <= i,
            forall|j: int|
                0 <= j < candidates@.len() ==> (#[trigger] candidates@[j]) < n
                    && candidates@[j] != shooter_idx && !(
                team.lines@[candidates@[j] as int].kind is Goalie) && primary != Option::Some(
                candidates@[j]),
        decreases n - i,
    {
        let la = &team.lines[i];
        let not_primary = match primary {
            Option::Some(p) => i != p,
            Option::None => true,
        };
        let eligible = i != shooter_idx && not_primary && !matches!(la.kind, LineKind::Goalie)
            && (if prefer_crossover {
            la.kind != shooter_kind
        } else {
            la.kind == shooter_kind && la.depth == shooter_depth
        });
        if eligible {
            candidates.push(i);
        }
        i = i + 1;
    }
    if candidates.len() == 0 {
        let mut j: usize = 0;
        while j < n
            invariant
                team.wf(),
                n == team.lines@.len(),
                j <= n,
                shooter_idx < n,
                candidates@.len() <= j,
                forall|k: int|
                    0 <= k < candidates@.len() ==> (#[trigger] candidates@[k]) < n
                        && candidates@[k] != shooter_idx && !(
                    team.lines@[candidates@[k] as int].kind is Goalie) && primary != Option::Some(
                    candidates@[k]),
                candidates@.len() == 0 ==> forall|k: int|
                    0 <= k < j ==> k == shooter_idx || primary == Option::Some(k as usize) || (
                    #[trigger] team.lines@[k]).kind is Goalie,
            decreases n - j,
        {
            let la = &team.lines[j];
            let not_primary = match primary {
                Option::Some(p) => j != p,
                Option::None => true,
            };
            if j != shooter_idx && not_primary && !matches!(la.kind, LineKind::Goalie) {
                candidates.push(j);
            }
            j = j + 1;
        }
    }
    if candidates.len() == 0 {
        return Option::None;
    }
    proof {
        assert(0 <= candidates@[0] < team.lines@.len() && candidates@[0] != shooter_idx && !(
        team.lines@[candidates@[0] as int].kind is Goalie) && primary != Option::Some(
            candidates@[0],
        ));
    }
    let m = candidates.len();
    let mut weights: Vec<u64> = Vec::new();
    let mut j: usize = 0;
    while j < m
        invariant
            team.wf(),
            m == candidates@.len() <= 512,
            j <= m,
            weights@.len() == j,
            forall|k: int|
                0 <= k < candidates@.len() ==> (#[trigger] candidates@[k])
                    < team.lines@.len() && candidates@[k] != shooter_idx && !(
                team.lines@[candidates@[k] as int].kind is Goalie) && primary != Option::Some(
                candidates@[k]),
            forall|k: int| 0 <= k < weights@.len() ==> (#[trigger] weights@[k]) <= 2_000_000,
        decreases m - j,
    {
        let idx = candidates[j];
        let la = &team.lines[idx];
        let tm = assist_modifier(la.player.player_type);
        let pw = secondary_pos_weight(la.kind, la.depth);
        let off_fp: u64 = la.player.off as u64 * 1_000_000 / 85;
        proof {
            lemma_fp_mul_le(tm as int, pw as int, 1_500_000, 207_063);
            lemma_fp_mul_le(
                fp_mul_spec(tm as int, pw as int),
                off_fp as int,
                310_594,
                1_176_471,
            );
        }
        let w = fp_mul(fp_mul(tm, pw), off_fp);
        weights.push(w);
        j = j + 1;
    }
    Option::Some(pick_weighted(&candidates, &weights, rng))
}

/// The high-danger probability of a shot (millionths): a line-depth base
/// rate plus a skill bonus `(adjustedOffense - 80) / 200`, scaled by the
/// style's high-danger multiplier, the shooter-type multiplier and the
/// defender suppression `1 - (defenderDefense - 75) / 100`; floored at
/// `0.05`.
pub open spec fn spec_high_danger_chance(
    depth: int,
    adj_off: int,
    t: PlayerType,
    style: PlayStyleModifiers,
    defender_def: int,
) -> int {
    let s = SCALE as int;
    let base = if depth <= 1 {
        400_000int
    } else if depth == 2 {
        300_000int
    } else if depth == 3 {
        200_000int
    } else {
        150_000int
    };
    let raw = base + (adj_off - 80) * 5000;
    if raw <= 0 {
        50_000
    } else {
        let df = if defender_def >= 75 * s {
            s - (defender_def - 75 * s) / 100
        } else {
            s + (75 * s - defender_def) / 100
        };
        let v = fp_mul_spec(
            fp_mul_spec(
                fp_mul_spec(raw, style.high_danger_chance as int),
                spec_shot_quality_modifier(t),
            ),
            df,
        );
        if v < 50_000 {
            50_000
        } else {
            v
        }
    }
}

/// The high-danger probability of a shot, in `[0.05, 2.60]` (millionths).
pub fn high_danger_chance(
    depth: u32,
    adj_off: u64,
    t: PlayerType,
    style: &PlayStyleModifiers,
    defender_def: u64,
) -> (r: u64)
    requires
        adj_off <= 200,
        defender_def <= 115_000_000,
        style.wf(),
    ensures
        r == spec_high_danger_chance(depth as int, adj_off as int, t, *style, defender_def as int),
        50_000 <= r <= 2_600_000,
{
    let base: u64 = if depth <= 1 {
        400_000
    } else if depth == 2 {
        300_000
    } else if depth == 3 {
        200_000
    } else {
        150_000
    };
    let raw: u64 = if adj_off >= 80 {
        base + (adj_off - 80) * 5000
    } else {
        let neg: u64 = (80 - adj_off) * 5000;
        if neg >= base {
            return 50_000;
        }
        base - neg
    };
    assert(raw <= 1_000_000);
    let df: u64 = if defender_def >= 75 * SCALE {
        SCALE - (defender_def - 75 * SCALE) / 100
    } else {
        SCALE + (75 * SCALE - defender_def) / 100
    };
    assert(df <= 1_750_000);
    let tq = shot_quality_modifier(t);
    proof {
        lemma_fp_mul_le(raw as int, style.high_danger_chance as int, 1_000_000, 1_250_000);
        lemma_fp_mul_le(
            fp_mul_spec(raw as int, style.high_danger_chance as int),
            tq as int,
            1_250_000,
            1_150_000,
        );
        lemma_fp_mul_le(
            fp_mul_spec(
                fp_mul_spec(raw as int, style.high_danger_chance as int),
                tq as int,
            ),
            df as int,
            1_437_500,
            1_750_000,
        );
    }
    let v = fp_mul(fp_mul(fp_mul(raw, style.high_danger_chance), tq), df);
    if v < 50_000 {
        50_000
    } else {
        v
    }
}

/// How one roll classifies against a high-danger threshold: below the
/// threshold is high danger, the next fixed `0.35` band is medium danger,
/// the rest low danger.
pub open spec fn spec_classify_shot(hd: int, roll: int) -> ShotQuality {
    if roll < hd {
        ShotQuality::HighDanger
    } else if roll < hd + 350_000 {
        ShotQuality::MediumDanger
    } else {
        ShotQuality::LowDanger
    }
}

/// Classifies one roll of the unit interval against a high-danger
/// threshold.
pub fn classify_shot(hd: u64, roll: u64) -> (q: ShotQuality)
    requires
        hd <= 2_600_000,
    ensures
        q == spec_classify_shot(hd as int, roll as int),
{
    if roll < hd {
        ShotQuality::HighDanger
    } else if roll < hd + 350_000 {
        ShotQuality::MediumDanger
    } else {
        ShotQuality::LowDanger
    }
}

/// Classifies one shot: a uniform draw against the high-danger threshold.
pub fn get_shot_quality_with_defense(
    depth: u32,
    adj_off: u64,
    t: PlayerType,
    style: &PlayStyleModifiers,
    defender_def: u64,
    rng: &mut GameRng,
) -> (q: ShotQuality)
    requires
        adj_off <= 200,
        defender_def <= 115_000_000,
        style.wf(),
    ensures
        exists|roll: int|
            0 <= roll < 1_000_000 && q == spec_classify_shot(
                spec_high_danger_chance(
                    depth as int,
                    adj_off as int,
                    t,
                    *style,
                    defender_def as int,
                ),
                roll,
            ),
{
    let hd = high_danger_chance(depth, adj_off, t, style, defender_def);
    let roll = rng.unit();
    let q = classify_shot(hd, roll);
    proof {
        assert(0 <= roll < 1_000_000 && q == spec_classify_shot(
            spec_high_danger_chance(depth as int, adj_off as int, t, *style, defender_def as int),
            roll as int,
        ));
    }
    q
}

/// The capped goal probability (millionths): the product of the base
/// expected-goal value with the shooter, player-type, goalie, team-rating,
/// playoff, rebound, intimidation and leadership modifiers, capped at one
/// half.
pub open spec fn spec_goal_probability(
    xg: int,
    shooter_mod: int,
    type_mod: int,
    goalie_mod: int,
    rating_mod: int,
    playoff_mod: int,
    rebound_mod: int,
    intimidation_mod: int,
    leadership_mod: int,
) -> int {
    let p = fp_mul_spec(
        fp_mul_spec(
            fp_mul_spec(
                fp_mul_spec(
                    fp_mul_spec(
                        fp_mul_spec(
                            fp_mul_spec(fp_mul_spec(xg, shooter_mod), type_mod),
                            goalie_mod,
                        ),
                        rating_mod,
                    ),
                    playoff_mod,
                ),
                rebound_mod,
            ),
            intimidation_mod,
        ),
        leadership_mod,
    );
    if p > GOAL_PROB_CAP {
        GOAL_PROB_CAP as int
    } else {
        p
    }
}

/// The capped goal probability fed into every scoring trial; never above
/// [`GOAL_PROB_CAP`], one half.
pub fn goal_probability(
    xg: u64,
    shooter_mod: u64,
    type_mod: u64,
    goalie_mod: u64,
    rating_mod: u64,
    playoff_mod: u64,
    rebound_mod: u64,
    intimidation_mod: u64,
    leadership_mod: u64,
) -> (p: u64)
    requires
        xg <= 240_000,
        shooter_mod <= 1_500_000,
        type_mod <= 1_250_000,
        goalie_mod <= 1_700_000,
        rating_mod <= 1_500_000,
        playoff_mod <= 1_050_000,
        rebound_mod <= 1_700_000,
        intimidation_mod <= 1_000_000,
        leadership_mod <= 1_200_000,
    ensures
        p == spec_goal_probability(
            xg as int,
            shooter_mod as int,
            type_mod as int,
            goalie_mod as int,
            rating_mod as int,
            playoff_mod as int,
            rebound_mod as int,
            intimidation_mod as int,
            leadership_mod as int,
        ),
        p <= GOAL_PROB_CAP,
{
    proof {
        lemma_fp_mul_le(xg as int, shooter_mod as int, 240_000, 1_500_000);
    }
    let p1 = fp_mul(xg, shooter_mod);
    proof {
        lemma_fp_mul_le(p1 as int, type_mod as int, 360_000, 1_250_000);
    }
    let p2 = fp_mul(p1, type_mod);
    proof {
        lemma_fp_mul_le(p2 as int, goalie_mod as int, 450_000, 1_700_000);
    }
    let p3 = fp_mul(p2, goalie_mod);
    proof {
        lemma_fp_mul_le(p3 as int, rating_mod as int, 765_000, 1_500_000);
    }
    let p4 = fp_mul(p3, rating_mod);
    proof {
        lemma_fp_mul_le(p4 as int, playoff_mod as int, 1_147_500, 1_050_000);
    }
    let p5 = fp_mul(p4, playoff_mod);
    proof {
        lemma_fp_mul_le(p5 as int, rebound_mod as int, 1_204_875, 1_700_000);
    }
    let p6 = fp_mul(p5, rebound_mod);
    proof {
        lemma_fp_mul_le(p6 as int, intimidation_mod as int, 2_048_288, 1_000_000);
    }
    let p7 = fp_mul(p6, intimidation_mod);
    proof {
        lemma_fp_mul_le(p7 as int, leadership_mod as int, 2_048_288, 1_200_000);
    }
    let p8 = fp_mul(p7, leadership_mod);
    if p8 > GOAL_PROB_CAP {
        GOAL_PROB_CAP
    } else {
        p8
    }
}

/// One regular play of an attacking team: a shot-attempt gate, a weighted
/// shooter draw, a consistency-driven offense adjustment, a shot-quality
/// classification, a capped scoring trial and, on a goal, up to two assist
/// draws.  Returns `None` when no shot happens.
pub fn simulate_play(
    attacking: &Team,
    defending: &Team,
    goalie_idx: usize,
    attack_rating: u64,
    style: &PlayStyleModifiers,
    is_playoff: bool,
    defender_def_rating: u64,
    defender_intimidation: u64,
    attacker_leadership: u64,
    attacker_netfront: u64,
    rng: &mut GameRng,
) -> (r: Option<PlayOutcome>)
    requires
        attacking.wf(),
        defending.wf(),
        style.wf(),
        attack_rating <= RATING_CAP,
        defender_def_rating <= 115_000_000,
        defender_intimidation <= 300_000,
        900_000 <= attacker_leadership <= 1_200_000,
        1_000_000 <= attacker_netfront <= 1_350_000,
    ensures
        match r {
            Option::Some(o) => spec_outcome_ok(o, attacking.lines@) && (!o.is_goal
                ==> o.primary_assist is None && o.secondary_assist is None),
            Option::None => true,
        },
{
    if rng.unit() >= SHOT_ATTEMPT_RATE {
        return Option::None;
    }
    let shooter_idx = match select_shooter_weighted(attacking, rng) {
        Option::Some(i) => i,
        Option::None => {
            return Option::None;
        },
    };
    let shooter_depth = attacking.lines[shooter_idx].depth;
    let shooter = &attacking.lines[shooter_idx].player;
    assert(attacking.lines@[shooter_idx as int].wf());
    let v = rng.below(400_000);
    let d: i64 = v as i64 - 200_000;
    proof {
        assert(-20_000_000 <= d * (100 - shooter.consistency as i64) <= 20_000_000)
            by (nonlinear_arith)
            requires
                -200_000 <= d < 200_000,
                0 <= shooter.consistency <= 100,
        ;
    }
    let variance: i64 = d * (100 - shooter.consistency as i64) / 100;
    assert(-200_000 <= variance <= 200_000);
    proof {
        assert(0 <= shooter.off as i64 * (1_000_000 + variance) <= 120_000_000)
            by (nonlinear_arith)
            requires
                0 <= shooter.off <= 100,
                -200_000 <= variance <= 200_000,
        ;
    }
    let grown: i64 = shooter.off as i64 * (1_000_000 + variance);
    let adj: u64 = if grown < 1_000_000 {
        1_000_000
    } else {
        grown as u64
    };
    assert(adj <= 120_000_000);
    let adj_int: u64 = adj / 1_000_000;
    let quality = get_shot_quality_with_defense(
        shooter_depth,
        adj_int,
        shooter.player_type,
        style,
        defender_def_rating,
        rng,
    );
    let xg = quality.base_xg();
    let shooter_mod: u64 = adj / 80;
    let type_mod = goal_modifier(shooter.player_type);
    let goalie_mod: u64 = if goalie_idx < defending.lines.len() {
        let g_off = defending.lines[goalie_idx].player.off;
        let denom: u64 = if g_off < 50 {
            50
        } else {
            g_off as u64
        };
        proof {
            assert(85 * (SCALE as int) / (denom as int) <= 1_700_000) by (nonlinear_arith)
                requires
                    denom >= 50,
            ;
        }
        85 * SCALE / denom
    } else {
        1_200_000
    };
    assert(goalie_mod <= 1_700_000);
    let rating_mod: u64 = attack_rating / 80;
    let playoff_mod: u64 = if is_playoff && matches!(quality, ShotQuality::HighDanger) {
        1_050_000
    } else {
        SCALE
    };
    let rebound_mod: u64 = if matches!(quality, ShotQuality::HighDanger) {
        proof {
            lemma_fp_mul_le(
                style.rebound_goals as int,
                attacker_netfront as int,
                1_250_000,
                1_350_000,
            );
        }
        fp_mul(style.rebound_goals, attacker_netfront)
    } else {
        SCALE
    };
    let intimidation_mod: u64 = SCALE - defender_intimidation;
    let p = goal_probability(
        xg,
        shooter_mod,
        type_mod,
        goalie_mod,
        rating_mod,
        playoff_mod,
        rebound_mod,
        intimidation_mod,
        attacker_leadership,
    );
    let is_goal = rng.unit() < p;
    let mut primary: Option<usize> = Option::None;
    let mut secondary: Option<usize> = Option::None;
    if is_goal {
        if rng.unit() < 950_000 {
            primary = select_assist_player(attacking, shooter_idx, shooter_depth, rng);
        }
        if primary.is_some() && rng.unit() < 750_000 {
            secondary = select_secondary_assist(
                attacking,
                shooter_idx,
                primary,
                shooter_depth,
                rng,
            );
        }
    }
    Option::Some(
        PlayOutcome { is_goal, shooter_idx, primary_assist: primary, secondary_assist: secondary },
    )
}

/// One overtime play: a higher shot-attempt gate, a uniform shooter draw
/// restricted to the top two depths, raw offense (no variance), base
/// expected goals raised by half, and the net-front bonus on high-danger
/// chances.  Returns `None` when no shot happens.
pub fn simulate_ot_play(
    attacking: &Team,
    defending: &Team,
    goalie_idx: usize,
    attack_rating: u64,
    style: &PlayStyleModifiers,
    defender_def_rating: u64,
    defender_intimidation: u64,
    attacker_leadership: u64,
    attacker_netfront: u64,
    rng: &mut GameRng,
) -> (r: Option<PlayOutcome>)
    requires
        attacking.wf(),
        defending.wf(),
        style.wf(),
        attack_rating <= RATING_CAP,
        defender_def_rating <= 115_000_000,
        defender_intimidation <= 300_000,
        900_000 <= attacker_leadership <= 1_200_000,
        1_000_000 <= attacker_netfront <= 1_350_000,
    ensures
        match r {
            Option::Some(o) => spec_outcome_ok(o, attacking.lines@) && attacking.lines@[
                o.shooter_idx as int
            ].depth <= 2 && (!o.is_goal ==> o.primary_assist is None
                && o.secondary_assist is None),
            Option::None => true,
        },
        (forall|k: int|
            0 <= k < attacking.lines@.len() ==> (#[trigger] attacking.lines@[k]).kind is Goalie
                || attacking.lines@[k].depth > 2) ==> r is None,
{
    if rng.unit() >= OT_SHOT_ATTEMPT_RATE {
        return Option::None;
    }
    let n = attacking.lines.len();
    let mut candidates: Vec<usize> = Vec::new();
    let mut i: usize = 0;
    while i < n
        invariant
            attacking.wf(),
            n == attacking.lines@.len(),
            i <= n,
            candidates@.len() <= i,
            forall|j: int|
                0 <= j < candidates@.len() ==> (#[trigger] candidates@[j]) < n && !(
                attacking.lines@[candidates@[j] as int].kind is Goalie) && attacking.lines@[
                candidates@[j] as int
            ].depth <= 2,
        decreases n - i,
    {
        let la = &attacking.lines[i];
        if !matches!(la.kind, LineKind::Goalie) && la.depth <= 2 {
            candidates.push(i);
        }
        i = i + 1;
    }
    if candidates.len() == 0 {
        return Option::None;
    }
    let k = rng.below(candidates.len() as u64);
    let shooter_idx = candidates[k as usize];
    let shooter_depth = attacking.lines[shooter_idx].depth;
    let shooter = &attacking.lines[shooter_idx].player;
    let quality = get_shot_quality_with_defense(
        shooter_depth,
        shooter.off as u64,
        shooter.player_type,
        style,
        defender_def_rating,
        rng,
    );
    let xg: u64 = quality.base_xg() * 3 / 2;
    let shooter_mod: u64 = shooter.off as u64 * 12_500;
    let type_mod = goal_modifier(shooter.player_type);
    let goalie_mod: u64 = if goalie_idx < defending.lines.len() {
        let g_off = defending.lines[goalie_idx].player.off;
        let denom: u64 = if g_off < 50 {
            50
        } else {
            g_off as u64
        };
        proof {
            assert(85 * (SCALE as int) / (denom as int) <= 1_700_000) by (nonlinear_arith)
                requires
                    denom >= 50,
            ;
        }
        85 * SCALE / denom
    } else {
        1_200_000
    };
    assert(goalie_mod <= 1_700_000);
    let rating_mod: u64 = attack_rating / 80;
    let netfront_mod: u64 = if matches!(quality, ShotQuality::HighDanger) {
        attacker_netfront
    } else {
        SCALE
    };
    let intimidation_mod: u64 = SCALE - defender_intimidation;
    let p = goal_probability(
        xg,
        shooter_mod,
        type_mod,
        goalie_mod,
        rating_mod,
        SCALE,
        netfront_mod,
        intimidation_mod,
        attacker_leadership,
    );
    let is_goal = rng.unit() < p;
    let mut primary: Option<usize> = Option::None;
    let mut secondary: Option<usize> = Option::None;
    if is_goal {
        if rng.unit() < 950_000 {
            primary = select_assist_player(attacking, shooter_idx, shooter_depth, rng);
        }
        if primary.is_some() && rng.unit() < 750_000 {
            secondary = select_secondary_assist(
                attacking,
                shooter_idx,
                primary,
                shooter_depth,
                rng,
            );
        }
    }
    Option::Some(
        PlayOutcome { is_goal, shooter_idx, primary_assist: primary, secondary_assist: secondary },
    )
}

/// Shootout line weight of a forward by depth (millionths).
pub open spec fn spec_shootout_line_weight(depth: int) -> int {
    if depth <= 1 {
        1_000_000
    } else if depth == 2 {
        800_000
    } else if depth == 3 {
        500_000
    } else {
        300_000
    }
}

/// Chooses a shootout shooter: a draw over the forwards weighted by
/// offense, line depth and goal-type modifier; a roster without forwards
/// sends its first slot, and an empty roster sends nobody.
pub fn select_best_shooter(team: &Team, rng: &mut GameRng) -> (r: Option<usize>)
    requires
        team.wf(),
    ensures
        match r {
            Option::Some(i) => i < team.lines@.len() && ((exists|k: int|
                0 <= k < team.lines@.len() && (
                #[trigger] team.lines@[k]).kind is Forward) ==> team.lines@[
                i as int
            ].kind is Forward) && (!(exists|k: int|
                0 <= k < team.lines@.len() && (#[trigger] team.lines@[k]).kind is Forward) ==> i
                == 0),
            Option::None => team.lines@.len() == 0,
        },
{
    let n = team.lines.len();
    let mut candidates: Vec<usize> = Vec::new();
    let mut weights: Vec<u64> = Vec::new();
    let mut i: usize = 0;
    while i < n
        invariant
            team.wf(),
            n == team.lines@.len(),
            i <= n,
            candidates@.len() == weights@.len(),
            candidates@.len() <= i,
            forall|j: int|
                0 <= j < candidates@.len() ==> (#[trigger] candidates@[j]) < n && team.lines@[
                    candidates@[j] as int
                ].kind is Forward,
            candidates@.len() == 0 ==> forall|k: int|
                0 <= k < i ==> !((#[trigger] team.lines@[k]).kind is Forward),
            forall|j: int| 0 <= j < weights@.len() ==> (#[trigger] weights@[j]) <= 2_000_000,
        decreases n - i,
    {
        let la = &team.lines[i];
        if matches!(la.kind, LineKind::Forward) {
            let off_fp: u64 = la.player.off as u64 * 10_000;
            let lw: u64 = if la.depth <= 1 {
                1_000_000
            } else if la.depth == 2 {
                800_000
            } else if la.depth == 3 {
                500_000
            } else {
                300_000
            };
            let tm = goal_modifier(la.player.player_type);
            proof {
                lemma_fp_mul_le(off_fp as int, lw as int, 1_000_000, 1_000_000);
                lemma_fp_mul_le(
                    fp_mul_spec(off_fp as int, lw as int),
                    tm as int,
                    1_000_000,
                    1_250_000,
                );
            }
            let w = fp_mul(fp_mul(off_fp, lw), tm);
            candidates.push(i);
            weights.push(w);
        }
        i = i + 1;
    }
    if candidates.len() == 0 {
        if n > 0 {
            return Option::Some(0);
        }
        return Option::None;
    }
    Option::Some(pick_weighted(&candidates, &weights, rng))
}

} // verus!
