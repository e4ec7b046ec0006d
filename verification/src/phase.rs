//! The phase controller: three periods, then sudden-death overtime when
//! regulation ends tied, then (outside the playoffs) a shootout that always
//! decides the game; playoff games repeat overtime segments until a goal
//! falls.
//!
//! The contracts here carry the game-level bookkeeping: scores are the
//! exact sum of the goals credited to the boxscore (until a shootout adds
//! score-only goals), a team's assists never exceed twice its goals, and a
//! finished game is never tied.

use vstd::prelude::*;
use crate::rating::{
    calculate_netfront_presence, calculate_team_defense_rating, calculate_team_intimidation,
    calculate_team_leadership, calculate_team_rating, RATING_CAP,
};
use crate::rng::GameRng;
use crate::sampler::{simulate_ot_play, simulate_play, select_best_shooter, goal_modifier};
use crate::fixed::{fp_mul, lemma_fp_mul_le, SCALE};
use crate::stats::{
    find_goalie_stat_idx, find_player_stat_idx, init_team_stats, finalize_plus_minus,
    lemma_goals_elem_le_sum, lemma_sums_pointwise,
    lemma_sums_update, record_assist, record_faced_shot, record_goal, record_shot,
    spec_sum_assists, spec_sum_goals,
};
use crate::types::{
    GameInput, GameResult, LineKind, PlayerGameStat, PlayStyleModifiers, Team,
    style_modifiers,
};

verus! {

/// Base number of plays each side runs per period, before the style's
/// shot-volume multiplier.
pub const BASE_PLAYS_PER_PERIOD: u64 = 50;

/// Alternating single-play attempts per overtime segment.
pub const OT_PLAYS: u32 = 10;

/// What one play leaves of a boxscore record: identity, ice time,
/// plus-minus and the pass-owned counters are untouched, every other
/// counter only ever grows, and a goal is always accompanied by a shot on
/// the same record.
pub open spec fn spec_play_shape(a: PlayerGameStat, b: PlayerGameStat) -> bool {
    &&& b.player_id == a.player_id
    &&& b.player_name == a.player_name
    &&& b.time_on_ice == a.time_on_ice
    &&& b.plus_minus == a.plus_minus
    &&& b.hits == a.hits
    &&& b.blocks == a.blocks
    &&& b.takeaways == a.takeaways
    &&& b.giveaways == a.giveaways
    &&& b.goals >= a.goals
    &&& b.assists >= a.assists
    &&& b.shots >= a.shots
    &&& b.saves >= a.saves
    &&& b.goals_against >= a.goals_against
    &&& b.shots_against >= a.shots_against
    &&& b.shots - a.shots >= b.goals - a.goals
}

/// What a whole period leaves of a record: identity, ice time and
/// plus-minus are untouched, every counter only ever grows, the play-owned
/// counters by at most one per play and the pass-owned counters within one
/// pass's opportunity budget; a goal is always accompanied by a shot.
pub open spec fn spec_period_shape(a: PlayerGameStat, b: PlayerGameStat) -> bool {
    &&& b.player_id == a.player_id
    &&& b.player_name == a.player_name
    &&& b.time_on_ice == a.time_on_ice
    &&& b.plus_minus == a.plus_minus
    &&& a.hits <= b.hits <= a.hits + 13_000
    &&& a.blocks <= b.blocks <= a.blocks + 13_000
    &&& a.takeaways <= b.takeaways <= a.takeaways + 13_000
    &&& a.giveaways <= b.giveaways <= a.giveaways + 13_000
    &&& a.goals <= b.goals
    &&& a.assists <= b.assists
    &&& a.shots <= b.shots <= a.shots + 62
    &&& a.saves <= b.saves <= a.saves + 62
    &&& a.shots_against <= b.shots_against <= a.shots_against + 62
    &&& a.goals_against <= b.goals_against <= a.goals_against + 62
    &&& b.shots - a.shots >= b.goals - a.goals
}

/// Counter headroom: every monotone counter is at most `cap`, far enough
/// below the saturation point that each step a phase takes is an exact
/// increment.
pub open spec fn spec_counter_headroom(s: Seq<PlayerGameStat>, cap: int) -> bool {
    forall|i: int|
        0 <= i < s.len() ==> (#[trigger] s[i]).shots <= cap && s[i].saves <= cap
            && s[i].shots_against <= cap && s[i].goals_against <= cap && s[i].hits <= cap
            && s[i].blocks <= cap && s[i].takeaways <= cap && s[i].giveaways <= cap
}

/// Headroom survives a phase whose per-record growth is bounded by `step`.
proof fn lemma_headroom_step(
    a: Seq<PlayerGameStat>,
    b: Seq<PlayerGameStat>,
    cap: int,
    step: int,
)
    requires
        spec_counter_headroom(a, cap),
        a.len() == b.len(),
        0 <= step,
        forall|i: int|
            0 <= i < a.len() ==> (#[trigger] b[i]).shots <= a[i].shots + step && b[i].saves
                <= a[i].saves + step && b[i].shots_against <= a[i].shots_against + step
                && b[i].goals_against <= a[i].goals_against + step && b[i].hits <= a[i].hits
                + step && b[i].blocks <= a[i].blocks + step && b[i].takeaways <= a[i].takeaways
                + step && b[i].giveaways <= a[i].giveaways + step,
    ensures
        spec_counter_headroom(b, cap + step),
{
}

/// The defending goalie's mirror: the first record carrying the player id
/// of the defending goalie slot gained exactly `goals` goals against, and
/// a save for every other shot it faced.
pub open spec fn spec_goalie_mirror(
    old_stats: Seq<PlayerGameStat>,
    new_stats: Seq<PlayerGameStat>,
    lines: Seq<crate::types::LineAssignment>,
    goalie_line_idx: int,
    goals: int,
) -> bool {
    0 <= goalie_line_idx < lines.len() ==> forall|g: int|
        (0 <= g < old_stats.len() && (#[trigger] old_stats[g]).player_id == lines[
            goalie_line_idx
        ].player.id && (forall|k: int|
            0 <= k < g ==> (#[trigger] old_stats[k]).player_id != lines[
                goalie_line_idx
            ].player.id)) ==> new_stats[g].goals_against == old_stats[g].goals_against + goals
            && new_stats[g].saves - old_stats[g].saves == (new_stats[g].shots_against
            - old_stats[g].shots_against) - goals
}

/// Number of goalie slots strictly before a roster position.
pub open spec fn spec_goalies_before(lines: Seq<crate::types::LineAssignment>, upto: int) -> int
    decreases upto,
{
    if upto <= 0 {
        0
    } else {
        spec_goalies_before(lines, upto - 1) + (if 0 <= upto - 1 < lines.len() && lines[
            upto - 1
        ].kind is Goalie {
            1int
        } else {
            0int
        })
    }
}

/// Selects the goalie slot for this game: 60% the first listed goalie,
/// else the second; a roster without goalies yields slot 0, which later
/// stages treat as "no goalie" wherever they check the slot's kind.  The
/// chosen slot is always the first or second goalie listed.
pub fn select_goalie(team: &Team, rng: &mut GameRng) -> (r: usize)
    requires
        team.wf(),
    ensures
        (exists|i: int|
            0 <= i < team.lines@.len() && (#[trigger] team.lines@[i]).kind is Goalie) ==> r
            < team.lines@.len() && team.lines@[r as int].kind is Goalie && spec_goalies_before(
            team.lines@,
            r as int,
        ) <= 1,
        !(exists|i: int|
            0 <= i < team.lines@.len() && (#[trigger] team.lines@[i]).kind is Goalie) ==> r == 0,
{
    let n = team.lines.len();
    let mut goalies: Vec<usize> = Vec::new();
    let mut i: usize = 0;
    while i < n
        invariant
            team.wf(),
            n == team.lines@.len(),
            i <= n,
            forall|j: int|
                0 <= j < goalies@.len() ==> (#[trigger] goalies@[j]) < n
                    && team.lines@[goalies@[j] as int].kind is Goalie && spec_goalies_before(
                    team.lines@,
                    goalies@[j] as int,
                ) == j,
            spec_goalies_before(team.lines@, i as int) == goalies@.len(),
            goalies@.len() == 0 ==> forall|k: int|
                0 <= k < i ==> !((#[trigger] team.lines@[k]).kind is Goalie),
        decreases n - i,
    {
        if matches!(team.lines[i].kind, LineKind::Goalie) {
            goalies.push(i);
        }
        i = i + 1;
    }
    if goalies.len() == 0 {
        return 0;
    }
    let u = rng.unit();
    if u < 600_000 {
        goalies[0]
    } else if goalies.len() > 1 {
        goalies[1]
    } else {
        goalies[0]
    }
}

/// Number of plays a side runs in one period: the base count scaled by its
/// style's shot volume.
pub fn plays_per_period(style: &PlayStyleModifiers) -> (r: u32)
    requires
        style.wf(),
    ensures
        r == BASE_PLAYS_PER_PERIOD * style.shot_volume / (SCALE as int),
        r <= 62,
{
    (BASE_PLAYS_PER_PERIOD * style.shot_volume / SCALE) as u32
}

/// Runs the plays of one side of a period: each non-empty play outcome
/// charges a shot (and on a goal, the goal and up to two assists) to the
/// attacking boxscore and mirrors the shot onto the defending goalie.
/// Returns the goals scored; the attacking goal sum grows by exactly that
/// and the assist sum by at most twice that, while the defending boxscore
/// keeps its goal and assist sums.
#[verifier::loop_isolation(false)]
fn run_side_plays(
    attacking_team: &Team,
    defending_team: &Team,
    defending_goalie_line_idx: usize,
    attack_rating: u64,
    attack_style: &PlayStyleModifiers,
    is_playoff: bool,
    defender_def_rating: u64,
    defender_intimidation: u64,
    attacker_leadership: u64,
    attacker_netfront: u64,
    plays: u32,
    attack_stats: &mut Vec<PlayerGameStat>,
    defend_stats: &mut Vec<PlayerGameStat>,
    rng: &mut GameRng,
) -> (goals: u32)
    requires
        attacking_team.wf(),
        defending_team.wf(),
        attack_style.wf(),
        attack_rating <= RATING_CAP,
        defender_def_rating <= 115_000_000,
        defender_intimidation <= 300_000,
        900_000 <= attacker_leadership <= 1_200_000,
        1_000_000 <= attacker_netfront <= 1_350_000,
        plays <= 62,
        spec_sum_goals(old(attack_stats)@) <= 100_000,
        spec_sum_assists(old(attack_stats)@) <= 300_000,
        crate::stats::spec_stats_cover(old(attack_stats)@, attacking_team.lines@),
        spec_counter_headroom(old(attack_stats)@, 4_000_000_000),
        spec_counter_headroom(old(defend_stats)@, 4_000_000_000),
    ensures
        goals <= plays,
        final(attack_stats)@.len() == old(attack_stats)@.len(),
        final(defend_stats)@.len() == old(defend_stats)@.len(),
        spec_sum_goals(final(attack_stats)@) == spec_sum_goals(old(attack_stats)@) + goals,
        spec_sum_assists(final(attack_stats)@) <= spec_sum_assists(old(attack_stats)@) + 2
            * goals,
        spec_sum_assists(final(attack_stats)@) >= spec_sum_assists(old(attack_stats)@),
        spec_sum_goals(final(defend_stats)@) == spec_sum_goals(old(defend_stats)@),
        spec_sum_assists(final(defend_stats)@) == spec_sum_assists(old(defend_stats)@),
        forall|i: int|
            0 <= i < final(attack_stats)@.len() ==> spec_play_shape(
                old(attack_stats)@[i],
                #[trigger] final(attack_stats)@[i],
            ) && final(attack_stats)@[i].saves == old(attack_stats)@[i].saves && final(attack_stats)@[i].goals_against == old(attack_stats)@[i].goals_against && final(attack_stats)@[i].shots_against == old(attack_stats)@[i].shots_against && final(attack_stats)@[i].shots <= old(attack_stats)@[i].shots + plays && final(attack_stats)@[i].goals
                <= old(attack_stats)@[i].goals + plays && final(attack_stats)@[i].assists <= old(attack_stats)@[i].assists + 2 * plays,
        forall|i: int|
            0 <= i < final(defend_stats)@.len() ==> spec_play_shape(
                old(defend_stats)@[i],
                #[trigger] final(defend_stats)@[i],
            ) && final(defend_stats)@[i].goals == old(defend_stats)@[i].goals && final(defend_stats)@[i].assists == old(defend_stats)@[i].assists && final(defend_stats)@[i].shots == old(defend_stats)@[i].shots && final(defend_stats)@[i].shots_against <= old(defend_stats)@[i].shots_against + plays && final(defend_stats)@[i].saves <= old(defend_stats)@[i].saves + plays && final(defend_stats)@[i].goals_against <= old(defend_stats)@[i].goals_against + plays,
        spec_goalie_mirror(
            old(defend_stats)@,
            final(defend_stats)@,
            defending_team.lines@,
            defending_goalie_line_idx as int,
            goals as int,
        ),
{
    let defending_goalie_stat_idx = find_goalie_stat_idx(
        defend_stats,
        defending_team,
        defending_goalie_line_idx,
    );
    let mut goals: u32 = 0;
    let mut p: u32 = 0;
    while p < plays
        invariant
            goals <= p <= plays,
            attack_stats@.len() == old(attack_stats)@.len(),
            defend_stats@.len() == old(defend_stats)@.len(),
            spec_sum_goals(attack_stats@) == spec_sum_goals(old(attack_stats)@) + goals,
            spec_sum_assists(attack_stats@) <= spec_sum_assists(old(attack_stats)@) + 2 * goals,
            spec_sum_assists(attack_stats@) >= spec_sum_assists(old(attack_stats)@),
            spec_sum_goals(defend_stats@) == spec_sum_goals(old(defend_stats)@),
            spec_sum_assists(defend_stats@) == spec_sum_assists(old(defend_stats)@),
            match defending_goalie_stat_idx {
                Option::Some(g) => g < defend_stats@.len() && defend_stats@[g as int].goals_against
                    == old(defend_stats)@[g as int].goals_against + goals && defend_stats@[
                    g as int
                ].saves - old(defend_stats)@[g as int].saves == defend_stats@[
                    g as int
                ].shots_against - old(defend_stats)@[g as int].shots_against - goals,
                Option::None => true,
            },
            forall|i: int|
                0 <= i < attack_stats@.len() ==> spec_play_shape(
                    old(attack_stats)@[i],
                    #[trigger] attack_stats@[i],
                ) && attack_stats@[i].saves == old(attack_stats)@[i].saves && attack_stats@[
                    i
                ].goals_against == old(attack_stats)@[i].goals_against && attack_stats@[
                    i
                ].shots_against == old(attack_stats)@[i].shots_against && attack_stats@[i].shots
                    <= old(attack_stats)@[i].shots + p && attack_stats@[i].goals <= old(attack_stats)@[i].goals + p && attack_stats@[i].assists <= old(attack_stats)@[i].assists + 2
                    * p,
            forall|i: int|
                0 <= i < defend_stats@.len() ==> spec_play_shape(
                    old(defend_stats)@[i],
                    #[trigger] defend_stats@[i],
                ) && defend_stats@[i].goals == old(defend_stats)@[i].goals && defend_stats@[
                    i
                ].assists == old(defend_stats)@[i].assists && defend_stats@[i].shots == old(defend_stats)@[i].shots && defend_stats@[i].shots_against <= old(defend_stats)@[i].shots_against + p && defend_stats@[i].saves <= old(defend_stats)@[i].saves
                    + p && defend_stats@[i].goals_against <= old(defend_stats)@[i].goals_against
                    + p,
        decreases plays - p,
    {
        let outcome = simulate_play(
            attacking_team,
            defending_team,
            defending_goalie_line_idx,
            attack_rating,
            attack_style,
            is_playoff,
            defender_def_rating,
            defender_intimidation,
            attacker_leadership,
            attacker_netfront,
            rng,
        );
        if let Option::Some(o) = outcome {
            let shooter_rec = find_player_stat_idx(attack_stats, attacking_team, o.shooter_idx);
            proof {
                if shooter_rec is None {
                    crate::stats::lemma_cover_pointwise(
                        old(attack_stats)@,
                        attack_stats@,
                        attacking_team.lines@,
                    );
                    assert(false);
                }
            }
            if let Option::Some(si) = shooter_rec {
                let ghost pre = attack_stats@;
                proof {
                    lemma_sums_update(pre, si as int, crate::stats::spec_with_shot(pre[si as int]));
                }
                record_shot(attack_stats, si);
                if o.is_goal {
                    goals = goals + 1;
                    let ghost pre2 = attack_stats@;
                    proof {
                        lemma_goals_elem_le_sum(pre2, si as int);
                        lemma_sums_update(
                            pre2,
                            si as int,
                            crate::stats::spec_with_goal(pre2[si as int]),
                        );
                    }
                    record_goal(attack_stats, si);
                    if let Option::Some(pa) = o.primary_assist {
                        if let Option::Some(ai) = find_player_stat_idx(
                            attack_stats,
                            attacking_team,
                            pa,
                        ) {
                            let ghost pre3 = attack_stats@;
                            proof {
                                lemma_goals_elem_le_sum(pre3, ai as int);
                                lemma_sums_update(
                                    pre3,
                                    ai as int,
                                    crate::stats::spec_with_assist(pre3[ai as int]),
                                );
                            }
                            record_assist(attack_stats, ai);
                        }
                    }
                    if let Option::Some(sa) = o.secondary_assist {
                        if let Option::Some(bi) = find_player_stat_idx(
                            attack_stats,
                            attacking_team,
                            sa,
                        ) {
                            let ghost pre4 = attack_stats@;
                            proof {
                                lemma_goals_elem_le_sum(pre4, bi as int);
                                lemma_sums_update(
                                    pre4,
                                    bi as int,
                                    crate::stats::spec_with_assist(pre4[bi as int]),
                                );
                            }
                            record_assist(attack_stats, bi);
                        }
                    }
                }
            }
            if let Option::Some(g) = defending_goalie_stat_idx {
                let ghost pre5 = defend_stats@;
                proof {
                    lemma_sums_update(
                        pre5,
                        g as int,
                        crate::stats::spec_with_faced_shot(pre5[g as int], o.is_goal),
                    );
                }
                record_faced_shot(defend_stats, g, o.is_goal);
            }
        }
        p = p + 1;
    }
    proof {
        if 0 <= defending_goalie_line_idx < defending_team.lines@.len() {
            let gid = defending_team.lines@[defending_goalie_line_idx as int].player.id;
            assert forall|g: int|
                (0 <= g < old(defend_stats)@.len() && (#[trigger] old(defend_stats)@[g]).player_id == gid && (forall|k: int|
                    0 <= k < g ==> (#[trigger] old(defend_stats)@[k]).player_id
                        != gid)) implies defend_stats@[g].goals_against == old(defend_stats)@[g].goals_against + goals && defend_stats@[g].saves - old(defend_stats)@[g].saves
                == (defend_stats@[g].shots_against - old(defend_stats)@[g].shots_against)
                - goals by {
                match defending_goalie_stat_idx {
                    Option::Some(g0) => {
                        assert(old(defend_stats)@[g0 as int].player_id == gid);
                        if g < g0 {
                            assert(old(defend_stats)@[g].player_id != gid);
                        } else if g0 < g {
                            assert(old(defend_stats)@[g0 as int].player_id != gid);
                        }
                        assert(g == g0);
                    },
                    Option::None => {
                        assert(!crate::stats::spec_has_record(old(defend_stats)@, gid as int));
                        assert(false);
                    },
                }
            }
        }
    }
    goals
}

/// One period: each side runs its style-scaled number of plays, then the
/// post-period physical and turnover passes update both boxscores.
/// Returns `(home goals, away goals)`; each side's goal sum grows by
/// exactly its goals and its assist sum by at most twice that.
pub fn simulate_period(
    home_team: &Team,
    away_team: &Team,
    home_goalie_line_idx: usize,
    away_goalie_line_idx: usize,
    home_rating: u64,
    away_rating: u64,
    home_style: &PlayStyleModifiers,
    away_style: &PlayStyleModifiers,
    is_playoff: bool,
    home_stats: &mut Vec<PlayerGameStat>,
    away_stats: &mut Vec<PlayerGameStat>,
    rng: &mut GameRng,
) -> (r: (u32, u32))
    requires
        home_team.wf(),
        away_team.wf(),
        home_style.wf(),
        away_style.wf(),
        home_rating <= RATING_CAP,
        away_rating <= RATING_CAP,
        spec_sum_goals(old(home_stats)@) <= 100_000,
        spec_sum_assists(old(home_stats)@) <= 300_000,
        spec_sum_goals(old(away_stats)@) <= 100_000,
        spec_sum_assists(old(away_stats)@) <= 300_000,
        crate::stats::spec_stats_cover(old(home_stats)@, home_team.lines@),
        crate::stats::spec_stats_cover(old(away_stats)@, away_team.lines@),
        spec_counter_headroom(old(home_stats)@, 3_900_000_000),
        spec_counter_headroom(old(away_stats)@, 3_900_000_000),
    ensures
        r.0 <= BASE_PLAYS_PER_PERIOD * home_style.shot_volume / (SCALE as int),
        r.1 <= BASE_PLAYS_PER_PERIOD * away_style.shot_volume / (SCALE as int),
        r.0 <= 62,
        r.1 <= 62,
        final(home_stats)@.len() == old(home_stats)@.len(),
        final(away_stats)@.len() == old(away_stats)@.len(),
        spec_sum_goals(final(home_stats)@) == spec_sum_goals(old(home_stats)@) + r.0,
        spec_sum_assists(final(home_stats)@) <= spec_sum_assists(old(home_stats)@) + 2 * r.0,
        spec_sum_assists(final(home_stats)@) >= spec_sum_assists(old(home_stats)@),
        spec_sum_goals(final(away_stats)@) == spec_sum_goals(old(away_stats)@) + r.1,
        spec_sum_assists(final(away_stats)@) <= spec_sum_assists(old(away_stats)@) + 2 * r.1,
        spec_sum_assists(final(away_stats)@) >= spec_sum_assists(old(away_stats)@),
        forall|i: int|
            0 <= i < final(home_stats)@.len() ==> spec_period_shape(
                old(home_stats)@[i],
                #[trigger] final(home_stats)@[i],
            ),
        forall|i: int|
            0 <= i < final(away_stats)@.len() ==> spec_period_shape(
                old(away_stats)@[i],
                #[trigger] final(away_stats)@[i],
            ),
        spec_goalie_mirror(
            old(away_stats)@,
            final(away_stats)@,
            away_team.lines@,
            away_goalie_line_idx as int,
            r.0 as int,
        ),
        spec_goalie_mirror(
            old(home_stats)@,
            final(home_stats)@,
            home_team.lines@,
            home_goalie_line_idx as int,
            r.1 as int,
        ),
{
    let home_def_rating = calculate_team_defense_rating(home_team);
    let away_def_rating = calculate_team_defense_rating(away_team);
    let home_intimidation = calculate_team_intimidation(home_team, is_playoff);
    let away_intimidation = calculate_team_intimidation(away_team, is_playoff);
    let home_leadership = calculate_team_leadership(home_team, is_playoff, false);
    let away_leadership = calculate_team_leadership(away_team, is_playoff, false);
    let home_netfront = calculate_netfront_presence(home_team);
    let away_netfront = calculate_netfront_presence(away_team);
    let home_plays = plays_per_period(home_style);
    let away_plays = plays_per_period(away_style);
    let home_goals = run_side_plays(
        home_team,
        away_team,
        away_goalie_line_idx,
        home_rating,
        home_style,
        is_playoff,
        away_def_rating,
        away_intimidation,
        home_leadership,
        home_netfront,
        home_plays,
        home_stats,
        away_stats,
        rng,
    );
    proof {
        crate::stats::lemma_cover_pointwise(old(away_stats)@, away_stats@, away_team.lines@);
        assert forall|i: int|
            0 <= i < away_stats@.len() implies (#[trigger] away_stats@[i]).shots
            <= 4_000_000_000 && away_stats@[i].saves <= 4_000_000_000 && away_stats@[
            i
        ].shots_against <= 4_000_000_000 && away_stats@[i].goals_against <= 4_000_000_000
            && away_stats@[i].hits <= 4_000_000_000 && away_stats@[i].blocks <= 4_000_000_000
            && away_stats@[i].takeaways <= 4_000_000_000 && away_stats@[i].giveaways
            <= 4_000_000_000 by {}
        assert forall|i: int|
            0 <= i < home_stats@.len() implies (#[trigger] home_stats@[i]).shots
            <= 4_000_000_000 && home_stats@[i].saves <= 4_000_000_000 && home_stats@[
            i
        ].shots_against <= 4_000_000_000 && home_stats@[i].goals_against <= 4_000_000_000
            && home_stats@[i].hits <= 4_000_000_000 && home_stats@[i].blocks <= 4_000_000_000
            && home_stats@[i].takeaways <= 4_000_000_000 && home_stats@[i].giveaways
            <= 4_000_000_000 by {}
    }
    let away_goals = run_side_plays(
        away_team,
        home_team,
        home_goalie_line_idx,
        away_rating,
        away_style,
        is_playoff,
        home_def_rating,
        home_intimidation,
        away_leadership,
        away_netfront,
        away_plays,
        away_stats,
        home_stats,
        rng,
    );
    let ghost home_before_passes = home_stats@;
    let ghost away_before_passes = away_stats@;
    crate::stats::simulate_physical_stats(home_stats, home_team, home_style, is_playoff, rng);
    crate::stats::simulate_physical_stats(away_stats, away_team, away_style, is_playoff, rng);
    crate::stats::simulate_turnovers(home_stats, home_team, rng);
    crate::stats::simulate_turnovers(away_stats, away_team, rng);
    proof {
        lemma_sums_pointwise(home_before_passes, home_stats@);
        lemma_sums_pointwise(away_before_passes, away_stats@);
        assert forall|i: int| 0 <= i < home_stats@.len() implies (#[trigger] home_stats@[i]).hits
            <= home_before_passes[i].hits + 13_000 && home_stats@[i].blocks
            <= home_before_passes[i].blocks + 13_000 && home_stats@[i].takeaways
            <= home_before_passes[i].takeaways + 13_000 && home_stats@[i].giveaways
            <= home_before_passes[i].giveaways + 13_000 by {
            crate::stats::lemma_opportunities_bound(
                home_team.lines@,
                home_before_passes[i].player_id as int,
                50,
            );
            crate::stats::lemma_opportunities_bound(
                home_team.lines@,
                home_before_passes[i].player_id as int,
                40,
            );
            crate::stats::lemma_opportunities_bound(
                home_team.lines@,
                home_before_passes[i].player_id as int,
                30,
            );
            crate::stats::lemma_opportunities_bound(
                home_team.lines@,
                home_before_passes[i].player_id as int,
                25,
            );
        }
        assert forall|i: int| 0 <= i < away_stats@.len() implies (#[trigger] away_stats@[i]).hits
            <= away_before_passes[i].hits + 13_000 && away_stats@[i].blocks
            <= away_before_passes[i].blocks + 13_000 && away_stats@[i].takeaways
            <= away_before_passes[i].takeaways + 13_000 && away_stats@[i].giveaways
            <= away_before_passes[i].giveaways + 13_000 by {
            crate::stats::lemma_opportunities_bound(
                away_team.lines@,
                away_before_passes[i].player_id as int,
                50,
            );
            crate::stats::lemma_opportunities_bound(
                away_team.lines@,
                away_before_passes[i].player_id as int,
                40,
            );
            crate::stats::lemma_opportunities_bound(
                away_team.lines@,
                away_before_passes[i].player_id as int,
                30,
            );
            crate::stats::lemma_opportunities_bound(
                away_team.lines@,
                away_before_passes[i].player_id as int,
                25,
            );
        }
    }
    (home_goals, away_goals)
}

/// One overtime attempt by one side: a single play; a shot is charged to
/// the attacking boxscore and mirrored onto the defending goalie, and the
/// result says whether a goal fell.
fn run_ot_attempt(
    attacking_team: &Team,
    defending_team: &Team,
    defending_goalie_line_idx: usize,
    attack_rating: u64,
    attack_style: &PlayStyleModifiers,
    defender_def_rating: u64,
    defender_intimidation: u64,
    attacker_leadership: u64,
    attacker_netfront: u64,
    attack_stats: &mut Vec<PlayerGameStat>,
    defend_stats: &mut Vec<PlayerGameStat>,
    rng: &mut GameRng,
) -> (r: (u32, bool))
    requires
        attacking_team.wf(),
        defending_team.wf(),
        attack_style.wf(),
        attack_rating <= RATING_CAP,
        defender_def_rating <= 115_000_000,
        defender_intimidation <= 300_000,
        900_000 <= attacker_leadership <= 1_200_000,
        1_000_000 <= attacker_netfront <= 1_350_000,
        spec_sum_goals(old(attack_stats)@) <= 100_000,
        spec_sum_assists(old(attack_stats)@) <= 300_000,
        spec_counter_headroom(old(attack_stats)@, 4_000_000_000),
        spec_counter_headroom(old(defend_stats)@, 4_000_000_000),
    ensures
        r.0 <= 1,
        r.0 == 1 ==> r.1,
        final(attack_stats)@.len() == old(attack_stats)@.len(),
        final(defend_stats)@.len() == old(defend_stats)@.len(),
        spec_sum_goals(final(attack_stats)@) == spec_sum_goals(old(attack_stats)@) + r.0,
        spec_sum_assists(final(attack_stats)@) <= spec_sum_assists(old(attack_stats)@) + 2
            * r.0,
        spec_sum_assists(final(attack_stats)@) >= spec_sum_assists(old(attack_stats)@),
        spec_sum_goals(final(defend_stats)@) == spec_sum_goals(old(defend_stats)@),
        spec_sum_assists(final(defend_stats)@) == spec_sum_assists(old(defend_stats)@),
        forall|i: int|
            0 <= i < final(attack_stats)@.len() ==> spec_play_shape(
                old(attack_stats)@[i],
                #[trigger] final(attack_stats)@[i],
            ) && final(attack_stats)@[i].saves == old(attack_stats)@[i].saves && final(attack_stats)@[i].goals_against == old(attack_stats)@[i].goals_against && final(attack_stats)@[i].shots_against == old(attack_stats)@[i].shots_against && final(attack_stats)@[i].shots <= old(attack_stats)@[i].shots + 1 && final(attack_stats)@[i].goals <= old(attack_stats)@[i].goals + 1 && final(attack_stats)@[i].assists <= old(attack_stats)@[i].assists + 2,
        forall|i: int|
            0 <= i < final(defend_stats)@.len() ==> spec_play_shape(
                old(defend_stats)@[i],
                #[trigger] final(defend_stats)@[i],
            ) && final(defend_stats)@[i].goals == old(defend_stats)@[i].goals && final(defend_stats)@[i].assists == old(defend_stats)@[i].assists && final(defend_stats)@[i].shots == old(defend_stats)@[i].shots && final(defend_stats)@[i].shots_against <= old(defend_stats)@[i].shots_against + 1 && final(defend_stats)@[i].saves <= old(defend_stats)@[i].saves + 1 && final(defend_stats)@[i].goals_against <= old(defend_stats)@[i].goals_against + 1,
{
    let outcome = simulate_ot_play(
        attacking_team,
        defending_team,
        defending_goalie_line_idx,
        attack_rating,
        attack_style,
        defender_def_rating,
        defender_intimidation,
        attacker_leadership,
        attacker_netfront,
        rng,
    );
    let mut recorded: u32 = 0;
    let mut ended: bool = false;
    if let Option::Some(o) = outcome {
        ended = o.is_goal;
        if let Option::Some(si) = find_player_stat_idx(attack_stats, attacking_team, o.shooter_idx) {
            let ghost pre = attack_stats@;
            proof {
                lemma_sums_update(pre, si as int, crate::stats::spec_with_shot(pre[si as int]));
            }
            record_shot(attack_stats, si);
            if o.is_goal {
                recorded = 1;
                let ghost pre2 = attack_stats@;
                proof {
                    lemma_goals_elem_le_sum(pre2, si as int);
                    lemma_sums_update(
                        pre2,
                        si as int,
                        crate::stats::spec_with_goal(pre2[si as int]),
                    );
                }
                record_goal(attack_stats, si);
                if let Option::Some(pa) = o.primary_assist {
                    if let Option::Some(ai) = find_player_stat_idx(
                        attack_stats,
                        attacking_team,
                        pa,
                    ) {
                        let ghost pre3 = attack_stats@;
                        proof {
                            lemma_goals_elem_le_sum(pre3, ai as int);
                            lemma_sums_update(
                                pre3,
                                ai as int,
                                crate::stats::spec_with_assist(pre3[ai as int]),
                            );
                        }
                        record_assist(attack_stats, ai);
                    }
                }
                if let Option::Some(sa) = o.secondary_assist {
                    if let Option::Some(bi) = find_player_stat_idx(
                        attack_stats,
                        attacking_team,
                        sa,
                    ) {
                        let ghost pre4 = attack_stats@;
                        proof {
                            lemma_goals_elem_le_sum(pre4, bi as int);
                            lemma_sums_update(
                                pre4,
                                bi as int,
                                crate::stats::spec_with_assist(pre4[bi as int]),
                            );
                        }
                        record_assist(attack_stats, bi);
                    }
                }
            }
        }
        let goalie_stat_idx = find_goalie_stat_idx(
            defend_stats,
            defending_team,
            defending_goalie_line_idx,
        );
        if let Option::Some(g) = goalie_stat_idx {
            let ghost pre5 = defend_stats@;
            proof {
                lemma_sums_update(
                    pre5,
                    g as int,
                    crate::stats::spec_with_faced_shot(pre5[g as int], o.is_goal),
                );
            }
            record_faced_shot(defend_stats, g, o.is_goal);
        }
    }
    (recorded, ended)
}

/// One overtime segment: up to [`OT_PLAYS`] alternating single-play
/// attempts, home side first, with clutch leadership; the segment ends the
/// instant either side scores (sudden death), so at most one goal falls.
pub fn simulate_overtime(
    home_team: &Team,
    away_team: &Team,
    home_goalie_line_idx: usize,
    away_goalie_line_idx: usize,
    home_rating: u64,
    away_rating: u64,
    home_style: &PlayStyleModifiers,
    away_style: &PlayStyleModifiers,
    is_playoff: bool,
    home_stats: &mut Vec<PlayerGameStat>,
    away_stats: &mut Vec<PlayerGameStat>,
    rng: &mut GameRng,
) -> (r: (u32, u32))
    requires
        home_team.wf(),
        away_team.wf(),
        home_style.wf(),
        away_style.wf(),
        home_rating <= RATING_CAP,
        away_rating <= RATING_CAP,
        spec_sum_goals(old(home_stats)@) <= 100_000,
        spec_sum_assists(old(home_stats)@) <= 300_000,
        spec_sum_goals(old(away_stats)@) <= 100_000,
        spec_sum_assists(old(away_stats)@) <= 300_000,
        spec_counter_headroom(old(home_stats)@, 3_900_000_000),
        spec_counter_headroom(old(away_stats)@, 3_900_000_000),
    ensures
        r.0 + r.1 <= 1,
        final(home_stats)@.len() == old(home_stats)@.len(),
        final(away_stats)@.len() == old(away_stats)@.len(),
        spec_sum_goals(final(home_stats)@) == spec_sum_goals(old(home_stats)@) + r.0,
        spec_sum_assists(final(home_stats)@) <= spec_sum_assists(old(home_stats)@) + 2 * r.0,
        spec_sum_assists(final(home_stats)@) >= spec_sum_assists(old(home_stats)@),
        spec_sum_goals(final(away_stats)@) == spec_sum_goals(old(away_stats)@) + r.1,
        spec_sum_assists(final(away_stats)@) <= spec_sum_assists(old(away_stats)@) + 2 * r.1,
        spec_sum_assists(final(away_stats)@) >= spec_sum_assists(old(away_stats)@),
        forall|i: int|
            0 <= i < final(home_stats)@.len() ==> spec_play_shape(
                old(home_stats)@[i],
                #[trigger] final(home_stats)@[i],
            ) && final(home_stats)@[i].shots <= old(home_stats)@[i].shots + 10 && final(home_stats)@[i].goals <= old(home_stats)@[i].goals + 10 && final(home_stats)@[i].assists <= old(home_stats)@[i].assists + 20 && final(home_stats)@[i].saves <= old(home_stats)@[i].saves + 10 && final(home_stats)@[i].shots_against <= old(home_stats)@[i].shots_against + 10 && final(home_stats)@[i].goals_against <= old(home_stats)@[i].goals_against + 10,
        forall|i: int|
            0 <= i < final(away_stats)@.len() ==> spec_play_shape(
                old(away_stats)@[i],
                #[trigger] final(away_stats)@[i],
            ) && final(away_stats)@[i].shots <= old(away_stats)@[i].shots + 10 && final(away_stats)@[i].goals <= old(away_stats)@[i].goals + 10 && final(away_stats)@[i].assists <= old(away_stats)@[i].assists + 20 && final(away_stats)@[i].saves <= old(away_stats)@[i].saves + 10 && final(away_stats)@[i].shots_against <= old(away_stats)@[i].shots_against + 10 && final(away_stats)@[i].goals_against <= old(away_stats)@[i].goals_against + 10,
{
    let home_def_rating = calculate_team_defense_rating(home_team);
    let away_def_rating = calculate_team_defense_rating(away_team);
    let home_intimidation = calculate_team_intimidation(home_team, is_playoff);
    let away_intimidation = calculate_team_intimidation(away_team, is_playoff);
    let home_leadership = calculate_team_leadership(home_team, is_playoff, true);
    let away_leadership = calculate_team_leadership(away_team, is_playoff, true);
    let home_netfront = calculate_netfront_presence(home_team);
    let away_netfront = calculate_netfront_presence(away_team);
    let mut t: u32 = 0;
    while t < OT_PLAYS
        invariant
            t <= OT_PLAYS,
            home_team.wf(),
            away_team.wf(),
            home_style.wf(),
            away_style.wf(),
            home_rating <= RATING_CAP,
            away_rating <= RATING_CAP,
            home_def_rating <= 115_000_000,
            away_def_rating <= 115_000_000,
            home_intimidation <= 300_000,
            away_intimidation <= 300_000,
            900_000 <= home_leadership <= 1_200_000,
            900_000 <= away_leadership <= 1_200_000,
            1_000_000 <= home_netfront <= 1_350_000,
            1_000_000 <= away_netfront <= 1_350_000,
            home_stats@.len() == old(home_stats)@.len(),
            away_stats@.len() == old(away_stats)@.len(),
            spec_sum_goals(home_stats@) == spec_sum_goals(old(home_stats)@),
            spec_sum_assists(home_stats@) == spec_sum_assists(old(home_stats)@),
            spec_sum_goals(away_stats@) == spec_sum_goals(old(away_stats)@),
            spec_sum_assists(away_stats@) == spec_sum_assists(old(away_stats)@),
            spec_sum_goals(old(home_stats)@) <= 100_000,
            spec_sum_assists(old(home_stats)@) <= 300_000,
            spec_sum_goals(old(away_stats)@) <= 100_000,
            spec_sum_assists(old(away_stats)@) <= 300_000,
            spec_counter_headroom(old(home_stats)@, 3_900_000_000),
            spec_counter_headroom(old(away_stats)@, 3_900_000_000),
            forall|i: int|
                0 <= i < home_stats@.len() ==> spec_play_shape(
                    old(home_stats)@[i],
                    #[trigger] home_stats@[i],
                ) && home_stats@[i].shots <= old(home_stats)@[i].shots + t && home_stats@[i].goals <= old(home_stats)@[i].goals + t && home_stats@[i].assists <= old(home_stats)@[i].assists + 2 * t && home_stats@[i].saves <= old(home_stats)@[i].saves + t && home_stats@[i].shots_against <= old(home_stats)@[i].shots_against + t && home_stats@[i].goals_against <= old(home_stats)@[i].goals_against + t,
            forall|i: int|
                0 <= i < away_stats@.len() ==> spec_play_shape(
                    old(away_stats)@[i],
                    #[trigger] away_stats@[i],
                ) && away_stats@[i].shots <= old(away_stats)@[i].shots + t && away_stats@[i].goals <= old(away_stats)@[i].goals + t && away_stats@[i].assists <= old(away_stats)@[i].assists + 2 * t && away_stats@[i].saves <= old(away_stats)@[i].saves + t && away_stats@[i].shots_against <= old(away_stats)@[i].shots_against + t && away_stats@[i].goals_against <= old(away_stats)@[i].goals_against + t,
        decreases OT_PLAYS - t,
    {
        proof {
            assert forall|i: int|
                0 <= i < home_stats@.len() implies (#[trigger] home_stats@[i]).shots
                <= 4_000_000_000 && home_stats@[i].saves <= 4_000_000_000 && home_stats@[
                i
            ].shots_against <= 4_000_000_000 && home_stats@[i].goals_against <= 4_000_000_000
                && home_stats@[i].hits <= 4_000_000_000 && home_stats@[i].blocks
                <= 4_000_000_000 && home_stats@[i].takeaways <= 4_000_000_000 && home_stats@[
                i
            ].giveaways <= 4_000_000_000 by {}
            assert forall|i: int|
                0 <= i < away_stats@.len() implies (#[trigger] away_stats@[i]).shots
                <= 4_000_000_000 && away_stats@[i].saves <= 4_000_000_000 && away_stats@[
                i
            ].shots_against <= 4_000_000_000 && away_stats@[i].goals_against <= 4_000_000_000
                && away_stats@[i].hits <= 4_000_000_000 && away_stats@[i].blocks
                <= 4_000_000_000 && away_stats@[i].takeaways <= 4_000_000_000 && away_stats@[
                i
            ].giveaways <= 4_000_000_000 by {}
        }
        let (home_recorded, home_ended) = run_ot_attempt(
            home_team,
            away_team,
            away_goalie_line_idx,
            home_rating,
            home_style,
            away_def_rating,
            away_intimidation,
            home_leadership,
            home_netfront,
            home_stats,
            away_stats,
            rng,
        );
        if home_ended {
            return (home_recorded, 0);
        }
        let (away_recorded, away_ended) = run_ot_attempt(
            away_team,
            home_team,
            home_goalie_line_idx,
            away_rating,
            away_style,
            home_def_rating,
            home_intimidation,
            away_leadership,
            away_netfront,
            away_stats,
            home_stats,
            rng,
        );
        if away_ended {
            return (0, away_recorded);
        }
        t = t + 1;
    }
    (0, 0)
}

/// Most sudden-death shootout rounds before the final deciding draw; the
/// safety bound on a repetition that ends almost surely but has no hard
/// ceiling of its own.
pub const SUDDEN_DEATH_ROUND_CAP: u32 = 1_000_000;

/// The shootout: three alternating rounds of weighted-draw shooters, then
/// team-rating sudden-death rounds repeated until exactly one side scores
/// in a round.  The result is never tied; shootout goals raise only the
/// score, not player statistics.  A tie that survives every sudden-death
/// round (possible only for rosters whose scoring probability is
/// essentially zero) is settled by one last even draw.
pub fn simulate_shootout(
    home_team: &Team,
    away_team: &Team,
    home_rating: u64,
    away_rating: u64,
    rng: &mut GameRng,
) -> (r: (u32, u32))
    requires
        home_team.wf(),
        away_team.wf(),
        home_rating <= RATING_CAP,
        away_rating <= RATING_CAP,
    ensures
        r.0 != r.1,
        r.0 <= 4,
        r.1 <= 4,
        r.0 == 4 ==> r.1 == 3,
        r.1 == 4 ==> r.0 == 3,
{
    let mut home_goals: u32 = 0;
    let mut away_goals: u32 = 0;
    let mut round: u32 = 0;
    while round < 3
        invariant
            round <= 3,
            home_goals <= round,
            away_goals <= round,
            home_team.wf(),
            away_team.wf(),
        decreases 3 - round,
    {
        if let Option::Some(hs) = select_best_shooter(home_team, rng) {
            let shooter = &home_team.lines[hs].player;
            assert(home_team.lines@[hs as int].wf());
            let off_fp: u64 = shooter.off as u64 * 12_500;
            proof {
                lemma_fp_mul_le(300_000, off_fp as int, 300_000, 1_250_000);
                lemma_fp_mul_le(
                    crate::fixed::fp_mul_spec(300_000, off_fp as int),
                    crate::sampler::spec_goal_modifier(shooter.player_type),
                    375_000,
                    1_250_000,
                );
            }
            let prob = fp_mul(fp_mul(300_000, off_fp), goal_modifier(shooter.player_type));
            if rng.unit() < prob {
                home_goals = home_goals + 1;
            }
        }
        if let Option::Some(ashooter) = select_best_shooter(away_team, rng) {
            let shooter = &away_team.lines[ashooter].player;
            assert(away_team.lines@[ashooter as int].wf());
            let off_fp: u64 = shooter.off as u64 * 12_500;
            proof {
                lemma_fp_mul_le(300_000, off_fp as int, 300_000, 1_250_000);
                lemma_fp_mul_le(
                    crate::fixed::fp_mul_spec(300_000, off_fp as int),
                    crate::sampler::spec_goal_modifier(shooter.player_type),
                    375_000,
                    1_250_000,
                );
            }
            let prob = fp_mul(fp_mul(300_000, off_fp), goal_modifier(shooter.player_type));
            if rng.unit() < prob {
                away_goals = away_goals + 1;
            }
        }
        round = round + 1;
    }
    proof {
        lemma_fp_mul_le(300_000, (home_rating / 80) as int, 300_000, 1_500_000);
        lemma_fp_mul_le(300_000, (away_rating / 80) as int, 300_000, 1_500_000);
    }
    let home_prob = fp_mul(300_000, home_rating / 80);
    let away_prob = fp_mul(300_000, away_rating / 80);
    let mut sd: u32 = 0;
    while home_goals == away_goals && sd < SUDDEN_DEATH_ROUND_CAP
        invariant
            home_goals <= 4,
            away_goals <= 4,
            home_goals == away_goals ==> home_goals <= 3,
            home_goals == 4 ==> away_goals == 3,
            away_goals == 4 ==> home_goals == 3,
        decreases SUDDEN_DEATH_ROUND_CAP - sd,
    {
        let home_scores = rng.unit() < home_prob;
        let away_scores = rng.unit() < away_prob;
        if home_scores && !away_scores {
            home_goals = home_goals + 1;
        } else if away_scores && !home_scores {
            away_goals = away_goals + 1;
        }
        sd = sd + 1;
    }
    if home_goals == away_goals {
        if rng.unit() < 500_000 {
            home_goals = home_goals + 1;
        } else {
            away_goals = away_goals + 1;
        }
    }
    (home_goals, away_goals)
}

/// Regulation: three periods back to back.  Returns the two sides' goal
/// totals; each boxscore's goal sum grows by exactly its side's total, the
/// assist sums by at most twice that, identities and ice time are
/// untouched, and coverage and counter headroom survive.
#[verifier::rlimit(100)]
fn run_regulation(
    home_team: &Team,
    away_team: &Team,
    home_goalie_line_idx: usize,
    away_goalie_line_idx: usize,
    home_rating: u64,
    away_rating: u64,
    home_style: &PlayStyleModifiers,
    away_style: &PlayStyleModifiers,
    is_playoff: bool,
    home_stats: &mut Vec<PlayerGameStat>,
    away_stats: &mut Vec<PlayerGameStat>,
    rng: &mut GameRng,
) -> (r: (u32, u32))
    requires
        home_team.wf(),
        away_team.wf(),
        home_style.wf(),
        away_style.wf(),
        home_rating <= RATING_CAP,
        away_rating <= RATING_CAP,
        spec_sum_goals(old(home_stats)@) <= 10_000,
        spec_sum_assists(old(home_stats)@) <= 30_000,
        spec_sum_goals(old(away_stats)@) <= 10_000,
        spec_sum_assists(old(away_stats)@) <= 30_000,
        crate::stats::spec_stats_cover(old(home_stats)@, home_team.lines@),
        crate::stats::spec_stats_cover(old(away_stats)@, away_team.lines@),
        spec_counter_headroom(old(home_stats)@, 3_800_000_000),
        spec_counter_headroom(old(away_stats)@, 3_800_000_000),
    ensures
        r.0 <= 186,
        r.1 <= 186,
        final(home_stats)@.len() == old(home_stats)@.len(),
        final(away_stats)@.len() == old(away_stats)@.len(),
        spec_sum_goals(final(home_stats)@) == spec_sum_goals(old(home_stats)@) + r.0,
        spec_sum_assists(final(home_stats)@) <= spec_sum_assists(old(home_stats)@) + 2 * r.0,
        spec_sum_assists(final(home_stats)@) >= spec_sum_assists(old(home_stats)@),
        spec_sum_goals(final(away_stats)@) == spec_sum_goals(old(away_stats)@) + r.1,
        spec_sum_assists(final(away_stats)@) <= spec_sum_assists(old(away_stats)@) + 2 * r.1,
        spec_sum_assists(final(away_stats)@) >= spec_sum_assists(old(away_stats)@),
        forall|i: int|
            0 <= i < final(home_stats)@.len() ==> (#[trigger] final(home_stats)@[i]).player_id
                == old(home_stats)@[i].player_id && final(home_stats)@[i].time_on_ice == old(home_stats)@[i].time_on_ice,
        forall|i: int|
            0 <= i < final(away_stats)@.len() ==> (#[trigger] final(away_stats)@[i]).player_id
                == old(away_stats)@[i].player_id && final(away_stats)@[i].time_on_ice == old(away_stats)@[i].time_on_ice,
        crate::stats::spec_stats_cover(final(home_stats)@, home_team.lines@),
        crate::stats::spec_stats_cover(final(away_stats)@, away_team.lines@),
        spec_counter_headroom(final(home_stats)@, 3_839_300_000),
        spec_counter_headroom(final(away_stats)@, 3_839_300_000),
        forall|i: int|
            0 <= i < final(home_stats)@.len() ==> (#[trigger] final(home_stats)@[i]).shots <= old(home_stats)@[i].shots + 39_300 && final(home_stats)@[i].saves <= old(home_stats)@[i].saves + 39_300 && final(home_stats)@[i].shots_against <= old(home_stats)@[i].shots_against + 39_300 && final(home_stats)@[i].goals_against <= old(home_stats)@[i].goals_against + 39_300 && final(home_stats)@[i].hits <= old(home_stats)@[i].hits + 39_300 && final(home_stats)@[i].blocks <= old(home_stats)@[i].blocks + 39_300 && final(home_stats)@[i].takeaways <= old(home_stats)@[i].takeaways + 39_300 && final(home_stats)@[i].giveaways <= old(home_stats)@[i].giveaways + 39_300,
        forall|i: int|
            0 <= i < final(away_stats)@.len() ==> (#[trigger] final(away_stats)@[i]).shots <= old(away_stats)@[i].shots + 39_300 && final(away_stats)@[i].saves <= old(away_stats)@[i].saves + 39_300 && final(away_stats)@[i].shots_against <= old(away_stats)@[i].shots_against + 39_300 && final(away_stats)@[i].goals_against <= old(away_stats)@[i].goals_against + 39_300 && final(away_stats)@[i].hits <= old(away_stats)@[i].hits + 39_300 && final(away_stats)@[i].blocks <= old(away_stats)@[i].blocks + 39_300 && final(away_stats)@[i].takeaways <= old(away_stats)@[i].takeaways + 39_300 && final(away_stats)@[i].giveaways <= old(away_stats)@[i].giveaways + 39_300,
{
    let mut home_score: u32 = 0;
    let mut away_score: u32 = 0;
    let ghost ph1 = home_stats@;
    let ghost pa1 = away_stats@;
    let (h1, a1) = simulate_period(
        home_team,
        away_team,
        home_goalie_line_idx,
        away_goalie_line_idx,
        home_rating,
        away_rating,
        home_style,
        away_style,
        is_playoff,
        home_stats,
        away_stats,
        rng,
    );
    home_score = home_score + h1;
    away_score = away_score + a1;
    proof {
        crate::stats::lemma_cover_pointwise(ph1, home_stats@, home_team.lines@);
        crate::stats::lemma_cover_pointwise(pa1, away_stats@, away_team.lines@);
        lemma_headroom_step(ph1, home_stats@, 3_800_000_000, 13_100);
        lemma_headroom_step(pa1, away_stats@, 3_800_000_000, 13_100);
    }
    let ghost ph2 = home_stats@;
    let ghost pa2 = away_stats@;
    let (h2, a2) = simulate_period(
        home_team,
        away_team,
        home_goalie_line_idx,
        away_goalie_line_idx,
        home_rating,
        away_rating,
        home_style,
        away_style,
        is_playoff,
        home_stats,
        away_stats,
        rng,
    );
    home_score = home_score + h2;
    away_score = away_score + a2;
    proof {
        crate::stats::lemma_cover_pointwise(ph2, home_stats@, home_team.lines@);
        crate::stats::lemma_cover_pointwise(pa2, away_stats@, away_team.lines@);
        lemma_headroom_step(ph2, home_stats@, 3_813_100_000, 13_100);
        lemma_headroom_step(pa2, away_stats@, 3_813_100_000, 13_100);
    }
    let ghost ph3 = home_stats@;
    let ghost pa3 = away_stats@;
    let (h3, a3) = simulate_period(
        home_team,
        away_team,
        home_goalie_line_idx,
        away_goalie_line_idx,
        home_rating,
        away_rating,
        home_style,
        away_style,
        is_playoff,
        home_stats,
        away_stats,
        rng,
    );
    home_score = home_score + h3;
    away_score = away_score + a3;
    proof {
        crate::stats::lemma_cover_pointwise(ph3, home_stats@, home_team.lines@);
        crate::stats::lemma_cover_pointwise(pa3, away_stats@, away_team.lines@);
        lemma_headroom_step(ph3, home_stats@, 3_826_200_000, 13_100);
        lemma_headroom_step(pa3, away_stats@, 3_826_200_000, 13_100);
    }
    (home_score, away_score)
}

/// Most overtime segments a playoff game may repeat; the safety bound on a
/// repetition that ends almost surely but has no hard ceiling of its own.
/// A playoff game still tied after this many segments (possible only for
/// rosters whose scoring probability is essentially zero) is settled by a
/// shootout.
pub const MAX_OT_SEGMENTS: u32 = 100_000;

/// Resolves a regulation tie: outside the playoffs one overtime segment
/// and then, if still tied, the shootout; in the playoffs overtime
/// segments repeat until a goal falls or the safety bound runs out, in
/// which case the shootout settles it.  Returns the final scores and
/// whether a shootout was used; the result is never tied, and a shootout
/// is only ever entered from a tied boxscore.
#[verifier::rlimit(100)]
#[verifier::loop_isolation(false)]
fn resolve_tie(
    home_team: &Team,
    away_team: &Team,
    home_goalie_line_idx: usize,
    away_goalie_line_idx: usize,
    home_rating: u64,
    away_rating: u64,
    home_style: &PlayStyleModifiers,
    away_style: &PlayStyleModifiers,
    is_playoff: bool,
    tied_home_score: u32,
    tied_away_score: u32,
    home_stats: &mut Vec<PlayerGameStat>,
    away_stats: &mut Vec<PlayerGameStat>,
    rng: &mut GameRng,
) -> (r: (u32, u32, bool))
    requires
        home_team.wf(),
        away_team.wf(),
        home_style.wf(),
        away_style.wf(),
        home_rating <= RATING_CAP,
        away_rating <= RATING_CAP,
        tied_home_score == tied_away_score,
        tied_home_score <= 186,
        spec_sum_goals(old(home_stats)@) == tied_home_score,
        spec_sum_assists(old(home_stats)@) <= 2 * tied_home_score,
        spec_sum_goals(old(away_stats)@) == tied_away_score,
        spec_sum_assists(old(away_stats)@) <= 2 * tied_away_score,
        crate::stats::spec_stats_cover(old(home_stats)@, home_team.lines@),
        crate::stats::spec_stats_cover(old(away_stats)@, away_team.lines@),
        spec_counter_headroom(old(home_stats)@, 50_000),
        spec_counter_headroom(old(away_stats)@, 50_000),
    ensures
        r.0 != r.1,
        r.0 <= 200,
        r.1 <= 200,
        final(home_stats)@.len() == old(home_stats)@.len(),
        final(away_stats)@.len() == old(away_stats)@.len(),
        !r.2 ==> spec_sum_goals(final(home_stats)@) == r.0,
        !r.2 ==> spec_sum_goals(final(away_stats)@) == r.1,
        spec_sum_goals(final(home_stats)@) <= r.0,
        spec_sum_goals(final(away_stats)@) <= r.1,
        r.2 ==> spec_sum_goals(final(home_stats)@) == spec_sum_goals(final(away_stats)@),
        spec_sum_assists(final(home_stats)@) <= 2 * spec_sum_goals(final(home_stats)@),
        spec_sum_assists(final(away_stats)@) <= 2 * spec_sum_goals(final(away_stats)@),
        forall|i: int|
            0 <= i < final(home_stats)@.len() ==> (#[trigger] final(home_stats)@[i]).player_id
                == old(home_stats)@[i].player_id && final(home_stats)@[i].time_on_ice == old(home_stats)@[i].time_on_ice,
        forall|i: int|
            0 <= i < final(away_stats)@.len() ==> (#[trigger] final(away_stats)@[i]).player_id
                == old(away_stats)@[i].player_id && final(away_stats)@[i].time_on_ice == old(away_stats)@[i].time_on_ice,
        crate::stats::spec_stats_cover(final(home_stats)@, home_team.lines@),
        crate::stats::spec_stats_cover(final(away_stats)@, away_team.lines@),
{
    let mut home_score: u32 = tied_home_score;
    let mut away_score: u32 = tied_away_score;
    let mut shootout_used: bool = false;
    if !is_playoff {
        let ghost pho = home_stats@;
        let ghost pao = away_stats@;
        let (h, a) = simulate_overtime(
            home_team,
            away_team,
            home_goalie_line_idx,
            away_goalie_line_idx,
            home_rating,
            away_rating,
            &home_style,
            &away_style,
            false,
            home_stats,
            away_stats,
            rng,
        );
        home_score = home_score + h;
        away_score = away_score + a;
        proof {
            crate::stats::lemma_cover_pointwise(pho, home_stats@, home_team.lines@);
            crate::stats::lemma_cover_pointwise(pao, away_stats@, away_team.lines@);
        }
        if home_score == away_score {
            shootout_used = true;
            let (hs, asg) = simulate_shootout(
                home_team,
                away_team,
                home_rating,
                away_rating,
                rng,
            );
            home_score = home_score + hs;
            away_score = away_score + asg;
        }
    } else {
        let mut seg: u32 = 0;
        let mut decided: bool = false;
        while !decided && seg < MAX_OT_SEGMENTS
            invariant
                seg <= MAX_OT_SEGMENTS,
                !decided ==> home_score == away_score && home_score <= 190,
                decided ==> home_score != away_score,
                home_score <= 200,
                away_score <= 200,
                home_stats@.len() == old(home_stats)@.len(),
                away_stats@.len() == old(away_stats)@.len(),
                spec_sum_goals(home_stats@) == home_score,
                spec_sum_assists(home_stats@) <= 2 * home_score,
                spec_sum_goals(away_stats@) == away_score,
                spec_sum_assists(away_stats@) <= 2 * away_score,
                crate::stats::spec_stats_cover(home_stats@, home_team.lines@),
                crate::stats::spec_stats_cover(away_stats@, away_team.lines@),
                spec_counter_headroom(home_stats@, 50_000 + 20 * seg),
                spec_counter_headroom(away_stats@, 50_000 + 20 * seg),
                forall|i: int|
                    0 <= i < home_stats@.len() ==> (#[trigger] home_stats@[i]).player_id == old(home_stats)@[i].player_id && home_stats@[i].time_on_ice == old(home_stats)@[i].time_on_ice,
                forall|i: int|
                    0 <= i < away_stats@.len() ==> (#[trigger] away_stats@[i]).player_id == old(away_stats)@[i].player_id && away_stats@[i].time_on_ice == old(away_stats)@[i].time_on_ice,
            decreases MAX_OT_SEGMENTS - seg,
        {
            let ghost phs = home_stats@;
            let ghost pas = away_stats@;
            let (h, a) = simulate_overtime(
                home_team,
                away_team,
                home_goalie_line_idx,
                away_goalie_line_idx,
                home_rating,
                away_rating,
                &home_style,
                &away_style,
                true,
                home_stats,
                away_stats,
                rng,
            );
            proof {
                crate::stats::lemma_cover_pointwise(
                    phs,
                    home_stats@,
                    home_team.lines@,
                );
                crate::stats::lemma_cover_pointwise(
                    pas,
                    away_stats@,
                    away_team.lines@,
                );
                lemma_headroom_step(phs, home_stats@, 50_000 + 20 * seg, 20);
                lemma_headroom_step(pas, away_stats@, 50_000 + 20 * seg, 20);
            }
            home_score = home_score + h;
            away_score = away_score + a;
            if home_score != away_score {
                decided = true;
            }
            seg = seg + 1;
        }
        if !decided {
            shootout_used = true;
            let (hs, asg) = simulate_shootout(
                home_team,
                away_team,
                home_rating,
                away_rating,
                rng,
            );
            home_score = home_score + hs;
            away_score = away_score + asg;
        }
    }
    (home_score, away_score, shootout_used)
}

/// Simulates one complete game: goalie selection, team ratings, three
/// periods, and — on a regulation tie — overtime and (when still tied, or
/// when the playoff safety bound runs out) a shootout.  Plus-minus is
/// finalized last.
///
/// The result is never tied.  Each team's final score equals the sum of
/// the goals in its boxscore unless a shootout decided the game, in which
/// case the score exceeds the boxscore by the shootout goals; a team's
/// assists never exceed twice its boxscore goals.
#[verifier::loop_isolation(false)]
#[verifier::rlimit(100)]
#[verifier::spinoff_prover]
pub fn simulate_game(input: &GameInput, rng: &mut GameRng) -> (r: GameResult)
    requires
        input.wf(),
    ensures
        r.home_score != r.away_score,
        r.went_to_shootout ==> r.went_to_overtime,
        spec_sum_goals(r.home_stats@) <= r.home_score,
        spec_sum_goals(r.away_stats@) <= r.away_score,
        !r.went_to_shootout ==> spec_sum_goals(r.home_stats@) == r.home_score,
        !r.went_to_shootout ==> spec_sum_goals(r.away_stats@) == r.away_score,
        r.went_to_shootout ==> spec_sum_goals(r.home_stats@) == spec_sum_goals(r.away_stats@),
        spec_sum_assists(r.home_stats@) <= 2 * spec_sum_goals(r.home_stats@),
        spec_sum_assists(r.away_stats@) <= 2 * spec_sum_goals(r.away_stats@),
        r.home_stats@.len() <= input.home_team.lines@.len(),
        r.away_stats@.len() <= input.away_team.lines@.len(),
        crate::stats::spec_stats_cover(r.home_stats@, input.home_team.lines@),
        crate::stats::spec_stats_cover(r.away_stats@, input.away_team.lines@),
        r.home_stats@.len() == crate::stats::spec_count_skaters(input.home_team.lines@) + (
        if exists|i: int|
            0 <= i < input.home_team.lines@.len() && (
            #[trigger] input.home_team.lines@[i]).kind is Goalie {
            1int
        } else {
            0int
        }),
        r.away_stats@.len() == crate::stats::spec_count_skaters(input.away_team.lines@) + (
        if exists|i: int|
            0 <= i < input.away_team.lines@.len() && (
            #[trigger] input.away_team.lines@[i]).kind is Goalie {
            1int
        } else {
            0int
        }),
{
    let home_goalie_idx = select_goalie(&input.home_team, rng);
    let away_goalie_idx = select_goalie(&input.away_team, rng);
    let home_style = style_modifiers(input.home_team.play_style);
    let away_style = style_modifiers(input.away_team.play_style);
    let home_rating = calculate_team_rating(
        &input.home_team,
        home_goalie_idx,
        true,
        input.is_playoff,
    );
    let away_rating = calculate_team_rating(
        &input.away_team,
        away_goalie_idx,
        false,
        input.is_playoff,
    );
    let mut home_stats = init_team_stats(&input.home_team, home_goalie_idx);
    let mut away_stats = init_team_stats(&input.away_team, away_goalie_idx);
    proof {
        crate::stats::lemma_init_stats_len(input.home_team.lines@, home_goalie_idx as int);
        crate::stats::lemma_init_stats_len(input.away_team.lines@, away_goalie_idx as int);
        assert(spec_counter_headroom(home_stats@, 0));
        assert(spec_counter_headroom(away_stats@, 0));
    }
    let ghost pre_reg_home = home_stats@;
    let ghost pre_reg_away = away_stats@;
    let (reg_home, reg_away) = run_regulation(
        &input.home_team,
        &input.away_team,
        home_goalie_idx,
        away_goalie_idx,
        home_rating,
        away_rating,
        &home_style,
        &away_style,
        input.is_playoff,
        &mut home_stats,
        &mut away_stats,
        rng,
    );
    proof {
        lemma_headroom_step(pre_reg_home, home_stats@, 0, 39_300);
        lemma_headroom_step(pre_reg_away, away_stats@, 0, 39_300);
    }
    let mut home_score: u32 = reg_home;
    let mut away_score: u32 = reg_away;
    let mut went_to_overtime: bool = false;
    let mut went_to_shootout: bool = false;
    if home_score == away_score {
        went_to_overtime = true;
        let (resolved_home, resolved_away, shootout_used) = resolve_tie(
            &input.home_team,
            &input.away_team,
            home_goalie_idx,
            away_goalie_idx,
            home_rating,
            away_rating,
            &home_style,
            &away_style,
            input.is_playoff,
            home_score,
            away_score,
            &mut home_stats,
            &mut away_stats,
            rng,
        );
        home_score = resolved_home;
        away_score = resolved_away;
        went_to_shootout = shootout_used;
    }
    let ghost home_pre_pm = home_stats@;
    let ghost away_pre_pm = away_stats@;
    assert(went_to_shootout ==> spec_sum_goals(home_stats@) == spec_sum_goals(away_stats@));
    finalize_plus_minus(&mut home_stats, home_score, away_score);
    finalize_plus_minus(&mut away_stats, away_score, home_score);
    proof {
        crate::stats::lemma_skater_toi_nonneg(home_pre_pm);
        crate::stats::lemma_skater_toi_nonneg(away_pre_pm);
        assert forall|i: int| 0 <= i < home_stats@.len() implies (#[trigger] home_stats@[i]).goals
            == home_pre_pm[i].goals && home_stats@[i].assists == home_pre_pm[i].assists
            && home_stats@[i].player_id == home_pre_pm[i].player_id by {
            if crate::stats::spec_skater_toi_total(home_pre_pm) == 0 {
                assert(home_stats@ == home_pre_pm);
            } else {
                assert(home_stats@[i] == (if home_pre_pm[i].shots_against == 0 {
                    crate::stats::spec_with_pm(
                        home_pre_pm[i],
                        crate::stats::spec_plus_minus(
                            home_score - away_score,
                            home_pre_pm[i].time_on_ice as int,
                            crate::stats::spec_skater_toi_total(home_pre_pm),
                        ),
                    )
                } else {
                    home_pre_pm[i]
                }));
            }
        }
        assert forall|i: int| 0 <= i < away_stats@.len() implies (#[trigger] away_stats@[i]).goals
            == away_pre_pm[i].goals && away_stats@[i].assists == away_pre_pm[i].assists
            && away_stats@[i].player_id == away_pre_pm[i].player_id by {
            if crate::stats::spec_skater_toi_total(away_pre_pm) == 0 {
                assert(away_stats@ == away_pre_pm);
            } else {
                assert(away_stats@[i] == (if away_pre_pm[i].shots_against == 0 {
                    crate::stats::spec_with_pm(
                        away_pre_pm[i],
                        crate::stats::spec_plus_minus(
                            away_score - home_score,
                            away_pre_pm[i].time_on_ice as int,
                            crate::stats::spec_skater_toi_total(away_pre_pm),
                        ),
                    )
                } else {
                    away_pre_pm[i]
                }));
            }
        }
        lemma_sums_pointwise(home_pre_pm, home_stats@);
        lemma_sums_pointwise(away_pre_pm, away_stats@);
        crate::stats::lemma_cover_pointwise(home_pre_pm, home_stats@, input.home_team.lines@);
        crate::stats::lemma_cover_pointwise(away_pre_pm, away_stats@, input.away_team.lines@);
    }
    GameResult {
        home_score,
        away_score,
        home_stats,
        away_stats,
        went_to_overtime,
        went_to_shootout,
    }
}

} // verus!
