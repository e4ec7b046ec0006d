use hockey_sim::phase::{simulate_game, simulate_overtime, simulate_period, simulate_shootout};
use hockey_sim::rng::GameRng;
use hockey_sim::sampler::{classify_shot, goal_probability, high_danger_chance, select_shooter_weighted};
use hockey_sim::stats::{finalize_plus_minus, init_team_stats};
use hockey_sim::types::{
    style_modifiers, GameInput, GameResult, LineAssignment, LineKind, PlayStyle, Player,
    PlayerGameStat, PlayerType, ShotQuality, Team,
};

fn player(id: i32, off: i32, def: i32, phys: i32, lead: i32, cons: i32, t: PlayerType) -> Player {
    Player::new(
        id,
        format!("Player {}", id),
        "C".to_string(),
        t,
        off,
        def,
        phys,
        lead,
        cons,
    )
}

fn slot(kind: LineKind, depth: i32, p: Player) -> LineAssignment {
    LineAssignment::new(kind, depth, "C".to_string(), p)
}

fn uniform_team(id: i32, attr: i32, t: PlayerType, style: PlayStyle) -> Team {
    let mut lines = Vec::new();
    let mut pid = id * 100;
    for line in 1..=4 {
        for _ in 0..3 {
            pid += 1;
            lines.push(slot(LineKind::Forward, line, player(pid, attr, attr, attr, attr, attr, t)));
        }
    }
    for pair in 1..=3 {
        for _ in 0..2 {
            pid += 1;
            lines.push(slot(LineKind::Defense, pair, player(pid, attr, attr, attr, attr, attr, t)));
        }
    }
    for g in 1..=2 {
        pid += 1;
        lines.push(slot(LineKind::Goalie, g, player(pid, attr, attr, attr, attr, attr, t)));
    }
    Team::new(id, format!("Team {}", id), "City".to_string(), lines, None, style)
}

fn standard_input(is_playoff: bool) -> GameInput {
    GameInput::new(
        uniform_team(1, 80, PlayerType::Unknown, PlayStyle::Possession),
        uniform_team(2, 80, PlayerType::Unknown, PlayStyle::Possession),
        is_playoff,
    )
}

fn goal_sum(stats: &[PlayerGameStat]) -> u32 {
    stats.iter().map(|s| s.goals).sum()
}

fn assist_sum(stats: &[PlayerGameStat]) -> u32 {
    stats.iter().map(|s| s.assists).sum()
}

fn shot_sum(stats: &[PlayerGameStat]) -> u32 {
    stats.iter().map(|s| s.shots).sum()
}

#[test]
fn identical_seed_reproduces_identical_result() {
    let input = standard_input(false);
    let r1: GameResult = simulate_game(&input, &mut GameRng::from_seed(42));
    let r2: GameResult = simulate_game(&input, &mut GameRng::from_seed(42));
    assert_eq!(r1, r2);
    let r3 = simulate_game(&input, &mut GameRng::from_seed(43));
    let r4 = simulate_game(&input, &mut GameRng::from_seed(43));
    assert_eq!(r3, r4);
}

#[test]
fn final_score_is_never_tied() {
    for seed in 0..60u64 {
        let r = simulate_game(&standard_input(false), &mut GameRng::from_seed(seed));
        assert_ne!(r.home_score, r.away_score, "seed {}", seed);
        let p = simulate_game(&standard_input(true), &mut GameRng::from_seed(seed));
        assert_ne!(p.home_score, p.away_score, "playoff seed {}", seed);
    }
}

#[test]
fn playoff_ties_resolve_in_overtime_without_shootout() {
    let mut overtime_games = 0;
    for seed in 0..80u64 {
        let r = simulate_game(&standard_input(true), &mut GameRng::from_seed(seed));
        assert!(!r.went_to_shootout, "seed {}", seed);
        if r.went_to_overtime {
            overtime_games += 1;
            // A playoff overtime is decided by exactly one goal.
            assert_eq!(
                (r.home_score as i64 - r.away_score as i64).abs(),
                1,
                "seed {}",
                seed
            );
        }
    }
    assert!(overtime_games > 0);
}

#[test]
fn regular_season_ties_go_to_overtime_then_shootout() {
    let mut overtime_games = 0;
    let mut shootout_games = 0;
    for seed in 0..300u64 {
        let r = simulate_game(&standard_input(false), &mut GameRng::from_seed(seed));
        assert_ne!(r.home_score, r.away_score, "seed {}", seed);
        if r.went_to_shootout {
            assert!(r.went_to_overtime, "seed {}", seed);
            shootout_games += 1;
        }
        if r.went_to_overtime {
            overtime_games += 1;
        }
    }
    assert!(overtime_games > 0);
    assert!(shootout_games > 0);
}

#[test]
fn boxscore_goals_add_up_to_the_score() {
    for seed in 0..60u64 {
        for &playoff in &[false, true] {
            let r = simulate_game(&standard_input(playoff), &mut GameRng::from_seed(seed));
            let hg = goal_sum(&r.home_stats);
            let ag = goal_sum(&r.away_stats);
            if r.went_to_shootout {
                assert!(hg <= r.home_score, "seed {}", seed);
                assert!(ag <= r.away_score, "seed {}", seed);
            } else {
                assert_eq!(hg, r.home_score, "seed {}", seed);
                assert_eq!(ag, r.away_score, "seed {}", seed);
            }
            assert!(assist_sum(&r.home_stats) <= 2 * hg, "seed {}", seed);
            assert!(assist_sum(&r.away_stats) <= 2 * ag, "seed {}", seed);
        }
    }
}

#[test]
fn backup_goalie_gets_no_record() {
    let input = standard_input(false);
    let r = simulate_game(&input, &mut GameRng::from_seed(7));
    // Twenty slots, one of the two goalies inactive.
    assert_eq!(r.home_stats.len(), 19);
    assert_eq!(r.away_stats.len(), 19);
}

#[test]
fn shootout_never_returns_an_equal_score() {
    let home = uniform_team(1, 80, PlayerType::Unknown, PlayStyle::Neutral);
    let away = uniform_team(2, 80, PlayerType::Unknown, PlayStyle::Neutral);
    for seed in 0..80u64 {
        let mut rng = GameRng::from_seed(seed);
        let (h, a) = simulate_shootout(&home, &away, 100_000_000, 100_000_000, &mut rng);
        assert_ne!(h, a, "seed {}", seed);
        assert!(h <= 4 && a <= 4);
    }
}

#[test]
fn overtime_is_sudden_death() {
    let home = uniform_team(1, 90, PlayerType::Sniper, PlayStyle::Rush);
    let away = uniform_team(2, 90, PlayerType::Sniper, PlayStyle::Rush);
    for seed in 0..60u64 {
        let mut rng = GameRng::from_seed(seed);
        let mut home_stats = init_team_stats(&home, 18);
        let mut away_stats = init_team_stats(&away, 18);
        let (h, a) = simulate_overtime(
            &home,
            &away,
            18,
            18,
            100_000_000,
            100_000_000,
            &style_modifiers(PlayStyle::Rush),
            &style_modifiers(PlayStyle::Rush),
            false,
            &mut home_stats,
            &mut away_stats,
            &mut rng,
        );
        assert!(h + a <= 1, "seed {}", seed);
        assert_eq!(goal_sum(&home_stats), h);
        assert_eq!(goal_sum(&away_stats), a);
    }
}

#[test]
fn period_goals_match_boxscore_delta() {
    let home = uniform_team(1, 85, PlayerType::Unknown, PlayStyle::ShootCrash);
    let away = uniform_team(2, 85, PlayerType::Unknown, PlayStyle::Trap);
    let style_h = style_modifiers(PlayStyle::ShootCrash);
    let style_a = style_modifiers(PlayStyle::Trap);
    for seed in 0..20u64 {
        let mut rng = GameRng::from_seed(seed);
        let mut home_stats = init_team_stats(&home, 18);
        let mut away_stats = init_team_stats(&away, 18);
        let (h, a) = simulate_period(
            &home,
            &away,
            18,
            18,
            100_000_000,
            100_000_000,
            &style_h,
            &style_a,
            false,
            &mut home_stats,
            &mut away_stats,
            &mut rng,
        );
        assert_eq!(goal_sum(&home_stats), h, "seed {}", seed);
        assert_eq!(goal_sum(&away_stats), a, "seed {}", seed);
        assert!(h <= 62 && a <= 42);
        // The defending goalie mirrors every shot it faced.
        let home_shots = shot_sum(&home_stats);
        let away_goalie = &away_stats[18];
        assert_eq!(away_goalie.shots_against, home_shots, "seed {}", seed);
        assert_eq!(away_goalie.saves + away_goalie.goals_against, home_shots);
    }
}

#[test]
fn goal_probability_is_capped_at_one_half() {
    // Neutral modifiers pass the base value through unchanged.
    let p = goal_probability(
        160_000, 1_000_000, 1_000_000, 1_000_000, 1_000_000, 1_000_000, 1_000_000, 1_000_000,
        1_000_000,
    );
    assert_eq!(p, 160_000);
    // Extreme modifiers saturate at 0.50.
    let q = goal_probability(
        240_000, 1_500_000, 1_250_000, 1_700_000, 1_500_000, 1_050_000, 1_700_000, 1_000_000,
        1_200_000,
    );
    assert_eq!(q, 500_000);
    for xg in [24_000u64, 65_000, 160_000, 240_000] {
        let r = goal_probability(
            xg, 1_400_000, 1_250_000, 1_700_000, 1_400_000, 1_050_000, 1_600_000, 900_000,
            1_150_000,
        );
        assert!(r <= 500_000);
    }
}

#[test]
fn shooter_draw_only_picks_skaters_with_weight() {
    // Only one forward can shoot: everyone else has zero offense, so the
    // weighted draw must always return that slot.
    let mut lines = Vec::new();
    lines.push(slot(LineKind::Goalie, 1, player(1, 90, 0, 0, 0, 0, PlayerType::Unknown)));
    lines.push(slot(LineKind::Forward, 1, player(2, 0, 0, 0, 0, 0, PlayerType::Unknown)));
    lines.push(slot(LineKind::Forward, 1, player(3, 95, 0, 0, 0, 0, PlayerType::Sniper)));
    let team = Team::new(1, "T".to_string(), "C".to_string(), lines, None, PlayStyle::Neutral);
    let mut rng = GameRng::from_seed(5);
    for _ in 0..50 {
        let picked = select_shooter_weighted(&team, &mut rng).unwrap();
        assert_eq!(picked, 2);
    }
}

#[test]
fn random_draws_stay_below_their_bound() {
    let mut rng = GameRng::from_seed(11);
    for _ in 0..200 {
        assert!(rng.below(3) < 3);
        assert!(rng.unit() < 1_000_000);
    }
}

fn bare_stat(id: i32, toi: u32, shots_against: u32) -> PlayerGameStat {
    PlayerGameStat {
        player_id: id,
        player_name: format!("S{}", id),
        goals: 0,
        assists: 0,
        shots: 0,
        hits: 0,
        blocks: 0,
        plus_minus: 0,
        time_on_ice: toi,
        takeaways: 0,
        giveaways: 0,
        saves: 0,
        goals_against: 0,
        shots_against,
    }
}

#[test]
fn plus_minus_distributes_by_ice_time() {
    let mut stats = vec![bare_stat(1, 1260, 0), bare_stat(2, 540, 0), bare_stat(3, 3600, 12)];
    finalize_plus_minus(&mut stats, 4, 1);
    // Skater ice time totals 1800; differential 3.
    // round(3 * 1260/1800 * 3) = round(6.3) = 6
    assert_eq!(stats[0].plus_minus, 6);
    // round(3 * 540/1800 * 3) = round(2.7) = 3
    assert_eq!(stats[1].plus_minus, 3);
    // The goalie (nonzero shots against) is excluded.
    assert_eq!(stats[2].plus_minus, 0);
}

#[test]
fn plus_minus_is_negative_for_a_losing_team() {
    let mut stats = vec![bare_stat(1, 1800, 0), bare_stat(2, 1800, 0)];
    finalize_plus_minus(&mut stats, 1, 4);
    // Each skater holds half the ice time: round(-3 * 0.5 * 3) = -5 (half
    // rounds away from zero).
    assert_eq!(stats[0].plus_minus, -5);
    assert_eq!(stats[1].plus_minus, -5);
}

#[test]
fn plus_minus_skips_rosters_without_skater_ice_time() {
    let mut stats = vec![bare_stat(1, 0, 0), bare_stat(2, 3600, 9)];
    let before = stats.clone();
    finalize_plus_minus(&mut stats, 5, 0);
    assert_eq!(stats, before);
}

#[test]
fn shot_classification_bands() {
    assert_eq!(classify_shot(400_000, 0), ShotQuality::HighDanger);
    assert_eq!(classify_shot(400_000, 399_999), ShotQuality::HighDanger);
    assert_eq!(classify_shot(400_000, 400_000), ShotQuality::MediumDanger);
    assert_eq!(classify_shot(400_000, 749_999), ShotQuality::MediumDanger);
    assert_eq!(classify_shot(400_000, 750_000), ShotQuality::LowDanger);
    assert_eq!(classify_shot(400_000, 999_999), ShotQuality::LowDanger);
}

#[test]
fn high_danger_chance_floor_and_suppression() {
    let neutral = style_modifiers(PlayStyle::Neutral);
    // A hopeless shooter on the fourth line bottoms out at the 0.05 floor.
    assert_eq!(high_danger_chance(4, 0, PlayerType::Unknown, &neutral, 80_000_000), 50_000);
    // First line, baseline offense, a strong defense: 0.40 * (1 - 0.40).
    assert_eq!(
        high_danger_chance(1, 80, PlayerType::Unknown, &neutral, 115_000_000),
        240_000
    );
    // A weak defense boosts the chance: 0.40 * (1 + 0.25).
    assert_eq!(
        high_danger_chance(1, 80, PlayerType::Unknown, &neutral, 50_000_000),
        500_000
    );
}
