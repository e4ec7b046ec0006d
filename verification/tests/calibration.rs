//! Long-run behaviour of the engine: many simulated games between two
//! even rosters, checking that the formula constants hold the scoring level
//! steady (about six and a half total goals and thirty-five to thirty-six
//! shots a team per game for two even possession-style rosters).

use hockey_sim::phase::simulate_game;
use hockey_sim::rng::GameRng;
use hockey_sim::types::{
    GameInput, LineAssignment, LineKind, PlayStyle, Player, PlayerType, Team,
};

fn player(id: i32, attr: i32) -> Player {
    Player::new(
        id,
        format!("Player {}", id),
        "C".to_string(),
        PlayerType::Unknown,
        attr,
        attr,
        attr,
        attr,
        attr,
    )
}

fn team(id: i32, attr: i32) -> Team {
    let mut lines = Vec::new();
    let mut pid = id * 100;
    for line in 1..=4 {
        for _ in 0..3 {
            pid += 1;
            lines.push(LineAssignment::new(LineKind::Forward, line, "C".to_string(), player(pid, attr)));
        }
    }
    for pair in 1..=3 {
        for _ in 0..2 {
            pid += 1;
            lines.push(LineAssignment::new(LineKind::Defense, pair, "D".to_string(), player(pid, attr)));
        }
    }
    for g in 1..=2 {
        pid += 1;
        lines.push(LineAssignment::new(LineKind::Goalie, g, "G".to_string(), player(pid, attr)));
    }
    Team::new(id, format!("Team {}", id), "City".to_string(), lines, None, PlayStyle::Possession)
}

#[test]
fn long_run_scoring_level_is_steady() {
    let games: u64 = 2_000;
    let mut total_goals: u64 = 0;
    let mut total_shots: u64 = 0;
    for seed in 0..games {
        let input = GameInput::new(team(1, 80), team(2, 80), false);
        let r = simulate_game(&input, &mut GameRng::from_seed(seed));
        let hg: u32 = r.home_stats.iter().map(|s| s.goals).sum();
        let ag: u32 = r.away_stats.iter().map(|s| s.goals).sum();
        total_goals += (hg + ag) as u64;
        let hs: u32 = r.home_stats.iter().map(|s| s.shots).sum();
        let a_shots: u32 = r.away_stats.iter().map(|s| s.shots).sum();
        total_shots += (hs + a_shots) as u64;
    }
    let mean_total_goals = total_goals as f64 / games as f64;
    let mean_shots_per_team = total_shots as f64 / (2.0 * games as f64);
    assert!(
        (6.0..=7.2).contains(&mean_total_goals),
        "mean total goals per game: {}",
        mean_total_goals
    );
    assert!(
        (33.0..=38.0).contains(&mean_shots_per_team),
        "mean shots per team per game: {}",
        mean_shots_per_team
    );
}
