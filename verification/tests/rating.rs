use hockey_sim::rating::{
    calculate_defense_rating, calculate_line_rating, calculate_netfront_presence,
    calculate_team_defense_rating, calculate_team_intimidation, calculate_team_leadership,
    calculate_team_rating, defense_bonus, intimidation_bonus,
};
use hockey_sim::sampler::{assist_modifier, goal_modifier, shot_quality_modifier};
use hockey_sim::stats::{
    block_type_modifier, giveaway_type_modifier, hit_type_modifier, takeaway_type_modifier,
};
use hockey_sim::types::{
    clamp_attr, line_kind_from_label, play_style_from_label, player_type_from_label, Coach,
    LineAssignment, LineKind, PlayStyle, PlayStyleModifiers, Player, PlayerType, ShotQuality, Team,
};

fn player(id: i32, off: i32, def: i32, phys: i32, lead: i32, cons: i32, t: PlayerType) -> Player {
    Player::new(
        id,
        format!("Player {}", id),
        "C".to_string(),
        t,
        off,
        def,
        phys,
        lead,
        cons,
    )
}

fn slot(kind: LineKind, depth: i32, p: Player) -> LineAssignment {
    LineAssignment::new(kind, depth, "C".to_string(), p)
}

/// A full roster: four forward lines of three, three defense pairs of two,
/// two goalies, every attribute the same value.
fn uniform_team(id: i32, attr: i32, t: PlayerType, style: PlayStyle) -> Team {
    let mut lines = Vec::new();
    let mut pid = id * 100;
    for line in 1..=4 {
        for _ in 0..3 {
            pid += 1;
            lines.push(slot(LineKind::Forward, line, player(pid, attr, attr, attr, attr, attr, t)));
        }
    }
    for pair in 1..=3 {
        for _ in 0..2 {
            pid += 1;
            lines.push(slot(LineKind::Defense, pair, player(pid, attr, attr, attr, attr, attr, t)));
        }
    }
    for g in 1..=2 {
        pid += 1;
        lines.push(slot(LineKind::Goalie, g, player(pid, attr, attr, attr, attr, attr, t)));
    }
    Team::new(id, format!("Team {}", id), "City".to_string(), lines, None, style)
}

#[test]
fn attributes_clamp_into_percent_range() {
    assert_eq!(clamp_attr(-17), 0);
    assert_eq!(clamp_attr(0), 0);
    assert_eq!(clamp_attr(63), 63);
    assert_eq!(clamp_attr(100), 100);
    assert_eq!(clamp_attr(150), 100);
    let p = player(1, 150, -5, 101, 100, 0, PlayerType::Unknown);
    assert_eq!(p.off, 100);
    assert_eq!(p.def, 0);
    assert_eq!(p.phys, 100);
    assert_eq!(p.lead, 100);
    assert_eq!(p.consistency, 0);
}

#[test]
fn player_type_labels_match_case_insensitively() {
    assert_eq!(player_type_from_label("SNIPER"), PlayerType::Sniper);
    assert_eq!(player_type_from_label("Power Forward"), PlayerType::PowerForward);
    assert_eq!(player_type_from_label("two-way"), PlayerType::TwoWay);
    assert_eq!(player_type_from_label("Two Way"), PlayerType::TwoWay);
    assert_eq!(player_type_from_label("power defense"), PlayerType::PowerDefense);
    assert_eq!(player_type_from_label("GaMeR"), PlayerType::Gamer);
    assert_eq!(player_type_from_label("defensive"), PlayerType::Defensive);
    assert_eq!(player_type_from_label("playmaker"), PlayerType::Playmaker);
    assert_eq!(player_type_from_label("offensive"), PlayerType::Offensive);
    assert_eq!(player_type_from_label("grinder"), PlayerType::Unknown);
    assert_eq!(player_type_from_label(""), PlayerType::Unknown);
}

#[test]
fn line_kind_and_style_labels_parse() {
    assert_eq!(line_kind_from_label("forward"), LineKind::Forward);
    assert_eq!(line_kind_from_label("DEFENSE"), LineKind::Defense);
    assert_eq!(line_kind_from_label("Goalie"), LineKind::Goalie);
    assert_eq!(line_kind_from_label("bench"), LineKind::Other);
    assert_eq!(play_style_from_label("trap"), PlayStyle::Trap);
    assert_eq!(play_style_from_label("POSSESSION"), PlayStyle::Possession);
    assert_eq!(play_style_from_label("Dump_Chase"), PlayStyle::DumpChase);
    assert_eq!(play_style_from_label("rush"), PlayStyle::Rush);
    assert_eq!(play_style_from_label("shoot_crash"), PlayStyle::ShootCrash);
    assert_eq!(play_style_from_label("unknown style"), PlayStyle::Neutral);
}

#[test]
fn style_modifier_table_values() {
    let m = hockey_sim::types::style_modifiers(PlayStyle::Possession);
    assert_eq!(m.shot_volume, 950_000);
    assert_eq!(m.high_danger_chance, 1_250_000);
    assert_eq!(m.turnover_rate, 800_000);
    assert_eq!(m.odd_man_rush, 900_000);
    assert_eq!(m.physical_bonus, 900_000);
    assert_eq!(m.rebound_goals, 1_000_000);
    let d = PlayStyleModifiers::default();
    assert_eq!(d.shot_volume, 1_000_000);
    assert_eq!(
        hockey_sim::types::style_modifiers(PlayStyle::Neutral),
        PlayStyleModifiers::default()
    );
}

#[test]
fn base_xg_values() {
    assert_eq!(ShotQuality::HighDanger.base_xg(), 160_000);
    assert_eq!(ShotQuality::MediumDanger.base_xg(), 65_000);
    assert_eq!(ShotQuality::LowDanger.base_xg(), 24_000);
}

#[test]
fn defense_rating_of_uniform_neutral_team_is_exact() {
    let t = uniform_team(1, 80, PlayerType::Unknown, PlayStyle::Neutral);
    assert_eq!(calculate_team_defense_rating(&t), 80_000_000);
}

#[test]
fn intimidation_zero_at_baseline_physicality() {
    let t = uniform_team(1, 75, PlayerType::Unknown, PlayStyle::Neutral);
    assert_eq!(calculate_team_intimidation(&t, false), 0);
    // The playoff boost lifts 75 physicality to 90: (90 - 75) / 150 = 0.10.
    assert_eq!(calculate_team_intimidation(&t, true), 100_000);
}

#[test]
fn leadership_floor_applies_to_leaderless_team() {
    let t = uniform_team(1, 0, PlayerType::Unknown, PlayStyle::Neutral);
    assert_eq!(calculate_team_leadership(&t, false, false), 900_000);
}

#[test]
fn netfront_presence_neutral_and_capped() {
    let neutral = uniform_team(1, 80, PlayerType::Unknown, PlayStyle::Neutral);
    assert_eq!(calculate_netfront_presence(&neutral), 1_000_000);
    let crash = uniform_team(2, 80, PlayerType::PowerForward, PlayStyle::Neutral);
    assert_eq!(calculate_netfront_presence(&crash), 1_350_000);
}

#[test]
fn team_rating_of_empty_roster_uses_defaults() {
    let t = Team::new(1, "Empty".to_string(), "City".to_string(), Vec::new(), None, PlayStyle::Neutral);
    // All line slots default to 50.0; without a coach the modifier is 0.98,
    // and home ice multiplies by 1.05: 50 * 0.98 = 49, then * 1.05 = 51.45.
    assert_eq!(calculate_team_rating(&t, 0, false, false), 49_000_000);
    assert_eq!(calculate_team_rating(&t, 0, true, false), 51_450_000);
}

#[test]
fn team_rating_is_pure_and_repeatable() {
    let t = uniform_team(1, 80, PlayerType::Unknown, PlayStyle::Possession);
    let r1 = calculate_team_rating(&t, 18, true, false);
    let r2 = calculate_team_rating(&t, 18, true, false);
    assert_eq!(r1, r2);
    let d1 = calculate_team_defense_rating(&t);
    let d2 = calculate_team_defense_rating(&t);
    assert_eq!(d1, d2);
    let i1 = calculate_team_intimidation(&t, true);
    assert_eq!(i1, calculate_team_intimidation(&t, true));
    let l1 = calculate_team_leadership(&t, true, true);
    assert_eq!(l1, calculate_team_leadership(&t, true, true));
    assert_eq!(calculate_netfront_presence(&t), calculate_netfront_presence(&t));
}

#[test]
fn team_rating_finite_without_forwards() {
    // A roster with no forward lines falls back to the default 50 for each
    // line and still produces a rating.
    let mut lines = Vec::new();
    for pair in 1..=3 {
        for k in 0..2 {
            lines.push(slot(
                LineKind::Defense,
                pair,
                player(pair * 10 + k, 80, 80, 80, 80, 80, PlayerType::Unknown),
            ));
        }
    }
    let t = Team::new(1, "D only".to_string(), "City".to_string(), lines, None, PlayStyle::Neutral);
    let r1 = calculate_team_rating(&t, 0, false, false);
    let r2 = calculate_team_rating(&t, 0, false, false);
    assert_eq!(r1, r2);
    assert!(r1 > 0);
    assert!(r1 <= 120_000_000);
}

#[test]
fn missing_third_pair_lowers_team_rating() {
    let full = uniform_team(1, 75, PlayerType::Unknown, PlayStyle::Neutral);
    let mut lines = Vec::new();
    for la in full.lines.iter() {
        if la.kind == LineKind::Defense && la.depth == 3 {
            continue;
        }
        lines.push(la.clone());
    }
    let gap = Team::new(2, "Gap".to_string(), "City".to_string(), lines, None, PlayStyle::Neutral);
    // Both teams otherwise identical; goalie slot index differs because the
    // third pair is missing from the second roster.
    let r_full = calculate_team_rating(&full, 18, false, false);
    let r_gap = calculate_team_rating(&gap, 16, false, false);
    assert!(r_gap < r_full, "missing pair {} vs full {}", r_gap, r_full);
    assert!(r_gap <= 120_000_000);
}

#[test]
fn line_ratings_use_depth_weights() {
    let t = uniform_team(1, 80, PlayerType::Unknown, PlayStyle::Neutral);
    // Uniform attributes make every line's blend 80 regardless of weights,
    // and leadership 80 adds (80 - 75) / 1000 = 0.005.
    for depth in 1..=4 {
        assert_eq!(calculate_line_rating(&t, depth, false), 80_400_000);
    }
    for depth in 1..=3 {
        assert_eq!(calculate_defense_rating(&t, depth, false), 80_000_000);
    }
    // A missing line is rated 50.
    assert_eq!(calculate_line_rating(&t, 7, false), 50_000_000);
}

#[test]
fn coach_rating_raises_team_rating() {
    let base = uniform_team(1, 80, PlayerType::Unknown, PlayStyle::Neutral);
    let mut coached = uniform_team(1, 80, PlayerType::Unknown, PlayStyle::Neutral);
    coached.coach = Some(Coach::new(9, "Coach".to_string(), 100, "motivator".to_string()));
    let r_none = calculate_team_rating(&base, 18, false, false);
    let r_coach = calculate_team_rating(&coached, 18, false, false);
    assert!(r_coach > r_none);
}

#[test]
fn unknown_player_type_carries_neutral_multipliers() {
    let u = PlayerType::Unknown;
    assert_eq!(goal_modifier(u), 1_000_000);
    assert_eq!(assist_modifier(u), 1_000_000);
    assert_eq!(shot_quality_modifier(u), 1_000_000);
    assert_eq!(hit_type_modifier(u), 1_000_000);
    assert_eq!(block_type_modifier(u), 1_000_000);
    assert_eq!(takeaway_type_modifier(u), 1_000_000);
    assert_eq!(giveaway_type_modifier(u), 1_000_000);
    assert_eq!(defense_bonus(u), 1_000_000);
    assert_eq!(intimidation_bonus(u), 1_000_000);
}

#[test]
fn assist_modifier_named_values() {
    assert_eq!(assist_modifier(PlayerType::Playmaker), 1_500_000);
    assert_eq!(assist_modifier(PlayerType::Sniper), 750_000);
    assert_eq!(assist_modifier(PlayerType::Defensive), 600_000);
}
