//! The data model: players, line assignments, teams, play styles, and the
//! result records a simulation produces.
//!
//! Attributes are conceptually percentages in `[0, 100]`; the constructors
//! clamp raw inputs into that range so that every downstream formula works on
//! bounded integers.  Player types, line kinds and play styles are closed
//! vocabularies matched case-insensitively, with an explicit neutral fallback
//! for anything outside the vocabulary.

use vstd::prelude::*;
use vstd::string::StringSliceAdditionalSpecFns;

verus! {

/// Most line slots a team may carry; rosters are far smaller (four forward
/// lines of three, three defense pairs of two, two goalies), but the input
/// document may hold arbitrarily many slots and the sums over a roster need a
/// bound.
pub const MAX_SLOTS: usize = 512;

/// A player's classification; anything outside the vocabulary is `Unknown`
/// and carries neutral multipliers.
#[derive(Clone, Copy, Debug, PartialEq, Eq, Structural)]
pub enum PlayerType {
    PowerForward,
    Playmaker,
    Offensive,
    TwoWay,
    Sniper,
    PowerDefense,
    Gamer,
    Defensive,
    Unknown,
}

/// The kind of a line slot.  `Other` preserves the behaviour of slots whose
/// kind label lies outside the vocabulary: they skate with a small fixed
/// ice-time share but belong to no rated line.
#[derive(Clone, Copy, Debug, PartialEq, Eq, Structural)]
pub enum LineKind {
    Forward,
    Defense,
    Goalie,
    Other,
}

/// A team's tactical profile; anything outside the vocabulary is `Neutral`
/// (all multipliers `1.0`).
#[derive(Clone, Copy, Debug, PartialEq, Eq, Structural)]
pub enum PlayStyle {
    Trap,
    Possession,
    DumpChase,
    Rush,
    ShootCrash,
    Neutral,
}

/// Multipliers (in millionths) a play style applies to the simulation.
#[derive(Clone, Copy, Debug, PartialEq, Eq, Structural)]
pub struct PlayStyleModifiers {
    pub shot_volume: u64,
    pub high_danger_chance: u64,
    pub turnover_rate: u64,
    pub odd_man_rush: u64,
    pub physical_bonus: u64,
    pub rebound_goals: u64,
}

impl PlayStyleModifiers {
    /// Upper bounds on each multiplier; the style table stays well inside
    /// them, and the formulas need nothing more.
    pub open spec fn wf(self) -> bool {
        &&& self.shot_volume <= 1_250_000
        &&& self.high_danger_chance <= 1_250_000
        &&& self.turnover_rate <= 1_200_000
        &&& self.odd_man_rush <= 1_350_000
        &&& self.physical_bonus <= 1_400_000
        &&& self.rebound_goals <= 1_250_000
    }
}

/// The neutral profile: every multiplier is `1.0`.
pub open spec fn spec_neutral_modifiers() -> PlayStyleModifiers {
    PlayStyleModifiers {
        shot_volume: 1_000_000,
        high_danger_chance: 1_000_000,
        turnover_rate: 1_000_000,
        odd_man_rush: 1_000_000,
        physical_bonus: 1_000_000,
        rebound_goals: 1_000_000,
    }
}

impl Default for PlayStyleModifiers {
    fn default() -> (r: PlayStyleModifiers)
        ensures
            r == spec_neutral_modifiers(),
    {
        PlayStyleModifiers {
            shot_volume: 1_000_000,
            high_danger_chance: 1_000_000,
            turnover_rate: 1_000_000,
            odd_man_rush: 1_000_000,
            physical_bonus: 1_000_000,
            rebound_goals: 1_000_000,
        }
    }
}

/// The multiplier profile of each play style.
pub open spec fn spec_style_modifiers(style: PlayStyle) -> PlayStyleModifiers {
    match style {
        PlayStyle::Trap => PlayStyleModifiers {
            shot_volume: 850_000,
            high_danger_chance: 900_000,
            turnover_rate: 1_200_000,
            odd_man_rush: 800_000,
            physical_bonus: 1_000_000,
            rebound_goals: 900_000,
        },
        PlayStyle::Possession => PlayStyleModifiers {
            shot_volume: 950_000,
            high_danger_chance: 1_250_000,
            turnover_rate: 800_000,
            odd_man_rush: 900_000,
            physical_bonus: 900_000,
            rebound_goals: 1_000_000,
        },
        PlayStyle::DumpChase => PlayStyleModifiers {
            shot_volume: 1_100_000,
            high_danger_chance: 900_000,
            turnover_rate: 1_000_000,
            odd_man_rush: 850_000,
            physical_bonus: 1_400_000,
            rebound_goals: 1_250_000,
        },
        PlayStyle::Rush => PlayStyleModifiers {
            shot_volume: 1_050_000,
            high_danger_chance: 1_150_000,
            turnover_rate: 1_100_000,
            odd_man_rush: 1_350_000,
            physical_bonus: 850_000,
            rebound_goals: 950_000,
        },
        PlayStyle::ShootCrash => PlayStyleModifiers {
            shot_volume: 1_250_000,
            high_danger_chance: 1_000_000,
            turnover_rate: 1_050_000,
            odd_man_rush: 900_000,
            physical_bonus: 1_200_000,
            rebound_goals: 1_200_000,
        },
        PlayStyle::Neutral => spec_neutral_modifiers(),
    }
}

/// The multipliers a play style applies.
pub fn style_modifiers(style: PlayStyle) -> (r: PlayStyleModifiers)
    ensures
        r == spec_style_modifiers(style),
        r.wf(),
{
    match style {
        PlayStyle::Trap => PlayStyleModifiers {
            shot_volume: 850_000,
            high_danger_chance: 900_000,
            turnover_rate: 1_200_000,
            odd_man_rush: 800_000,
            physical_bonus: 1_000_000,
            rebound_goals: 900_000,
        },
        PlayStyle::Possession => PlayStyleModifiers {
            shot_volume: 950_000,
            high_danger_chance: 1_250_000,
            turnover_rate: 800_000,
            odd_man_rush: 900_000,
            physical_bonus: 900_000,
            rebound_goals: 1_000_000,
        },
        PlayStyle::DumpChase => PlayStyleModifiers {
            shot_volume: 1_100_000,
            high_danger_chance: 900_000,
            turnover_rate: 1_000_000,
            odd_man_rush: 850_000,
            physical_bonus: 1_400_000,
            rebound_goals: 1_250_000,
        },
        PlayStyle::Rush => PlayStyleModifiers {
            shot_volume: 1_050_000,
            high_danger_chance: 1_150_000,
            turnover_rate: 1_100_000,
            odd_man_rush: 1_350_000,
            physical_bonus: 850_000,
            rebound_goals: 950_000,
        },
        PlayStyle::ShootCrash => PlayStyleModifiers {
            shot_volume: 1_250_000,
            high_danger_chance: 1_000_000,
            turnover_rate: 1_050_000,
            odd_man_rush: 900_000,
            physical_bonus: 1_200_000,
            rebound_goals: 1_200_000,
        },
        PlayStyle::Neutral => PlayStyleModifiers::default(),
    }
}

/// How dangerous a shot is; each class carries a base expected-goal value.
#[derive(Clone, Copy, Debug, PartialEq, Eq, Structural)]
pub enum ShotQuality {
    HighDanger,
    MediumDanger,
    LowDanger,
}

/// Base expected-goal probability (in millionths) of each shot class.
pub open spec fn spec_base_xg(q: ShotQuality) -> int {
    match q {
        ShotQuality::HighDanger => 160_000,
        ShotQuality::MediumDanger => 65_000,
        ShotQuality::LowDanger => 24_000,
    }
}

impl ShotQuality {
    /// Base expected-goal probability of this shot class, in millionths.
    pub fn base_xg(&self) -> (r: u64)
        ensures
            r == spec_base_xg(*self),
    {
        match self {
            ShotQuality::HighDanger => 160_000,
            ShotQuality::MediumDanger => 65_000,
            ShotQuality::LowDanger => 24_000,
        }
    }
}

/// One player: identity, classification and five skill attributes, each
/// clamped into `[0, 100]` at construction.
#[derive(Clone, Debug, PartialEq)]
pub struct Player {
    pub id: i32,
    pub name: String,
    pub position: String,
    pub player_type: PlayerType,
    pub off: u32,
    pub def: u32,
    pub phys: u32,
    pub lead: u32,
    pub consistency: u32,
}

/// Clamping a raw attribute into the percentage range.
pub open spec fn spec_clamp_attr(x: int) -> int {
    if x < 0 {
        0
    } else if x > 100 {
        100
    } else {
        x
    }
}

/// Clamps a raw attribute value into `[0, 100]`.
pub fn clamp_attr(x: i32) -> (r: u32)
    ensures
        r == spec_clamp_attr(x as int),
        r <= 100,
{
    if x < 0 {
        0
    } else if x > 100 {
        100
    } else {
        x as u32
    }
}

impl Player {
    /// Every attribute lies in the percentage range.
    pub open spec fn wf(self) -> bool {
        &&& self.off <= 100
        &&& self.def <= 100
        &&& self.phys <= 100
        &&& self.lead <= 100
        &&& self.consistency <= 100
    }

    /// Builds a player, clamping each raw attribute into `[0, 100]`.
    pub fn new(
        id: i32,
        name: String,
        position: String,
        player_type: PlayerType,
        off: i32,
        def: i32,
        phys: i32,
        lead: i32,
        consistency: i32,
    ) -> (p: Player)
        ensures
            p.wf(),
            p.id == id,
            p.name == name,
            p.position == position,
            p.player_type == player_type,
            p.off == spec_clamp_attr(off as int),
            p.def == spec_clamp_attr(def as int),
            p.phys == spec_clamp_attr(phys as int),
            p.lead == spec_clamp_attr(lead as int),
            p.consistency == spec_clamp_attr(consistency as int),
    {
        Player {
            id,
            name,
            position,
            player_type,
            off: clamp_attr(off),
            def: clamp_attr(def),
            phys: clamp_attr(phys),
            lead: clamp_attr(lead),
            consistency: clamp_attr(consistency),
        }
    }
}

/// A coach: identity and an overall rating clamped into `[0, 100]`.
#[derive(Clone, Debug, PartialEq)]
pub struct Coach {
    pub id: i32,
    pub name: String,
    pub rating: u32,
    pub coach_type: String,
}

impl Coach {
    pub open spec fn wf(self) -> bool {
        self.rating <= 100
    }

    /// Builds a coach, clamping the rating into `[0, 100]`.
    pub fn new(id: i32, name: String, rating: i32, coach_type: String) -> (c: Coach)
        ensures
            c.wf(),
            c.id == id,
            c.name == name,
            c.rating == spec_clamp_attr(rating as int),
            c.coach_type == coach_type,
    {
        Coach { id, name, rating: clamp_attr(rating), coach_type }
    }
}

/// One roster slot: a line kind, a 1-based depth index, an on-ice position
/// label, and the player occupying the slot.
#[derive(Clone, Debug, PartialEq)]
pub struct LineAssignment {
    pub kind: LineKind,
    pub depth: u32,
    pub position: String,
    pub player: Player,
}

impl LineAssignment {
    pub open spec fn wf(self) -> bool {
        &&& self.depth >= 1
        &&& self.player.wf()
    }

    /// Builds a slot; a depth below 1 is lifted to 1 so that every depth
    /// index is 1-based.
    pub fn new(kind: LineKind, depth: i32, position: String, player: Player) -> (la:
        LineAssignment)
        requires
            player.wf(),
        ensures
            la.wf(),
            la.kind == kind,
            la.depth == (if depth < 1 { 1int } else { depth as int }),
            la.position == position,
            la.player == player,
    {
        let d: u32 = if depth < 1 {
            1
        } else {
            depth as u32
        };
        LineAssignment { kind, depth: d, position, player }
    }
}

/// A team: identity, roster slots, optional coach, and a play style.
#[derive(Clone, Debug, PartialEq)]
pub struct Team {
    pub id: i32,
    pub name: String,
    pub city: String,
    pub lines: Vec<LineAssignment>,
    pub coach: Option<Coach>,
    pub play_style: PlayStyle,
}

impl Team {
    pub open spec fn wf(self) -> bool {
        &&& self.lines@.len() <= MAX_SLOTS
        &&& forall|i: int| 0 <= i < self.lines@.len() ==> (#[trigger] self.lines@[i]).wf()
        &&& match self.coach {
            Option::Some(c) => c.wf(),
            Option::None => true,
        }
    }

    /// Builds a team.  The roster is kept in the given order; slots past
    /// [`MAX_SLOTS`] are dropped so that every roster sum stays bounded.
    pub fn new(
        id: i32,
        name: String,
        city: String,
        lines: Vec<LineAssignment>,
        coach: Option<Coach>,
        play_style: PlayStyle,
    ) -> (t: Team)
        requires
            forall|i: int| 0 <= i < lines@.len() ==> (#[trigger] lines@[i]).wf(),
            match coach {
                Option::Some(c) => c.wf(),
                Option::None => true,
            },
        ensures
            t.wf(),
            t.id == id,
            t.name == name,
            t.city == city,
            t.lines@ == (if lines@.len() <= MAX_SLOTS {
                lines@
            } else {
                lines@.take(MAX_SLOTS as int)
            }),
            t.coach == coach,
            t.play_style == play_style,
    {
        let ghost given = lines@;
        let mut lines = lines;
        while lines.len() > MAX_SLOTS
            invariant
                lines@ == (if given.len() <= MAX_SLOTS {
                    given
                } else {
                    given.take(lines@.len() as int)
                }),
                lines@.len() <= given.len(),
                given.len() > MAX_SLOTS ==> lines@.len() >= MAX_SLOTS,
                forall|i: int| 0 <= i < lines@.len() ==> (#[trigger] lines@[i]).wf(),
            decreases lines@.len(),
        {
            proof {
                assert(given.take(lines@.len() as int).drop_last() =~= given.take(
                    lines@.len() - 1,
                ));
            }
            lines.pop();
        }
        proof {
            if given.len() > MAX_SLOTS {
                assert(lines@ == given.take(MAX_SLOTS as int));
            }
        }
        Team { id, name, city, lines, coach, play_style }
    }
}

/// The read-only input of one simulation: both rosters and the playoff flag.
#[derive(Clone, Debug, PartialEq)]
pub struct GameInput {
    pub home_team: Team,
    pub away_team: Team,
    pub is_playoff: bool,
}

impl GameInput {
    pub open spec fn wf(self) -> bool {
        &&& self.home_team.wf()
        &&& self.away_team.wf()
    }

    pub fn new(home_team: Team, away_team: Team, is_playoff: bool) -> (g: GameInput)
        requires
            home_team.wf(),
            away_team.wf(),
        ensures
            g.wf(),
            g.home_team == home_team,
            g.away_team == away_team,
            g.is_playoff == is_playoff,
    {
        GameInput { home_team, away_team, is_playoff }
    }
}

/// One player's boxscore line; counters only ever grow during a game, the
/// plus-minus is written once at the end.
#[derive(Clone, Debug, PartialEq)]
pub struct PlayerGameStat {
    pub player_id: i32,
    pub player_name: String,
    pub goals: u32,
    pub assists: u32,
    pub shots: u32,
    pub hits: u32,
    pub blocks: u32,
    pub plus_minus: i32,
    pub time_on_ice: u32,
    pub takeaways: u32,
    pub giveaways: u32,
    pub saves: u32,
    pub goals_against: u32,
    pub shots_against: u32,
}

impl PlayerGameStat {
    /// A fresh record: identity and precomputed time on ice, all counters 0.
    pub fn new_zeroed(player_id: i32, player_name: String, time_on_ice: u32) -> (s:
        PlayerGameStat)
        ensures
            s.player_id == player_id,
            s.player_name == player_name,
            s.time_on_ice == time_on_ice,
            s.goals == 0 && s.assists == 0 && s.shots == 0 && s.hits == 0 && s.blocks == 0,
            s.plus_minus == 0 && s.takeaways == 0 && s.giveaways == 0,
            s.saves == 0 && s.goals_against == 0 && s.shots_against == 0,
    {
        PlayerGameStat {
            player_id,
            player_name,
            goals: 0,
            assists: 0,
            shots: 0,
            hits: 0,
            blocks: 0,
            plus_minus: 0,
            time_on_ice,
            takeaways: 0,
            giveaways: 0,
            saves: 0,
            goals_against: 0,
            shots_against: 0,
        }
    }
}

/// The terminal artifact of one simulation.
#[derive(Clone, Debug, PartialEq)]
pub struct GameResult {
    pub home_score: u32,
    pub away_score: u32,
    pub home_stats: Vec<PlayerGameStat>,
    pub away_stats: Vec<PlayerGameStat>,
    pub went_to_overtime: bool,
    pub went_to_shootout: bool,
}

/// ASCII lower-casing of one byte.
pub open spec fn spec_fold_byte(b: u8) -> u8 {
    if 65 <= b <= 90 {
        (b + 32) as u8
    } else {
        b
    }
}

/// `a` equals `b` after ASCII-lower-casing `a` (with `b` already lower case).
pub open spec fn spec_eq_folded(a: Seq<u8>, b: Seq<u8>) -> bool {
    a.len() == b.len() && forall|i: int|
        0 <= i < a.len() ==> spec_fold_byte(#[trigger] a[i]) == b[i]
}

/// ASCII lower-casing of one byte.
fn fold_byte(b: u8) -> (r: u8)
    ensures
        r == spec_fold_byte(b),
{
    if 65 <= b && b <= 90 {
        b + 32
    } else {
        b
    }
}

/// Case-insensitive (ASCII) comparison of a label against a lower-case
/// vocabulary word.
fn label_matches(label: &str, word: &str) -> (r: bool)
    ensures
        r == spec_eq_folded(label.spec_bytes(), word.spec_bytes()),
{
    let a = label.as_bytes();
    let b = word.as_bytes();
    if a.len() != b.len() {
        return false;
    }
    let n = a.len();
    let mut i: usize = 0;
    while i < n
        invariant
            n == a@.len() == b@.len(),
            i <= n,
            a@ == label.spec_bytes(),
            b@ == word.spec_bytes(),
            forall|j: int| 0 <= j < i ==> spec_fold_byte(#[trigger] a@[j]) == b@[j],
        decreases n - i,
    {
        if fold_byte(a[i]) != b[i] {
            return false;
        }
        i = i + 1;
    }
    true
}

/// Which player type a label denotes, matched case-insensitively; anything
/// outside the vocabulary is `Unknown`.
pub open spec fn spec_player_type_from_label(s: Seq<u8>) -> PlayerType {
    if spec_eq_folded(s, "power forward".spec_bytes()) {
        PlayerType::PowerForward
    } else if spec_eq_folded(s, "playmaker".spec_bytes()) {
        PlayerType::Playmaker
    } else if spec_eq_folded(s, "offensive".spec_bytes()) {
        PlayerType::Offensive
    } else if spec_eq_folded(s, "two-way".spec_bytes()) || spec_eq_folded(
        s,
        "two way".spec_bytes(),
    ) {
        PlayerType::TwoWay
    } else if spec_eq_folded(s, "sniper".spec_bytes()) {
        PlayerType::Sniper
    } else if spec_eq_folded(s, "power defense".spec_bytes()) {
        PlayerType::PowerDefense
    } else if spec_eq_folded(s, "gamer".spec_bytes()) {
        PlayerType::Gamer
    } else if spec_eq_folded(s, "defensive".spec_bytes()) {
        PlayerType::Defensive
    } else {
        PlayerType::Unknown
    }
}

/// Parses a player-type label, case-insensitively.
pub fn player_type_from_label(label: &str) -> (t: PlayerType)
    ensures
        t == spec_player_type_from_label(label.spec_bytes()),
{
    if label_matches(label, "power forward") {
        PlayerType::PowerForward
    } else if label_matches(label, "playmaker") {
        PlayerType::Playmaker
    } else if label_matches(label, "offensive") {
        PlayerType::Offensive
    } else if label_matches(label, "two-way") || label_matches(label, "two way") {
        PlayerType::TwoWay
    } else if label_matches(label, "sniper") {
        PlayerType::Sniper
    } else if label_matches(label, "power defense") {
        PlayerType::PowerDefense
    } else if label_matches(label, "gamer") {
        PlayerType::Gamer
    } else if label_matches(label, "defensive") {
        PlayerType::Defensive
    } else {
        PlayerType::Unknown
    }
}

/// Which line kind a label denotes, matched case-insensitively; anything
/// outside the vocabulary is `Other`.
pub open spec fn spec_line_kind_from_label(s: Seq<u8>) -> LineKind {
    if spec_eq_folded(s, "forward".spec_bytes()) {
        LineKind::Forward
    } else if spec_eq_folded(s, "defense".spec_bytes()) {
        LineKind::Defense
    } else if spec_eq_folded(s, "goalie".spec_bytes()) {
        LineKind::Goalie
    } else {
        LineKind::Other
    }
}

/// Parses a line-kind label, case-insensitively.
pub fn line_kind_from_label(label: &str) -> (k: LineKind)
    ensures
        k == spec_line_kind_from_label(label.spec_bytes()),
{
    if label_matches(label, "forward") {
        LineKind::Forward
    } else if label_matches(label, "defense") {
        LineKind::Defense
    } else if label_matches(label, "goalie") {
        LineKind::Goalie
    } else {
        LineKind::Other
    }
}

/// Which play style a label denotes, matched case-insensitively; anything
/// outside the vocabulary is `Neutral`.
pub open spec fn spec_play_style_from_label(s: Seq<u8>) -> PlayStyle {
    if spec_eq_folded(s, "trap".spec_bytes()) {
        PlayStyle::Trap
    } else if spec_eq_folded(s, "possession".spec_bytes()) {
        PlayStyle::Possession
    } else if spec_eq_folded(s, "dump_chase".spec_bytes()) {
        PlayStyle::DumpChase
    } else if spec_eq_folded(s, "rush".spec_bytes()) {
        PlayStyle::Rush
    } else if spec_eq_folded(s, "shoot_crash".spec_bytes()) {
        PlayStyle::ShootCrash
    } else {
        PlayStyle::Neutral
    }
}

/// Parses a play-style label, case-insensitively.
pub fn play_style_from_label(label: &str) -> (s: PlayStyle)
    ensures
        s == spec_play_style_from_label(label.spec_bytes()),
{
    if label_matches(label, "trap") {
        PlayStyle::Trap
    } else if label_matches(label, "possession") {
        PlayStyle::Possession
    } else if label_matches(label, "dump_chase") {
        PlayStyle::DumpChase
    } else if label_matches(label, "rush") {
        PlayStyle::Rush
    } else if label_matches(label, "shoot_crash") {
        PlayStyle::ShootCrash
    } else {
        PlayStyle::Neutral
    }
}

} // verus!
