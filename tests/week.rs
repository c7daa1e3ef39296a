use bench_king_sleeper::calculation_helpers::calculate_bench_king_for_week::{
    calculate_bench_king_for_week, BenchKingError,
};
use bench_king_sleeper::calculation_helpers::calculate_optimal_points::{
    optimal_score_for_matchup, points_in_range, scored_players,
};
use bench_king_sleeper::calculation_helpers::report::{rank_by_difference, season_to_date, Report};
use bench_king_sleeper::lineup::ScoredPlayer;
use bench_king_sleeper::models::league::{League, LeagueSettings};
use bench_king_sleeper::models::matchup::Matchup;
use bench_king_sleeper::models::player::PlayerDetails;
use bench_king_sleeper::models::roster::{Roster, RosterSettings};
use bench_king_sleeper::models::user::{LeagueUser, LeagueUserMetadata};
use bench_king_sleeper::models::positions::{PositionKind, RosterPosition};

fn details(id: &str, positions: Vec<RosterPosition>) -> PlayerDetails {
    PlayerDetails {
        player_id: id.to_string(),
        active: true,
        first_name: None,
        last_name: None,
        full_name: None,
        sport: "nfl".to_string(),
        team: None,
        position: positions.first().copied(),
        fantasy_positions: Some(positions),
        metadata: None,
    }
}

fn roster(roster_id: u32, owner: &str, players: Option<Vec<&str>>) -> Roster {
    Roster {
        starters: vec![],
        settings: RosterSettings {
            wins: 0,
            waiver_position: 0,
            waiver_budget_used: 0,
            total_moves: 0,
            ties: 0,
            losses: 0,
            fpts_decimal: None,
            fpts_against_decimal: None,
            fpts_against: None,
            fpts: 0,
            division: 0,
        },
        roster_id,
        reserve: None,
        players: players.map(|v| v.into_iter().map(|s| s.to_string()).collect()),
        player_map: None,
        owner_id: owner.to_string(),
        league_id: "L".to_string(),
        co_owners: None,
        keepers: None,
        metadata: None,
    }
}

fn matchup(roster_id: u32, points: i64, players_points: Vec<(&str, i64)>) -> Matchup {
    Matchup {
        starters: vec![],
        roster_id,
        players: players_points.iter().map(|(id, _)| id.to_string()).collect(),
        matchup_id: 1,
        points,
        custom_points: None,
        players_points: players_points.into_iter().map(|(id, p)| (id.to_string(), p)).collect(),
        starters_points: vec![],
    }
}

fn settings() -> LeagueSettings {
    LeagueSettings {
        bench_lock: 0,
        best_ball: None,
        capacity_override: 0,
        commissioner_direct_invite: 0,
        daily_waivers: 0,
        daily_waivers_days: 0,
        daily_waivers_hour: 0,
        disable_adds: 0,
        disable_trades: None,
        divisions: None,
        draft_rounds: 0,
        league_average_match: 0,
        league_type: 0,
        leg: 0,
        max_keepers: 0,
        num_teams: 2,
        offseason_adds: 0,
        pick_trading: 0,
        playoff_round_type: 0,
        playoff_seed_type: 0,
        playoff_teams: 0,
        playoff_type: 0,
        playoff_week_start: 0,
        reserve_allow_cov: 0,
        reserve_allow_dnr: 0,
        reserve_allow_doubtful: 0,
        reserve_allow_na: 0,
        reserve_allow_out: 0,
        reserve_allow_sus: 0,
        reserve_slots: 0,
        start_week: 1,
        taxi_allow_vets: 0,
        taxi_deadline: 0,
        taxi_slots: 0,
        taxi_years: 0,
        trade_deadline: 0,
        trade_review_days: 0,
        veto_auto_poll: None,
        veto_show_votes: None,
        veto_votes_needed: None,
        waiver_bid_min: None,
        waiver_budget: 0,
        waiver_clear_days: 0,
        waiver_day_of_week: 0,
        waiver_type: 0,
    }
}

fn league(positions: Vec<RosterPosition>) -> League {
    League {
        total_rosters: 2,
        status: "in_season".to_string(),
        sport: "nfl".to_string(),
        settings: settings(),
        season_type: "regular".to_string(),
        season: "2024".to_string(),
        roster_positions: positions,
        previous_league_id: None,
        name: "League".to_string(),
        league_id: "L".to_string(),
        draft_id: "D".to_string(),
        avatar: None,
        company_id: None,
    }
}

fn owner(user_id: &str, name: &str) -> LeagueUser {
    LeagueUser {
        username: None,
        user_id: user_id.to_string(),
        display_name: name.to_string(),
        avatar: String::new(),
        metadata: LeagueUserMetadata {
            team_name: None,
            allow_pn: None,
            mention_pn: None,
            avatar: None,
            league_report_pn: None,
            mascot_message: None,
            player_like_pn: None,
            player_nickname_update: None,
            team_name_update: None,
            trade_block_pn: None,
            transaction_commissioner: None,
            transaction_free_agent: None,
            transaction_trade: None,
            transaction_waiver: None,
            user_message_pn: None,
        },
        is_owner: None,
        is_bot: false,
        settings: None,
    }
}

fn report(name: &str, actual: i64, optimal: i64) -> Report {
    Report { owner_name: name.to_string(), optimal_points: optimal, actual_points: actual }
}

fn catalog() -> Vec<PlayerDetails> {
    vec![
        details("q1", vec![RosterPosition::QB]),
        details("w1", vec![RosterPosition::WR]),
        details("r1", vec![RosterPosition::RB]),
        details("t1", vec![RosterPosition::TE]),
    ]
}

#[test]
fn season_to_date_sums_by_owner() {
    let weeks = vec![report("ann", 5000, 6000), report("ann", 4000, 4500)];
    let season = season_to_date(&weeks).unwrap();
    assert_eq!(season.len(), 1);
    assert_eq!(season[0].owner_name, "ann");
    assert_eq!(season[0].actual_points, 9000);
    assert_eq!(season[0].optimal_points, 10500);
    assert_eq!(season[0].difference(), 1500);
}

#[test]
fn season_to_date_keeps_first_appearance_order() {
    let weeks = vec![report("bo", 100, 200), report("al", 50, 70), report("bo", 10, 20)];
    let season = season_to_date(&weeks).unwrap();
    assert_eq!(season.len(), 2);
    assert_eq!(season[0].owner_name, "bo");
    assert_eq!(season[0].optimal_points, 220);
    assert_eq!(season[1].owner_name, "al");
    assert_eq!(season[1].actual_points, 50);
}

#[test]
fn season_to_date_out_of_range() {
    let weeks = vec![report("ann", i64::MAX, 0), report("ann", 1, 0)];
    assert!(season_to_date(&weeks).is_none());
}

#[test]
fn difference_may_be_negative() {
    assert_eq!(report("ann", 1000, 900).difference(), -100);
    assert_eq!(report("x", i64::MIN, i64::MAX).difference(), i64::MAX as i128 - i64::MIN as i128);
}

#[test]
fn ranking_puts_biggest_bench_king_first() {
    let ranked = rank_by_difference(vec![
        report("a", 100, 150),
        report("b", 100, 400),
        report("c", 100, 100),
        report("d", 100, 150),
    ]);
    let names: Vec<&str> = ranked.iter().map(|r| r.owner_name.as_str()).collect();
    assert_eq!(names, vec!["b", "a", "d", "c"]);
}

#[test]
fn scored_players_follow_roster_and_points() {
    let points = vec![("w1".to_string(), 800), ("q1".to_string(), 1000), ("zz".to_string(), 50)];
    let ids = Some(vec!["q1".to_string(), "w1".to_string(), "r1".to_string(), "q1".to_string(), "zz".to_string()]);
    let ps = scored_players(&catalog(), &ids, &points);
    let got: Vec<(String, i64)> = ps.iter().map(|p| (p.player_id.clone(), p.points)).collect();
    assert_eq!(got, vec![("q1".to_string(), 1000), ("w1".to_string(), 800)]);
    assert_eq!(ps[0].positions, vec![PositionKind::QB]);
}

#[test]
fn scored_players_without_roster_list_is_empty() {
    let points = vec![("w1".to_string(), 800)];
    assert!(scored_players(&catalog(), &None, &points).is_empty());
}

#[test]
fn flex_catalog_entry_expands_positions() {
    let cat = vec![details("x", vec![RosterPosition::WRRB_FLEX, RosterPosition::TE])];
    let ps = scored_players(&cat, &Some(vec!["x".to_string()]), &vec![("x".to_string(), 1)]);
    assert_eq!(ps[0].positions, vec![PositionKind::WR, PositionKind::RB, PositionKind::TE]);
}

#[test]
fn points_range_check() {
    let p = |v: i64| ScoredPlayer { player_id: "a".to_string(), positions: vec![], points: v };
    assert!(points_in_range(&vec![p(i64::MAX)]));
    assert!(!points_in_range(&vec![p(i64::MAX), p(-1)]));
    assert!(points_in_range(&vec![p(-5), p(7)]));
}

#[test]
fn optimal_score_for_one_matchup() {
    let m = matchup(7, 1500, vec![("q1", 1000), ("w1", 800), ("r1", 1200)]);
    let r = roster(7, "u7", Some(vec!["q1", "w1", "r1"]));
    let positions = vec![RosterPosition::QB, RosterPosition::FLEX, RosterPosition::BN];
    let o = optimal_score_for_matchup(&m, &r, &catalog(), &positions).unwrap();
    assert_eq!(o.optimal_points, 2200);
    assert_eq!(o.actual_points, 1500);
    assert_eq!(o.roster_id, 7);
    assert_eq!(o.owner_id, "u7");
}

#[test]
fn optimal_score_fails_out_of_range() {
    let m = matchup(7, 0, vec![("q1", i64::MAX), ("w1", 1)]);
    let r = roster(7, "u7", Some(vec!["q1", "w1"]));
    assert!(optimal_score_for_matchup(&m, &r, &catalog(), &vec![RosterPosition::QB]).is_none());
}

#[test]
fn week_reports_in_matchup_order() {
    let matchups = vec![
        matchup(2, 900, vec![("w1", 900), ("t1", 300)]),
        matchup(1, 1000, vec![("q1", 1000), ("r1", 1200)]),
    ];
    let rosters = vec![roster(1, "u1", Some(vec!["q1", "r1"])), roster(2, "u2", Some(vec!["w1", "t1"]))];
    let owners = vec![owner("u1", "Ann"), owner("u2", "Bo")];
    let lg = league(vec![RosterPosition::QB, RosterPosition::FLEX, RosterPosition::BN]);
    let reports = calculate_bench_king_for_week(matchups, &rosters, &catalog(), &lg, &owners).unwrap();
    assert_eq!(reports.len(), 2);
    assert_eq!(reports[0].owner_name, "Bo");
    assert_eq!(reports[0].optimal_points, 900);
    assert_eq!(reports[0].actual_points, 900);
    assert_eq!(reports[1].owner_name, "Ann");
    assert_eq!(reports[1].optimal_points, 2200);
    assert_eq!(reports[1].difference(), 1200);
}

#[test]
fn week_fails_on_missing_roster() {
    let matchups = vec![matchup(3, 0, vec![])];
    let rosters = vec![roster(1, "u1", None)];
    let owners = vec![owner("u1", "Ann")];
    let lg = league(vec![RosterPosition::QB]);
    let r = calculate_bench_king_for_week(matchups, &rosters, &catalog(), &lg, &owners);
    assert!(matches!(r, Err(BenchKingError::MissingRoster { roster_id: 3 })));
}

#[test]
fn week_fails_on_missing_owner() {
    let matchups = vec![matchup(1, 0, vec![])];
    let rosters = vec![roster(1, "ghost", None)];
    let owners = vec![owner("u1", "Ann")];
    let lg = league(vec![RosterPosition::QB]);
    match calculate_bench_king_for_week(matchups, &rosters, &catalog(), &lg, &owners) {
        Err(BenchKingError::MissingOwner { owner_id }) => assert_eq!(owner_id, "ghost"),
        other => panic!("unexpected {:?}", other),
    }
}

#[test]
fn week_fails_on_points_out_of_range() {
    let matchups = vec![matchup(1, 0, vec![("q1", i64::MAX), ("r1", i64::MAX)])];
    let rosters = vec![roster(1, "u1", Some(vec!["q1", "r1"]))];
    let owners = vec![owner("u1", "Ann")];
    let lg = league(vec![RosterPosition::QB]);
    let r = calculate_bench_king_for_week(matchups, &rosters, &catalog(), &lg, &owners);
    assert!(matches!(r, Err(BenchKingError::PointsOutOfRange { roster_id: 1 })));
}

#[test]
fn report_text_matches_console_line() {
    assert_eq!(
        report("ann", 9000, 10500).describe(),
        "Owner ann scored 90 points, optimal score is 105, difference is 15"
    );
    assert_eq!(
        report("bo", 1234, 1205).describe(),
        "Owner bo scored 12.34 points, optimal score is 12.05, difference is -0.29"
    );
    assert_eq!(report("cy", 1250, 1250).describe(), "Owner cy scored 12.5 points, optimal score is 12.5, difference is 0");
}

#[test]
fn optimal_score_text() {
    let m = matchup(7, 1500, vec![("q1", 1000), ("w1", 800), ("r1", 1200)]);
    let r = roster(7, "u7", Some(vec!["q1", "w1", "r1"]));
    let o = optimal_score_for_matchup(&m, &r, &catalog(), &vec![RosterPosition::QB, RosterPosition::FLEX]).unwrap();
    assert_eq!(
        o.describe(),
        "Matchup ID: 1, Roster ID: 7, Owner ID: u7, Actual Points: 15, Optimal Points: 22"
    );
}
