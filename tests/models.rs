
use bench_king_sleeper::client::{
    avatar_url, league_matchups_url, league_rosters_url, league_url, league_users_url, playoff_bracket_url,
    players_url, trending_players_url, user_leagues_url, user_url, ActionType, AvatarType, Sport, WinnerOrLoser,
};
use bench_king_sleeper::models::matchup::Matchup;

#[test]
fn bench_players() {
    let expected = vec!["123", "456"];

    let data = Matchup {
        starters: vec!["234".to_string(), "567".to_string(), "DET".to_string()],
        roster_id: 1,
        players: vec![
            "123".to_string(),
            "456".to_string(),
            "234".to_string(),
            "567".to_string(),
            "DET".to_string(),
        ],
        matchup_id: 1,
        points: 2000,
        custom_points: None,
        players_points: vec![],
        starters_points: vec![],
    };
    assert_eq!(data.bench_players(), expected)
}

#[test]
fn request_urls() {
    let base = "https://api.sleeper.app/v1/";
    let id = "42".to_string();
    assert_eq!(user_url(&id), format!("{base}user/42"));
    assert_eq!(avatar_url(&id, AvatarType::Thumb), format!("{base}avatars/thumb/42"));
    assert_eq!(avatar_url(&id, AvatarType::Full), format!("{base}avatars//42"));
    assert_eq!(user_leagues_url(&id, &"2024".to_string(), &None), format!("{base}user/42/leagues/nfl/2024"));
    assert_eq!(
        user_leagues_url(&id, &"2024".to_string(), &Some(Sport("nba".to_string()))),
        format!("{base}user/42/leagues/nba/2024")
    );
    assert_eq!(league_url(&id), format!("{base}league/42"));
    assert_eq!(league_rosters_url(&id), format!("{base}league/42/rosters"));
    assert_eq!(league_users_url(&id), format!("{base}league/42/users"));
    assert_eq!(league_matchups_url(&id, &"3".to_string()), format!("{base}league/42/matchups/3"));
    assert_eq!(playoff_bracket_url(&id, WinnerOrLoser::Winner), format!("{base}league/42/winners_bracket"));
    assert_eq!(playoff_bracket_url(&id, WinnerOrLoser::Loser), format!("{base}league/42/losers_bracket"));
    assert_eq!(players_url(), format!("{base}players/nfl"));
    assert_eq!(
        trending_players_url(ActionType::Add, &None, &None, &None),
        format!("{base}players/nfl/trending/add?lookback_hours=24&limit=25")
    );
    assert_eq!(
        trending_players_url(ActionType::Drop, &None, &Some("48".to_string()), &Some("10".to_string())),
        format!("{base}players/nfl/trending/drop?lookback_hours=48&limit=10")
    );
}

#[test]
fn default_sport_is_football() {
    assert_eq!(Sport::default().name(), "nfl");
}
