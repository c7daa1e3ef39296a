use vstd::prelude::*;

verus! {

/// The size of an avatar picture.
#[derive(Clone, Copy, Debug, PartialEq, Eq, Structural)]
pub enum AvatarType {
    Full,
    Thumb,
}

/// A sport as the data provider names it.
#[derive(Clone, Debug)]
pub struct Sport(pub String);

impl Sport {
    /// The sport's name as it stands in request paths.
    pub fn name(&self) -> (r: String)
        ensures
            r@ == self.0@,
    {
        self.0.clone()
    }
}

impl Default for Sport {
    fn default() -> (r: Sport)
        ensures
            r.0@ == "nfl"@,
    {
        Sport(String::from_str("nfl"))
    }
}

/// Whether trending players were added or dropped.
#[derive(Clone, Copy, Debug, PartialEq, Eq, Structural)]
pub enum ActionType {
    Add,
    Drop,
}

/// Which playoff bracket to read.
#[derive(Clone, Copy, Debug, PartialEq, Eq, Structural)]
pub enum WinnerOrLoser {
    Winner,
    Loser,
}

/// The root of every request of the data provider's API.
pub open spec fn base_url() -> Seq<char> {
    "https://api.sleeper.app/v1/"@
}

/// The sport of a request: the one given, football if none.
pub open spec fn sport_or_default(sport: Option<Sport>) -> Seq<char> {
    match sport {
        Some(s) => s.0@,
        None => "nfl"@,
    }
}

fn sport_text(sport: &Option<Sport>) -> (r: String)
    ensures
        r@ == sport_or_default(*sport),
{
    match sport {
        Some(s) => s.name(),
        None => Sport::default().name(),
    }
}

fn with_base(path: &str) -> (r: String)
    ensures
        r@ == base_url() + path@,
{
    let mut url = String::from_str("https://api.sleeper.app/v1/");
    url.append(path);
    url
}

/// The request for a user's account.
pub fn user_url(user_id: &String) -> (r: String)
    ensures
        r@ == base_url() + "user/"@ + user_id@,
{
    let mut url = with_base("user/");
    url.append(user_id.as_str());
    url
}

/// The address of an avatar picture.
pub fn avatar_url(avatar_id: &String, full_or_thumb: AvatarType) -> (r: String)
    ensures
        r@ == base_url() + "avatars/"@ + (match full_or_thumb {
            AvatarType::Full => ""@,
            AvatarType::Thumb => "thumb"@,
        }) + "/"@ + avatar_id@,
{
    let mut url = with_base("avatars/");
    match full_or_thumb {
        AvatarType::Full => url.append(""),
        AvatarType::Thumb => url.append("thumb"),
    }
    url.append("/");
    url.append(avatar_id.as_str());
    url
}

/// The request for a user's leagues of one season.
pub fn user_leagues_url(user_id: &String, season: &String, sport: &Option<Sport>) -> (r: String)
    ensures
        r@ == base_url() + "user/"@ + user_id@ + "/leagues/"@ + sport_or_default(*sport) + "/"@ + season@,
{
    let mut url = with_base("user/");
    url.append(user_id.as_str());
    url.append("/leagues/");
    let s = sport_text(sport);
    url.append(s.as_str());
    url.append("/");
    url.append(season.as_str());
    url
}

/// The request for a league.
pub fn league_url(league_id: &String) -> (r: String)
    ensures
        r@ == base_url() + "league/"@ + league_id@,
{
    let mut url = with_base("league/");
    url.append(league_id.as_str());
    url
}

/// The request for a league's rosters.
pub fn league_rosters_url(league_id: &String) -> (r: String)
    ensures
        r@ == base_url() + "league/"@ + league_id@ + "/rosters"@,
{
    let mut url = league_url(league_id);
    url.append("/rosters");
    url
}

/// The request for a league's members.
pub fn league_users_url(league_id: &String) -> (r: String)
    ensures
        r@ == base_url() + "league/"@ + league_id@ + "/users"@,
{
    let mut url = league_url(league_id);
    url.append("/users");
    url
}

/// The request for a league's matchups of one week.
pub fn league_matchups_url(league_id: &String, week: &String) -> (r: String)
    ensures
        r@ == base_url() + "league/"@ + league_id@ + "/matchups/"@ + week@,
{
    let mut url = league_url(league_id);
    url.append("/matchups/");
    url.append(week.as_str());
    url
}

/// The request for one of a league's playoff brackets.
pub fn playoff_bracket_url(league_id: &String, winner_or_loser: WinnerOrLoser) -> (r: String)
    ensures
        r@ == base_url() + "league/"@ + league_id@ + (match winner_or_loser {
            WinnerOrLoser::Winner => "/winners_bracket"@,
            WinnerOrLoser::Loser => "/losers_bracket"@,
        }),
{
    let mut url = league_url(league_id);
    match winner_or_loser {
        WinnerOrLoser::Winner => url.append("/winners_bracket"),
        WinnerOrLoser::Loser => url.append("/losers_bracket"),
    }
    url
}

/// The request for the catalog of all football players.
pub fn players_url() -> (r: String)
    ensures
        r@ == base_url() + "players/nfl"@,
{
    with_base("players/nfl")
}

/// The request for the players most added or dropped lately; by default
/// over the last 24 hours, and 25 of them.
pub fn trending_players_url(
    action_type: ActionType,
    sport: &Option<Sport>,
    lookback_hours: &Option<String>,
    limit: &Option<String>,
) -> (r: String)
    ensures
        r@ == base_url() + "players/"@ + sport_or_default(*sport) + "/trending/"@ + (match action_type {
            ActionType::Add => "add"@,
            ActionType::Drop => "drop"@,
        }) + "?lookback_hours="@ + (match lookback_hours {
            Some(h) => h@,
            None => "24"@,
        }) + "&limit="@ + (match limit {
            Some(l) => l@,
            None => "25"@,
        }),
{
    let mut url = with_base("players/");
    let s = sport_text(sport);
    url.append(s.as_str());
    url.append("/trending/");
    match action_type {
        ActionType::Add => url.append("add"),
        ActionType::Drop => url.append("drop"),
    }
    url.append("?lookback_hours=");
    match lookback_hours {
        Some(h) => url.append(h.as_str()),
        None => url.append("24"),
    }
    url.append("&limit=");
    match limit {
        Some(l) => url.append(l.as_str()),
        None => url.append("25"),
    }
    url
}

} // verus!
