use vstd::prelude::*;

verus! {

/// Where the season stands.
#[derive(Clone, Debug)]
pub struct State {
    pub week: u8,
    pub leg: u8,
    pub season: String,
    pub season_type: String,
    pub league_season: String,
    pub previous_season: String,
    pub season_start_date: String,
    pub display_week: u8,
    pub league_create_season: String,
    pub season_has_scores: bool,
}

} // verus!
