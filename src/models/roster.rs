use vstd::prelude::*;

verus! {

/// A team of a league: its owner and the players it holds.
#[derive(Clone, Debug)]
pub struct Roster {
    pub starters: Vec<String>,
    pub settings: RosterSettings,
    pub roster_id: u32,
    pub reserve: Option<Vec<String>>,
    pub players: Option<Vec<String>>,
    pub player_map: Option<Vec<(String, String)>>,
    pub owner_id: String,
    pub league_id: String,
    pub co_owners: Option<Vec<String>>,
    pub keepers: Option<Vec<String>>,
    pub metadata: Option<RosterMetadata>,
}

/// A team's record; fantasy points are whole points with their decimals apart.
#[derive(Clone, Debug)]
pub struct RosterSettings {
    pub wins: u16,
    pub waiver_position: u16,
    pub waiver_budget_used: u128,
    pub total_moves: u128,
    pub ties: u16,
    pub losses: u16,
    pub fpts_decimal: Option<u64>,
    pub fpts_against_decimal: Option<u64>,
    pub fpts_against: Option<u64>,
    pub fpts: u64,
    pub division: u8,
}

/// A team's notification preferences.
#[derive(Clone, Debug)]
pub struct RosterMetadata {
    pub allow_pn_inactive_starters: String,
    pub allow_pn_player_injury_status: String,
    pub allow_pn_scoring: String,
    pub restrict_pn_scoring_starters_only: String,
}

} // verus!
