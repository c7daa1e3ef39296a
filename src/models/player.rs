use vstd::prelude::*;

use crate::models::positions::RosterPosition;

verus! {

/// What the player catalog says of one player.
#[derive(Clone, Debug)]
pub struct PlayerDetails {
    pub player_id: String,
    pub active: bool,
    pub first_name: Option<String>,
    pub last_name: Option<String>,
    pub full_name: Option<String>,
    pub sport: String,
    pub team: Option<String>,
    pub position: Option<RosterPosition>,
    /// The roster positions the player may fill.
    pub fantasy_positions: Option<Vec<RosterPosition>>,
    pub metadata: Option<PlayerMetadata>,
}

#[derive(Clone, Debug)]
pub struct PlayerMetadata {
    pub channel_id: Option<String>,
    pub injury_override_off_2021_0: Option<String>,
    pub injury_override_regular_2020_1: Option<String>,
    pub injury_override_regular_2020_10: Option<String>,
    pub injury_override_regular_2020_5: Option<String>,
    pub injury_override_regular_2020_8: Option<String>,
    pub injury_override_regular_2021_1: Option<String>,
    pub injury_override_regular_2021_3: Option<String>,
    pub injury_override_regular_2021_4: Option<String>,
    pub injury_override_regular_2022_1: Option<String>,
    pub name: Option<String>,
    pub override_active: Option<String>,
    pub rookie_year: Option<String>,
    pub source_id: Option<String>,
    pub years_exp_shift: Option<String>,
}

/// A player that many rosters added or dropped lately.
#[derive(Clone, Debug)]
pub struct TrendingPlayer {
    pub player_id: String,
    pub count: u32,
}

} // verus!
