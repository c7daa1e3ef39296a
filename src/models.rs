pub mod league;
pub mod matchup;
pub mod player;
pub mod playoff;
pub mod positions;
pub mod roster;
pub mod state;
pub mod user;
