use vstd::prelude::*;

verus! {

/// Where a team of a playoff matchup comes from.
#[derive(Clone, Copy, Debug, PartialEq, Eq, Structural)]
pub enum BracketProgression {
    RosterId(u8),
    Winner { w: u8 },
    Loser { l: u8 },
}

/// One matchup of a playoff bracket.
#[derive(Clone, Copy, Debug, PartialEq, Eq, Structural)]
pub struct Playoff {
    pub round: u8,
    pub matchup_id: u8,
    /// A roster id, or the winner of an earlier matchup.
    pub roster_id_1_or_winner_matchup: Option<BracketProgression>,
    /// A roster id, or the loser of an earlier matchup.
    pub roster_id_2_or_loser_of_matchup_id: Option<BracketProgression>,
    pub winner: Option<u8>,
    pub loser: Option<u8>,
    pub t1_from: Option<BracketProgression>,
    pub t2_from: Option<BracketProgression>,
}

} // verus!
