use vstd::prelude::*;

use crate::ids::{contains_name, names_contain};

verus! {

/// One roster's week: its players, its starters, and the points they
/// scored. Points are in hundredths of a point.
#[derive(Clone, Debug)]
pub struct Matchup {
    pub starters: Vec<String>,
    pub roster_id: u32,
    pub players: Vec<String>,
    pub matchup_id: u16,
    /// The total of the starters, under the league's scoring.
    pub points: i64,
    /// A total that the commissioner set by hand, if any.
    pub custom_points: Option<i64>,
    /// The points of each player, by player id.
    pub players_points: Vec<(String, i64)>,
    pub starters_points: Vec<i64>,
}

/// The players among the first `n` of `players` that are not starters, in
/// their order.
pub open spec fn bench_of(players: Seq<String>, starters: Seq<String>, n: int) -> Seq<Seq<char>>
    decreases n,
{
    if n <= 0 {
        seq![]
    } else {
        let prev = bench_of(players, starters, n - 1);
        if names_contain(starters, players[n - 1]@) {
            prev
        } else {
            prev.push(players[n - 1]@)
        }
    }
}

impl Matchup {
    pub fn bench_players(&self) -> (r: Vec<String>)
        ensures
            r@.map_values(|s: String| s@) == bench_of(self.players@, self.starters@, self.players@.len() as int),
    {
        let mut out: Vec<String> = Vec::new();
        let mut i: usize = 0;
        while i < self.players.len()
            invariant
                0 <= i <= self.players@.len(),
                out@.map_values(|s: String| s@) == bench_of(self.players@, self.starters@, i as int),
            decreases self.players@.len() - i,
        {
            if !contains_name(&self.starters, &self.players[i]) {
                let ghost before = out@;
                out.push(self.players[i].clone());
                proof {
                    assert(out@.map_values(|s: String| s@) =~= before.map_values(|s: String| s@).push(
                        self.players@[i as int]@,
                    ));
                }
            }
            i += 1;
        }
        out
    }
}

} // verus!
