use vstd::prelude::*;

use super::calculate_optimal_points::{optimal_score_for_matchup, roster_pool};
use super::report::Report;
use crate::demand::demand_list;
use crate::lineup::{as_index, lineup_spec, points_fit};
use crate::models::league::League;
use crate::models::matchup::Matchup;
use crate::models::player::PlayerDetails;
use crate::models::roster::Roster;
use crate::models::user::LeagueUser;

verus! {

/// Why a week's ranking could not be computed.
#[derive(Clone, Debug)]
pub enum BenchKingError {
    /// A matchup names a roster that the league does not have.
    MissingRoster { roster_id: u32 },
    /// A roster names an owner who is not a member of the league.
    MissingOwner { owner_id: String },
    /// A roster's points are too large to be summed.
    PointsOutOfRange { roster_id: u32 },
}

/// The first of the first `n` rosters with id `id`.
pub open spec fn roster_index(rosters: Seq<Roster>, id: u32, n: int) -> Option<int>
    decreases n,
{
    if n <= 0 {
        None
    } else {
        match roster_index(rosters, id, n - 1) {
            Some(i) => Some(i),
            None => if rosters[n - 1].roster_id == id {
                Some(n - 1)
            } else {
                None
            },
        }
    }
}

/// The first of the first `n` league members with user id `id`.
pub open spec fn owner_index(owners: Seq<LeagueUser>, id: Seq<char>, n: int) -> Option<int>
    decreases n,
{
    if n <= 0 {
        None
    } else {
        match owner_index(owners, id, n - 1) {
            Some(i) => Some(i),
            None => if owners[n - 1].user_id@ == id {
                Some(n - 1)
            } else {
                None
            },
        }
    }
}

/// The report of one matchup, or why there is none.
pub open spec fn week_line(
    m: Matchup,
    rosters: Seq<Roster>,
    players: Seq<PlayerDetails>,
    league: League,
    owners: Seq<LeagueUser>,
) -> Result<Report, BenchKingError> {
    match roster_index(rosters, m.roster_id, rosters.len() as int) {
        None => Err(BenchKingError::MissingRoster { roster_id: m.roster_id }),
        Some(ri) => {
            let roster = rosters[ri];
            let ps = roster_pool(players, roster.players, m.players_points@);
            if !points_fit(ps) {
                Err(BenchKingError::PointsOutOfRange { roster_id: roster.roster_id })
            } else {
                match owner_index(owners, roster.owner_id@, owners.len() as int) {
                    None => Err(BenchKingError::MissingOwner { owner_id: roster.owner_id }),
                    Some(oi) => Ok(
                        Report {
                            owner_name: owners[oi].display_name,
                            optimal_points: lineup_spec(ps, demand_list(league.roster_positions@)).total as i64,
                            actual_points: m.points,
                        },
                    ),
                }
            }
        },
    }
}

/// The reports of the first `n` matchups, or the failure of the first
/// matchup that has none.
pub open spec fn week_lines(
    ms: Seq<Matchup>,
    rosters: Seq<Roster>,
    players: Seq<PlayerDetails>,
    league: League,
    owners: Seq<LeagueUser>,
    n: int,
) -> Result<Seq<Report>, BenchKingError>
    decreases n,
{
    if n <= 0 {
        Ok(seq![])
    } else {
        match week_lines(ms, rosters, players, league, owners, n - 1) {
            Err(e) => Err(e),
            Ok(v) => match week_line(ms[n - 1], rosters, players, league, owners) {
                Err(e) => Err(e),
                Ok(line) => Ok(v.push(line)),
            },
        }
    }
}

fn find_roster(rosters: &Vec<Roster>, id: u32) -> (r: Option<usize>)
    ensures
        as_index(r) == roster_index(rosters@, id, rosters@.len() as int),
        r matches Some(i) ==> i < rosters@.len(),
{
    let mut i: usize = 0;
    while i < rosters.len()
        invariant
            0 <= i <= rosters@.len(),
            roster_index(rosters@, id, i as int) is None,
        decreases rosters@.len() - i,
    {
        if rosters[i].roster_id == id {
            proof {
                lemma_roster_index_stays(rosters@, id, i + 1, rosters@.len() as int);
            }
            return Some(i);
        }
        i += 1;
    }
    None
}

proof fn lemma_roster_index_stays(rosters: Seq<Roster>, id: u32, m: int, n: int)
    requires
        m <= n,
        roster_index(rosters, id, m) is Some,
    ensures
        roster_index(rosters, id, n) == roster_index(rosters, id, m),
    decreases n - m,
{
    if n > m {
        lemma_roster_index_stays(rosters, id, m, n - 1);
    }
}

fn find_owner(owners: &Vec<LeagueUser>, id: &String) -> (r: Option<usize>)
    ensures
        as_index(r) == owner_index(owners@, id@, owners@.len() as int),
        r matches Some(i) ==> i < owners@.len(),
{
    let mut i: usize = 0;
    while i < owners.len()
        invariant
            0 <= i <= owners@.len(),
            owner_index(owners@, id@, i as int) is None,
        decreases owners@.len() - i,
    {
        if owners[i].user_id == *id {
            proof {
                lemma_owner_index_stays(owners@, id@, i + 1, owners@.len() as int);
            }
            return Some(i);
        }
        i += 1;
    }
    None
}

proof fn lemma_owner_index_stays(owners: Seq<LeagueUser>, id: Seq<char>, m: int, n: int)
    requires
        m <= n,
        owner_index(owners, id, m) is Some,
    ensures
        owner_index(owners, id, n) == owner_index(owners, id, m),
    decreases n - m,
{
    if n > m {
        lemma_owner_index_stays(owners, id, m, n - 1);
    }
}

/// The report of one matchup: its roster's owner, the optimal score of the
/// roster that week and the score it had.
fn matchup_line(
    m: &Matchup,
    rosters: &Vec<Roster>,
    players: &Vec<PlayerDetails>,
    league: &League,
    owners: &Vec<LeagueUser>,
) -> (r: Result<Report, BenchKingError>)
    ensures
        r == week_line(*m, rosters@, players@, *league, owners@),
{
    let ri = match find_roster(rosters, m.roster_id) {
        None => {
            return Err(BenchKingError::MissingRoster { roster_id: m.roster_id });
        },
        Some(ri) => ri,
    };
    let roster = &rosters[ri];
    let optimal = match optimal_score_for_matchup(m, roster, players, &league.roster_positions) {
        None => {
            return Err(BenchKingError::PointsOutOfRange { roster_id: roster.roster_id });
        },
        Some(o) => o,
    };
    match find_owner(owners, &roster.owner_id) {
        None => Err(BenchKingError::MissingOwner { owner_id: roster.owner_id.clone() }),
        Some(oi) => Ok(
            Report {
                owner_name: owners[oi].display_name.clone(),
                optimal_points: optimal.optimal_points,
                actual_points: optimal.actual_points,
            },
        ),
    }
}

/// The reports of a week, one per matchup in order: the owner of the
/// matchup's roster, the roster's optimal score and its actual score. Fails
/// with the error of the first matchup that has no report.
pub fn calculate_bench_king_for_week(
    matchups: Vec<Matchup>,
    rosters: &Vec<Roster>,
    players: &Vec<PlayerDetails>,
    league: &League,
    owners: &Vec<LeagueUser>,
) -> (r: Result<Vec<Report>, BenchKingError>)
    ensures
        match (r, week_lines(matchups@, rosters@, players@, *league, owners@, matchups@.len() as int)) {
            (Ok(v), Ok(s)) => v@ == s,
            (Err(e), Err(f)) => e == f,
            _ => false,
        },
{
    let mut out: Vec<Report> = Vec::new();
    let mut i: usize = 0;
    while i < matchups.len()
        invariant
            0 <= i <= matchups@.len(),
            week_lines(matchups@, rosters@, players@, *league, owners@, i as int) == Ok::<
                Seq<Report>,
                BenchKingError,
            >(out@),
        decreases matchups@.len() - i,
    {
        match matchup_line(&matchups[i], rosters, players, league, owners) {
            Err(e) => {
                proof {
                    lemma_week_lines_fail(matchups@, rosters@, players@, *league, owners@, i + 1, matchups@.len() as int);
                }
                return Err(e);
            },
            Ok(line) => {
                out.push(line);
            },
        }
        i += 1;
    }
    Ok(out)
}

proof fn lemma_week_lines_fail(
    ms: Seq<Matchup>,
    rosters: Seq<Roster>,
    players: Seq<PlayerDetails>,
    league: League,
    owners: Seq<LeagueUser>,
    m: int,
    n: int,
)
    requires
        m <= n,
        week_lines(ms, rosters, players, league, owners, m) is Err,
    ensures
        week_lines(ms, rosters, players, league, owners, n) == week_lines(ms, rosters, players, league, owners, m),
    decreases n - m,
{
    if n > m {
        lemma_week_lines_fail(ms, rosters, players, league, owners, m, n - 1);
    }
}

} // verus!
