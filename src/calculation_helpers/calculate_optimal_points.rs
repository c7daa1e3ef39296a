use vstd::prelude::*;

use crate::demand::{demand_list, slot_demands};
use crate::ids::names_contain;
use crate::lineup::{
    abs, abs_points, as_index, assign, lineup_spec, points_fit, pool, PlayerView, ScoredPlayer,
};
use crate::models::matchup::Matchup;
use crate::models::player::PlayerDetails;
use crate::models::roster::Roster;
use crate::models::positions::{PositionKind, RosterPosition};
use crate::text::{append_decimal, append_points, decimal, points_text};

verus! {

/// The best score a roster could have had in one week, beside the score
/// it had. Points are in hundredths of a point.
#[derive(Clone, Debug)]
pub struct OptimalScoreForMatchup {
    pub matchup_id: u16,
    pub roster_id: u32,
    pub owner_id: String,
    pub actual_points: i64,
    pub optimal_points: i64,
}

/// How an optimal score reads on the console.
pub open spec fn optimal_score_text(o: OptimalScoreForMatchup) -> Seq<char> {
    "Matchup ID: "@ + decimal(o.matchup_id as nat) + ", Roster ID: "@ + decimal(o.roster_id as nat) + ", Owner ID: "@
        + o.owner_id@ + ", Actual Points: "@ + points_text(o.actual_points as int) + ", Optimal Points: "@
        + points_text(o.optimal_points as int)
}

impl OptimalScoreForMatchup {
    pub fn describe(&self) -> (s: String)
        ensures
            s@ == optimal_score_text(*self),
    {
        let mut s = String::from_str("Matchup ID: ");
        append_decimal(&mut s, self.matchup_id as u128);
        s.append(", Roster ID: ");
        append_decimal(&mut s, self.roster_id as u128);
        s.append(", Owner ID: ");
        s.append(self.owner_id.as_str());
        s.append(", Actual Points: ");
        append_points(&mut s, self.actual_points as i128);
        s.append(", Optimal Points: ");
        append_points(&mut s, self.optimal_points as i128);
        s
    }
}

/// The first of the first `n` catalog entries that describes player `id`.
pub open spec fn catalog_index(catalog: Seq<PlayerDetails>, id: Seq<char>, n: int) -> Option<int>
    decreases n,
{
    if n <= 0 {
        None
    } else {
        match catalog_index(catalog, id, n - 1) {
            Some(i) => Some(i),
            None => if catalog[n - 1].player_id@ == id {
                Some(n - 1)
            } else {
                None
            },
        }
    }
}

/// The first of the first `n` point entries that belongs to player `id`.
pub open spec fn points_index(pts: Seq<(String, i64)>, id: Seq<char>, n: int) -> Option<int>
    decreases n,
{
    if n <= 0 {
        None
    } else {
        match points_index(pts, id, n - 1) {
            Some(i) => Some(i),
            None => if pts[n - 1].0@ == id {
                Some(n - 1)
            } else {
                None
            },
        }
    }
}

/// The positions that the first `n` roster positions stand for, in order.
pub open spec fn flat_positions(fp: Seq<RosterPosition>, n: int) -> Seq<PositionKind>
    decreases n,
{
    if n <= 0 {
        seq![]
    } else {
        flat_positions(fp, n - 1) + fp[n - 1].positions_spec()
    }
}

/// The positions a catalog entry lets its player fill.
pub open spec fn catalog_positions(d: PlayerDetails) -> Seq<PositionKind> {
    match d.fantasy_positions {
        Some(v) => flat_positions(v@, v@.len() as int),
        None => seq![],
    }
}

/// The scored players among the first `n` roster ids: each id once, in
/// roster order, if both the catalog and the week's points know it.
pub open spec fn projection(
    catalog: Seq<PlayerDetails>,
    ids: Seq<String>,
    pts: Seq<(String, i64)>,
    n: int,
) -> Seq<PlayerView>
    decreases n,
{
    if n <= 0 {
        seq![]
    } else {
        let prev = projection(catalog, ids, pts, n - 1);
        let id = ids[n - 1]@;
        if names_contain(ids.subrange(0, n - 1), id) {
            prev
        } else {
            match (catalog_index(catalog, id, catalog.len() as int), points_index(pts, id, pts.len() as int)) {
                (Some(c), Some(q)) => prev.push(
                    PlayerView { id, positions: catalog_positions(catalog[c]), points: pts[q].1 as int },
                ),
                _ => prev,
            }
        }
    }
}

/// The players of a roster that took part in a week; none if the roster
/// lists no players.
pub open spec fn roster_pool(
    catalog: Seq<PlayerDetails>,
    roster_players: Option<Vec<String>>,
    pts: Seq<(String, i64)>,
) -> Seq<PlayerView> {
    match roster_players {
        Some(v) => projection(catalog, v@, pts, v@.len() as int),
        None => seq![],
    }
}

fn find_in_catalog(catalog: &Vec<PlayerDetails>, id: &String) -> (r: Option<usize>)
    ensures
        as_index(r) == catalog_index(catalog@, id@, catalog@.len() as int),
        r matches Some(i) ==> i < catalog@.len(),
{
    let mut i: usize = 0;
    while i < catalog.len()
        invariant
            0 <= i <= catalog@.len(),
            catalog_index(catalog@, id@, i as int) is None,
        decreases catalog@.len() - i,
    {
        if catalog[i].player_id == *id {
            proof {
                lemma_catalog_index_stays(catalog@, id@, i + 1, catalog@.len() as int);
            }
            return Some(i);
        }
        i += 1;
    }
    None
}

proof fn lemma_catalog_index_stays(catalog: Seq<PlayerDetails>, id: Seq<char>, m: int, n: int)
    requires
        m <= n,
        catalog_index(catalog, id, m) is Some,
    ensures
        catalog_index(catalog, id, n) == catalog_index(catalog, id, m),
    decreases n - m,
{
    if n > m {
        lemma_catalog_index_stays(catalog, id, m, n - 1);
    }
}

proof fn lemma_points_index_stays(pts: Seq<(String, i64)>, id: Seq<char>, m: int, n: int)
    requires
        m <= n,
        points_index(pts, id, m) is Some,
    ensures
        points_index(pts, id, n) == points_index(pts, id, m),
    decreases n - m,
{
    if n > m {
        lemma_points_index_stays(pts, id, m, n - 1);
    }
}

fn find_points(pts: &Vec<(String, i64)>, id: &String) -> (r: Option<usize>)
    ensures
        as_index(r) == points_index(pts@, id@, pts@.len() as int),
        r matches Some(i) ==> i < pts@.len(),
{
    let mut i: usize = 0;
    while i < pts.len()
        invariant
            0 <= i <= pts@.len(),
            points_index(pts@, id@, i as int) is None,
        decreases pts@.len() - i,
    {
        if pts[i].0 == *id {
            proof {
                lemma_points_index_stays(pts@, id@, i + 1, pts@.len() as int);
            }
            return Some(i);
        }
        i += 1;
    }
    None
}

fn positions_of(d: &PlayerDetails) -> (r: Vec<PositionKind>)
    ensures
        r@ == catalog_positions(*d),
{
    match &d.fantasy_positions {
        None => Vec::new(),
        Some(fp) => {
            let mut out: Vec<PositionKind> = Vec::new();
            let mut i: usize = 0;
            while i < fp.len()
                invariant
                    0 <= i <= fp@.len(),
                    out@ == flat_positions(fp@, i as int),
                decreases fp@.len() - i,
            {
                let mut more = fp[i].eligible_positions();
                out.append(&mut more);
                i += 1;
            }
            out
        },
    }
}

/// Whether one of the first `n` strings of `v` reads `x`.
fn contains_name_before(v: &Vec<String>, x: &String, n: usize) -> (r: bool)
    requires
        n <= v@.len(),
    ensures
        r == names_contain(v@.subrange(0, n as int), x@),
{
    let mut j: usize = 0;
    while j < n
        invariant
            0 <= j <= n <= v@.len(),
            forall|m: int| 0 <= m < j ==> (#[trigger] v@[m])@ != x@,
        decreases n - j,
    {
        if v[j] == *x {
            assert(v@.subrange(0, n as int)[j as int] == v@[j as int]);
            return true;
        }
        j += 1;
    }
    proof {
        assert forall|m: int| 0 <= m < n implies (#[trigger] v@.subrange(0, n as int)[m])@ != x@ by {
            assert(v@.subrange(0, n as int)[m] == v@[m]);
        }
    }
    false
}

/// The scored players of one roster in one week: the roster's players that
/// the catalog describes and that have points that week, each once, in
/// roster order.
pub fn scored_players(
    catalog: &Vec<PlayerDetails>,
    roster_players: &Option<Vec<String>>,
    points: &Vec<(String, i64)>,
) -> (r: Vec<ScoredPlayer>)
    ensures
        pool(r@) == roster_pool(catalog@, *roster_players, points@),
{
    let mut out: Vec<ScoredPlayer> = Vec::new();
    match roster_players {
        None => {
            assert(pool(out@) =~= Seq::<PlayerView>::empty());
            out
        },
        Some(ids) => {
            let mut i: usize = 0;
            while i < ids.len()
                invariant
                    0 <= i <= ids@.len(),
                    pool(out@) == projection(catalog@, ids@, points@, i as int),
                decreases ids@.len() - i,
            {
                let id = &ids[i];
                if !contains_name_before(ids, id, i) {
                    let c = find_in_catalog(catalog, id);
                    let q = find_points(points, id);
                    if let (Some(c), Some(q)) = (c, q) {
                        let p = ScoredPlayer {
                            player_id: id.clone(),
                            positions: positions_of(&catalog[c]),
                            points: points[q].1,
                        };
                        let ghost before = out@;
                        out.push(p);
                        proof {
                            assert(pool(out@) =~= pool(before).push(p@));
                        }
                    }
                }
                i += 1;
            }
            out
        },
    }
}

/// Whether the players' points can be summed in any selection without
/// leaving the range of `i64`.
pub fn points_in_range(players: &Vec<ScoredPlayer>) -> (r: bool)
    ensures
        r == points_fit(pool(players@)),
{
    let ghost ps = pool(players@);
    let mut sum: i128 = 0;
    let mut i: usize = 0;
    while i < players.len()
        invariant
            0 <= i <= players@.len(),
            ps == pool(players@),
            sum == abs_points(ps, i as int),
            sum <= i64::MAX,
        decreases players@.len() - i,
    {
        let p = players[i].points;
        let a: i128 = if p < 0 { -(p as i128) } else { p as i128 };
        assert(a == abs(ps[i as int].points));
        sum = sum + a;
        if sum > i64::MAX as i128 {
            proof {
                lemma_abs_points_grows(ps, i + 1, ps.len() as int);
            }
            return false;
        }
        i += 1;
    }
    true
}

proof fn lemma_abs_points_grows(ps: Seq<PlayerView>, m: int, n: int)
    requires
        0 <= m <= n <= ps.len(),
    ensures
        abs_points(ps, m) <= abs_points(ps, n),
    decreases n - m,
{
    if n > m {
        lemma_abs_points_grows(ps, m, n - 1);
    }
}

/// The optimal score of one roster in one week, beside its actual score.
/// It fails when the players' points are too large to be summed.
pub fn optimal_score_for_matchup(
    matchup: &Matchup,
    roster: &Roster,
    players: &Vec<PlayerDetails>,
    league_positions: &Vec<RosterPosition>,
) -> (r: Option<OptimalScoreForMatchup>)
    ensures
        ({
            let ps = roster_pool(players@, roster.players, matchup.players_points@);
            match r {
                Some(o) => {
                    &&& points_fit(ps)
                    &&& o.optimal_points == lineup_spec(ps, demand_list(league_positions@)).total
                    &&& o.actual_points == matchup.points
                    &&& o.matchup_id == matchup.matchup_id
                    &&& o.roster_id == roster.roster_id
                    &&& o.owner_id@ == roster.owner_id@
                },
                None => !points_fit(ps),
            }
        }),
{
    let pool_players = scored_players(players, &roster.players, &matchup.players_points);
    if !points_in_range(&pool_players) {
        return None;
    }
    let demands = slot_demands(league_positions);
    let lineup = assign(&demands, &pool_players);
    Some(
        OptimalScoreForMatchup {
            matchup_id: matchup.matchup_id,
            roster_id: roster.roster_id,
            owner_id: roster.owner_id.clone(),
            actual_points: matchup.points,
            optimal_points: lineup.total,
        },
    )
}

} // verus!
