use vstd::prelude::*;

use crate::models::positions::{PositionKind, RosterPosition};

verus! {

/// A player of one roster in one week: who, what positions, and how many
/// points (in hundredths of a point) the player scored.
#[derive(Clone, Debug)]
pub struct ScoredPlayer {
    pub player_id: String,
    pub positions: Vec<PositionKind>,
    pub points: i64,
}

/// How many starters of one slot kind a league requires.
#[derive(Clone, Copy, Debug, PartialEq, Eq, Structural)]
pub struct SlotDemand {
    pub slot: RosterPosition,
    pub count: usize,
}

/// The players put into one slot kind, best first.
#[derive(Clone, Debug)]
pub struct SlotLineup {
    pub slot: RosterPosition,
    pub player_ids: Vec<String>,
}

/// A lineup: the players of each slot, in the order the slots were filled,
/// and the points they score together.
#[derive(Clone, Debug)]
pub struct LineupAssignment {
    pub slots: Vec<SlotLineup>,
    pub total: i64,
}

/// The mathematical content of a scored player.
pub struct PlayerView {
    pub id: Seq<char>,
    pub positions: Seq<PositionKind>,
    pub points: int,
}

impl View for ScoredPlayer {
    type V = PlayerView;

    open spec fn view(&self) -> PlayerView {
        PlayerView { id: self.player_id@, positions: self.positions@, points: self.points as int }
    }
}

/// The view of a sequence of players.
pub open spec fn pool(v: Seq<ScoredPlayer>) -> Seq<PlayerView> {
    v.map_values(|p: ScoredPlayer| p@)
}

/// The mathematical content of a lineup.
pub struct LineupView {
    pub slots: Seq<(RosterPosition, Seq<Seq<char>>)>,
    pub total: int,
}

impl View for LineupAssignment {
    type V = LineupView;

    open spec fn view(&self) -> LineupView {
        LineupView {
            slots: self.slots@.map_values(
                |s: SlotLineup| (s.slot, s.player_ids@.map_values(|id: String| id@)),
            ),
            total: self.total as int,
        }
    }
}

/// Whether `p` holds a position that `slot` accepts.
pub open spec fn eligible(p: PlayerView, slot: RosterPosition) -> bool {
    exists|j: int| 0 <= j < p.positions.len() && slot.accepts_spec(#[trigger] p.positions[j])
}

/// Whether player `i` may still be put into `slot`.
pub open spec fn available(
    ps: Seq<PlayerView>,
    used: Set<Seq<char>>,
    slot: RosterPosition,
    i: int,
) -> bool {
    !used.contains(ps[i].id) && eligible(ps[i], slot)
}

/// Among the first `n` players, the available one with the most points; of
/// equal points, the one that comes first.
pub open spec fn best_in_prefix(
    ps: Seq<PlayerView>,
    used: Set<Seq<char>>,
    slot: RosterPosition,
    n: int,
) -> Option<int>
    decreases n,
{
    if n <= 0 {
        None
    } else {
        let prev = best_in_prefix(ps, used, slot, n - 1);
        if available(ps, used, slot, n - 1) && (prev is None || ps[n - 1].points > ps[prev->0].points) {
            Some(n - 1)
        } else {
            prev
        }
    }
}

/// The player that the next round of filling `slot` takes, if any.
pub open spec fn best_candidate(ps: Seq<PlayerView>, used: Set<Seq<char>>, slot: RosterPosition) -> Option<int> {
    best_in_prefix(ps, used, slot, ps.len() as int)
}

/// The state of the draft while one slot kind is filled.
pub struct SlotFill {
    pub picked: Seq<int>,
    pub used: Set<Seq<char>>,
    pub total: int,
}

/// The state after `k` rounds of filling `slot`, starting from the players
/// named in `used` and a running total: each round takes the best
/// available player, and a round with none available changes nothing.
pub open spec fn fill(
    ps: Seq<PlayerView>,
    slot: RosterPosition,
    used: Set<Seq<char>>,
    total: int,
    k: nat,
) -> SlotFill
    decreases k,
{
    if k == 0 {
        SlotFill { picked: seq![], used, total }
    } else {
        let prev = fill(ps, slot, used, total, (k - 1) as nat);
        match best_candidate(ps, prev.used, slot) {
            None => prev,
            Some(i) => SlotFill {
                picked: prev.picked.push(i),
                used: prev.used.insert(ps[i].id),
                total: prev.total + ps[i].points,
            },
        }
    }
}

/// The draft after the first `n` slot demands were filled, in order.
pub struct Draft {
    pub picks: Seq<Seq<int>>,
    pub used: Set<Seq<char>>,
    pub total: int,
}

/// The state after the first `n` slot demands were filled, in order, from
/// a fresh pool.
pub open spec fn draft(ps: Seq<PlayerView>, ds: Seq<SlotDemand>, n: int) -> Draft
    decreases n,
{
    if n <= 0 {
        Draft { picks: seq![], used: Set::empty(), total: 0 }
    } else {
        let prev = draft(ps, ds, n - 1);
        let f = fill(ps, ds[n - 1].slot, prev.used, prev.total, ds[n - 1].count as nat);
        Draft { picks: prev.picks.push(f.picked), used: f.used, total: f.total }
    }
}

/// The draft of all slot demands.
pub open spec fn full_draft(ps: Seq<PlayerView>, ds: Seq<SlotDemand>) -> Draft {
    draft(ps, ds, ds.len() as int)
}

/// The lineup that the greedy assignment yields.
pub open spec fn lineup_spec(ps: Seq<PlayerView>, ds: Seq<SlotDemand>) -> LineupView {
    let d = full_draft(ps, ds);
    LineupView {
        slots: Seq::new(
            ds.len(),
            |k: int| (ds[k].slot, d.picks[k].map_values(|i: int| ps[i].id)),
        ),
        total: d.total,
    }
}

/// The points of the players at the given indices.
pub open spec fn points_of(ps: Seq<PlayerView>, idx: Seq<int>) -> int
    decreases idx.len(),
{
    if idx.len() == 0 {
        0
    } else {
        points_of(ps, idx.drop_last()) + ps[idx.last()].points
    }
}

/// The points of all players in a list of slots.
pub open spec fn points_of_all(ps: Seq<PlayerView>, picks: Seq<Seq<int>>) -> int
    decreases picks.len(),
{
    if picks.len() == 0 {
        0
    } else {
        points_of_all(ps, picks.drop_last()) + points_of(ps, picks.last())
    }
}

/// The sum of the absolute point values of the first `n` players.
pub open spec fn abs_points(ps: Seq<PlayerView>, n: int) -> int
    decreases n,
{
    if n <= 0 {
        0
    } else {
        abs_points(ps, n - 1) + abs(ps[n - 1].points)
    }
}

/// The sum of the absolute point values of the first `n` players whose id
/// is in `used`.
pub open spec fn abs_points_used(ps: Seq<PlayerView>, used: Set<Seq<char>>, n: int) -> int
    decreases n,
{
    if n <= 0 {
        0
    } else {
        abs_points_used(ps, used, n - 1) + if used.contains(ps[n - 1].id) {
            abs(ps[n - 1].points)
        } else {
            0
        }
    }
}

/// The absolute value of `x`.
pub open spec fn abs(x: int) -> int {
    if x < 0 { -x } else { x }
}

/// Whether any sum of the players' points fits in an `i64`.
pub open spec fn points_fit(ps: Seq<PlayerView>) -> bool {
    abs_points(ps, ps.len() as int) <= i64::MAX
}

/// An optional index as a mathematical integer.
pub open spec fn as_index(o: Option<usize>) -> Option<int> {
    match o {
        None => None,
        Some(i) => Some(i as int),
    }
}

/// What the running best of a scan says of the players scanned so far.
pub proof fn lemma_best_in_prefix(ps: Seq<PlayerView>, used: Set<Seq<char>>, slot: RosterPosition, n: int)
    requires
        0 <= n <= ps.len(),
    ensures
        match best_in_prefix(ps, used, slot, n) {
            None => forall|j: int| 0 <= j < n ==> !#[trigger] available(ps, used, slot, j),
            Some(b) => {
                &&& 0 <= b < n
                &&& available(ps, used, slot, b)
                &&& forall|j: int|
                    0 <= j < n && #[trigger] available(ps, used, slot, j) ==> ps[j].points <= ps[b].points
                &&& forall|j: int|
                    0 <= j < b && #[trigger] available(ps, used, slot, j) ==> ps[j].points < ps[b].points
            },
        },
    decreases n,
{
    if n > 0 {
        lemma_best_in_prefix(ps, used, slot, n - 1);
    }
}

/// Once no player is available for a slot, further rounds change nothing.
proof fn lemma_fill_settles(
    ps: Seq<PlayerView>,
    slot: RosterPosition,
    used: Set<Seq<char>>,
    total: int,
    t: nat,
    k: nat,
)
    requires
        t <= k,
        best_candidate(ps, fill(ps, slot, used, total, t).used, slot) is None,
    ensures
        fill(ps, slot, used, total, k) == fill(ps, slot, used, total, t),
    decreases k - t,
{
    if k > t {
        lemma_fill_settles(ps, slot, used, total, t, (k - 1) as nat);
    }
}

proof fn lemma_abs_points_used_bounded(ps: Seq<PlayerView>, used: Set<Seq<char>>, n: int)
    requires
        0 <= n <= ps.len(),
    ensures
        0 <= abs_points_used(ps, used, n) <= abs_points(ps, n),
    decreases n,
{
    if n > 0 {
        lemma_abs_points_used_bounded(ps, used, n - 1);
    }
}

proof fn lemma_abs_points_used_insert(
    ps: Seq<PlayerView>,
    used: Set<Seq<char>>,
    i: int,
    n: int,
)
    requires
        0 <= n <= ps.len(),
        0 <= i < ps.len(),
        !used.contains(ps[i].id),
    ensures
        abs_points_used(ps, used.insert(ps[i].id), n) >= abs_points_used(ps, used, n) + if i < n {
            abs(ps[i].points)
        } else {
            0
        },
    decreases n,
{
    if n > 0 {
        lemma_abs_points_used_insert(ps, used, i, n - 1);
    }
}

fn is_eligible(p: &ScoredPlayer, slot: RosterPosition) -> (r: bool)
    ensures
        r == eligible(p@, slot),
{
    let mut j: usize = 0;
    while j < p.positions.len()
        invariant
            0 <= j <= p.positions@.len(),
            p@.positions == p.positions@,
            forall|m: int| 0 <= m < j ==> !slot.accepts_spec(#[trigger] p@.positions[m]),
        decreases p.positions@.len() - j,
    {
        if slot.accepts(p.positions[j]) {
            assert(slot.accepts_spec(p@.positions[j as int]));
            return true;
        }
        j += 1;
    }
    false
}

fn find_best(
    players: &Vec<ScoredPlayer>,
    taken: &Vec<bool>,
    slot: RosterPosition,
    Ghost(used): Ghost<Set<Seq<char>>>,
) -> (r: Option<usize>)
    requires
        taken@.len() == players@.len(),
        forall|i: int| 0 <= i < players@.len() ==> taken@[i] == used.contains(#[trigger] pool(players@)[i].id),
    ensures
        as_index(r) == best_candidate(pool(players@), used, slot),
{
    let mut best: Option<usize> = None;
    let mut i: usize = 0;
    while i < players.len()
        invariant
            0 <= i <= players@.len(),
            taken@.len() == players@.len(),
            forall|m: int| 0 <= m < players@.len() ==> taken@[m] == used.contains(#[trigger] pool(players@)[m].id),
            as_index(best) == best_in_prefix(pool(players@), used, slot, i as int),
            match best { None => true, Some(b) => b < i },
        decreases players@.len() - i,
    {
        if !taken[i] && is_eligible(&players[i], slot) {
            match best {
                None => {
                    best = Some(i);
                },
                Some(b) => {
                    if players[i].points > players[b].points {
                        best = Some(i);
                    }
                },
            }
        }
        i += 1;
    }
    best
}

/// Marks as taken every player that carries the id of player `i`.
fn mark_taken(
    players: &Vec<ScoredPlayer>,
    taken: &mut Vec<bool>,
    i: usize,
    Ghost(used): Ghost<Set<Seq<char>>>,
)
    requires
        i < players@.len(),
        old(taken)@.len() == players@.len(),
        forall|m: int| 0 <= m < players@.len() ==> old(taken)@[m] == used.contains(#[trigger] pool(players@)[m].id),
    ensures
        final(taken)@.len() == players@.len(),
        forall|m: int|
            0 <= m < players@.len() ==> final(taken)@[m] == used.insert(pool(players@)[i as int].id).contains(
                #[trigger] pool(players@)[m].id,
            ),
{
    let ghost new_used = used.insert(pool(players@)[i as int].id);
    let mut j: usize = 0;
    while j < players.len()
        invariant
            0 <= j <= players@.len(),
            i < players@.len(),
            new_used == used.insert(pool(players@)[i as int].id),
            taken@.len() == players@.len(),
            forall|m: int| 0 <= m < j ==> taken@[m] == new_used.contains(#[trigger] pool(players@)[m].id),
            forall|m: int| j <= m < players@.len() ==> taken@[m] == used.contains(#[trigger] pool(players@)[m].id),
        decreases players@.len() - j,
    {
        if players[j].player_id == players[i].player_id {
            taken.set(j, true);
        }
        j += 1;
    }
}

/// Fills one slot kind: up to `count` rounds, each taking the best player
/// still available.
fn fill_slot(
    players: &Vec<ScoredPlayer>,
    taken: &mut Vec<bool>,
    total: &mut i64,
    demand: SlotDemand,
    Ghost(used): Ghost<Set<Seq<char>>>,
) -> (r: Vec<String>)
    requires
        points_fit(pool(players@)),
        old(taken)@.len() == players@.len(),
        forall|m: int| 0 <= m < players@.len() ==> old(taken)@[m] == used.contains(#[trigger] pool(players@)[m].id),
        abs(*old(total) as int) <= abs_points_used(pool(players@), used, players@.len() as int),
    ensures
        ({
            let f = fill(pool(players@), demand.slot, used, *old(total) as int, demand.count as nat);
            &&& final(taken)@.len() == players@.len()
            &&& forall|m: int|
                0 <= m < players@.len() ==> final(taken)@[m] == f.used.contains(#[trigger] pool(players@)[m].id)
            &&& *final(total) as int == f.total
            &&& abs(*final(total) as int) <= abs_points_used(pool(players@), f.used, players@.len() as int)
            &&& r@.map_values(|id: String| id@) == f.picked.map_values(|i: int| pool(players@)[i].id)
        }),
{
    let ghost ps = pool(players@);
    let ghost n = players@.len() as int;
    let ghost total0 = *total as int;
    let mut ids: Vec<String> = Vec::new();
    let mut t: usize = 0;
    while t < demand.count
        invariant
            0 <= t <= demand.count,
            ps == pool(players@),
            n == ps.len(),
            points_fit(ps),
            total0 == *old(total) as int,
            taken@.len() == n,
            forall|m: int|
                0 <= m < n ==> taken@[m] == fill(ps, demand.slot, used, total0, t as nat).used.contains(
                    #[trigger] ps[m].id,
                ),
            *total as int == fill(ps, demand.slot, used, total0, t as nat).total,
            abs(*total as int) <= abs_points_used(ps, fill(ps, demand.slot, used, total0, t as nat).used, n),
            ids@.map_values(|id: String| id@) == fill(ps, demand.slot, used, total0, t as nat).picked.map_values(
                |i: int| ps[i].id,
            ),
        decreases demand.count - t,
    {
        let ghost cur = fill(ps, demand.slot, used, total0, t as nat);
        let best = find_best(players, taken, demand.slot, Ghost(cur.used));
        match best {
            None => {
                proof {
                    lemma_fill_settles(ps, demand.slot, used, total0, t as nat, demand.count as nat);
                }
                return ids;
            },
            Some(i) => {
                proof {
                    lemma_best_in_prefix(ps, cur.used, demand.slot, n);
                    lemma_abs_points_used_insert(ps, cur.used, i as int, n);
                    lemma_abs_points_used_bounded(ps, cur.used.insert(ps[i as int].id), n);
                }
                mark_taken(players, taken, i, Ghost(cur.used));
                *total = *total + players[i].points;
                let ghost before = ids@;
                ids.push(players[i].player_id.clone());
                proof {
                    let next = fill(ps, demand.slot, used, total0, (t + 1) as nat);
                    assert(next.picked == cur.picked.push(i as int));
                    assert(before.map_values(|id: String| id@).len() == before.len());
                    assert(before.len() == cur.picked.len());
                    assert forall|j: int| 0 <= j < ids@.len() implies ids@[j]@ == ps[next.picked[j]].id by {
                        if j < before.len() {
                            assert(before.map_values(|id: String| id@)[j] == cur.picked.map_values(
                                |i: int| ps[i].id,
                            )[j]);
                        }
                    }
                    assert(ids@.map_values(|id: String| id@) =~= next.picked.map_values(|i: int| ps[i].id));
                }
            },
        }
        t += 1;
    }
    ids
}

/// Fills the slot demands in the order given, each from the players that
/// earlier slots left, best players first.
pub fn assign(demands: &Vec<SlotDemand>, players: &Vec<ScoredPlayer>) -> (r: LineupAssignment)
    requires
        points_fit(pool(players@)),
    ensures
        r@ == lineup_spec(pool(players@), demands@),
        r.total == points_of_all(pool(players@), full_draft(pool(players@), demands@).picks),
{
    let ghost ps = pool(players@);
    let ghost ds = demands@;
    let ghost n = players@.len() as int;
    let mut taken: Vec<bool> = Vec::new();
    while taken.len() < players.len()
        invariant
            taken@.len() <= players@.len(),
            forall|m: int| 0 <= m < taken@.len() ==> !taken@[m],
        decreases players@.len() - taken@.len(),
    {
        taken.push(false);
    }
    let mut total: i64 = 0;
    let mut slots: Vec<SlotLineup> = Vec::new();
    proof {
        lemma_abs_points_used_bounded(ps, Set::empty(), n);
    }
    let mut k: usize = 0;
    while k < demands.len()
        invariant
            0 <= k <= ds.len(),
            ps == pool(players@),
            ds == demands@,
            n == ps.len(),
            points_fit(ps),
            taken@.len() == n,
            forall|m: int|
                0 <= m < n ==> taken@[m] == draft(ps, ds, k as int).used.contains(#[trigger] ps[m].id),
            total as int == draft(ps, ds, k as int).total,
            abs(total as int) <= abs_points_used(ps, draft(ps, ds, k as int).used, n),
            draft(ps, ds, k as int).picks.len() == k,
            slots@.len() == k,
            forall|j: int|
                0 <= j < k ==> (#[trigger] slots@[j]).slot == ds[j].slot && slots@[j].player_ids@.map_values(
                    |id: String| id@,
                ) == draft(ps, ds, k as int).picks[j].map_values(|i: int| ps[i].id),
        decreases ds.len() - k,
    {
        let demand = demands[k];
        let ids = fill_slot(players, &mut taken, &mut total, demand, Ghost(draft(ps, ds, k as int).used));
        slots.push(SlotLineup { slot: demand.slot, player_ids: ids });
        proof {
            let prev = draft(ps, ds, k as int);
            let next = draft(ps, ds, k + 1);
            assert(next.picks == prev.picks.push(
                fill(ps, ds[k as int].slot, prev.used, prev.total, ds[k as int].count as nat).picked,
            ));
            assert forall|j: int| 0 <= j < k + 1 implies (#[trigger] slots@[j]).slot == ds[j].slot
                && slots@[j].player_ids@.map_values(|id: String| id@) == next.picks[j].map_values(
                |i: int| ps[i].id,
            ) by {
                if j < k {
                    assert(next.picks[j] == prev.picks[j]);
                }
            }
        }
        k += 1;
    }
    let r = LineupAssignment { slots, total };
    proof {
        let spec = lineup_spec(ps, ds);
        assert(r@.slots =~= spec.slots);
        lemma_total_is_points_of_all(ps, ds, ds.len() as int);
    }
    r
}

/// The running total of a draft is the sum of the points of the players it
/// placed.
pub proof fn lemma_total_is_points_of_all(ps: Seq<PlayerView>, ds: Seq<SlotDemand>, n: int)
    requires
        0 <= n <= ds.len(),
    ensures
        draft(ps, ds, n).total == points_of_all(ps, draft(ps, ds, n).picks),
    decreases n,
{
    if n > 0 {
        lemma_total_is_points_of_all(ps, ds, n - 1);
        let prev = draft(ps, ds, n - 1);
        lemma_fill_total(ps, ds[n - 1].slot, prev.used, prev.total, ds[n - 1].count as nat);
        assert(draft(ps, ds, n).picks.drop_last() =~= prev.picks);
    }
}

proof fn lemma_fill_total(ps: Seq<PlayerView>, slot: RosterPosition, used: Set<Seq<char>>, total: int, k: nat)
    ensures
        fill(ps, slot, used, total, k).total == total + points_of(ps, fill(ps, slot, used, total, k).picked),
    decreases k,
{
    if k > 0 {
        lemma_fill_total(ps, slot, used, total, (k - 1) as nat);
        let prev = fill(ps, slot, used, total, (k - 1) as nat);
        if let Some(i) = best_candidate(ps, prev.used, slot) {
            assert(prev.picked.push(i).drop_last() =~= prev.picked);
        }
    }
}

/// Facts of one slot's rounds: at most one player per round, each new to
/// the draft, none twice.
proof fn lemma_fill_fresh(ps: Seq<PlayerView>, slot: RosterPosition, used: Set<Seq<char>>, total: int, k: nat)
    ensures
        ({
            let f = fill(ps, slot, used, total, k);
            &&& f.picked.len() <= k
            &&& used.subset_of(f.used)
            &&& forall|j: int|
                0 <= j < f.picked.len() ==> {
                    &&& 0 <= #[trigger] f.picked[j] < ps.len()
                    &&& f.used.contains(ps[f.picked[j]].id)
                    &&& !used.contains(ps[f.picked[j]].id)
                }
            &&& forall|j1: int, j2: int|
                0 <= j1 < j2 < f.picked.len() ==> ps[#[trigger] f.picked[j1]].id
                    != ps[#[trigger] f.picked[j2]].id
        }),
    decreases k,
{
    if k > 0 {
        lemma_fill_fresh(ps, slot, used, total, (k - 1) as nat);
        let prev = fill(ps, slot, used, total, (k - 1) as nat);
        if let Some(i) = best_candidate(ps, prev.used, slot) {
            lemma_best_in_prefix(ps, prev.used, slot, ps.len() as int);
            let f = fill(ps, slot, used, total, k);
            assert(f.picked == prev.picked.push(i));
            assert forall|j1: int, j2: int| 0 <= j1 < j2 < f.picked.len() implies ps[#[trigger] f.picked[j1]].id
                != ps[#[trigger] f.picked[j2]].id by {
                assert(f.picked[j1] == prev.picked[j1]);
                if j2 < prev.picked.len() {
                    assert(f.picked[j2] == prev.picked[j2]);
                }
            }
            assert forall|j: int| 0 <= j < f.picked.len() implies {
                &&& 0 <= #[trigger] f.picked[j] < ps.len()
                &&& f.used.contains(ps[f.picked[j]].id)
                &&& !used.contains(ps[f.picked[j]].id)
            } by {
                if j < prev.picked.len() {
                    assert(f.picked[j] == prev.picked[j]);
                }
            }
        }
    }
}

/// The facts behind the lineup invariant, for the first `n` slot demands.
proof fn lemma_draft_fresh(ps: Seq<PlayerView>, ds: Seq<SlotDemand>, n: int)
    requires
        0 <= n <= ds.len(),
    ensures
        ({
            let d = draft(ps, ds, n);
            &&& d.picks.len() == n
            &&& forall|k: int| 0 <= k < n ==> (#[trigger] d.picks[k]).len() <= ds[k].count
            &&& forall|k: int, j: int|
                0 <= k < n && 0 <= j < d.picks[k].len() ==> 0 <= #[trigger] d.picks[k][j] < ps.len()
                    && d.used.contains(ps[d.picks[k][j]].id)
            &&& forall|k1: int, j1: int, k2: int, j2: int|
                0 <= k1 < n && 0 <= j1 < d.picks[k1].len() && 0 <= k2 < n && 0 <= j2 < d.picks[k2].len() && (k1
                    != k2 || j1 != j2) ==> ps[#[trigger] d.picks[k1][j1]].id != ps[#[trigger] d.picks[k2][j2]].id
        }),
    decreases n,
{
    if n > 0 {
        lemma_draft_fresh(ps, ds, n - 1);
        let prev = draft(ps, ds, n - 1);
        lemma_fill_fresh(ps, ds[n - 1].slot, prev.used, prev.total, ds[n - 1].count as nat);
        let f = fill(ps, ds[n - 1].slot, prev.used, prev.total, ds[n - 1].count as nat);
        let d = draft(ps, ds, n);
        assert(d.picks == prev.picks.push(f.picked));
        assert forall|k: int| 0 <= k < n implies (#[trigger] d.picks[k]).len() <= ds[k].count by {
            if k < n - 1 {
                assert(d.picks[k] == prev.picks[k]);
            }
        }
        assert forall|k: int, j: int| 0 <= k < n && 0 <= j < d.picks[k].len() implies 0 <= #[trigger] d.picks[k][j]
            < ps.len() && d.used.contains(ps[d.picks[k][j]].id) by {
            if k < n - 1 {
                assert(d.picks[k] == prev.picks[k]);
            } else {
                assert(d.picks[k] == f.picked);
            }
        }
        assert forall|k1: int, j1: int, k2: int, j2: int|
            0 <= k1 < n && 0 <= j1 < d.picks[k1].len() && 0 <= k2 < n && 0 <= j2 < d.picks[k2].len() && (k1 != k2
                || j1 != j2) implies ps[#[trigger] d.picks[k1][j1]].id != ps[#[trigger] d.picks[k2][j2]].id by {
            if k1 < n - 1 {
                assert(d.picks[k1] == prev.picks[k1]);
            } else {
                assert(d.picks[k1] == f.picked);
            }
            if k2 < n - 1 {
                assert(d.picks[k2] == prev.picks[k2]);
            } else {
                assert(d.picks[k2] == f.picked);
            }
            if k1 == n - 1 && k2 == n - 1 {
                if j1 > j2 {
                    assert(ps[f.picked[j2]].id != ps[f.picked[j1]].id);
                }
            }
        }
    }
}

/// A lineup never places one player id twice, neither in two slots nor
/// twice in one slot.
pub proof fn lemma_no_player_twice(
    ps: Seq<PlayerView>,
    ds: Seq<SlotDemand>,
    k1: int,
    j1: int,
    k2: int,
    j2: int,
)
    requires
        0 <= k1 < lineup_spec(ps, ds).slots.len(),
        0 <= j1 < lineup_spec(ps, ds).slots[k1].1.len(),
        0 <= k2 < lineup_spec(ps, ds).slots.len(),
        0 <= j2 < lineup_spec(ps, ds).slots[k2].1.len(),
        k1 != k2 || j1 != j2,
    ensures
        lineup_spec(ps, ds).slots[k1].1[j1] != lineup_spec(ps, ds).slots[k2].1[j2],
{
    lemma_draft_fresh(ps, ds, ds.len() as int);
    let d = full_draft(ps, ds);
    assert(d.picks[k1][j1] == d.picks[k1][j1]);
    assert(d.picks[k2][j2] == d.picks[k2][j2]);
}

/// No slot of a lineup holds more players than its demand asks for.
pub proof fn lemma_slot_within_demand(ps: Seq<PlayerView>, ds: Seq<SlotDemand>, k: int)
    requires
        0 <= k < ds.len(),
    ensures
        lineup_spec(ps, ds).slots[k].0 == ds[k].slot,
        lineup_spec(ps, ds).slots[k].1.len() <= ds[k].count,
{
    lemma_draft_fresh(ps, ds, ds.len() as int);
    assert(full_draft(ps, ds).picks[k].len() <= ds[k].count);
}

/// Two assignments of the same demands and players give the same lineup.
pub proof fn lemma_assign_deterministic(
    ds: Seq<SlotDemand>,
    ps: Seq<PlayerView>,
    r1: LineupAssignment,
    r2: LineupAssignment,
)
    requires
        r1@ == lineup_spec(ps, ds),
        r2@ == lineup_spec(ps, ds),
    ensures
        r1@ == r2@,
{
}

} // verus!
