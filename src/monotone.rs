use vstd::prelude::*;

use crate::lineup::{
    available, best_candidate, best_in_prefix, draft, eligible, fill, full_draft, lemma_best_in_prefix, Draft,
    PlayerView, SlotDemand,
};
use crate::models::positions::RosterPosition;

verus! {

/// No two players of the pool share an id.
pub open spec fn unique_ids(ps: Seq<PlayerView>) -> bool {
    forall|i: int, j: int| 0 <= i < ps.len() && 0 <= j < ps.len() && i != j ==> ps[i].id != ps[j].id
}

/// The draft of the first `n` slot demands, started from the players named
/// in `used` and a running total.
pub open spec fn draft_from(
    ps: Seq<PlayerView>,
    ds: Seq<SlotDemand>,
    used: Set<Seq<char>>,
    total: int,
    n: int,
) -> Draft
    decreases n,
{
    if n <= 0 {
        Draft { picks: seq![], used, total }
    } else {
        let prev = draft_from(ps, ds, used, total, n - 1);
        let f = fill(ps, ds[n - 1].slot, prev.used, prev.total, ds[n - 1].count as nat);
        Draft { picks: prev.picks.push(f.picked), used: f.used, total: f.total }
    }
}

/// Two runs over one pool that differ by at most one player: either they
/// have used the same players and the second is `px` ahead, or the first has
/// used one more player `e`, whom the second may still take, and the second
/// is `px` minus the points of `e` ahead.
pub open spec fn one_apart(
    ps: Seq<PlayerView>,
    uo: Set<Seq<char>>,
    to: int,
    un: Set<Seq<char>>,
    tn: int,
    px: int,
) -> bool {
    (uo == un && tn - to == px) || exists|e: int|
        0 <= e < ps.len() && uo == un.insert(#[trigger] ps[e].id) && !un.contains(ps[e].id) && tn
            - to == px - ps[e].points && ps[e].points <= px
}

proof fn lemma_draft_is_draft_from(ps: Seq<PlayerView>, ds: Seq<SlotDemand>, n: int)
    ensures
        draft(ps, ds, n) == draft_from(ps, ds, Set::empty(), 0, n),
    decreases n,
{
    if n > 0 {
        lemma_draft_is_draft_from(ps, ds, n - 1);
    }
}

/// A player whose id is already used does not change the choice of the best.
proof fn lemma_best_shadow(
    ps: Seq<PlayerView>,
    x: PlayerView,
    used: Set<Seq<char>>,
    slot: RosterPosition,
    n: int,
)
    requires
        0 <= n <= ps.len(),
        forall|i: int| 0 <= i < ps.len() ==> ps[i].id != x.id,
    ensures
        best_in_prefix(ps.push(x), used.insert(x.id), slot, n) == best_in_prefix(ps, used, slot, n),
    decreases n,
{
    if n > 0 {
        lemma_best_shadow(ps, x, used, slot, n - 1);
        assert(ps.push(x)[n - 1] == ps[n - 1]);
        let prev = best_in_prefix(ps, used, slot, n - 1);
        lemma_best_in_prefix(ps, used, slot, n - 1);
        if let Some(b) = prev {
            assert(ps.push(x)[b] == ps[b]);
        }
    }
}

proof fn lemma_candidate_shadow(ps: Seq<PlayerView>, x: PlayerView, used: Set<Seq<char>>, slot: RosterPosition)
    requires
        forall|i: int| 0 <= i < ps.len() ==> ps[i].id != x.id,
    ensures
        best_candidate(ps.push(x), used.insert(x.id), slot) == best_candidate(ps, used, slot),
{
    let ps2 = ps.push(x);
    let u2 = used.insert(x.id);
    lemma_best_shadow(ps, x, used, slot, ps.len() as int);
    assert(!available(ps2, u2, slot, ps.len() as int));
}

proof fn lemma_fill_shadow(
    ps: Seq<PlayerView>,
    x: PlayerView,
    slot: RosterPosition,
    used: Set<Seq<char>>,
    total: int,
    k: nat,
)
    requires
        forall|i: int| 0 <= i < ps.len() ==> ps[i].id != x.id,
    ensures
        fill(ps.push(x), slot, used.insert(x.id), total, k).used == fill(ps, slot, used, total, k).used.insert(
            x.id,
        ),
        fill(ps.push(x), slot, used.insert(x.id), total, k).total == fill(ps, slot, used, total, k).total,
    decreases k,
{
    if k > 0 {
        lemma_fill_shadow(ps, x, slot, used, total, (k - 1) as nat);
        let prev = fill(ps, slot, used, total, (k - 1) as nat);
        lemma_candidate_shadow(ps, x, prev.used, slot);
        if let Some(i) = best_candidate(ps, prev.used, slot) {
            lemma_best_in_prefix(ps, prev.used, slot, ps.len() as int);
            assert(ps.push(x)[i] == ps[i]);
            assert(prev.used.insert(x.id).insert(ps[i].id) =~= prev.used.insert(
                ps[i].id,
            ).insert(x.id));
        }
    }
}

proof fn lemma_draft_shadow(ps: Seq<PlayerView>, x: PlayerView, ds: Seq<SlotDemand>, n: int)
    requires
        forall|i: int| 0 <= i < ps.len() ==> ps[i].id != x.id,
    ensures
        draft_from(ps.push(x), ds, Set::empty().insert(x.id), 0, n).used == draft_from(
            ps,
            ds,
            Set::empty(),
            0,
            n,
        ).used.insert(x.id),
        draft_from(ps.push(x), ds, Set::empty().insert(x.id), 0, n).total == draft_from(
            ps,
            ds,
            Set::empty(),
            0,
            n,
        ).total,
    decreases n,
{
    if n > 0 {
        lemma_draft_shadow(ps, x, ds, n - 1);
        let prev = draft_from(ps, ds, Set::empty(), 0, n - 1);
        lemma_fill_shadow(ps, x, ds[n - 1].slot, prev.used, prev.total, ds[n - 1].count as nat);
    }
}

/// One round of filling a slot keeps two runs at most one player apart.
proof fn lemma_round_one_apart(
    ps: Seq<PlayerView>,
    slot: RosterPosition,
    uo: Set<Seq<char>>,
    to: int,
    un: Set<Seq<char>>,
    tn: int,
    px: int,
)
    requires
        unique_ids(ps),
        one_apart(ps, uo, to, un, tn, px),
    ensures
        ({
            let (uo2, to2) = match best_candidate(ps, uo, slot) {
                None => (uo, to),
                Some(i) => (uo.insert(ps[i].id), to + ps[i].points),
            };
            let (un2, tn2) = match best_candidate(ps, un, slot) {
                None => (un, tn),
                Some(i) => (un.insert(ps[i].id), tn + ps[i].points),
            };
            one_apart(ps, uo2, to2, un2, tn2, px)
        }),
{
    let n = ps.len() as int;
    lemma_best_in_prefix(ps, uo, slot, n);
    lemma_best_in_prefix(ps, un, slot, n);
    if uo == un {
    } else {
        let e = choose|e: int|
            0 <= e < ps.len() && uo == un.insert(#[trigger] ps[e].id) && !un.contains(ps[e].id)
                && tn - to == px - ps[e].points && ps[e].points <= px;
        // the players open to the first run are those open to the second, but `e`
        assert forall|j: int| 0 <= j < n implies #[trigger] available(ps, uo, slot, j) == (available(
            ps,
            un,
            slot,
            j,
        ) && j != e) by {
            if j != e {
                assert(ps[j].id != ps[e].id);
            }
        }
        match best_candidate(ps, un, slot) {
            None => {
                if let Some(o) = best_candidate(ps, uo, slot) {
                    assert(available(ps, uo, slot, o));
                }
            },
            Some(b) => {
                if b == e {
                    match best_candidate(ps, uo, slot) {
                        None => {
                            assert(un.insert(ps[b].id) =~= uo);
                        },
                        Some(o) => {
                            assert(available(ps, uo, slot, o));
                            assert(available(ps, un, slot, o));
                            assert(ps[o].id != ps[e].id);
                            let un2 = un.insert(ps[b].id);
                            assert(uo.insert(ps[o].id) =~= un2.insert(ps[o].id));
                            assert(one_apart(
                                ps,
                                uo.insert(ps[o].id),
                                to + ps[o].points,
                                un2,
                                tn + ps[b].points,
                                px,
                            ));
                        },
                    }
                } else {
                    assert(available(ps, uo, slot, b));
                    match best_candidate(ps, uo, slot) {
                        None => {},
                        Some(o) => {
                            assert(available(ps, un, slot, o));
                            if o < b {
                                assert(ps[o].points < ps[b].points);
                            } else if b < o {
                                assert(ps[b].points < ps[o].points);
                            }
                            assert(o == b);
                            assert(ps[b].id != ps[e].id);
                            let un2 = un.insert(ps[b].id);
                            assert(uo.insert(ps[b].id) =~= un2.insert(ps[e].id));
                            assert(one_apart(
                                ps,
                                uo.insert(ps[b].id),
                                to + ps[b].points,
                                un2,
                                tn + ps[b].points,
                                px,
                            ));
                        },
                    }
                }
            },
        }
    }
}

proof fn lemma_fill_one_apart(
    ps: Seq<PlayerView>,
    slot: RosterPosition,
    uo: Set<Seq<char>>,
    to: int,
    un: Set<Seq<char>>,
    tn: int,
    px: int,
    k: nat,
)
    requires
        unique_ids(ps),
        one_apart(ps, uo, to, un, tn, px),
    ensures
        one_apart(
            ps,
            fill(ps, slot, uo, to, k).used,
            fill(ps, slot, uo, to, k).total,
            fill(ps, slot, un, tn, k).used,
            fill(ps, slot, un, tn, k).total,
            px,
        ),
    decreases k,
{
    if k > 0 {
        lemma_fill_one_apart(ps, slot, uo, to, un, tn, px, (k - 1) as nat);
        let fo = fill(ps, slot, uo, to, (k - 1) as nat);
        let f_n = fill(ps, slot, un, tn, (k - 1) as nat);
        lemma_round_one_apart(ps, slot, fo.used, fo.total, f_n.used, f_n.total, px);
    }
}

proof fn lemma_draft_one_apart(
    ps: Seq<PlayerView>,
    ds: Seq<SlotDemand>,
    uo: Set<Seq<char>>,
    un: Set<Seq<char>>,
    px: int,
    n: int,
)
    requires
        unique_ids(ps),
        one_apart(ps, uo, 0, un, 0, px),
    ensures
        one_apart(
            ps,
            draft_from(ps, ds, uo, 0, n).used,
            draft_from(ps, ds, uo, 0, n).total,
            draft_from(ps, ds, un, 0, n).used,
            draft_from(ps, ds, un, 0, n).total,
            px,
        ),
    decreases n,
{
    if n > 0 {
        lemma_draft_one_apart(ps, ds, uo, un, px, n - 1);
        let po = draft_from(ps, ds, uo, 0, n - 1);
        let pn = draft_from(ps, ds, un, 0, n - 1);
        lemma_fill_one_apart(ps, ds[n - 1].slot, po.used, po.total, pn.used, pn.total, px, ds[n - 1].count as nat);
    }
}

/// Adding to a pool a player with a new id and no negative points, who
/// outscores everyone placed in a slot that the player could fill, never
/// lowers the total of the lineup.
pub proof fn lemma_added_player_never_lowers_total(
    ds: Seq<SlotDemand>,
    ps: Seq<PlayerView>,
    x: PlayerView,
    k: int,
)
    requires
        unique_ids(ps),
        forall|i: int| 0 <= i < ps.len() ==> ps[i].id != x.id,
        0 <= k < ds.len(),
        eligible(x, ds[k].slot),
        forall|j: int|
            0 <= j < full_draft(ps, ds).picks[k].len() ==> x.points > ps[#[trigger] full_draft(ps, ds).picks[k][j]].points,
        x.points >= 0,
    ensures
        full_draft(ps.push(x), ds).total >= full_draft(ps, ds).total,
{
    let ps2 = ps.push(x);
    let n = ds.len() as int;
    let xid = x.id;
    assert(unique_ids(ps2)) by {
        assert forall|i: int, j: int| 0 <= i < ps2.len() && 0 <= j < ps2.len() && i != j implies ps2[i].id
            != ps2[j].id by {
            if i < ps.len() {
                assert(ps2[i] == ps[i]);
            }
            if j < ps.len() {
                assert(ps2[j] == ps[j]);
            }
        }
    }
    let e = ps.len() as int;
    assert(ps2[e] == x);
    assert(Set::<Seq<char>>::empty().insert(xid) == Set::<Seq<char>>::empty().insert(ps2[e].id));
    assert(one_apart(ps2, Set::empty().insert(xid), 0, Set::empty(), 0, x.points));
    lemma_draft_one_apart(ps2, ds, Set::empty().insert(xid), Set::empty(), x.points, n);
    lemma_draft_shadow(ps, x, ds, n);
    lemma_draft_is_draft_from(ps, ds, n);
    lemma_draft_is_draft_from(ps2, ds, n);
}

} // verus!
