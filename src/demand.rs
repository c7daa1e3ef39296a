use vstd::prelude::*;

use crate::lineup::SlotDemand;
use crate::models::positions::RosterPosition;

verus! {

/// How often `s` occurs among the first `n` entries of `t`.
pub open spec fn count_in(t: Seq<RosterPosition>, s: RosterPosition, n: int) -> nat
    decreases n,
{
    if n <= 0 {
        0
    } else {
        count_in(t, s, n - 1) + if t[n - 1] == s { 1nat } else { 0nat }
    }
}

pub open spec fn occurrences(t: Seq<RosterPosition>, s: RosterPosition) -> nat {
    count_in(t, s, t.len() as int)
}

/// Whether `a` occurs in `t` before any occurrence of `b`.
pub open spec fn occurs_first(t: Seq<RosterPosition>, a: RosterPosition, b: RosterPosition) -> bool {
    forall|j: int| 0 <= j < t.len() && #[trigger] t[j] == b ==> exists|i: int| 0 <= i < j && t[i] == a
}

pub open spec fn has_slot(r: Seq<SlotDemand>, s: RosterPosition) -> bool {
    exists|k: int| 0 <= k < r.len() && (#[trigger] r[k]).slot == s
}

/// `r` is the demand list of the roster template `t`: one entry for each
/// slot kind of `t` but bench, counting its occurrences; ordered by
/// selectivity, and of equal selectivity by first occurrence in `t`.
pub open spec fn demands_of(t: Seq<RosterPosition>, r: Seq<SlotDemand>) -> bool {
    &&& forall|k: int|
        0 <= k < r.len() ==> {
            &&& (#[trigger] r[k]).slot != RosterPosition::BN
            &&& t.contains(r[k].slot)
            &&& r[k].count == occurrences(t, r[k].slot)
        }
    &&& forall|s: RosterPosition| s != RosterPosition::BN && t.contains(s) ==> #[trigger] has_slot(r, s)
    &&& forall|k1: int, k2: int| 0 <= k1 < k2 < r.len() ==> (#[trigger] r[k1]).slot != (#[trigger] r[k2]).slot
    &&& forall|k1: int, k2: int|
        0 <= k1 < k2 < r.len() ==> (#[trigger] r[k1]).slot.selectivity_spec()
            <= (#[trigger] r[k2]).slot.selectivity_spec()
    &&& forall|k1: int, k2: int|
        0 <= k1 < k2 < r.len() && (#[trigger] r[k1]).slot.selectivity_spec()
            == (#[trigger] r[k2]).slot.selectivity_spec() ==> occurs_first(t, r[k1].slot, r[k2].slot)
}

/// The slot kinds of selectivity `level` among the first `n` entries of `t`,
/// each with its count, in order of first occurrence.
pub open spec fn level_slots(t: Seq<RosterPosition>, level: nat, n: int) -> Seq<SlotDemand>
    decreases n,
{
    if n <= 0 {
        seq![]
    } else {
        let prev = level_slots(t, level, n - 1);
        let s = t[n - 1];
        if s.selectivity_spec() == level && !t.subrange(0, n - 1).contains(s) {
            prev.push(SlotDemand { slot: s, count: occurrences(t, s) as usize })
        } else {
            prev
        }
    }
}

/// The slot kinds of selectivity below `level`, most constrained first.
pub open spec fn levels_below(t: Seq<RosterPosition>, level: nat) -> Seq<SlotDemand>
    decreases level,
{
    if level <= 1 {
        seq![]
    } else {
        levels_below(t, (level - 1) as nat) + level_slots(t, (level - 1) as nat, t.len() as int)
    }
}

/// The demand list of a roster template.
pub open spec fn demand_list(t: Seq<RosterPosition>) -> Seq<SlotDemand> {
    levels_below(t, (MAX_SELECTIVITY + 1) as nat)
}

/// The largest number of positions that one slot accepts.
pub const MAX_SELECTIVITY: usize = 3;

proof fn lemma_selectivity_bounded(s: RosterPosition)
    ensures
        s.selectivity_spec() <= MAX_SELECTIVITY,
        s != RosterPosition::BN ==> s.selectivity_spec() >= 1,
{
}

proof fn lemma_count_in_bounded(t: Seq<RosterPosition>, s: RosterPosition, n: int)
    requires
        0 <= n <= t.len(),
    ensures
        count_in(t, s, n) <= n,
    decreases n,
{
    if n > 0 {
        lemma_count_in_bounded(t, s, n - 1);
    }
}

fn count_occurrences(t: &Vec<RosterPosition>, s: RosterPosition) -> (r: usize)
    ensures
        r == occurrences(t@, s),
{
    let mut c: usize = 0;
    let mut i: usize = 0;
    while i < t.len()
        invariant
            0 <= i <= t@.len(),
            c == count_in(t@, s, i as int),
        decreases t@.len() - i,
    {
        proof {
            lemma_count_in_bounded(t@, s, i as int);
        }
        if t[i] == s {
            c += 1;
        }
        i += 1;
    }
    c
}

fn contains_slot(r: &Vec<SlotDemand>, s: RosterPosition) -> (b: bool)
    ensures
        b == has_slot(r@, s),
{
    let mut k: usize = 0;
    while k < r.len()
        invariant
            0 <= k <= r@.len(),
            forall|m: int| 0 <= m < k ==> (#[trigger] r@[m]).slot != s,
        decreases r@.len() - k,
    {
        if r[k].slot == s {
            return true;
        }
        k += 1;
    }
    false
}

/// Turns a league's roster template into the slot demands to fill, most
/// constrained slot kinds first.
pub fn slot_demands(template: &Vec<RosterPosition>) -> (r: Vec<SlotDemand>)
    ensures
        r@ == demand_list(template@),
        demands_of(template@, r@),
{
    let ghost t = template@;
    let mut r: Vec<SlotDemand> = Vec::new();
    let mut level: usize = 1;
    while level <= MAX_SELECTIVITY
        invariant
            1 <= level <= MAX_SELECTIVITY + 1,
            t == template@,
            r@ == levels_below(t, level as nat),
            forall|k: int|
                0 <= k < r@.len() ==> {
                    &&& (#[trigger] r@[k]).slot != RosterPosition::BN
                    &&& t.contains(r@[k].slot)
                    &&& r@[k].count == occurrences(t, r@[k].slot)
                    &&& r@[k].slot.selectivity_spec() < level
                },
            forall|s: RosterPosition|
                #[trigger] has_slot(r@, s) <==> (s != RosterPosition::BN && t.contains(s)
                    && s.selectivity_spec() < level),
            forall|k1: int, k2: int| 0 <= k1 < k2 < r@.len() ==> (#[trigger] r@[k1]).slot != (#[trigger] r@[k2]).slot,
            forall|k1: int, k2: int|
                0 <= k1 < k2 < r@.len() ==> (#[trigger] r@[k1]).slot.selectivity_spec()
                    <= (#[trigger] r@[k2]).slot.selectivity_spec(),
            forall|k1: int, k2: int|
                0 <= k1 < k2 < r@.len() && (#[trigger] r@[k1]).slot.selectivity_spec()
                    == (#[trigger] r@[k2]).slot.selectivity_spec() ==> occurs_first(t, r@[k1].slot, r@[k2].slot),
        decreases MAX_SELECTIVITY + 1 - level,
    {
        let mut i: usize = 0;
        while i < template.len()
            invariant
                0 <= i <= t.len(),
                1 <= level <= MAX_SELECTIVITY,
                t == template@,
                r@ == levels_below(t, level as nat) + level_slots(t, level as nat, i as int),
                forall|k: int|
                    0 <= k < r@.len() ==> {
                        &&& (#[trigger] r@[k]).slot != RosterPosition::BN
                        &&& t.contains(r@[k].slot)
                        &&& r@[k].count == occurrences(t, r@[k].slot)
                        &&& r@[k].slot.selectivity_spec() <= level
                    },
                forall|s: RosterPosition|
                    #[trigger] has_slot(r@, s) <==> (s != RosterPosition::BN && t.contains(s) && (
                    s.selectivity_spec() < level || (s.selectivity_spec() == level && exists|j: int|
                        0 <= j < i && t[j] == s))),
                forall|k1: int, k2: int|
                    0 <= k1 < k2 < r@.len() ==> (#[trigger] r@[k1]).slot != (#[trigger] r@[k2]).slot,
                forall|k1: int, k2: int|
                    0 <= k1 < k2 < r@.len() ==> (#[trigger] r@[k1]).slot.selectivity_spec()
                        <= (#[trigger] r@[k2]).slot.selectivity_spec(),
                forall|k1: int, k2: int|
                    0 <= k1 < k2 < r@.len() && (#[trigger] r@[k1]).slot.selectivity_spec()
                        == (#[trigger] r@[k2]).slot.selectivity_spec() ==> occurs_first(
                        t,
                        r@[k1].slot,
                        r@[k2].slot,
                    ),
            decreases t.len() - i,
        {
            let s = template[i];
            if s.selectivity() == level && !contains_slot(&r, s) {
                let c = count_occurrences(template, s);
                let ghost before = r@;
                proof {
                    lemma_selectivity_bounded(s);
                    assert(t.contains(s)) by {
                        assert(t[i as int] == s);
                    }
                    // no earlier entry of the template names `s`
                    assert forall|j: int| 0 <= j < i implies t[j] != s by {
                        if t[j] == s {
                            assert(has_slot(before, s));
                        }
                    }
                }
                proof {
                    lemma_count_in_bounded(t, s, t.len() as int);
                    assert(!t.subrange(0, i as int).contains(s));
                    assert(t[i as int] == s);
                    assert(levels_below(t, level as nat) + level_slots(t, level as nat, i + 1) =~= before.push(
                        SlotDemand { slot: s, count: c },
                    ));
                }
                r.push(SlotDemand { slot: s, count: c });
                proof {
                    let n = r@.len() - 1;
                    assert(r@[n].slot == s);
                    assert forall|k: int| 0 <= k < n implies #[trigger] occurs_first(t, r@[k].slot, s)
                        || r@[k].slot.selectivity_spec() != s.selectivity_spec() by {
                        assert(before[k] == r@[k]);
                        if r@[k].slot.selectivity_spec() == s.selectivity_spec() {
                            assert(has_slot(before, r@[k].slot));
                            let j0 = choose|j: int| 0 <= j < i && t[j] == r@[k].slot;
                            assert forall|j: int| 0 <= j < t.len() && #[trigger] t[j] == s implies exists|m: int|
                                0 <= m < j && t[m] == r@[k].slot by {
                                assert(j0 < j);
                            }
                        }
                    }
                    assert forall|x: RosterPosition| #[trigger] has_slot(r@, x) <==> (x != RosterPosition::BN
                        && t.contains(x) && (x.selectivity_spec() < level || (x.selectivity_spec() == level
                        && exists|j: int| 0 <= j < i + 1 && t[j] == x))) by {
                        if has_slot(r@, x) && x != s {
                            let k = choose|k: int| 0 <= k < r@.len() && (#[trigger] r@[k]).slot == x;
                            assert(has_slot(before, x)) by {
                                assert(before[k].slot == x);
                            }
                        }
                        if x == s {
                            assert(r@[n].slot == x);
                        }
                        if !has_slot(before, x) && x != s && x.selectivity_spec() == level {
                            assert forall|j: int| 0 <= j < i + 1 implies t[j] != x by {}
                        }
                        if has_slot(before, x) {
                            let k = choose|k: int| 0 <= k < before.len() && (#[trigger] before[k]).slot == x;
                            assert(r@[k].slot == x);
                        }
                    }
                }
            } else {
                proof {
                    if s.selectivity_spec() == level {
                        assert(has_slot(r@, s));
                        let j = choose|j: int| 0 <= j < i && t[j] == s;
                        assert(t.subrange(0, i as int)[j] == s);
                    }
                    assert(level_slots(t, level as nat, i + 1) == level_slots(t, level as nat, i as int));
                    assert forall|x: RosterPosition| #[trigger] has_slot(r@, x) <==> (x != RosterPosition::BN
                        && t.contains(x) && (x.selectivity_spec() < level || (x.selectivity_spec() == level
                        && exists|j: int| 0 <= j < i + 1 && t[j] == x))) by {
                        if x == s && x.selectivity_spec() == level {
                            assert(t[i as int] == x);
                        }
                        if x != s && x.selectivity_spec() == level && (exists|j: int| 0 <= j < i + 1 && t[j] == x) {
                            let j = choose|j: int| 0 <= j < i + 1 && t[j] == x;
                            assert(j < i);
                        }
                    }
                }
            }
            i += 1;
        }
        proof {
            assert forall|x: RosterPosition| #[trigger] has_slot(r@, x) <==> (x != RosterPosition::BN && t.contains(
                x,
            ) && x.selectivity_spec() < level + 1) by {
                if x != RosterPosition::BN && t.contains(x) && x.selectivity_spec() == level {
                    let j = choose|j: int| 0 <= j < t.len() && t[j] == x;
                }
            }
        }
        level += 1;
    }
    proof {
        assert forall|s: RosterPosition| s != RosterPosition::BN && t.contains(s) implies #[trigger] has_slot(
            r@,
            s,
        ) by {
            lemma_selectivity_bounded(s);
        }
    }
    r
}

/// A slot that accepts a single position comes before every flex slot that
/// accepts that position too.
pub proof fn lemma_narrow_before_flex(t: Seq<RosterPosition>, r: Seq<SlotDemand>, i: int, j: int)
    requires
        demands_of(t, r),
        0 <= i < r.len(),
        0 <= j < r.len(),
        r[i].slot.selectivity_spec() == 1,
        r[j].slot.selectivity_spec() > 1,
        r[j].slot.accepts_spec(r[i].slot.positions_spec()[0]),
    ensures
        i < j,
{
    if j < i {
        assert(r[j].slot.selectivity_spec() <= r[i].slot.selectivity_spec());
    }
}

} // verus!
