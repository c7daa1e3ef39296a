use vstd::prelude::*;

use crate::ids::find_name;
use crate::text::{append_points, points_text};

verus! {

broadcast use vstd::seq_lib::group_to_multiset_ensures;

/// One owner's line of the bench king ranking. Points are in hundredths of
/// a point.
#[derive(Clone, Debug)]
pub struct Report {
    pub owner_name: String,
    pub optimal_points: i64,
    pub actual_points: i64,
}

/// The points an owner left on the bench.
pub open spec fn gap(r: Report) -> int {
    r.optimal_points - r.actual_points
}

/// How a report reads on the console.
pub open spec fn report_text(r: Report) -> Seq<char> {
    "Owner "@ + r.owner_name@ + " scored "@ + points_text(r.actual_points as int) + " points, optimal score is "@
        + points_text(r.optimal_points as int) + ", difference is "@ + points_text(gap(r))
}

impl Report {
    pub fn describe(&self) -> (s: String)
        ensures
            s@ == report_text(*self),
    {
        let mut s = String::from_str("Owner ");
        s.append(self.owner_name.as_str());
        s.append(" scored ");
        append_points(&mut s, self.actual_points as i128);
        s.append(" points, optimal score is ");
        append_points(&mut s, self.optimal_points as i128);
        s.append(", difference is ");
        append_points(&mut s, self.difference());
        s
    }

    fn duplicate(&self) -> (r: Report)
        ensures
            r == *self,
    {
        Report {
            owner_name: self.owner_name.clone(),
            optimal_points: self.optimal_points,
            actual_points: self.actual_points,
        }
    }

    pub fn difference(&self) -> (r: i128)
        ensures
            r == gap(*self),
    {
        self.optimal_points as i128 - self.actual_points as i128
    }
}

/// The owners named in the first `n` reports, each once, in order of first
/// appearance.
pub open spec fn owners_in(rs: Seq<Report>, n: int) -> Seq<Seq<char>>
    decreases n,
{
    if n <= 0 {
        seq![]
    } else {
        let prev = owners_in(rs, n - 1);
        if prev.contains(rs[n - 1].owner_name@) {
            prev
        } else {
            prev.push(rs[n - 1].owner_name@)
        }
    }
}

/// The actual points of owner `name` over the first `n` reports.
pub open spec fn actual_sum(rs: Seq<Report>, name: Seq<char>, n: int) -> int
    decreases n,
{
    if n <= 0 {
        0
    } else {
        actual_sum(rs, name, n - 1) + if rs[n - 1].owner_name@ == name {
            rs[n - 1].actual_points as int
        } else {
            0
        }
    }
}

/// The optimal points of owner `name` over the first `n` reports.
pub open spec fn optimal_sum(rs: Seq<Report>, name: Seq<char>, n: int) -> int
    decreases n,
{
    if n <= 0 {
        0
    } else {
        optimal_sum(rs, name, n - 1) + if rs[n - 1].owner_name@ == name {
            rs[n - 1].optimal_points as int
        } else {
            0
        }
    }
}

pub open spec fn fits_i64(x: int) -> bool {
    i64::MIN <= x <= i64::MAX
}

proof fn lemma_owners_in(rs: Seq<Report>, n: int)
    requires
        0 <= n <= rs.len(),
    ensures
        owners_in(rs, n).no_duplicates(),
        forall|j: int| 0 <= j < n ==> owners_in(rs, n).contains(#[trigger] rs[j].owner_name@),
        forall|name: Seq<char>|
            !#[trigger] owners_in(rs, n).contains(name) ==> actual_sum(rs, name, n) == 0 && optimal_sum(rs, name, n)
                == 0,
    decreases n,
{
    if n > 0 {
        lemma_owners_in(rs, n - 1);
        let prev = owners_in(rs, n - 1);
        let last = rs[n - 1].owner_name@;
        if !prev.contains(last) {
            assert(owners_in(rs, n)[prev.len() as int] == last);
            assert forall|j: int| 0 <= j < n implies owners_in(rs, n).contains(#[trigger] rs[j].owner_name@) by {
                if j < n - 1 {
                    let k = choose|k: int| 0 <= k < prev.len() && prev[k] == rs[j].owner_name@;
                    assert(owners_in(rs, n)[k] == rs[j].owner_name@);
                }
            }
        }
        assert forall|name: Seq<char>| !owners_in(rs, n).contains(name) implies actual_sum(rs, name, n) == 0
            && optimal_sum(rs, name, n) == 0 by {
            if prev.contains(name) {
                let k = choose|k: int| 0 <= k < prev.len() && prev[k] == name;
                assert(owners_in(rs, n)[k] == name);
            }
            if name == last && !prev.contains(last) {
                assert(owners_in(rs, n)[prev.len() as int] == last);
            }
            assert(!prev.contains(name) && name != last);
        }
    }
}

/// Adds up each owner's weekly reports into one season-to-date report per
/// owner, in order of the owners' first appearance. `None` when an owner's
/// totals leave the range of `i64`.
pub fn season_to_date(reports: &Vec<Report>) -> (r: Option<Vec<Report>>)
    ensures
        ({
            let rs = reports@;
            let owners = owners_in(rs, rs.len() as int);
            match r {
                Some(v) => {
                    &&& v@.len() == owners.len()
                    &&& forall|k: int|
                        0 <= k < v@.len() ==> {
                            &&& (#[trigger] v@[k]).owner_name@ == owners[k]
                            &&& v@[k].actual_points == actual_sum(rs, owners[k], rs.len() as int)
                            &&& v@[k].optimal_points == optimal_sum(rs, owners[k], rs.len() as int)
                        }
                },
                None => exists|k: int|
                    0 <= k < owners.len() && !(fits_i64(actual_sum(rs, #[trigger] owners[k], rs.len() as int))
                        && fits_i64(optimal_sum(rs, owners[k], rs.len() as int))),
            }
        }),
{
    let ghost rs = reports@;
    let mut names: Vec<String> = Vec::new();
    let mut acts: Vec<i128> = Vec::new();
    let mut opts: Vec<i128> = Vec::new();
    let mut i: usize = 0;
    while i < reports.len()
        invariant
            0 <= i <= rs.len(),
            rs == reports@,
            names@.map_values(|s: String| s@) == owners_in(rs, i as int),
            acts@.len() == names@.len(),
            opts@.len() == names@.len(),
            forall|k: int|
                0 <= k < names@.len() ==> {
                    &&& #[trigger] acts@[k] == actual_sum(rs, names@[k]@, i as int)
                    &&& opts@[k] == optimal_sum(rs, names@[k]@, i as int)
                    &&& -(i as int) * 0x8000_0000_0000_0000 <= acts@[k] <= (i as int) * 0x8000_0000_0000_0000
                    &&& -(i as int) * 0x8000_0000_0000_0000 <= opts@[k] <= (i as int) * 0x8000_0000_0000_0000
                },
        decreases rs.len() - i,
    {
        proof {
            lemma_owners_in(rs, i as int);
            lemma_owners_in(rs, i + 1);
        }
        let ghost owners = owners_in(rs, i as int);
        let name = &reports[i].owner_name;
        let found = find_name(&names, name);
        let ghost old_acts = acts@;
        let ghost old_opts = opts@;
        if let Some(k) = found {
            acts.set(k, acts[k] + reports[i].actual_points as i128);
            opts.set(k, opts[k] + reports[i].optimal_points as i128);
            proof {
                assert(owners[k as int] == names@[k as int]@);
                assert(owners_in(rs, i + 1) == owners) by {
                    assert(owners.contains(name@));
                }
                assert forall|m: int| 0 <= m < names@.len() implies {
                    &&& #[trigger] acts@[m] == actual_sum(rs, names@[m]@, i + 1)
                    &&& opts@[m] == optimal_sum(rs, names@[m]@, i + 1)
                    &&& -(i + 1) * 0x8000_0000_0000_0000 <= acts@[m] <= (i + 1) * 0x8000_0000_0000_0000
                    &&& -(i + 1) * 0x8000_0000_0000_0000 <= opts@[m] <= (i + 1) * 0x8000_0000_0000_0000
                } by {
                    assert(owners[m] == names@[m]@);
                    if m != k {
                        assert(names@[m]@ != name@);
                        assert(acts@[m] == old_acts[m]);
                        assert(opts@[m] == old_opts[m]);
                    }
                }
            }
        } else {
            proof {
                assert(!owners.contains(name@)) by {
                    if owners.contains(name@) {
                        let m = choose|m: int| 0 <= m < owners.len() && owners[m] == name@;
                        assert(names@[m]@ == owners[m]);
                    }
                }
                assert forall|m: int| 0 <= m < names@.len() implies names@[m]@ != name@ by {
                    assert(owners[m] == names@[m]@);
                }
            }
            let ghost before = names@;
            names.push(name.clone());
            acts.push(reports[i].actual_points as i128);
            opts.push(reports[i].optimal_points as i128);
            proof {
                assert(names@.map_values(|s: String| s@) =~= before.map_values(|s: String| s@).push(name@));
                assert forall|m: int| 0 <= m < names@.len() implies {
                    &&& #[trigger] acts@[m] == actual_sum(rs, names@[m]@, i + 1)
                    &&& opts@[m] == optimal_sum(rs, names@[m]@, i + 1)
                    &&& -(i + 1) * 0x8000_0000_0000_0000 <= acts@[m] <= (i + 1) * 0x8000_0000_0000_0000
                    &&& -(i + 1) * 0x8000_0000_0000_0000 <= opts@[m] <= (i + 1) * 0x8000_0000_0000_0000
                } by {
                    if m < before.len() {
                        assert(names@[m] == before[m]);
                        assert(names@[m]@ != name@);
                        assert(acts@[m] == old_acts[m]);
                        assert(opts@[m] == old_opts[m]);
                    } else {
                        assert(names@[m]@ == name@);
                        assert(actual_sum(rs, name@, i as int) == 0);
                    }
                }
            }
        }
        i += 1;
    }
    proof {
        lemma_owners_in(rs, rs.len() as int);
    }
    let mut out: Vec<Report> = Vec::new();
    let mut k: usize = 0;
    while k < names.len()
        invariant
            0 <= k <= names@.len(),
            rs == reports@,
            names@.map_values(|s: String| s@) == owners_in(rs, rs.len() as int),
            acts@.len() == names@.len(),
            opts@.len() == names@.len(),
            forall|m: int|
                0 <= m < names@.len() ==> {
                    &&& #[trigger] acts@[m] == actual_sum(rs, names@[m]@, rs.len() as int)
                    &&& opts@[m] == optimal_sum(rs, names@[m]@, rs.len() as int)
                },
            out@.len() == k,
            forall|m: int|
                0 <= m < k ==> {
                    &&& (#[trigger] out@[m]).owner_name@ == names@[m]@
                    &&& out@[m].actual_points == acts@[m]
                    &&& out@[m].optimal_points == opts@[m]
                },
        decreases names@.len() - k,
    {
        let a = acts[k];
        let o = opts[k];
        let ghost owners = owners_in(rs, rs.len() as int);
        assert(owners[k as int] == names@[k as int]@);
        if a < i64::MIN as i128 || a > i64::MAX as i128 || o < i64::MIN as i128 || o > i64::MAX as i128 {
            return None;
        }
        out.push(Report { owner_name: names[k].clone(), optimal_points: o as i64, actual_points: a as i64 });
        k += 1;
    }
    proof {
        let owners = owners_in(rs, rs.len() as int);
        assert forall|m: int| 0 <= m < out@.len() implies (#[trigger] out@[m]).owner_name@ == owners[m] by {
            assert(owners[m] == names@[m]@);
        }
    }
    Some(out)
}

/// Where a report with difference `d` goes in a ranking: after every
/// report with a difference at least as large, before the others.
pub open spec fn rank_pos(s: Seq<Report>, d: int) -> int {
    choose|p: int|
        0 <= p <= s.len() && (forall|m: int| 0 <= m < p ==> gap(#[trigger] s[m]) >= d) && (p == s.len() || gap(s[p])
            < d)
}

/// The ranking of the first `n` reports, each put in after the earlier ones
/// with a difference at least as large.
pub open spec fn ranked(rs: Seq<Report>, n: int) -> Seq<Report>
    decreases n,
{
    if n <= 0 {
        seq![]
    } else {
        let prev = ranked(rs, n - 1);
        prev.insert(rank_pos(prev, gap(rs[n - 1])), rs[n - 1])
    }
}

proof fn lemma_rank_pos(s: Seq<Report>, d: int, pos: int)
    requires
        0 <= pos <= s.len(),
        forall|a: int, b: int| 0 <= a < b < s.len() ==> gap(#[trigger] s[a]) >= gap(#[trigger] s[b]),
        forall|m: int| 0 <= m < pos ==> gap(#[trigger] s[m]) >= d,
        pos == s.len() || gap(s[pos]) < d,
    ensures
        rank_pos(s, d) == pos,
        forall|m: int| pos <= m < s.len() ==> gap(#[trigger] s[m]) < d,
{
    let p = rank_pos(s, d);
    assert(p == s.len() || gap(s[p]) < d);
    if p < pos {
        assert(gap(s[p]) >= d);
    }
    if pos < p {
        assert(gap(s[pos]) >= d);
    }
    assert forall|m: int| pos <= m < s.len() implies gap(#[trigger] s[m]) < d by {
        if m > pos {
            assert(gap(s[pos]) >= gap(s[m]));
        }
    }
}

proof fn lemma_insert_ranked(s: Seq<Report>, pos: int, x: Report)
    requires
        0 <= pos <= s.len(),
        forall|a: int, b: int| 0 <= a < b < s.len() ==> gap(#[trigger] s[a]) >= gap(#[trigger] s[b]),
        forall|m: int| 0 <= m < pos ==> gap(#[trigger] s[m]) >= gap(x),
        forall|m: int| pos <= m < s.len() ==> gap(#[trigger] s[m]) < gap(x),
    ensures
        s.insert(pos, x).to_multiset() == s.to_multiset().insert(x),
        forall|a: int, b: int|
            0 <= a < b < s.len() + 1 ==> gap(#[trigger] s.insert(pos, x)[a]) >= gap(#[trigger] s.insert(pos, x)[b]),
{
    let t = s.insert(pos, x);
    s.insert_ensures(pos, x);
    assert(t.remove(pos) =~= s);
    let m_after = t.to_multiset();
    assert(t.contains(x)) by {
        assert(t[pos] == x);
    }
    assert(m_after =~= m_after.remove(x).insert(x));
    assert forall|a: int, b: int| 0 <= a < b < t.len() implies gap(#[trigger] t[a]) >= gap(#[trigger] t[b]) by {
        if a < pos && b < pos {
            assert(t[a] == s[a] && t[b] == s[b]);
        } else if a < pos && b == pos {
            assert(t[a] == s[a]);
        } else if a < pos {
            assert(t[a] == s[a] && t[b] == s[b - 1]);
        } else if a == pos {
            assert(t[b] == s[b - 1]);
        } else {
            assert(t[a] == s[a - 1] && t[b] == s[b - 1]);
        }
    }
}

/// Orders reports by the points left on the bench, most first; reports
/// with equal differences keep their order.
pub fn rank_by_difference(reports: Vec<Report>) -> (r: Vec<Report>)
    ensures
        r@ == ranked(reports@, reports@.len() as int),
        r@.to_multiset() == reports@.to_multiset(),
        forall|a: int, b: int| 0 <= a < b < r@.len() ==> gap(#[trigger] r@[a]) >= gap(#[trigger] r@[b]),
{
    let mut out: Vec<Report> = Vec::new();
    let mut i: usize = 0;
    while i < reports.len()
        invariant
            0 <= i <= reports@.len(),
            out@ == ranked(reports@, i as int),
            out@.to_multiset() == reports@.subrange(0, i as int).to_multiset(),
            forall|a: int, b: int| 0 <= a < b < out@.len() ==> gap(#[trigger] out@[a]) >= gap(#[trigger] out@[b]),
        decreases reports@.len() - i,
    {
        let x = reports[i].duplicate();
        let d = reports[i].difference();
        let mut pos: usize = 0;
        while pos < out.len() && out[pos].difference() >= d
            invariant
                0 <= pos <= out@.len(),
                i < reports@.len(),
                d == gap(reports@[i as int]),
                forall|m: int| 0 <= m < pos ==> gap(#[trigger] out@[m]) >= d,
            decreases out@.len() - pos,
        {
            pos += 1;
        }
        let ghost before = out@;
        proof {
            assert(x == reports@[i as int]);
            lemma_rank_pos(before, d as int, pos as int);
        }
        out.insert(pos, x);
        proof {
            lemma_insert_ranked(before, pos as int, x);
            assert(reports@.subrange(0, i + 1) =~= reports@.subrange(0, i as int).push(x));
        }
        i += 1;
    }
    assert(reports@.subrange(0, reports@.len() as int) =~= reports@);
    out
}

} // verus!
