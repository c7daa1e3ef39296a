use vstd::prelude::*;

verus! {

/// Whether one of the strings in `v` reads `x`.
pub open spec fn names_contain(v: Seq<String>, x: Seq<char>) -> bool {
    exists|j: int| 0 <= j < v.len() && (#[trigger] v[j])@ == x
}

pub fn contains_name(v: &Vec<String>, x: &String) -> (r: bool)
    ensures
        r == names_contain(v@, x@),
{
    let mut j: usize = 0;
    while j < v.len()
        invariant
            0 <= j <= v@.len(),
            forall|m: int| 0 <= m < j ==> (#[trigger] v@[m])@ != x@,
        decreases v@.len() - j,
    {
        if v[j] == *x {
            return true;
        }
        j += 1;
    }
    false
}

/// Where in `v` the first string that reads `x` stands.
pub fn find_name(v: &Vec<String>, x: &String) -> (r: Option<usize>)
    ensures
        match r {
            Some(k) => k < v@.len() && v@[k as int]@ == x@ && forall|m: int| 0 <= m < k ==> (#[trigger] v@[m])@ != x@,
            None => forall|m: int| 0 <= m < v@.len() ==> (#[trigger] v@[m])@ != x@,
        },
{
    let mut j: usize = 0;
    while j < v.len()
        invariant
            0 <= j <= v@.len(),
            forall|m: int| 0 <= m < j ==> (#[trigger] v@[m])@ != x@,
        decreases v@.len() - j,
    {
        if v[j] == *x {
            return Some(j);
        }
        j += 1;
    }
    None
}

} // verus!
