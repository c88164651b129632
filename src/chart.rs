//! Choosing which regions a chart shows. A region's place in the selection
//! is its stable index on every panel (and so its colour).
use vstd::prelude::*;
use crate::series::RegionSeries;

verus! {

pub open spec fn name_listed(names: Seq<String>, name: Seq<char>) -> bool {
    exists|j: int| 0 <= j < names.len() && #[trigger] names[j]@ == name
}

/// The indices of the regions of `all` whose display name is listed in
/// `names`, in the order of `all`.
pub open spec fn listed_indices(all: Seq<RegionSeries>, names: Seq<String>) -> Seq<usize>
    decreases all.len(),
{
    if all.len() == 0 {
        Seq::empty()
    } else {
        let prev = listed_indices(all.drop_last(), names);
        if name_listed(names, all.last().name@) {
            prev.push((all.len() - 1) as usize)
        } else {
            prev
        }
    }
}

fn is_listed(names: &Vec<String>, name: &String) -> (r: bool)
    ensures
        r == name_listed(names@, name@),
{
    let mut j: usize = 0;
    while j < names.len()
        invariant
            j <= names.len(),
            forall|k: int| 0 <= k < j ==> #[trigger] names@[k]@ != name@,
        decreases names.len() - j,
    {
        if names[j] == *name {
            return true;
        }
        j = j + 1;
    }
    false
}

/// The regions of `all` to draw, as indices into `all`, for a chart that
/// shows the regions named in `names`.
pub fn select_regions(all: &Vec<RegionSeries>, names: &Vec<String>) -> (r: Vec<usize>)
    ensures
        r@ == listed_indices(all@, names@),
{
    let mut out: Vec<usize> = Vec::new();
    let mut i: usize = 0;
    while i < all.len()
        invariant
            i <= all.len(),
            out@ == listed_indices(all@.subrange(0, i as int), names@),
        decreases all.len() - i,
    {
        proof {
            assert(all@.subrange(0, i as int + 1).drop_last() =~= all@.subrange(0, i as int));
        }
        if is_listed(names, &all[i].name) {
            out.push(i);
        }
        i = i + 1;
    }
    assert(all@.subrange(0, all.len() as int) =~= all@);
    out
}

} // verus!
