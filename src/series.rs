//! Per-region series: grouping raw records by region key, and ordering each
//! region's observations by position.
use vstd::prelude::*;
use crate::records::RawRecord;
use crate::text::{display_name, underscores_to_spaces};

verus! {

/// One observation of a region at a position (a day offset).
#[derive(Clone, Copy, Debug, PartialEq, Eq, Structural)]
pub struct ObservationPoint {
    pub position: i64,
    pub cases: i32,
    pub deaths: i32,
}

/// All observations of one region, ordered by position.
#[derive(Clone, Debug)]
pub struct RegionSeries {
    /// The region key that grouped the records.
    pub key: String,
    /// The key as shown to a reader.
    pub name: String,
    /// The population of the first record seen for the region (0: unknown).
    pub population: i32,
    pub points: Vec<ObservationPoint>,
}

pub open spec fn point_of(r: RawRecord) -> ObservationPoint {
    ObservationPoint { position: r.day, cases: r.cases, deaths: r.deaths }
}

pub open spec fn is_sorted_by_position(s: Seq<ObservationPoint>) -> bool {
    forall|i: int, j: int| 0 <= i <= j < s.len() ==> #[trigger] s[i].position <= #[trigger] s[j].position
}

/// `s` with `p` placed after every point whose position is not greater than
/// its own.
pub open spec fn insert_by_position(s: Seq<ObservationPoint>, p: ObservationPoint) -> Seq<ObservationPoint>
    decreases s.len(),
{
    if s.len() == 0 {
        seq![p]
    } else if s.last().position <= p.position {
        s.push(p)
    } else {
        insert_by_position(s.drop_last(), p).push(s.last())
    }
}

/// The stable sort of `s` by position: points with equal positions keep
/// their order.
pub open spec fn sorted_by_position(s: Seq<ObservationPoint>) -> Seq<ObservationPoint>
    decreases s.len(),
{
    if s.len() == 0 {
        s
    } else {
        insert_by_position(sorted_by_position(s.drop_last()), s.last())
    }
}

/// The points of the records of region `key`, in input order.
pub open spec fn points_for(rs: Seq<RawRecord>, key: Seq<char>) -> Seq<ObservationPoint>
    decreases rs.len(),
{
    if rs.len() == 0 {
        Seq::empty()
    } else if rs.last().region@ == key {
        points_for(rs.drop_last(), key).push(point_of(rs.last()))
    } else {
        points_for(rs.drop_last(), key)
    }
}

/// The population of the first record of region `key`.
pub open spec fn first_population(rs: Seq<RawRecord>, key: Seq<char>) -> i32
    decreases rs.len(),
{
    if rs.len() == 0 {
        0
    } else if points_for(rs.drop_last(), key).len() > 0 {
        first_population(rs.drop_last(), key)
    } else if rs.last().region@ == key {
        rs.last().population
    } else {
        0
    }
}

/// The region keys that occur in `rs`.
pub open spec fn region_keys(rs: Seq<RawRecord>) -> Set<Seq<char>> {
    Set::new(|key: Seq<char>| exists|i: int| 0 <= i < rs.len() && #[trigger] rs[i].region@ == key)
}

proof fn lemma_insert_at(s: Seq<ObservationPoint>, p: ObservationPoint, j: int)
    requires
        0 <= j <= s.len(),
        forall|k: int| j <= k < s.len() ==> #[trigger] s[k].position > p.position,
        j == 0 || s[j - 1].position <= p.position,
    ensures
        insert_by_position(s, p) == s.insert(j, p),
    decreases s.len(),
{
    if s.len() == 0 {
        assert(s.insert(j, p) =~= seq![p]);
    } else if j == s.len() {
        assert(s.insert(j, p) =~= s.push(p));
    } else {
        let t = s.drop_last();
        assert(s.last().position > p.position);
        lemma_insert_at(t, p, j);
        assert(t.insert(j, p).push(s.last()) =~= s.insert(j, p));
    }
}

proof fn lemma_insert_sorted(s: Seq<ObservationPoint>, p: ObservationPoint)
    requires
        is_sorted_by_position(s),
    ensures
        is_sorted_by_position(insert_by_position(s, p)),
        insert_by_position(s, p).to_multiset() == s.to_multiset().insert(p),
        insert_by_position(s, p).len() == s.len() + 1,
    decreases s.len(),
{
    broadcast use vstd::seq_lib::group_to_multiset_ensures;
    if s.len() == 0 {
        assert(seq![p] =~= Seq::<ObservationPoint>::empty().push(p));
    } else if s.last().position <= p.position {
    } else {
        let t = s.drop_last();
        lemma_insert_sorted(t, p);
        let u = insert_by_position(t, p);
        assert(s =~= t.push(s.last()));
        assert forall|k: int| 0 <= k < u.len() implies #[trigger] u[k].position <= s.last().position by {
            assert(u.to_multiset().count(u[k]) > 0);
            assert(t.to_multiset().insert(p).count(u[k]) > 0);
            if u[k] != p {
                assert(t.to_multiset().count(u[k]) > 0);
                assert(t.contains(u[k]));
            }
        }
    }
}

/// The stable sort by position orders the points and keeps each of them.
pub proof fn lemma_sorted_by_position(s: Seq<ObservationPoint>)
    ensures
        is_sorted_by_position(sorted_by_position(s)),
        sorted_by_position(s).to_multiset() == s.to_multiset(),
        sorted_by_position(s).len() == s.len(),
    decreases s.len(),
{
    broadcast use vstd::seq_lib::group_to_multiset_ensures;
    if s.len() > 0 {
        lemma_sorted_by_position(s.drop_last());
        lemma_insert_sorted(sorted_by_position(s.drop_last()), s.last());
        assert(s =~= s.drop_last().push(s.last()));
    }
}

/// Sorts `points` by position, keeping points with equal positions in their
/// input order.
pub fn sort_points(points: &Vec<ObservationPoint>) -> (r: Vec<ObservationPoint>)
    ensures
        r@ == sorted_by_position(points@),
        is_sorted_by_position(r@),
        r@.to_multiset() == points@.to_multiset(),
{
    let mut out: Vec<ObservationPoint> = Vec::new();
    let mut i: usize = 0;
    while i < points.len()
        invariant
            i <= points.len(),
            out@ == sorted_by_position(points@.subrange(0, i as int)),
        decreases points.len() - i,
    {
        let p = points[i];
        proof {
            lemma_sorted_by_position(points@.subrange(0, i as int));
        }
        let mut j: usize = out.len();
        while j > 0 && out[j - 1].position > p.position
            invariant
                j <= out.len(),
                forall|k: int| j <= k < out.len() ==> #[trigger] out@[k].position > p.position,
            decreases j,
        {
            j = j - 1;
        }
        proof {
            lemma_insert_at(out@, p, j as int);
            assert(points@.subrange(0, i as int + 1).drop_last() =~= points@.subrange(0, i as int));
        }
        out.insert(j, p);
        i = i + 1;
    }
    proof {
        assert(points@.subrange(0, points.len() as int) =~= points@);
        lemma_sorted_by_position(points@);
    }
    out
}

/// The region keys of `rs`, each once, in the order of their first record.
pub open spec fn first_seen_keys(rs: Seq<RawRecord>) -> Seq<Seq<char>>
    decreases rs.len(),
{
    if rs.len() == 0 {
        Seq::empty()
    } else {
        let prev = first_seen_keys(rs.drop_last());
        if prev.contains(rs.last().region@) {
            prev
        } else {
            prev.push(rs.last().region@)
        }
    }
}

pub open spec fn keys_of(bs: Seq<RegionSeries>) -> Seq<Seq<char>> {
    bs.map_values(|b: RegionSeries| b.key@)
}

/// A builder holds exactly the points, first population and display name of
/// its key within `rs`.
pub open spec fn builder_matches(b: RegionSeries, rs: Seq<RawRecord>) -> bool {
    &&& b.points@ == points_for(rs, b.key@)
    &&& b.points@.len() > 0
    &&& b.population == first_population(rs, b.key@)
    &&& b.name@ == display_name(b.key@)
}

pub open spec fn distinct_keys(bs: Seq<RegionSeries>) -> bool {
    forall|i: int, j: int| 0 <= i < j < bs.len() ==> #[trigger] bs[i].key@ != #[trigger] bs[j].key@
}

proof fn lemma_points_for_push(rs: Seq<RawRecord>, r: RawRecord, key: Seq<char>)
    ensures
        points_for(rs.push(r), key) == (if r.region@ == key {
            points_for(rs, key).push(point_of(r))
        } else {
            points_for(rs, key)
        }),
        points_for(rs, key).len() > 0 ==> first_population(rs.push(r), key) == first_population(rs, key),
        points_for(rs, key).len() == 0 && r.region@ == key ==> first_population(rs.push(r), key) == r.population,
{
    assert(rs.push(r).drop_last() =~= rs);
}

proof fn lemma_points_for_has(rs: Seq<RawRecord>, key: Seq<char>, w: int)
    requires
        0 <= w < rs.len(),
        rs[w].region@ == key,
    ensures
        points_for(rs, key).len() > 0,
    decreases rs.len(),
{
    if w < rs.len() - 1 {
        lemma_points_for_has(rs.drop_last(), key, w);
    }
}

proof fn lemma_points_for_nonempty(rs: Seq<RawRecord>, key: Seq<char>)
    requires
        points_for(rs, key).len() > 0,
    ensures
        region_keys(rs).contains(key),
    decreases rs.len(),
{
    if rs.last().region@ != key {
        lemma_points_for_nonempty(rs.drop_last(), key);
        let w = choose|w: int| 0 <= w < rs.len() - 1 && #[trigger] rs.drop_last()[w].region@ == key;
        assert(rs[w].region@ == key);
    } else {
        assert(rs[rs.len() - 1].region@ == key);
    }
}

/// Ingesting the same record twice assigns both copies to the region of the
/// record's own key and to no other: every other region keeps exactly its
/// points, the set of regions and each region's population are unchanged,
/// and once repeated points are set aside every region holds the same
/// observations as after a single ingestion.
pub proof fn lemma_repeated_record_same_region(rs: Seq<RawRecord>, r: RawRecord, key: Seq<char>)
    ensures
        region_keys(rs.push(r).push(r)) == region_keys(rs.push(r)),
        key != r.region@ ==> points_for(rs.push(r).push(r), key) == points_for(rs.push(r), key),
        key == r.region@ ==> points_for(rs.push(r).push(r), key) == points_for(rs.push(r), key).push(point_of(r)),
        key == r.region@ ==> points_for(rs.push(r), key).contains(point_of(r)),
        points_for(rs.push(r).push(r), key).to_set() == points_for(rs.push(r), key).to_set(),
        first_population(rs.push(r).push(r), key) == first_population(rs.push(r), key),
{
    let once = rs.push(r);
    let twice = once.push(r);
    lemma_points_for_push(rs, r, key);
    lemma_points_for_push(once, r, key);
    let pts_once = points_for(once, key);
    let pts_twice = points_for(twice, key);
    if key == r.region@ {
        assert(pts_once[pts_once.len() - 1] == point_of(r));
        assert(pts_once.contains(point_of(r)));
        assert forall|x: ObservationPoint| pts_twice.contains(x) implies pts_once.contains(x) by {
            let k = choose|k: int| 0 <= k < pts_twice.len() && pts_twice[k] == x;
            if k < pts_once.len() {
                assert(pts_once[k] == x);
            }
        }
        assert forall|x: ObservationPoint| pts_once.contains(x) implies pts_twice.contains(x) by {
            let k = choose|k: int| 0 <= k < pts_once.len() && pts_once[k] == x;
            assert(pts_twice[k] == x);
        }
        assert(pts_twice.to_set() =~= pts_once.to_set());
    }
    assert forall|k: Seq<char>| region_keys(twice).contains(k) <==> region_keys(once).contains(k) by {
        if region_keys(twice).contains(k) {
            let w = choose|w: int| 0 <= w < twice.len() && #[trigger] twice[w].region@ == k;
            if w == twice.len() - 1 {
                assert(once[once.len() - 1].region@ == k);
            } else {
                assert(once[w].region@ == k);
            }
        }
        if region_keys(once).contains(k) {
            let w = choose|w: int| 0 <= w < once.len() && #[trigger] once[w].region@ == k;
            assert(twice[w].region@ == k);
        }
    }
    assert(region_keys(twice) =~= region_keys(once));
}

/// Groups records by their exact region key. Each region appears once, in
/// the order in which its key was first seen; its points are those of its
/// records, sorted by position (stable: equal positions keep input order);
/// its population is that of its first record.
pub fn group_by_region(records: &Vec<RawRecord>) -> (r: Vec<RegionSeries>)
    ensures
        keys_of(r@) == first_seen_keys(records@),
        distinct_keys(r@),
        forall|j: int| 0 <= j < r.len() ==> {
            &&& (#[trigger] r[j]).points@ == sorted_by_position(points_for(records@, r[j].key@))
            &&& is_sorted_by_position(r[j].points@)
            &&& r[j].points@.len() > 0
            &&& r[j].population == first_population(records@, r[j].key@)
            &&& r[j].name@ == display_name(r[j].key@)
        },
        forall|key: Seq<char>| #[trigger] region_keys(records@).contains(key) <==> exists|j: int|
            0 <= j < r.len() && r[j].key@ == key,
{
    let mut builders: Vec<RegionSeries> = Vec::new();
    let mut i: usize = 0;
    while i < records.len()
        invariant
            i <= records.len(),
            keys_of(builders@) == first_seen_keys(records@.subrange(0, i as int)),
            distinct_keys(builders@),
            forall|j: int| 0 <= j < builders.len() ==> builder_matches(#[trigger] builders@[j], records@.subrange(0, i as int)),
            forall|key: Seq<char>| (forall|j: int| 0 <= j < builders.len() ==> #[trigger] builders@[j].key@ != key)
                ==> #[trigger] points_for(records@.subrange(0, i as int), key).len() == 0,
        decreases records.len() - i,
    {
        let rec = &records[i];
        let ghost prefix = records@.subrange(0, i as int);
        proof {
            assert(records@.subrange(0, i as int + 1) =~= prefix.push(*rec));
        }
        let mut idx: usize = 0;
        while idx < builders.len() && !(builders[idx].key == rec.region)
            invariant
                idx <= builders.len(),
                forall|k: int| 0 <= k < idx ==> #[trigger] builders@[k].key@ != rec.region@,
            decreases builders.len() - idx,
        {
            idx = idx + 1;
        }
        let point = ObservationPoint { position: rec.day, cases: rec.cases, deaths: rec.deaths };
        let ghost old_b = builders@;
        if idx < builders.len() {
            proof {
                assert(prefix.push(*rec).drop_last() =~= prefix);
                assert(keys_of(old_b)[idx as int] == rec.region@);
                assert(first_seen_keys(prefix).contains(rec.region@));
                assert(first_seen_keys(prefix.push(*rec)) == first_seen_keys(prefix));
                lemma_points_for_push(prefix, *rec, rec.region@);
            }
            builders[idx].points.push(point);
            assert(builders.len() == old_b.len());
            assert(forall|j: int| 0 <= j < builders.len() ==> (#[trigger] builders@[j]).key == old_b[j].key);
            assert(keys_of(builders@) =~= keys_of(old_b));
            proof {
                assert forall|j: int| 0 <= j < builders.len() implies builder_matches(
                    #[trigger] builders@[j],
                    prefix.push(*rec),
                ) by {
                    lemma_points_for_push(prefix, *rec, builders@[j].key@);
                }
                assert forall|key: Seq<char>| (forall|j: int| 0 <= j < builders.len() ==> #[trigger] builders@[j].key@ != key)
                    implies #[trigger] points_for(prefix.push(*rec), key).len() == 0 by {
                    lemma_points_for_push(prefix, *rec, key);
                    assert(builders@[idx as int].key@ != key);
                    assert forall|j: int| 0 <= j < old_b.len() implies #[trigger] old_b[j].key@ != key by {
                        assert(builders@[j].key@ != key);
                    }
                }
            }
        } else {
            proof {
                lemma_points_for_push(prefix, *rec, rec.region@);
                assert(prefix.push(*rec).drop_last() =~= prefix);
                assert forall|k: int| 0 <= k < keys_of(old_b).len() implies keys_of(old_b)[k] != rec.region@ by {
                    assert(old_b[k].key@ != rec.region@);
                }
                assert(!keys_of(old_b).contains(rec.region@));
                assert(first_seen_keys(prefix.push(*rec)) == first_seen_keys(prefix).push(rec.region@));
            }
            let mut points: Vec<ObservationPoint> = Vec::new();
            points.push(point);
            let b = RegionSeries {
                key: rec.region.clone(),
                name: underscores_to_spaces(rec.region.as_str()),
                population: rec.population,
                points,
            };
            proof {
                assert(b.points@ =~= points_for(prefix.push(*rec), rec.region@));
            }
            builders.push(b);
            assert(builders@ == old_b.push(b));
            assert(keys_of(builders@) =~= keys_of(old_b).push(rec.region@));
            proof {
                assert forall|j: int| 0 <= j < builders.len() implies builder_matches(
                    #[trigger] builders@[j],
                    prefix.push(*rec),
                ) by {
                    lemma_points_for_push(prefix, *rec, builders@[j].key@);
                }
                assert forall|key: Seq<char>| (forall|j: int| 0 <= j < builders.len() ==> #[trigger] builders@[j].key@ != key)
                    implies #[trigger] points_for(prefix.push(*rec), key).len() == 0 by {
                    lemma_points_for_push(prefix, *rec, key);
                    assert(builders@[builders.len() - 1].key@ != key);
                    assert forall|j: int| 0 <= j < old_b.len() implies #[trigger] old_b[j].key@ != key by {
                        assert(builders@[j].key@ != key);
                    }
                }
            }
        }
        i = i + 1;
    }
    proof {
        assert(records@.subrange(0, records.len() as int) =~= records@);
    }
    let ghost unsorted = builders@;
    assert(forall|k: int| 0 <= k < unsorted.len() ==> builder_matches(#[trigger] unsorted[k], records@));
    assert(forall|key: Seq<char>| (forall|j: int| 0 <= j < unsorted.len() ==> #[trigger] unsorted[j].key@ != key)
        ==> #[trigger] points_for(records@, key).len() == 0);
    let mut j: usize = 0;
    while j < builders.len()
        invariant
            builders.len() == unsorted.len(),
            keys_of(unsorted) == first_seen_keys(records@),
            j <= builders.len(),
            distinct_keys(builders@),
            forall|k: int| 0 <= k < builders.len() ==> (#[trigger] builders@[k]).key == unsorted[k].key
                && builders@[k].name == unsorted[k].name && builders@[k].population == unsorted[k].population,
            forall|k: int| j <= k < builders.len() ==> (#[trigger] builders@[k]).points@ == unsorted[k].points@,
            forall|k: int| 0 <= k < j ==> (#[trigger] builders@[k]).points@ == sorted_by_position(unsorted[k].points@),
        decreases builders.len() - j,
    {
        let sorted = sort_points(&builders[j].points);
        builders[j].points = sorted;
        j = j + 1;
    }
    proof {
        assert(keys_of(builders@) =~= keys_of(unsorted));
        assert forall|k: int| 0 <= k < builders.len() implies is_sorted_by_position(#[trigger] builders@[k].points@) && builders@[k].points@.len() > 0 by {
            lemma_sorted_by_position(unsorted[k].points@);
        }
        assert forall|key: Seq<char>| #[trigger] region_keys(records@).contains(key) <==> exists|j: int|
            0 <= j < builders.len() && builders@[j].key@ == key by {
            if region_keys(records@).contains(key) {
                let w = choose|w: int| 0 <= w < records.len() && #[trigger] records@[w].region@ == key;
                lemma_points_for_has(records@, key, w);
                assert(!(forall|j: int| 0 <= j < unsorted.len() ==> #[trigger] unsorted[j].key@ != key));
                let j = choose|j: int| 0 <= j < unsorted.len() && #[trigger] unsorted[j].key@ == key;
                assert(builders@[j].key == unsorted[j].key);
            }
            if exists|j: int| 0 <= j < builders.len() && builders@[j].key@ == key {
                let j = choose|j: int| 0 <= j < builders.len() && builders@[j].key@ == key;
                assert(builders@[j].key == unsorted[j].key);
                assert(builder_matches(unsorted[j], records@));
                lemma_points_for_nonempty(records@, key);
            }
        }
    }
    builders
}

} // verus!
