//! The population table, and metrics scaled to a population of 100,000.
use vstd::prelude::*;
use crate::metrics::{is_engine_point, numerator_bound, DerivedPoint};
use crate::series::RegionSeries;

verus! {

/// Per-capita values are given per this many people.
pub const PER_CAPITA_UNIT: i128 = 100000;

/// A fixed table from region name to population. When a name is listed more
/// than once the last entry counts; a count that is not positive marks the
/// population as unknown.
pub struct PopulationRegistry {
    pub entries: Vec<(String, i32)>,
}

/// Why a per-capita metric was not produced.
#[derive(Clone, Copy, Debug, PartialEq, Eq, Structural)]
pub enum MetricUnavailable {
    PopulationUnavailable,
}

/// The population that `entries` give for `name`: that of its last entry,
/// when that is positive.
pub open spec fn population_in(entries: Seq<(String, i32)>, name: Seq<char>) -> Option<i32>
    decreases entries.len(),
{
    if entries.len() == 0 {
        None
    } else if entries.last().0@ == name {
        if entries.last().1 > 0 {
            Some(entries.last().1)
        } else {
            None
        }
    } else {
        population_in(entries.drop_last(), name)
    }
}

/// `p` divided by `population / PER_CAPITA_UNIT`.
pub open spec fn scaled_point(p: DerivedPoint, population: i32) -> DerivedPoint {
    DerivedPoint {
        position: p.position,
        numerator: (p.numerator * PER_CAPITA_UNIT) as i128,
        denominator: (p.denominator * population) as i128,
    }
}

impl PopulationRegistry {
    pub open spec fn population_of(&self, name: Seq<char>) -> Option<i32> {
        population_in(self.entries@, name)
    }

    /// A registry over `entries`, in registration order.
    pub fn new(entries: Vec<(String, i32)>) -> (r: PopulationRegistry)
        ensures
            r.entries@ == entries@,
    {
        PopulationRegistry { entries }
    }

    /// A registry holding, for each region, the population it was read with.
    pub fn from_regions(regions: &Vec<RegionSeries>) -> (r: PopulationRegistry)
        ensures
            r.entries@.len() == regions.len(),
            forall|i: int| 0 <= i < regions.len() ==> (#[trigger] r.entries@[i]).0@ == regions[i].name@
                && r.entries@[i].1 == regions[i].population,
    {
        let mut entries: Vec<(String, i32)> = Vec::new();
        let mut i: usize = 0;
        while i < regions.len()
            invariant
                i <= regions.len(),
                entries.len() == i,
                forall|k: int| 0 <= k < i ==> (#[trigger] entries@[k]).0@ == regions[k].name@
                    && entries@[k].1 == regions[k].population,
            decreases regions.len() - i,
        {
            entries.push((regions[i].name.clone(), regions[i].population));
            i = i + 1;
        }
        PopulationRegistry { entries }
    }

    /// The population registered for `name`, if it is known.
    pub fn lookup(&self, name: &String) -> (r: Option<i32>)
        ensures
            r == self.population_of(name@),
            r matches Some(p) ==> p > 0,
    {
        let mut i: usize = self.entries.len();
        assert(self.entries@.subrange(0, i as int) =~= self.entries@);
        while i > 0
            invariant
                i <= self.entries.len(),
                self.population_of(name@) == population_in(self.entries@.subrange(0, i as int), name@),
            decreases i,
        {
            let ghost prefix = self.entries@.subrange(0, i as int);
            proof {
                assert(prefix.drop_last() =~= self.entries@.subrange(0, i as int - 1));
            }
            if self.entries[i - 1].0 == *name {
                if self.entries[i - 1].1 > 0 {
                    return Some(self.entries[i - 1].1);
                } else {
                    return None;
                }
            }
            i = i - 1;
        }
        None
    }
}

/// Divides every point of a derived series by `population / PER_CAPITA_UNIT`.
pub fn per_capita(points: &Vec<DerivedPoint>, population: i32) -> (r: Vec<DerivedPoint>)
    requires
        population > 0,
        forall|i: int| 0 <= i < points.len() ==> is_engine_point(#[trigger] points[i]),
    ensures
        r.len() == points.len(),
        forall|i: int| 0 <= i < r.len() ==> {
            &&& (#[trigger] r[i]).position == points[i].position
            &&& r[i].numerator == points[i].numerator * PER_CAPITA_UNIT
            &&& r[i].denominator == points[i].denominator * population
            &&& r[i].denominator > 0
        },
{
    let mut out: Vec<DerivedPoint> = Vec::new();
    let mut i: usize = 0;
    while i < points.len()
        invariant
            i <= points.len(),
            population > 0,
            forall|k: int| 0 <= k < points.len() ==> is_engine_point(#[trigger] points[k]),
            out.len() == i,
            forall|k: int| 0 <= k < i ==> {
                &&& (#[trigger] out[k]).position == points[k].position
                &&& out[k].numerator == points[k].numerator * PER_CAPITA_UNIT
                &&& out[k].denominator == points[k].denominator * population
                &&& out[k].denominator > 0
            },
        decreases points.len() - i,
    {
        let p = points[i];
        assert(is_engine_point(p));
        let n = p.numerator;
        let d = p.denominator;
        let pop = population as i128;
        assert(-numerator_bound() * 100000 <= n * 100000 <= numerator_bound() * 100000) by (nonlinear_arith)
            requires
                -numerator_bound() <= n <= numerator_bound(),
        ;
        assert(1 <= d * pop <= 0xffff_ffff_ffff_ffff * 0x7fff_ffff) by (nonlinear_arith)
            requires
                1 <= d <= 0xffff_ffff_ffff_ffff,
                1 <= pop <= 0x7fff_ffff,
        ;
        out.push(
            DerivedPoint { position: p.position, numerator: n * PER_CAPITA_UNIT, denominator: d * pop },
        );
        i = i + 1;
    }
    out
}

/// The per-capita form of a derived series for the region named `name`,
/// or `PopulationUnavailable` when the registry knows no population for it:
/// no division is attempted then.
pub fn per_capita_for(points: &Vec<DerivedPoint>, registry: &PopulationRegistry, name: &String) -> (r: Result<
    Vec<DerivedPoint>,
    MetricUnavailable,
>)
    requires
        forall|i: int| 0 <= i < points.len() ==> is_engine_point(#[trigger] points[i]),
    ensures
        registry.population_of(name@) is None <==> r == Err::<Vec<DerivedPoint>, MetricUnavailable>(
            MetricUnavailable::PopulationUnavailable,
        ),
        r matches Ok(v) ==> registry.population_of(name@) matches Some(p) && v.len() == points.len()
            && forall|i: int| 0 <= i < v.len() ==> (#[trigger] v[i]) == scaled_point(points[i], p)
            && v[i].denominator > 0,
{
    match registry.lookup(name) {
        None => Err(MetricUnavailable::PopulationUnavailable),
        Some(p) => Ok(per_capita(points, p)),
    }
}

} // verus!
