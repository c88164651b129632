use covid_trends::metrics::{cumulative_from_end, daily_delta, rolling_average, DerivedPoint, Metric};
use covid_trends::records::RawRecord;
use covid_trends::series::{group_by_region, ObservationPoint, RegionSeries};

fn series(deaths: &[i32]) -> RegionSeries {
    let points = deaths
        .iter()
        .enumerate()
        .map(|(i, d)| ObservationPoint { position: i as i64 + 1, cases: 2 * d, deaths: *d })
        .collect();
    RegionSeries { key: "R".to_string(), name: "R".to_string(), population: 0, points }
}

fn value(p: &DerivedPoint) -> f64 {
    p.numerator as f64 / p.denominator as f64
}

fn numerators(v: &[DerivedPoint]) -> Vec<i128> {
    v.iter().map(|p| p.numerator).collect()
}

#[test]
fn cumulative_from_end_sums_towards_newest() {
    let c = cumulative_from_end(&series(&[5, 3, 2]), Metric::Deaths);
    assert_eq!(numerators(&c), vec![10, 5, 2]);
    assert!(c.iter().all(|p| p.denominator == 1));
    assert_eq!(c.iter().map(|p| p.position).collect::<Vec<_>>(), vec![1, 2, 3]);
}

#[test]
fn cumulative_uses_the_chosen_metric() {
    let c = cumulative_from_end(&series(&[5, 3, 2]), Metric::Cases);
    assert_eq!(numerators(&c), vec![20, 10, 4]);
}

#[test]
fn cumulative_of_empty_series_is_empty() {
    assert!(cumulative_from_end(&series(&[]), Metric::Deaths).is_empty());
}

#[test]
fn daily_delta_has_one_point_fewer_and_telescopes() {
    let s = series(&[4, 9, 1, 6]);
    let c = cumulative_from_end(&s, Metric::Deaths);
    let d = daily_delta(&s, Metric::Deaths);
    assert_eq!(d.len(), 3);
    assert_eq!(numerators(&d), vec![-4, -9, -1]);
    assert_eq!(d.iter().map(|p| p.position).collect::<Vec<_>>(), vec![2, 3, 4]);
    let total: i128 = d.iter().map(|p| p.numerator).sum();
    assert_eq!(total, c[3].numerator - c[0].numerator);
}

#[test]
fn daily_delta_of_short_series() {
    assert!(daily_delta(&series(&[7]), Metric::Deaths).is_empty());
    assert!(daily_delta(&series(&[]), Metric::Deaths).is_empty());
}

#[test]
fn rolling_average_over_three() {
    let r = rolling_average(&series(&[10, 20, 30, 40]), Metric::Deaths, 3);
    assert_eq!(r.len(), 2);
    assert_eq!(value(&r[0]), 20.0);
    assert_eq!(value(&r[1]), 30.0);
    assert_eq!(r[0].position, 3);
    assert_eq!(r[1].position, 4);
}

#[test]
fn rolling_average_lengths() {
    let s = series(&[1, 2, 3, 4, 5, 6, 7, 8]);
    for w in 1..=8usize {
        assert_eq!(rolling_average(&s, Metric::Deaths, w).len(), 8 - w + 1);
    }
    assert!(rolling_average(&s, Metric::Deaths, 9).is_empty());
    assert!(rolling_average(&s, Metric::Deaths, 0).is_empty());
    let whole = rolling_average(&s, Metric::Deaths, 8);
    assert_eq!(whole[0].numerator, 36);
    assert_eq!(whole[0].denominator, 8);
}

#[test]
fn rolling_average_is_fractional() {
    let r = rolling_average(&series(&[1, 2, 0, 3, 1, 2, 1]), Metric::Deaths, 7);
    assert_eq!(r.len(), 1);
    assert!((value(&r[0]) - 1.4286).abs() < 1e-4);
}

#[test]
fn end_to_end_rolling_average() {
    let rec = |region: &str, day: i64, deaths: i32| RawRecord { region: region.to_string(), day, cases: 0, deaths, population: 0 };
    let groups = group_by_region(&vec![rec("A", 1, 5), rec("A", 2, 8), rec("B", 1, 1)]);
    let a = groups.iter().find(|s| s.key == "A").unwrap();
    let b = groups.iter().find(|s| s.key == "B").unwrap();
    let ra = rolling_average(a, Metric::Deaths, 2);
    assert_eq!(ra.len(), 1);
    assert_eq!(ra[0].position, 2);
    assert_eq!(value(&ra[0]), 6.5);
    let rb = rolling_average(b, Metric::Deaths, 2);
    assert!(rb.is_empty());
}
