use covid_trends::records::RawRecord;
use covid_trends::series::{group_by_region, sort_points, ObservationPoint, RegionSeries};

fn rec(region: &str, day: i64, deaths: i32, population: i32) -> RawRecord {
    RawRecord { region: region.to_string(), day, cases: deaths * 10, deaths, population }
}

fn find<'a>(all: &'a [RegionSeries], key: &str) -> &'a RegionSeries {
    all.iter().find(|s| s.key == key).expect("region present")
}

fn positions(s: &RegionSeries) -> Vec<i64> {
    s.points.iter().map(|p| p.position).collect()
}

#[test]
fn end_to_end_grouping_gives_one_series_per_region() {
    let records = vec![rec("A", 1, 5, 0), rec("A", 2, 8, 0), rec("B", 1, 1, 0)];
    let groups = group_by_region(&records);
    assert_eq!(groups.len(), 2);
    assert_eq!(find(&groups, "A").points.len(), 2);
    assert_eq!(find(&groups, "B").points.len(), 1);
}

#[test]
fn regions_keep_first_seen_order_and_points_are_sorted() {
    let records = vec![rec("B", 9, 1, 0), rec("A", 3, 2, 0), rec("B", 4, 3, 0), rec("A", 1, 4, 0), rec("B", 6, 5, 0)];
    let groups = group_by_region(&records);
    assert_eq!(groups[0].key, "B");
    assert_eq!(groups[1].key, "A");
    assert_eq!(positions(&groups[0]), vec![4, 6, 9]);
    assert_eq!(positions(&groups[1]), vec![1, 3]);
    assert_eq!(groups[0].points[2].deaths, 1);
}

#[test]
fn duplicate_positions_are_all_kept_in_input_order() {
    let records = vec![rec("A", 2, 7, 0), rec("A", 1, 1, 0), rec("A", 2, 3, 0), rec("A", 2, 7, 0)];
    let groups = group_by_region(&records);
    assert_eq!(groups.len(), 1);
    let deaths: Vec<i32> = groups[0].points.iter().map(|p| p.deaths).collect();
    assert_eq!(positions(&groups[0]), vec![1, 2, 2, 2]);
    assert_eq!(deaths, vec![1, 7, 3, 7]);
}

#[test]
fn keys_are_exact_and_case_sensitive() {
    let records = vec![rec("Spain", 1, 1, 0), rec("spain", 1, 1, 0), rec("Spain ", 1, 1, 0)];
    assert_eq!(group_by_region(&records).len(), 3);
}

#[test]
fn display_name_replaces_underscores() {
    let records = vec![rec("United_States_of_America", 1, 1, 0)];
    let groups = group_by_region(&records);
    assert_eq!(groups[0].key, "United_States_of_America");
    assert_eq!(groups[0].name, "United States of America");
}

#[test]
fn first_population_wins() {
    let records = vec![rec("A", 1, 1, 500), rec("A", 2, 1, 900), rec("B", 1, 1, 0), rec("B", 2, 1, 40)];
    let groups = group_by_region(&records);
    assert_eq!(find(&groups, "A").population, 500);
    assert_eq!(find(&groups, "B").population, 0);
}

#[test]
fn repeated_record_stays_in_its_own_region() {
    let base = vec![rec("A", 1, 5, 0), rec("B", 1, 1, 0)];
    let mut twice = base.clone();
    twice.push(rec("A", 3, 2, 0));
    twice.push(rec("A", 3, 2, 0));
    let mut once = base.clone();
    once.push(rec("A", 3, 2, 0));
    let g_twice = group_by_region(&twice);
    let g_once = group_by_region(&once);
    assert_eq!(g_twice.len(), g_once.len());
    assert_eq!(find(&g_twice, "B").points, find(&g_once, "B").points);
    let mut dedup = find(&g_twice, "A").points.clone();
    dedup.dedup();
    assert_eq!(dedup, find(&g_once, "A").points);
}

#[test]
fn no_records_no_regions() {
    assert!(group_by_region(&Vec::new()).is_empty());
}

#[test]
fn sort_is_stable() {
    let pts = vec![
        ObservationPoint { position: 3, cases: 1, deaths: 0 },
        ObservationPoint { position: 1, cases: 2, deaths: 0 },
        ObservationPoint { position: 3, cases: 3, deaths: 0 },
        ObservationPoint { position: -2, cases: 4, deaths: 0 },
    ];
    let sorted = sort_points(&pts);
    let cases: Vec<i32> = sorted.iter().map(|p| p.cases).collect();
    assert_eq!(cases, vec![4, 2, 1, 3]);
}
