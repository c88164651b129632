use covid_trends::records::{parse_row, parse_rows, RawRecord, RowError, SkippedRow, SourceRow};

fn row(region: &str, day: &str, month: &str, year: &str, cases: &str, deaths: &str, population: &str) -> SourceRow {
    SourceRow {
        region: region.to_string(),
        day: day.to_string(),
        month: month.to_string(),
        year: year.to_string(),
        cases: cases.to_string(),
        deaths: deaths.to_string(),
        population: population.to_string(),
    }
}

fn year() -> String {
    "2020".to_string()
}

fn accepted(r: Result<Option<RawRecord>, RowError>) -> RawRecord {
    match r {
        Ok(Some(rec)) => rec,
        other => panic!("expected a record, got {:?}", other),
    }
}

#[test]
fn row_is_read_with_day_offset() {
    let rec = accepted(parse_row(&row("Spain", "5", "3", "2020", "120", "7", "46723749"), &year()));
    assert_eq!(rec.region, "Spain");
    assert_eq!(rec.day, 65);
    assert_eq!(rec.cases, 120);
    assert_eq!(rec.deaths, 7);
    assert_eq!(rec.population, 46723749);
}

#[test]
fn month_table_bounds() {
    assert_eq!(accepted(parse_row(&row("A", "1", "1", "2020", "0", "0", "1"), &year())).day, 1);
    assert_eq!(accepted(parse_row(&row("A", "31", "12", "2020", "0", "0", "1"), &year())).day, 367);
    assert_eq!(accepted(parse_row(&row("A", "1", "2", "2020", "0", "0", "1"), &year())).day, 32);
}

#[test]
fn other_year_is_filtered_out() {
    let r = parse_row(&row("A", "1", "1", "2019", "1", "1", "1"), &year());
    assert!(matches!(r, Ok(None)));
    let r = parse_row(&row("A", "1", "1", "02020", "1", "1", "1"), &year());
    assert!(matches!(r, Ok(None)));
}

#[test]
fn each_unreadable_field_has_its_error() {
    assert_eq!(parse_row(&row("A", "x", "1", "2020", "1", "1", "1"), &year()).unwrap_err(), RowError::BadDay);
    assert_eq!(parse_row(&row("A", "1", "", "2020", "1", "1", "1"), &year()).unwrap_err(), RowError::BadMonth);
    assert_eq!(parse_row(&row("A", "1", "13", "2020", "1", "1", "1"), &year()).unwrap_err(), RowError::MonthOutOfRange);
    assert_eq!(parse_row(&row("A", "1", "0", "2020", "1", "1", "1"), &year()).unwrap_err(), RowError::MonthOutOfRange);
    assert_eq!(parse_row(&row("A", "1", "1", "2020", "1.5", "1", "1"), &year()).unwrap_err(), RowError::BadCases);
    assert_eq!(parse_row(&row("A", "1", "1", "2020", "1", " 2", "1"), &year()).unwrap_err(), RowError::BadDeaths);
    assert_eq!(
        parse_row(&row("A", "1", "1", "2020", "1", "3000000000", "1"), &year()).unwrap_err(),
        RowError::BadDeaths
    );
}

#[test]
fn first_failing_field_decides_the_error() {
    assert_eq!(parse_row(&row("A", "?", "?", "2020", "?", "?", "1"), &year()).unwrap_err(), RowError::BadDay);
    assert_eq!(parse_row(&row("A", "1", "1", "2020", "?", "?", "1"), &year()).unwrap_err(), RowError::BadCases);
}

#[test]
fn signs_are_accepted() {
    let rec = accepted(parse_row(&row("A", "+4", "1", "2020", "-3", "-1", "1"), &year()));
    assert_eq!(rec.day, 4);
    assert_eq!(rec.cases, -3);
    assert_eq!(rec.deaths, -1);
}

#[test]
fn unreadable_population_is_unknown() {
    let rec = accepted(parse_row(&row("A", "1", "1", "2020", "1", "1", "n/a"), &year()));
    assert_eq!(rec.population, 0);
    let rec = accepted(parse_row(&row("A", "1", "1", "2020", "1", "1", ""), &year()));
    assert_eq!(rec.population, 0);
}

#[test]
fn bad_rows_are_skipped_not_fatal() {
    let rows = vec![
        row("A", "1", "1", "2020", "1", "5", "10"),
        row("A", "bad", "1", "2020", "1", "5", "10"),
        row("B", "1", "1", "2019", "1", "5", "10"),
        row("B", "2", "1", "2020", "1", "x", "10"),
        row("C", "3", "1", "2020", "2", "6", "10"),
    ];
    let parsed = parse_rows(&rows, &year());
    assert_eq!(parsed.records.len(), 2);
    assert_eq!(parsed.records[0].region, "A");
    assert_eq!(parsed.records[1].region, "C");
    assert_eq!(parsed.records[1].day, 3);
    assert_eq!(
        parsed.skipped,
        vec![
            SkippedRow { index: 1, error: RowError::BadDay },
            SkippedRow { index: 3, error: RowError::BadDeaths },
        ]
    );
}

#[test]
fn no_rows_give_nothing() {
    let parsed = parse_rows(&Vec::new(), &year());
    assert!(parsed.records.is_empty());
    assert!(parsed.skipped.is_empty());
}
