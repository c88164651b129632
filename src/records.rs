//! Source rows (every field still text) and the raw records read from them.
use vstd::prelude::*;
use crate::text::{parse_i32, parsed_i32};

verus! {

/// One row of a day/month/year report, each field as the source gave it.
pub struct SourceRow {
    pub region: String,
    pub day: String,
    pub month: String,
    pub year: String,
    pub cases: String,
    pub deaths: String,
    pub population: String,
}

/// One observation of one region, with its position as a day offset.
#[derive(Clone, Debug)]
pub struct RawRecord {
    /// The region key exactly as the source wrote it.
    pub region: String,
    pub day: i64,
    pub cases: i32,
    pub deaths: i32,
    /// The population the source reports, 0 where it is missing or unreadable.
    pub population: i32,
}

/// Why a row was skipped.
#[derive(Clone, Copy, Debug, PartialEq, Eq, Structural)]
pub enum RowError {
    BadDay,
    BadMonth,
    MonthOutOfRange,
    BadCases,
    BadDeaths,
}

/// A skipped row: its index among the input rows, and why.
#[derive(Clone, Copy, Debug, PartialEq, Eq, Structural)]
pub struct SkippedRow {
    pub index: usize,
    pub error: RowError,
}

/// The records read from a batch of rows, and the rows that were skipped.
pub struct ParsedRows {
    pub records: Vec<RawRecord>,
    pub skipped: Vec<SkippedRow>,
}

/// Day of the year (0-based, non-leap table) on which month `month` (1 to 12)
/// begins.
pub open spec fn month_start(month: int) -> int {
    seq![0int, 31, 60, 91, 121, 152, 182, 213, 244, 274, 305, 336][month - 1]
}

/// The outcome of reading one row for `year`: `Ok(None)` for a row of another
/// year, the first unreadable field as an error, else the record.
pub open spec fn row_outcome(row: SourceRow, year: Seq<char>) -> Result<Option<RawRecord>, RowError> {
    if row.year@ != year {
        Ok(None)
    } else {
        match parsed_i32(row.day@) {
            None => Err(RowError::BadDay),
            Some(d) => match parsed_i32(row.month@) {
                None => Err(RowError::BadMonth),
                Some(m) => if !(1 <= m && m <= 12) {
                    Err(RowError::MonthOutOfRange)
                } else {
                    match parsed_i32(row.cases@) {
                        None => Err(RowError::BadCases),
                        Some(c) => match parsed_i32(row.deaths@) {
                            None => Err(RowError::BadDeaths),
                            Some(k) => Ok(
                                Some(
                                    RawRecord {
                                        region: row.region,
                                        day: (d + month_start(m as int)) as i64,
                                        cases: c,
                                        deaths: k,
                                        population: match parsed_i32(row.population@) {
                                            Some(p) => p,
                                            None => 0,
                                        },
                                    },
                                ),
                            ),
                        },
                    }
                },
            },
        }
    }
}

/// The records read from `rows`, in input order.
pub open spec fn accepted_records(rows: Seq<SourceRow>, year: Seq<char>) -> Seq<RawRecord>
    decreases rows.len(),
{
    if rows.len() == 0 {
        Seq::empty()
    } else {
        let prev = accepted_records(rows.drop_last(), year);
        match row_outcome(rows.last(), year) {
            Ok(Some(r)) => prev.push(r),
            _ => prev,
        }
    }
}

/// The rows of `rows` that were skipped, in input order.
pub open spec fn skipped_rows(rows: Seq<SourceRow>, year: Seq<char>) -> Seq<SkippedRow>
    decreases rows.len(),
{
    if rows.len() == 0 {
        Seq::empty()
    } else {
        let prev = skipped_rows(rows.drop_last(), year);
        match row_outcome(rows.last(), year) {
            Err(e) => prev.push(SkippedRow { index: (rows.len() - 1) as usize, error: e }),
            _ => prev,
        }
    }
}

fn month_start_day(month: i32) -> (r: i64)
    requires
        1 <= month <= 12,
    ensures
        r == month_start(month as int),
{
    if month == 1 {
        0
    } else if month == 2 {
        31
    } else if month == 3 {
        60
    } else if month == 4 {
        91
    } else if month == 5 {
        121
    } else if month == 6 {
        152
    } else if month == 7 {
        182
    } else if month == 8 {
        213
    } else if month == 9 {
        244
    } else if month == 10 {
        274
    } else if month == 11 {
        305
    } else {
        336
    }
}

/// Reads one row, keeping it only if its year field is `year`.
pub fn parse_row(row: &SourceRow, year: &String) -> (r: Result<Option<RawRecord>, RowError>)
    ensures
        r == row_outcome(*row, year@),
{
    if !(row.year == *year) {
        return Ok(None);
    }
    let day = match parse_i32(row.day.as_str()) {
        Some(d) => d,
        None => return Err(RowError::BadDay),
    };
    let month = match parse_i32(row.month.as_str()) {
        Some(m) => m,
        None => return Err(RowError::BadMonth),
    };
    if month < 1 || month > 12 {
        return Err(RowError::MonthOutOfRange);
    }
    let cases = match parse_i32(row.cases.as_str()) {
        Some(c) => c,
        None => return Err(RowError::BadCases),
    };
    let deaths = match parse_i32(row.deaths.as_str()) {
        Some(k) => k,
        None => return Err(RowError::BadDeaths),
    };
    let population = match parse_i32(row.population.as_str()) {
        Some(p) => p,
        None => 0,
    };
    Ok(
        Some(
            RawRecord {
                region: row.region.clone(),
                day: day as i64 + month_start_day(month),
                cases,
                deaths,
                population,
            },
        ),
    )
}

/// Reads every row for `year`: unreadable rows are listed as skipped and do
/// not stop the others.
pub fn parse_rows(rows: &Vec<SourceRow>, year: &String) -> (r: ParsedRows)
    ensures
        r.records@ == accepted_records(rows@, year@),
        r.skipped@ == skipped_rows(rows@, year@),
{
    let mut records: Vec<RawRecord> = Vec::new();
    let mut skipped: Vec<SkippedRow> = Vec::new();
    let mut i: usize = 0;
    while i < rows.len()
        invariant
            i <= rows.len(),
            records@ == accepted_records(rows@.subrange(0, i as int), year@),
            skipped@ == skipped_rows(rows@.subrange(0, i as int), year@),
        decreases rows.len() - i,
    {
        let ghost prefix = rows@.subrange(0, i as int + 1);
        assert(prefix.drop_last() =~= rows@.subrange(0, i as int));
        match parse_row(&rows[i], year) {
            Ok(Some(rec)) => records.push(rec),
            Ok(None) => {},
            Err(e) => skipped.push(SkippedRow { index: i, error: e }),
        }
        i = i + 1;
    }
    assert(rows@.subrange(0, rows.len() as int) =~= rows@);
    ParsedRows { records, skipped }
}

} // verus!
