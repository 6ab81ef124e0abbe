//! The analytics charts: how many days a chart covers.
use vstd::prelude::*;
use crate::text::{dec_int, int_text, string_of};

verus! {

/// The query of `GET /api/analytics/chart/{metric}`.
#[derive(Debug, Clone)]
pub struct ChartQuery {
    pub days: Option<i32>,
}

/// The days a chart covers: 7 unless asked.
pub fn chart_days(query: &ChartQuery) -> (res: i32)
    ensures
        res == match query.days {
            Some(d) => d,
            None => 7i32,
        },
{
    match query.days {
        Some(d) => d,
        None => 7,
    }
}

/// The day count as the query sends it, in decimal.
pub fn days_param(days: i32) -> (res: String)
    ensures
        res@ == dec_int(days as int),
{
    string_of(&int_text(days as i64))
}

} // verus!
