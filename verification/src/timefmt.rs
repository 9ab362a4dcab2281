//! Display formatting of timestamps through chrono, in the machine's local
//! time zone. Because the rendered text depends on that zone, nothing is
//! promised of it; the layout carries it through as opaque label text.

use vstd::prelude::*;

verus! {

/// Relies on chrono's local-zone formatting (`%a %-I%P`): a short label
/// like the weekday and hour. The text depends on the machine's time zone.
#[verifier::external_body]
pub fn fmt_display_time(ts: i64) -> (r: String) {
    match chrono::DateTime::from_timestamp(ts, 0) {
        Some(t) => t.with_timezone(&chrono::Local).format("%a %-I%P").to_string(),
        None => String::new(),
    }
}

/// Relies on chrono's local-zone formatting (`%-m/%-d %-I%P`): a fuller
/// date label for tooltips. The text depends on the machine's time zone.
#[verifier::external_body]
pub fn fmt_tooltip_time(ts: i64) -> (r: String) {
    match chrono::DateTime::from_timestamp(ts, 0) {
        Some(t) => t.with_timezone(&chrono::Local).format("%-m/%-d %-I%P").to_string(),
        None => String::new(),
    }
}

} // verus!
