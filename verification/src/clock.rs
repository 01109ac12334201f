//! Wall-clock timestamps, behind trusted wrappers. The result depends on the
//! clock, so nothing is promised about it.

use vstd::prelude::*;

verus! {

/// Relies on chrono's `Utc::now` and its `%Y-%m-%d %H:%M:%S` formatting for
/// the human-readable timestamps in task histories.
#[verifier::external_body]
pub fn now_log_timestamp() -> (r: String) {
    chrono::Utc::now().format("%Y-%m-%d %H:%M:%S").to_string()
}

/// Relies on chrono's `Utc::now` and its `%Y-%m-%d_%H-%M-%SZ` formatting for
/// the timestamp embedded in snapshot file names.
#[verifier::external_body]
pub fn now_file_stamp() -> (r: String) {
    chrono::Utc::now().format("%Y-%m-%d_%H-%M-%SZ").to_string()
}

} // verus!
