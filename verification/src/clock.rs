use vstd::prelude::*;

verus! {

/// Relies on chrono::Utc::now for the current wall-clock time, reduced to
/// whole seconds since the Unix epoch. Nothing is promised of the value:
/// every caller must hold for whatever instant comes back.
#[verifier::external_body]
pub(crate) fn now_secs() -> i64 {
    chrono::Utc::now().timestamp()
}

} // verus!
