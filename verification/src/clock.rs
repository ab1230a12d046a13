use vstd::prelude::*;

verus! {

/// Relies on `chrono::Utc::now` and `DateTime::to_rfc3339`: the wall clock,
/// read at the moment of the call and rendered in RFC 3339 form. Nothing is
/// assumed of the value, since it depends on the machine's clock; callers
/// state what holds of their result for every timestamp. Assumes a clock at
/// or after the Unix epoch (the reading panics on an earlier one).
#[verifier::external_body]
pub(crate) fn now_rfc3339() -> String {
    chrono::Utc::now().to_rfc3339()
}

} // verus!
