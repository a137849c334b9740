//! Wall-clock readings. The clock is an outside dependency: nothing can be
//! promised of what it returns, so every function that reasons about a
//! timestamp takes it as an argument.

use vstd::prelude::*;

verus! {

/// Relies on `chrono::Local::now` rendered with `to_rfc3339`: the current
/// local time in RFC 3339 form. The value depends on the clock; nothing is
/// promised of it.
#[verifier::external_body]
pub fn now_rfc3339() -> (r: String) {
    chrono::Local::now().to_rfc3339()
}

} // verus!
