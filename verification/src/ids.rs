//! Fresh identifiers for requests, collections and environments.

use vstd::prelude::*;

verus! {

/// Relies on `uuid::Uuid::new_v4` and its rendering: a freshly drawn random
/// identifier. The value is random, so nothing is promised of it.
#[verifier::external_body]
pub fn new_id() -> String {
    uuid::Uuid::new_v4().to_string()
}

} // verus!
