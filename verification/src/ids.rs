use vstd::prelude::*;

verus! {

/// Relies on uuid::Uuid::new_v4 and Uuid::to_string: a fresh random
/// token in hyphenated form. Nothing is promised of its value.
#[verifier::external_body]
pub fn new_token() -> (r: String) {
    uuid::Uuid::new_v4().to_string()
}

} // verus!
