//! Fresh identifiers.
//!
//! Alert records, alert rules created through the command surface, and the
//! local node each carry a generated id. The id is random, so beyond its
//! shape nothing is promised of it.

use vstd::prelude::*;

verus! {

/// Relies on `uuid::Uuid::new_v4` and its `Display` impl: a random
/// version-4 UUID rendered in the hyphenated form, which is 36 characters.
#[verifier::external_body]
pub fn fresh_id() -> (r: String)
    ensures
        r@.len() == 36,
{
    uuid::Uuid::new_v4().to_string()
}

} // verus!
