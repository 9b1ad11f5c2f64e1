//! The calculator and the outcomes of the chat services.

pub mod bard;
pub mod calculate;
pub mod cohere;

use vstd::prelude::*;
use vstd::string::*;

verus! {

/// The value of the authorization header that carries `token`.
pub fn bearer(token: &str) -> (header: String)
    ensures
        header@ == "Bearer "@ + token@,
{
    "Bearer ".to_owned().concat(token)
}

} // verus!
