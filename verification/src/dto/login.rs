//! The login form of the note viewer.

use vstd::prelude::*;

verus! {

/// What a visitor submits to open the note viewer.
#[derive(Debug)]
pub struct LoginRequest {
    pub password: String,
}

} // verus!
