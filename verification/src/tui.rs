//! State carried by the terminal front end.
//!
//! The interactive loop itself reads and writes the console, so it lives
//! outside the core; the core only holds its state — the credential table —
//! and hands it out unchanged.

use crate::auth::Auth;
use vstd::prelude::*;

verus! {

/// State of the terminal front end: the credential table the login prompt
/// checks against.
pub struct Tui {
    pub auth_system: Auth,
}

impl Tui {
    /// Wraps a credential table for the front end, keeping it unchanged.
    pub fn new(auth_system: Auth) -> (tui: Tui)
        ensures
            tui.auth_system == auth_system,
    {
        Tui { auth_system }
    }
}

} // verus!
