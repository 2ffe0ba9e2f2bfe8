//! The menu surface the protocol reads: display mode and the configured
//! remote address.
//!
//! Drawing the menu and hit-testing its start button are rendering
//! concerns outside this crate.  The replication layer cares about two
//! things: whether the peer is still in the unconnected/menu mode, and
//! which remote address the user has typed for the very first send.

use vstd::prelude::*;

verus! {

pub struct Menu {
    pub active: bool,
    pub remote: String,
}

impl Menu {
    /// A fresh menu is shown, with the loopback default as remote.
    pub fn new() -> (m: Menu)
        ensures
            m.active == true,
            m.remote@ == "127.0.0.1"@,
    {
        Menu { active: true, remote: String::from_str("127.0.0.1") }
    }
}

} // verus!
