//! The clock: the formatted time as the variable `clock.datetime`.

use vstd::prelude::*;
use crate::state::{Update, UpdateEntry, VarUpdate};
use crate::text::owned;

verus! {

/// A clock with its `strftime` format.
#[derive(Debug)]
pub struct Clock {
    pub format: String,
}

impl Clock {
    /// The update that sets `clock.datetime` to the formatted time.
    pub fn update(&self, time_str: String) -> (r: Update)
        ensures
            r matches Update::VarUpdate(u) && u.command_name is None && u.error is None
                && u.entries@.len() == 1
                && (u.entries@[0].name matches Some(n) && n@ == seq!['c', 'l', 'o', 'c', 'k'])
                && u.entries@[0].instance is None
                && u.entries@[0].var@ == seq!['d', 'a', 't', 'e', 't', 'i', 'm', 'e']
                && u.entries@[0].value == time_str,
    {
        let c = "clock";
        let d = "datetime";
        proof {
            reveal_strlit("clock");
            reveal_strlit("datetime");
            assert(c@ =~= seq!['c', 'l', 'o', 'c', 'k']);
            assert(d@ =~= seq!['d', 'a', 't', 'e', 't', 'i', 'm', 'e']);
        }
        let mut entries: Vec<UpdateEntry> = Vec::new();
        entries.push(UpdateEntry { name: Some(owned(c)), instance: None, var: owned(d), value: time_str });
        Update::VarUpdate(VarUpdate { command_name: None, entries, error: None })
    }
}

} // verus!
