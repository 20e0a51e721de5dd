//! Monitors, as the X server reports them.

use vstd::prelude::*;

verus! {

/// A monitor: its output name, whether it is the primary one, and where it is.
#[derive(Debug)]
pub struct Monitor {
    pub name: String,
    pub primary: bool,
    pub x: u16,
    pub y: u16,
    pub width: u16,
    pub height: u16,
}

/// The monitor a bar goes on, by its position in the list: none when there
/// are no monitors; else the one of the configured name (an error when
/// there is none of that name); else the primary one, or the first.
pub fn pick_monitor(monitors: &Vec<Monitor>, name: &Option<String>) -> (r: Result<Option<usize>, ()>)
    ensures
        monitors@.len() == 0 ==> r == Ok::<Option<usize>, ()>(None),
        monitors@.len() > 0 ==> match name {
            Some(n) => match r {
                Ok(Some(i)) => i < monitors@.len() && monitors@[i as int].name@ == n@
                    && forall|j: int| 0 <= j < i ==> monitors@[j].name@ != n@,
                Ok(None) => false,
                Err(_) => forall|j: int| 0 <= j < monitors@.len() ==> monitors@[j].name@ != n@,
            },
            None => match r {
                Ok(Some(i)) => i < monitors@.len() && (forall|j: int| 0 <= j < i ==> !monitors@[j].primary)
                    && (monitors@[i as int].primary || (i == 0 && forall|j: int| 0 <= j < monitors@.len() ==> !monitors@[j].primary)),
                _ => false,
            },
        },
{
    if monitors.len() == 0 {
        return Ok(None);
    }
    let mut i: usize = 0;
    while i < monitors.len()
        invariant
            i <= monitors@.len(),
            match name {
                Some(n) => forall|j: int| 0 <= j < i ==> monitors@[j].name@ != n@,
                None => forall|j: int| 0 <= j < i ==> !monitors@[j].primary,
            },
        decreases monitors@.len() - i,
    {
        let found = match name {
            Some(n) => crate::text::str_eq(monitors[i].name.as_str(), n.as_str()),
            None => monitors[i].primary,
        };
        if found {
            return Ok(Some(i));
        }
        i += 1;
    }
    match name {
        Some(_) => Err(()),
        None => Ok(Some(0)),
    }
}

} // verus!
