//! The X11 window manager hints: the active window's title.

use vstd::prelude::*;
use crate::state::{Update, UpdateEntry, VarUpdate};
use crate::text::owned;

verus! {

/// The source of the workspace and active-window variables under X11.
#[derive(Debug)]
pub struct EWMH {}

/// Whether a window id names a window whose title is read: ids `0` and
/// `u32::MAX` name none, and the title is empty.
pub fn names_window(resource_id: u32) -> (r: bool)
    ensures
        r == (resource_id != 0 && resource_id != u32::MAX),
{
    resource_id != 0 && resource_id != u32::MAX
}

/// The update that sets `active_window.title`.
pub fn title_update(title: String) -> (r: Update)
    ensures
        r matches Update::VarUpdate(u) && u.command_name is None && u.error is None
            && u.entries@.len() == 1
            && (u.entries@[0].name matches Some(n)
                && n@ == seq!['a', 'c', 't', 'i', 'v', 'e', '_', 'w', 'i', 'n', 'd', 'o', 'w'])
            && u.entries@[0].instance is None
            && u.entries@[0].var@ == seq!['t', 'i', 't', 'l', 'e']
            && u.entries@[0].value == title,
{
    let a = "active_window";
    let t = "title";
    proof {
        reveal_strlit("active_window");
        reveal_strlit("title");
        assert(a@ =~= seq!['a', 'c', 't', 'i', 'v', 'e', '_', 'w', 'i', 'n', 'd', 'o', 'w']);
        assert(t@ =~= seq!['t', 'i', 't', 'l', 'e']);
    }
    let mut entries: Vec<UpdateEntry> = Vec::new();
    entries.push(UpdateEntry { name: Some(owned(a)), instance: None, var: owned(t), value: title });
    Update::VarUpdate(VarUpdate { command_name: None, entries, error: None })
}

/// The atoms of the window-manager properties a desktop is watched by.
#[derive(Debug, Clone, Copy)]
pub struct DesktopAtoms {
    pub current_desktop: u32,
    pub desktop_names: u32,
    pub active_window: u32,
    pub window_name: u32,
}

/// What a change of the property `atom` asks to read again: the workspaces
/// (the current desktop or the desktop names changed) and the active
/// window's title (the active window or a window's name changed).
pub fn property_refresh(atom: u32, atoms: &DesktopAtoms) -> (r: (bool, bool))
    ensures
        r.0 == (atom == atoms.current_desktop || atom == atoms.desktop_names),
        r.1 == (atom == atoms.active_window || atom == atoms.window_name),
{
    (
        atom == atoms.current_desktop || atom == atoms.desktop_names,
        atom == atoms.active_window || atom == atoms.window_name,
    )
}

} // verus!
