//! The decisions of a bar's window: where it goes and what the window
//! manager or the compositor is told, when it shows, and what the pointer
//! does to it.

use vstd::prelude::*;
use crate::bar::Button;
use crate::config::{Bar, BarPosition};
use crate::xrandr::Monitor;

verus! {

/// The height of a bar's window: the bar and its top and bottom margins.
pub open spec fn spec_window_height<D>(bar: Bar<D>) -> int {
    bar.height + bar.margin.top + bar.margin.bottom
}

/// The height of a bar's window.
pub fn window_height<D>(bar: &Bar<D>) -> (r: u16)
    requires
        spec_window_height(*bar) <= u16::MAX,
    ensures
        r == spec_window_height(*bar),
{
    bar.height + bar.margin.top + bar.margin.bottom
}

/// Integer division by two that rounds toward zero, as `/` does on integers.
pub open spec fn half_toward_zero(v: int) -> int {
    if v >= 0 {
        v / 2
    } else {
        -((-v) / 2)
    }
}

/// The top of a bar's window on a monitor: at the top, centered, or at the
/// bottom (coordinates taken as 16-bit signed values).
pub open spec fn window_y(position: BarPosition, monitor_height: u16, height: u16) -> int {
    match position {
        BarPosition::Top => 0,
        BarPosition::Center => half_toward_zero((monitor_height as i16) - (height as i16)),
        BarPosition::Bottom => (monitor_height as i16) - (height as i16),
    }
}

/// The space a docked bar reserves at its screen edge (`_NET_WM_STRUT` and
/// `_NET_WM_STRUT_PARTIAL`).
#[derive(Debug)]
pub struct Struts {
    /// Left, right, top and bottom.
    pub strut: Vec<u32>,
    /// Those four, then the start and end of each along its edge.
    pub strut_partial: Vec<u32>,
}

/// How an X11 bar window is created and placed.
#[derive(Debug)]
pub struct WindowPlan {
    pub x: i16,
    pub y: i16,
    pub width: u16,
    pub height: u16,
    /// The window manager leaves the window alone.
    pub override_redirect: bool,
    /// The pointer's motion over the whole screen is watched.
    pub watch_raw_motion: bool,
    pub struts: Option<Struts>,
    /// The window is shown from the start.
    pub visible: bool,
    /// The window is stacked below the window manager's support window.
    pub below_wm: bool,
}

/// Whether a bar reserves its space: docked at the top or the bottom, not
/// popping up.
pub open spec fn reserves_space<D>(bar: Bar<D>) -> bool {
    !bar.popup && bar.position != BarPosition::Center
}

/// The plan of the window of `bar` on `monitor`: as wide as the monitor, at
/// its left edge, at the position of the bar; a popping-up or centered bar
/// is left alone by the window manager, a docked one reserves its space at
/// its edge and is stacked below the window manager's windows; a popping-up
/// bar starts hidden.
pub fn x11_window_plan<D>(monitor: &Monitor, bar: &Bar<D>) -> (r: WindowPlan)
    requires
        spec_window_height(*bar) <= u16::MAX,
        bar.position != BarPosition::Top ==> i16::MIN <= (monitor.height as i16) - (spec_window_height(*bar) as u16 as i16)
            <= i16::MAX,
    ensures
        r.x == monitor.x as i16,
        r.y == window_y(bar.position, monitor.height, spec_window_height(*bar) as u16),
        r.width == monitor.width,
        r.height == spec_window_height(*bar),
        r.override_redirect == (bar.popup || bar.position == BarPosition::Center),
        r.watch_raw_motion == (bar.popup && bar.popup_at_edge),
        r.visible == !bar.popup,
        r.below_wm == reserves_space(*bar),
        match r.struts {
            Some(s) => reserves_space(*bar) && {
                let top = bar.position == BarPosition::Top;
                let h: u32 = if top { r.height as u32 } else { 0 };
                let b: u32 = if top { 0 } else { r.height as u32 };
                let wt: u32 = if top { r.width as u32 } else { 0 };
                let wb: u32 = if top { 0 } else { r.width as u32 };
                &&& s.strut@ == seq![0u32, 0, h, b]
                &&& s.strut_partial@ == seq![0u32, 0, h, b, 0, 0, 0, 0, 0, wt, 0, wb]
            },
            None => !reserves_space(*bar),
        },
{
    let height = window_height(bar);
    let y: i16 = match bar.position {
        BarPosition::Top => 0,
        BarPosition::Center => {
            let d: i16 = (monitor.height as i16) - (height as i16);
            if d >= 0 {
                d / 2
            } else {
                -((-(d as i32)) / 2) as i16
            }
        },
        BarPosition::Bottom => (monitor.height as i16) - (height as i16),
    };
    let reserve = !bar.popup && bar.position != BarPosition::Center;
    let struts = if reserve {
        let top = bar.position == BarPosition::Top;
        let h: u32 = if top { height as u32 } else { 0 };
        let b: u32 = if top { 0 } else { height as u32 };
        let wt: u32 = if top { monitor.width as u32 } else { 0 };
        let wb: u32 = if top { 0 } else { monitor.width as u32 };
        let strut = vec![0u32, 0, h, b];
        let strut_partial = vec![0u32, 0, h, b, 0, 0, 0, 0, 0, wt, 0, wb];
        assert(strut@ =~= seq![0u32, 0, h, b]);
        assert(strut_partial@ =~= seq![0u32, 0, h, b, 0, 0, 0, 0, 0, wt, 0, wb]);
        Some(Struts { strut, strut_partial })
    } else {
        None
    };
    WindowPlan {
        x: monitor.x as i16,
        y,
        width: monitor.width,
        height,
        override_redirect: bar.popup || bar.position == BarPosition::Center,
        watch_raw_motion: bar.popup && bar.popup_at_edge,
        struts,
        visible: !bar.popup,
        below_wm: reserve,
    }
}

/// How a bar's layer surface is set up on Wayland.
#[derive(Debug, Clone, Copy, PartialEq, Eq, Structural)]
pub struct LayerPlan {
    /// Anchored to the top edge (and always to the left and right ones).
    pub anchor_top: bool,
    /// Anchored to the bottom edge.
    pub anchor_bottom: bool,
    pub height: u32,
    /// The space the surface keeps other windows out of; `-1` floats above them.
    pub exclusive_zone: i32,
}

/// The layer surface of `bar`: across the output, at its edge (a centered
/// bar is left for the compositor to center), keeping its height free of
/// other windows unless it pops up or is centered.
pub fn layer_plan<D>(bar: &Bar<D>) -> (r: LayerPlan)
    requires
        spec_window_height(*bar) <= u16::MAX,
    ensures
        r.anchor_top == (bar.position == BarPosition::Top),
        r.anchor_bottom == (bar.position == BarPosition::Bottom),
        r.height == spec_window_height(*bar),
        r.exclusive_zone == if bar.popup || bar.position == BarPosition::Center {
            -1
        } else {
            spec_window_height(*bar)
        },
{
    let height = window_height(bar);
    let exclusive_zone: i32 = if bar.popup {
        -1
    } else {
        match bar.position {
            BarPosition::Center => -1,
            _ => height as i32,
        }
    };
    LayerPlan {
        anchor_top: bar.position == BarPosition::Top,
        anchor_bottom: bar.position == BarPosition::Bottom,
        height: height as u32,
        exclusive_zone,
    }
}

/// Whether an output, by the name the compositor gave it if any, is the one
/// named `n`.
pub open spec fn output_named(output: Option<String>, n: Seq<char>) -> bool {
    match output {
        Some(name) => name@ == n,
        None => false,
    }
}

/// The output a Wayland bar goes on, by its position among the outputs,
/// each given by its name where the compositor told one: the first output
/// named as the bar's `monitor`, else the first output. With no output at
/// all there is none, which is an error when the bar names a monitor.
pub fn pick_output(outputs: &Vec<Option<String>>, monitor: &Option<String>) -> (r: Result<Option<usize>, ()>)
    ensures
        outputs@.len() == 0 ==> r == (match monitor {
            Some(_) => Err::<Option<usize>, ()>(()),
            None => Ok(None),
        }),
        outputs@.len() > 0 ==> match monitor {
            Some(n) => match r {
                Ok(Some(i)) => i < outputs@.len() && (forall|j: int| 0 <= j < i ==> !output_named(outputs@[j], n@))
                    && (output_named(outputs@[i as int], n@) || (i == 0 && forall|j: int|
                        0 <= j < outputs@.len() ==> !output_named(outputs@[j], n@))),
                _ => false,
            },
            None => r == Ok::<Option<usize>, ()>(Some(0)),
        },
{
    if outputs.len() == 0 {
        return match monitor {
            Some(_) => Err(()),
            None => Ok(None),
        };
    }
    if let Some(n) = monitor {
        let mut i: usize = 0;
        while i < outputs.len()
            invariant
                i <= outputs@.len(),
                *monitor == Some(*n),
                forall|j: int| 0 <= j < i ==> !output_named(outputs@[j], n@),
            decreases outputs@.len() - i,
        {
            let found = match &outputs[i] {
                Some(name) => crate::text::str_eq(name.as_str(), n.as_str()),
                None => false,
            };
            assert(found == output_named(outputs@[i as int], n@));
            if found {
                return Ok(Some(i));
            }
            i += 1;
        }
    }
    Ok(Some(0))
}

/// The size of a layer surface after the compositor configures it: each
/// dimension it gives that is not zero replaces the one held.
pub fn configured_size(current: (u32, u32), new_size: (u32, u32)) -> (r: (u32, u32))
    ensures
        r.0 == if new_size.0 > 0 { new_size.0 } else { current.0 },
        r.1 == if new_size.1 > 0 { new_size.1 } else { current.1 },
{
    let width = if new_size.0 > 0 {
        new_size.0
    } else {
        current.0
    };
    let height = if new_size.1 > 0 {
        new_size.1
    } else {
        current.1
    };
    (width, height)
}

/// The button of an X11 button press: 1 to 3 the left, middle and right
/// buttons, 4 and 5 the wheel up and down.
pub fn x11_button(detail: u8) -> (r: Option<Button>)
    ensures
        r == match detail {
            1 => Some(Button::Left),
            2 => Some(Button::Middle),
            3 => Some(Button::Right),
            4 => Some(Button::ScrollUp),
            5 => Some(Button::ScrollDown),
            _ => None::<Button>,
        },
{
    match detail {
        1 => Some(Button::Left),
        2 => Some(Button::Middle),
        3 => Some(Button::Right),
        4 => Some(Button::ScrollUp),
        5 => Some(Button::ScrollDown),
        _ => None,
    }
}

/// The Linux input code of the left mouse button.
pub const BTN_LEFT: u32 = 0x110;

/// The Linux input code of the right mouse button.
pub const BTN_RIGHT: u32 = 0x111;

/// The Linux input code of the middle mouse button.
pub const BTN_MIDDLE: u32 = 0x112;

/// The button of a Wayland button press by its input code; none for the
/// other buttons.
pub fn wayland_button(code: u32) -> (r: Option<Button>)
    ensures
        r == if code == BTN_LEFT {
            Some(Button::Left)
        } else if code == BTN_RIGHT {
            Some(Button::Right)
        } else if code == BTN_MIDDLE {
            Some(Button::Middle)
        } else {
            None::<Button>
        },
{
    if code == BTN_LEFT {
        Some(Button::Left)
    } else if code == BTN_RIGHT {
        Some(Button::Right)
    } else if code == BTN_MIDDLE {
        Some(Button::Middle)
    } else {
        None
    }
}

/// How close to the screen edge the pointer shows a bar that pops up there.
pub const EDGE_SIZE: i16 = 3;

/// Whether the pointer at height `y` is over the bar's window or at the
/// screen edge the bar is at.
pub open spec fn pointer_near_bar(position: BarPosition, y: i16, screen_height: i16, height: i16) -> bool {
    match position {
        BarPosition::Top => y < height || y < EDGE_SIZE,
        BarPosition::Bottom => y > screen_height - height || y > screen_height - EDGE_SIZE,
        BarPosition::Center => false,
    }
}

/// What the pointer's motion over the screen does to a bar that pops up at
/// the edge: shows it when the pointer comes near, hides it when the pointer
/// leaves; `None` when nothing changes (or the bar does not pop up so).
pub fn edge_visibility(
    popup_at_edge: bool,
    position: BarPosition,
    y: i16,
    screen_height: i16,
    height: i16,
    visible: bool,
) -> (r: Option<bool>)
    requires
        position == BarPosition::Bottom ==> i16::MIN + EDGE_SIZE <= screen_height && i16::MIN
            <= screen_height - height <= i16::MAX,
    ensures
        r == if !popup_at_edge {
            None::<bool>
        } else {
            let show = pointer_near_bar(position, y, screen_height, height);
            if show != visible {
                Some(show)
            } else {
                None::<bool>
            }
        },
{
    if !popup_at_edge {
        return None;
    }
    let over_window = match position {
        BarPosition::Top => y < height,
        BarPosition::Bottom => y > screen_height - height,
        BarPosition::Center => false,
    };
    let over_edge = match position {
        BarPosition::Top => y < EDGE_SIZE,
        BarPosition::Bottom => y > screen_height - EDGE_SIZE,
        BarPosition::Center => false,
    };
    let show = over_window || over_edge;
    if show != visible {
        Some(show)
    } else {
        None
    }
}

/// What the variables do to a popping-up bar's window: it shows or hides as
/// they say; `None` when nothing changes, or the bar does not pop up.
pub fn visibility_from_vars(popup: bool, visible_from_vars: Option<bool>, visible: bool) -> (r: Option<bool>)
    ensures
        r == match visible_from_vars {
            Some(v) => if popup && v != visible {
                Some(v)
            } else {
                None::<bool>
            },
            None => None::<bool>,
        },
{
    if popup {
        match visible_from_vars {
            Some(v) => {
                if v != visible {
                    return Some(v);
                }
            },
            None => {},
        }
    }
    None
}

/// A pointer event of a frame, the surface it concerns by its id and its
/// position in whole pixels.
#[derive(Debug, Clone, Copy)]
pub enum PointerEvent {
    Enter { surface: u32, position: (i16, i16) },
    Leave { surface: u32 },
    Motion { position: (i16, i16) },
    /// A button press, by the button's input code.
    Press { button: u32 },
    /// A vertical scroll, and whether it scrolls down (a positive amount).
    Scroll { down: bool },
    Other,
}

/// What the pointer is over: the surface it entered last, and where it was
/// last seen.
#[derive(Debug, Clone, Copy)]
pub struct PointerState {
    pub surface: Option<u32>,
    pub last_position: (i16, i16),
}

/// What a window is told of the pointer, by the window's index.
#[derive(Debug, Clone, Copy, PartialEq, Eq)]
pub enum PointerAction {
    Motion { window: usize, position: (i16, i16) },
    Leave { window: usize },
    Press { window: usize, position: (i16, i16), button: Button },
}

/// The first window whose surface is `surface`.
pub open spec fn window_of(windows: Seq<u32>, surface: u32) -> Option<int>
    decreases windows.len(),
{
    if windows.len() == 0 {
        None
    } else if windows[0] == surface {
        Some(0)
    } else {
        match window_of(windows.drop_first(), surface) {
            Some(i) => Some(i + 1),
            None => None,
        }
    }
}

/// What one event does: the new state, and what a window is told; `None`
/// for a press of a button that bars do not handle, which ends the frame.
pub open spec fn pointer_step(st: PointerState, windows: Seq<u32>, e: PointerEvent) -> Option<(PointerState, Option<PointerAction>)> {
    match e {
        PointerEvent::Enter { surface, position } => Some((
            PointerState { surface: Some(surface), last_position: position },
            match window_of(windows, surface) {
                Some(w) => Some(PointerAction::Motion { window: w as usize, position }),
                None => None,
            },
        )),
        PointerEvent::Leave { surface } => if st.surface == Some(surface) {
            Some((
                PointerState { surface: None, ..st },
                match window_of(windows, surface) {
                    Some(w) => Some(PointerAction::Leave { window: w as usize }),
                    None => None,
                },
            ))
        } else {
            Some((st, None))
        },
        PointerEvent::Motion { position } => Some((
            PointerState { last_position: position, ..st },
            match st.surface {
                Some(s) => match window_of(windows, s) {
                    Some(w) => Some(PointerAction::Motion { window: w as usize, position }),
                    None => None,
                },
                None => None,
            },
        )),
        PointerEvent::Press { button } => {
            let b = if button == BTN_LEFT {
                Some(Button::Left)
            } else if button == BTN_RIGHT {
                Some(Button::Right)
            } else if button == BTN_MIDDLE {
                Some(Button::Middle)
            } else {
                None
            };
            match b {
                None => None,
                Some(b) => Some((st, press_action(st, windows, b))),
            }
        },
        PointerEvent::Scroll { down } => Some((
            st,
            if down {
                press_action(st, windows, Button::ScrollDown)
            } else {
                None
            },
        )),
        PointerEvent::Other => Some((st, None)),
    }
}

/// A press of `b` where the pointer was last seen, on the window it is over.
pub open spec fn press_action(st: PointerState, windows: Seq<u32>, b: Button) -> Option<PointerAction> {
    match st.surface {
        Some(s) => match window_of(windows, s) {
            Some(w) => Some(PointerAction::Press { window: w as usize, position: st.last_position, button: b }),
            None => None,
        },
        None => None,
    }
}

/// What a frame of events does: the state after it and what the windows
/// are told, in order, up to a press of an unhandled button.
pub open spec fn pointer_frame_result(st: PointerState, windows: Seq<u32>, events: Seq<PointerEvent>) -> (PointerState, Seq<PointerAction>)
    decreases events.len(),
{
    if events.len() == 0 {
        (st, Seq::empty())
    } else {
        match pointer_step(st, windows, events[0]) {
            None => (st, Seq::empty()),
            Some((next, action)) => {
                let (end, rest) = pointer_frame_result(next, windows, events.drop_first());
                (
                    end,
                    match action {
                        Some(a) => seq![a] + rest,
                        None => rest,
                    },
                )
            },
        }
    }
}

fn find_window(windows: &Vec<u32>, surface: u32) -> (r: Option<usize>)
    ensures
        match window_of(windows@, surface) {
            Some(i) => r == Some(i as usize) && i < windows@.len(),
            None => r is None,
        },
{
    let mut i: usize = 0;
    assert(windows@.skip(0) =~= windows@);
    while i < windows.len()
        invariant
            i <= windows@.len(),
            window_of(windows@, surface) == match window_of(windows@.skip(i as int), surface) {
                Some(k) => Some(k + i),
                None => None::<int>,
            },
            forall|j: int| 0 <= j < i ==> windows@[j] != surface,
        decreases windows@.len() - i,
    {
        assert(windows@.skip(i as int)[0] == windows@[i as int]);
        assert(windows@.skip(i as int).drop_first() =~= windows@.skip(i + 1));
        if windows[i] == surface {
            return Some(i);
        }
        i += 1;
    }
    assert(windows@.skip(i as int).len() == 0);
    None
}

fn press_on(st: &PointerState, windows: &Vec<u32>, b: Button) -> (r: Option<PointerAction>)
    ensures
        r == press_action(*st, windows@, b),
{
    match st.surface {
        Some(s) => match find_window(windows, s) {
            Some(w) => Some(PointerAction::Press { window: w, position: st.last_position, button: b }),
            None => None,
        },
        None => None,
    }
}

fn step(st: &mut PointerState, windows: &Vec<u32>, e: PointerEvent) -> (r: (bool, Option<PointerAction>))
    ensures
        match pointer_step(*old(st), windows@, e) {
            None => !r.0 && *final(st) == *old(st),
            Some((next, action)) => r.0 && *final(st) == next && r.1 == action,
        },
{
    match e {
        PointerEvent::Enter { surface, position } => {
            st.surface = Some(surface);
            st.last_position = position;
            let a = match find_window(windows, surface) {
                Some(w) => Some(PointerAction::Motion { window: w, position }),
                None => None,
            };
            (true, a)
        },
        PointerEvent::Leave { surface } => {
            if st.surface == Some(surface) {
                st.surface = None;
                let a = match find_window(windows, surface) {
                    Some(w) => Some(PointerAction::Leave { window: w }),
                    None => None,
                };
                (true, a)
            } else {
                (true, None)
            }
        },
        PointerEvent::Motion { position } => {
            st.last_position = position;
            let a = match st.surface {
                Some(s) => match find_window(windows, s) {
                    Some(w) => Some(PointerAction::Motion { window: w, position }),
                    None => None,
                },
                None => None,
            };
            (true, a)
        },
        PointerEvent::Press { button } => match wayland_button(button) {
            None => (false, None),
            Some(b) => (true, press_on(st, windows, b)),
        },
        PointerEvent::Scroll { down } => {
            if down {
                (true, press_on(st, windows, Button::ScrollDown))
            } else {
                (true, None)
            }
        },
        PointerEvent::Other => (true, None),
    }
}

impl PointerState {
    /// The pointer over no surface.
    pub fn new() -> (r: Self)
        ensures
            r.surface is None,
            r.last_position == (0i16, 0i16),
    {
        PointerState { surface: None, last_position: (0, 0) }
    }

    /// Follows a frame of pointer events over the windows whose surfaces are
    /// `windows`: entering or moving over a window tells it where the pointer
    /// is, leaving the surface entered last tells its window, a press of the
    /// left, right or middle button or a scroll down presses on the window
    /// the pointer is over where it was last seen. A press of another button
    /// ends the frame; a scroll up is not passed on.
    pub fn pointer_frame(&mut self, windows: &Vec<u32>, events: &Vec<PointerEvent>) -> (r: Vec<PointerAction>)
        ensures
            (*final(self), r@) == pointer_frame_result(*old(self), windows@, events@),
    {
        let ghost start = *self;
        let mut actions: Vec<PointerAction> = Vec::new();
        let mut i: usize = 0;
        assert(events@.skip(0) =~= events@);
        while i < events.len()
            invariant
                i <= events@.len(),
                start == *old(self),
                pointer_frame_result(start, windows@, events@) == ({
                    let (end, rest) = pointer_frame_result(*self, windows@, events@.skip(i as int));
                    (end, actions@ + rest)
                }),
            decreases events@.len() - i,
        {
            let ghost before = *self;
            let ghost acts = actions@;
            assert(events@.skip(i as int)[0] == events@[i as int]);
            assert(events@.skip(i as int).drop_first() =~= events@.skip(i + 1));
            let (go_on, action) = step(self, windows, events[i]);
            if !go_on {
                assert(pointer_step(before, windows@, events@.skip(i as int)[0]) is None);
                assert(pointer_frame_result(*self, windows@, events@.skip(i as int)) == (
                    *self,
                    Seq::<PointerAction>::empty(),
                ));
                assert(actions@ + Seq::<PointerAction>::empty() =~= actions@);
                return actions;
            }
            match action {
                Some(a) => {
                    actions.push(a);
                    let ghost rest = pointer_frame_result(*self, windows@, events@.skip(i + 1)).1;
                    assert(acts + (seq![a] + rest) =~= actions@ + rest);
                },
                None => {},
            }
            i += 1;
        }
        assert(events@.skip(i as int).len() == 0);
        assert(actions@ + Seq::<PointerAction>::empty() =~= actions@);
        actions
    }
}

} // verus!
