use oatbar::bar::Button;
use oatbar::config::{Bar, BarPosition, Margin};
use oatbar::window::{
    configured_size, edge_visibility, layer_plan, pick_output, visibility_from_vars, wayland_button, x11_button,
    x11_window_plan, PointerAction, PointerEvent, PointerState,
};
use oatbar::xrandr::Monitor;

fn bar(position: BarPosition, popup: bool, popup_at_edge: bool) -> Bar<()> {
    Bar {
        blocks_left: vec![],
        blocks_center: vec![],
        blocks_right: vec![],
        monitor: None,
        height: 32,
        position,
        margin: Margin { left: 1, right: 1, top: 2, bottom: 3 },
        background: (),
        popup,
        popup_at_edge,
        show_if_matches: vec![],
        popup_show_if_some: vec![],
    }
}

fn monitor(x: u16, height: u16) -> Monitor {
    Monitor { name: "DP-1".into(), primary: true, x, y: 0, width: 1920, height }
}

#[test]
fn docked_bars_reserve_their_edge() {
    let plan = x11_window_plan(&monitor(0, 1080), &bar(BarPosition::Bottom, false, false));
    assert_eq!((plan.x, plan.y, plan.width, plan.height), (0, 1043, 1920, 37));
    assert!(!plan.override_redirect && plan.visible && plan.below_wm && !plan.watch_raw_motion);
    let struts = plan.struts.unwrap();
    assert_eq!(struts.strut, vec![0, 0, 0, 37]);
    assert_eq!(struts.strut_partial, vec![0, 0, 0, 37, 0, 0, 0, 0, 0, 0, 0, 1920]);

    let plan = x11_window_plan(&monitor(40000, 1080), &bar(BarPosition::Top, false, false));
    assert_eq!((plan.x, plan.y), (-25536, 0));
    let struts = plan.struts.unwrap();
    assert_eq!(struts.strut, vec![0, 0, 37, 0]);
    assert_eq!(struts.strut_partial, vec![0, 0, 37, 0, 0, 0, 0, 0, 0, 1920, 0, 0]);
}

#[test]
fn centered_and_popping_up_bars_are_left_alone() {
    let plan = x11_window_plan(&monitor(0, 1080), &bar(BarPosition::Center, false, false));
    assert_eq!(plan.y, 521);
    assert!(plan.override_redirect && plan.visible && !plan.below_wm && plan.struts.is_none());
    let small = x11_window_plan(&monitor(0, 20), &bar(BarPosition::Center, false, false));
    assert_eq!(small.y, -8);
    let popup = x11_window_plan(&monitor(0, 1080), &bar(BarPosition::Top, true, true));
    assert!(popup.override_redirect && !popup.visible && popup.watch_raw_motion && popup.struts.is_none());
}

#[test]
fn layer_surfaces_keep_their_height_free_when_docked() {
    let top = layer_plan(&bar(BarPosition::Top, false, false));
    assert!(top.anchor_top && !top.anchor_bottom);
    assert_eq!((top.height, top.exclusive_zone), (37, 37));
    let bottom = layer_plan(&bar(BarPosition::Bottom, true, false));
    assert!(!bottom.anchor_top && bottom.anchor_bottom);
    assert_eq!(bottom.exclusive_zone, -1);
    let center = layer_plan(&bar(BarPosition::Center, false, false));
    assert!(!center.anchor_top && !center.anchor_bottom);
    assert_eq!(center.exclusive_zone, -1);
    assert_eq!(configured_size((100, 30), (0, 40)), (100, 40));
    assert_eq!(configured_size((100, 30), (1280, 0)), (1280, 30));
}

#[test]
fn buttons_are_read_from_their_codes() {
    assert_eq!(x11_button(1), Some(Button::Left));
    assert_eq!(x11_button(2), Some(Button::Middle));
    assert_eq!(x11_button(3), Some(Button::Right));
    assert_eq!(x11_button(4), Some(Button::ScrollUp));
    assert_eq!(x11_button(5), Some(Button::ScrollDown));
    assert_eq!(x11_button(8), None);
    assert_eq!(wayland_button(0x110), Some(Button::Left));
    assert_eq!(wayland_button(0x111), Some(Button::Right));
    assert_eq!(wayland_button(0x112), Some(Button::Middle));
    assert_eq!(wayland_button(0x113), None);
}

#[test]
fn edge_popups_follow_the_pointer() {
    assert_eq!(edge_visibility(true, BarPosition::Top, 10, 1080, 37, false), Some(true));
    assert_eq!(edge_visibility(true, BarPosition::Top, 2, 1080, 0, false), Some(true));
    assert_eq!(edge_visibility(true, BarPosition::Top, 100, 1080, 37, true), Some(false));
    assert_eq!(edge_visibility(true, BarPosition::Top, 100, 1080, 37, false), None);
    assert_eq!(edge_visibility(false, BarPosition::Top, 10, 1080, 37, false), None);
    assert_eq!(edge_visibility(true, BarPosition::Bottom, 1050, 1080, 37, false), Some(true));
    assert_eq!(edge_visibility(true, BarPosition::Bottom, 1078, 1080, 0, false), Some(true));
    assert_eq!(edge_visibility(true, BarPosition::Bottom, 1000, 1080, 37, true), Some(false));
    assert_eq!(edge_visibility(true, BarPosition::Center, 0, 1080, 37, true), Some(false));
    assert_eq!(visibility_from_vars(true, Some(false), true), Some(false));
    assert_eq!(visibility_from_vars(true, Some(true), true), None);
    assert_eq!(visibility_from_vars(false, Some(false), true), None);
    assert_eq!(visibility_from_vars(true, None, true), None);
}

#[test]
fn pointer_frames_reach_the_window_under_the_pointer() {
    let windows = vec![10, 20];
    let mut state = PointerState::new();
    let events = vec![
        PointerEvent::Enter { surface: 20, position: (5, 6) },
        PointerEvent::Motion { position: (7, 8) },
        PointerEvent::Press { button: 0x110 },
        PointerEvent::Scroll { down: false },
        PointerEvent::Scroll { down: true },
        PointerEvent::Leave { surface: 10 },
        PointerEvent::Other,
        PointerEvent::Leave { surface: 20 },
        PointerEvent::Motion { position: (1, 1) },
        PointerEvent::Press { button: 0x113 },
        PointerEvent::Enter { surface: 10, position: (3, 3) },
    ];
    let actions = state.pointer_frame(&windows, &events);
    assert_eq!(
        actions,
        vec![
            PointerAction::Motion { window: 1, position: (5, 6) },
            PointerAction::Motion { window: 1, position: (7, 8) },
            PointerAction::Press { window: 1, position: (7, 8), button: Button::Left },
            PointerAction::Press { window: 1, position: (7, 8), button: Button::ScrollDown },
            PointerAction::Leave { window: 1 },
        ]
    );
    assert_eq!(state.surface, None);
    assert_eq!(state.last_position, (1, 1));
    let more = state.pointer_frame(&windows, &vec![PointerEvent::Enter { surface: 99, position: (0, 0) }]);
    assert!(more.is_empty());
    assert_eq!(state.surface, Some(99));
}

#[test]
fn output_of_the_named_monitor() {
    let outputs = vec![Some("eDP-1".to_string()), None, Some("HDMI-1".to_string())];
    assert_eq!(pick_output(&outputs, &Some("HDMI-1".to_string())), Ok(Some(2)));
}

#[test]
fn output_falls_back_to_the_first() {
    let outputs = vec![Some("eDP-1".to_string()), Some("HDMI-1".to_string())];
    assert_eq!(pick_output(&outputs, &Some("DP-3".to_string())), Ok(Some(0)));
    assert_eq!(pick_output(&outputs, &None), Ok(Some(0)));
}

#[test]
fn no_output_for_a_named_monitor_is_an_error() {
    assert_eq!(pick_output(&vec![], &Some("HDMI-1".to_string())), Err(()));
    assert_eq!(pick_output(&vec![], &None), Ok(None));
}
