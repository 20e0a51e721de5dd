use oatbar::keyboard::{layout_group, layout_variants, main_keyboard, sway_keyboard_state, sway_layout_commands, SwayInput};

fn input(identifier: &str, input_type: &str, layouts: &[&str], active: Option<usize>) -> SwayInput {
    SwayInput {
        identifier: identifier.into(),
        input_type: input_type.into(),
        xkb_layout_names: layouts.iter().map(|s| s.to_string()).collect(),
        xkb_active_layout_index: active,
    }
}

#[test]
fn layouts_come_from_the_symbols_name() {
    assert_eq!(layout_variants("pc+us+ru:2+inet(evdev)+group(alt_shift_toggle)"), vec!["us", "ru"]);
    assert_eq!(layout_variants("pc+gb+de:2+de:3"), vec!["gb", "de", "de"]);
    assert_eq!(layout_variants("us"), vec!["us"]);
    assert_eq!(layout_variants("pc:1+us"), vec!["us"]);
    assert_eq!(layout_variants(""), vec![""]);
}

#[test]
fn layout_indexes_lock_groups() {
    assert_eq!(layout_group(0), 0);
    assert_eq!(layout_group(2), 2);
    assert_eq!(layout_group(3), 3);
    assert_eq!(layout_group(9), 3);
}

#[test]
fn sway_state_comes_from_the_first_keyboard_with_layouts() {
    let inputs = vec![
        input("1:1:mouse", "pointer", &["us"], Some(0)),
        input("2:2:kbd", "keyboard", &[], None),
        input("3:3:kbd", "keyboard", &["English (US)", "Russian"], Some(1)),
        input("4:4:kbd", "keyboard", &["German"], None),
    ];
    let st = sway_keyboard_state(&inputs).unwrap();
    assert_eq!(st.current, 1);
    assert_eq!(st.variants, vec!["English (US)", "Russian"]);
    assert!(st.indicators.is_empty());
    let st = sway_keyboard_state(&vec![input("4:4:kbd", "keyboard", &["German"], None)]).unwrap();
    assert_eq!(st.current, 0);
    assert!(sway_keyboard_state(&vec![input("1:1:mouse", "pointer", &["us"], None)]).is_none());
}

#[test]
fn sway_switches_every_keyboard() {
    let inputs = vec![
        input("1:1:mouse", "pointer", &[], None),
        input("2:2:kbd", "keyboard", &[], None),
        input("3:3:kbd", "keyboard", &["us"], None),
    ];
    assert_eq!(
        sway_layout_commands(&inputs, 1),
        vec!["input 2:2:kbd xkb_switch_layout 1", "input 3:3:kbd xkb_switch_layout 1"]
    );
}

#[test]
fn the_main_hyprland_keyboard_is_the_first_main_one() {
    assert_eq!(main_keyboard(&vec![false, true, true]), Some(1));
    assert_eq!(main_keyboard(&vec![false, false]), None);
    assert_eq!(main_keyboard(&vec![]), None);
}
