use oatbar::config::PopupMode;
use oatbar::popup::{blocks_needing_popup_vars, popup_var_name};

#[test]
fn test_popup_var_name() {
    assert_eq!(popup_var_name("cpu"), "_internal:popup.cpu");
    assert_eq!(popup_var_name("my_block"), "_internal:popup.my_block");
}

#[test]
fn test_blocks_needing_popup_vars_block_mode() {
    let result = blocks_needing_popup_vars(
        PopupMode::Block,
        "cpu",
        &["cpu", "memory", "disk"],
        &["cpu", "memory", "disk", "clock", "volume"],
    );
    assert_eq!(result, vec!["cpu"]);
}

#[test]
fn test_blocks_needing_popup_vars_partial_bar_mode() {
    let result = blocks_needing_popup_vars(
        PopupMode::PartialBar,
        "cpu",
        &["cpu", "memory", "disk"],
        &["cpu", "memory", "disk", "clock", "volume"],
    );
    assert_eq!(result, vec!["cpu", "memory", "disk"]);
}

#[test]
fn test_blocks_needing_popup_vars_bar_mode() {
    let result = blocks_needing_popup_vars(
        PopupMode::Bar,
        "cpu",
        &["cpu", "memory", "disk"],
        &["cpu", "memory", "disk", "clock", "volume"],
    );
    assert_eq!(result, vec!["cpu", "memory", "disk", "clock", "volume"]);
}
