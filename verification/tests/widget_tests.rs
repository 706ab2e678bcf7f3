use wisteria::widgets::{gets_bar, workspace_button_colors, ButtonColors, ClockWidget, LAUNCHER_ICON, VPN_OFF_ICON};

#[test]
fn clock_shows_trimmed_time() {
    let mut clock = ClockWidget::new();
    assert_eq!(clock.shown(), "");
    clock.show_time(" 9:05 PM • Mon, Jan 06");
    assert_eq!(clock.shown(), "9:05 PM • Mon, Jan 06");
}

#[test]
fn button_colours() {
    assert_eq!(workspace_button_colors(true), ButtonColors { background: 0xcba6f7, text: 0x1e1e2e });
    assert_eq!(workspace_button_colors(false), ButtonColors { background: 0x45475a, text: 0xcdd6f4 });
}

#[test]
fn icons() {
    assert_eq!(LAUNCHER_ICON, "icons/launcher.svg");
    assert_eq!(VPN_OFF_ICON, "icons/vpn_off.svg");
}

#[test]
fn every_display_but_dp2_gets_a_bar() {
    assert!(!gets_bar(&Some("DP-2".to_string())));
    assert!(gets_bar(&Some("DP-1".to_string())));
    assert!(gets_bar(&Some("DP-20".to_string())));
    assert!(gets_bar(&None));
}
