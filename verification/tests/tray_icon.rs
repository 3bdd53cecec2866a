use databeam::tray::{
    forward_raw, map_icon_event, map_menu_id, tray_title_text, IconEvent, MouseButton, MouseButtonState, TRAY_QUIT_ID, TRAY_SHOW_ID, Tray, TrayAction, TrayEffect, TrayRawEvent,
};

fn click_event(button: MouseButton, button_state: MouseButtonState) -> IconEvent {
    IconEvent::Click { button, button_state }
}

#[test]
fn tray_icon_click_mapping() {
    // Any left-click restores the window (press or release).
    assert!(map_icon_event(&click_event(MouseButton::Left, MouseButtonState::Up)));
    assert!(map_icon_event(&click_event(MouseButton::Left, MouseButtonState::Down)));
    // Right release opens the menu separately, never a Show.
    assert!(!map_icon_event(&click_event(MouseButton::Right, MouseButtonState::Up)));
    // Middle release is ignored too.
    assert!(!map_icon_event(&click_event(MouseButton::Middle, MouseButtonState::Up)));
}

#[test]
fn tray_menu_id_mapping() {
    let show_id = TRAY_SHOW_ID;
    let quit_id = TRAY_QUIT_ID;
    assert_eq!(map_menu_id(show_id, quit_id, show_id), Some(TrayAction::Show));
    assert_eq!(map_menu_id(show_id, quit_id, quit_id), Some(TrayAction::Quit));
    assert_eq!(map_menu_id(show_id, quit_id, "other"), None);
}

#[test]
fn tray_title_diff_matches_platform() {
    assert_eq!(tray_title_text("macos"), None);
    assert_eq!(tray_title_text("linux"), Some("DataBeam"));
    assert_eq!(tray_title_text("windows"), Some("DataBeam"));
}

#[test]
fn tray_icon_double_click_mapping() {
    let left_double = IconEvent::DoubleClick { button: MouseButton::Left };
    assert!(map_icon_event(&left_double));
    let right_double = IconEvent::DoubleClick { button: MouseButton::Right };
    assert!(!map_icon_event(&right_double));
}

#[test]
fn tray_double_init_replaces_forward_entry() {
    let mut tray = Tray::new();
    assert!(!tray.is_active());
    tray.install(None);
    // Toggle-off: the first icon goes.
    tray.remove();
    assert!(!tray.is_active());
    tray.install(Some(7));
    assert!(tray.is_active());
    assert_eq!(tray.tray_hwnd(), Some(7));
    let show_id: String = match &tray.forward {
        Some(f) => f.show_id.clone(),
        None => panic!("forward entry present after init"),
    };
    let events = vec![TrayRawEvent::Menu(show_id)];
    assert_eq!(tray.drain_actions_global(&events), vec![TrayAction::Show]);
}

#[test]
fn handler_wakes_the_window_first() {
    let mut tray = Tray::new();
    assert_eq!(tray.apply_from_handler(TrayAction::Show).len(), 0);
    tray.install(Some(42));
    let fx = tray.apply_from_handler(TrayAction::Show);
    assert_eq!(fx.len(), 3);
    assert!(matches!(&fx[0], TrayEffect::Log(s) if s == "tray action applied: Show"));
    assert!(matches!(fx[1], TrayEffect::ShowWindow(42)));
    assert!(matches!(fx[2], TrayEffect::Restore));
    let quit = tray.apply_from_handler(TrayAction::Quit);
    assert_eq!(quit.len(), 2);
    assert!(matches!(quit[1], TrayEffect::HardQuit));
}

#[test]
fn passed_events_leave_their_lines() {
    let click = TrayRawEvent::Icon(IconEvent::DoubleClick { button: MouseButton::Left });
    assert_eq!(
        forward_raw(&click, true),
        vec!["tray event forwarded: icon-double-click", "tray forward delivered: true"]
    );
    let hover = TrayRawEvent::Icon(IconEvent::Move);
    assert!(forward_raw(&hover, true).is_empty());
    assert_eq!(forward_raw(&hover, false), vec!["tray forward delivered: false"]);
    assert_eq!(TrayRawEvent::Menu("x".to_string()).kind(), "menu");
    let mut tray = Tray::new();
    tray.set_debug_enabled(true);
    assert!(tray.debug);
    assert!(!tray.is_active());
}

#[test]
fn icon_is_there_until_it_is_removed() {
    let mut tray = Tray::new();
    assert!(!tray.is_active());
    assert!(!tray.hides_on_close(true));
    tray.install(Some(42));
    assert!(tray.is_active());
    assert!(tray.hides_on_close(true));
    assert!(!tray.hides_on_close(false));
    tray.remove();
    assert!(!tray.is_active());
    assert!(!tray.hides_on_close(true));
    // The window stays known, for the next icon.
    assert_eq!(tray.tray_hwnd(), Some(42));
    tray.install(tray.tray_hwnd());
    assert!(tray.is_active());
    assert_eq!(tray.tray_hwnd(), Some(42));
}
