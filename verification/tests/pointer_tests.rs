use aterm::binding::Action;
use aterm::input::{encode_mouse_sgr, MouseAction, MouseButton};
use aterm::keys::ModifiersState;
use aterm::platform::Platform;
use aterm::pointer::{
    local_click, open_url, route_key, should_report_click, url_modifier_held, wheel_action, KeyRoute, LocalClick,
    MouseTracker, Report, UrlLaunch, WheelAction,
};
use aterm::terminal::{MouseMode, MouseReporting};

fn mode(reporting: MouseReporting, sgr: bool) -> MouseMode {
    MouseMode { reporting, sgr, alternate_scroll: false, alt_screen: false }
}

#[test]
fn key_routing() {
    assert_eq!(route_key(Some(Action::CreateTab), false), KeyRoute::Run(Action::CreateTab));
    assert_eq!(route_key(Some(Action::ReceiveChar), true), KeyRoute::Encode);
    assert_eq!(route_key(None, true), KeyRoute::Swallow);
    assert_eq!(route_key(None, false), KeyRoute::Encode);
}

#[test]
fn url_modifier_by_platform() {
    assert!(url_modifier_held(Platform::MacOs, ModifiersState::logo()));
    assert!(!url_modifier_held(Platform::MacOs, ModifiersState::control()));
    assert!(url_modifier_held(Platform::Linux, ModifiersState::control()));
    assert!(!url_modifier_held(Platform::Linux, ModifiersState::logo()));
}

#[test]
fn open_url_refuses_control_characters() {
    assert_eq!(open_url("https://x.test/\n", Platform::Linux), UrlLaunch::Refused);
    assert_eq!(open_url("https://x.test/\u{85}", Platform::MacOs), UrlLaunch::Refused);
    assert_eq!(
        open_url("https://x.test/a b", Platform::Linux),
        UrlLaunch::Run { program: "xdg-open".to_string(), args: vec!["https://x.test/a b".to_string()] }
    );
    assert_eq!(
        open_url("https://x.test", Platform::Windows),
        UrlLaunch::Run {
            program: "cmd".to_string(),
            args: vec!["/c".to_string(), "start".to_string(), String::new(), "https://x.test".to_string()],
        }
    );
    assert_eq!(open_url("https://x.test", Platform::Other), UrlLaunch::Unsupported);
}

#[test]
fn button_reporting_tracks_held_buttons() {
    let mut t = MouseTracker::new();
    let m = Some(mode(MouseReporting::Drag, true));
    let r = t.report_button(true, MouseButton::Left, m, Some((2, 3)), ModifiersState::empty());
    assert_eq!(r, Report { handled: true, bytes: Some(b"\x1b[<0;4;3M".to_vec()) });
    assert_eq!(t.buttons_held, 1);
    assert_eq!(t.last_cell, Some((2, 3)));
    let r = t.report_motion(false, m, Some((2, 4)), ModifiersState::empty());
    assert_eq!(r, Report { handled: true, bytes: Some(b"\x1b[<32;5;3M".to_vec()) });
    let r = t.report_motion(false, m, Some((2, 4)), ModifiersState::empty());
    assert_eq!(r, Report { handled: true, bytes: None });
    let r = t.report_button(false, MouseButton::Left, m, Some((2, 4)), ModifiersState::empty());
    assert_eq!(r.bytes, Some(b"\x1b[<0;5;3m".to_vec()));
    assert_eq!(t.buttons_held, 0);
    assert_eq!(t.last_cell, None);
    let r = t.report_motion(false, m, Some((1, 1)), ModifiersState::empty());
    assert_eq!(r, Report { handled: false, bytes: None });
}

#[test]
fn reporting_off_shift_and_legacy_encoding_fall_through() {
    let mut t = MouseTracker::new();
    let off = Some(mode(MouseReporting::Off, true));
    assert!(!t.report_button(true, MouseButton::Left, off, Some((0, 0)), ModifiersState::empty()).handled);
    assert_eq!(t, MouseTracker::new());
    let any = Some(mode(MouseReporting::AnyMotion, true));
    assert!(!t.report_motion(true, any, Some((0, 0)), ModifiersState::shift()).handled);
    let legacy = Some(mode(MouseReporting::Click, false));
    let r = t.report_button(true, MouseButton::Right, legacy, Some((0, 0)), ModifiersState::empty());
    assert_eq!(r, Report { handled: false, bytes: None });
    assert_eq!(t.buttons_held, 4);
    let r = t.report_button(true, MouseButton::WheelUp, any, Some((0, 0)), ModifiersState::empty());
    assert!(!r.handled);
    let r = t.report_motion(false, any, Some((5, 5)), ModifiersState::empty());
    assert_eq!(r.bytes, Some(encode_mouse_sgr(MouseButton::Right, MouseAction::Motion, 5, 5, ModifiersState::empty())));
}

#[test]
fn click_routing() {
    assert!(should_report_click(true, false, false, true));
    assert!(!should_report_click(true, true, false, false));
    assert!(!should_report_click(true, false, true, true));
    assert!(should_report_click(false, false, true, true));
    assert_eq!(local_click(false, true, false, false), LocalClick::Ignore);
    assert_eq!(local_click(true, false, true, true), LocalClick::EndSelection);
    assert_eq!(local_click(true, true, true, true), LocalClick::OpenUrl);
    assert_eq!(local_click(true, true, true, false), LocalClick::StartSelection);
}

#[test]
fn wheel_routing() {
    let rep = mode(MouseReporting::Click, true);
    assert_eq!(
        wheel_action(-3, rep, false, false, Some((4, 7)), ModifiersState::empty()),
        WheelAction::Report { bytes: b"\x1b[<65;8;5M".to_vec(), count: 3 }
    );
    assert_eq!(
        wheel_action(2, rep, false, false, None, ModifiersState::empty()),
        WheelAction::Report { bytes: b"\x1b[<64;1;1M".to_vec(), count: 2 }
    );
    let alt = MouseMode { reporting: MouseReporting::Off, sgr: false, alternate_scroll: true, alt_screen: true };
    assert_eq!(
        wheel_action(1, alt, false, true, None, ModifiersState::empty()),
        WheelAction::Arrows { bytes: b"\x1bOA".to_vec(), count: 1 }
    );
    assert_eq!(
        wheel_action(-2, alt, false, false, None, ModifiersState::empty()),
        WheelAction::Arrows { bytes: b"\x1b[B".to_vec(), count: 2 }
    );
    assert_eq!(wheel_action(-2, alt, true, false, None, ModifiersState::shift()), WheelAction::Scroll(-2));
    assert_eq!(wheel_action(5, rep, true, false, None, ModifiersState::shift()), WheelAction::Scroll(5));
}
