use aterm::input::{encode_key, encode_mouse_sgr, normalize_paste, MouseAction, MouseButton, TermKeyMode};
use aterm::keys::{Key, ModifiersState, NamedKey};

fn no_app() -> TermKeyMode {
    TermKeyMode { app_cursor: false }
}

fn app() -> TermKeyMode {
    TermKeyMode { app_cursor: true }
}

fn key_char(c: &str) -> Key {
    Key::Character(c.to_string())
}

#[test]
fn plain_ascii_passes_through() {
    let got = encode_key(&key_char("a"), Some("a"), ModifiersState::empty(), no_app());
    assert_eq!(got, Some(b"a".to_vec()));
}

#[test]
fn enter_is_carriage_return() {
    let got = encode_key(&Key::Named(NamedKey::Enter), None, ModifiersState::empty(), no_app());
    assert_eq!(got, Some(b"\r".to_vec()));
}

#[test]
fn backspace_emits_del() {
    let got = encode_key(&Key::Named(NamedKey::Backspace), None, ModifiersState::empty(), no_app());
    assert_eq!(got, Some(b"\x7f".to_vec()));
}

#[test]
fn tab_and_escape() {
    assert_eq!(
        encode_key(&Key::Named(NamedKey::Tab), None, ModifiersState::empty(), no_app()),
        Some(b"\t".to_vec())
    );
    assert_eq!(
        encode_key(&Key::Named(NamedKey::Escape), None, ModifiersState::empty(), no_app()),
        Some(b"\x1b".to_vec())
    );
}

#[test]
fn arrows_normal_use_csi() {
    let got = encode_key(&Key::Named(NamedKey::ArrowLeft), None, ModifiersState::empty(), no_app());
    assert_eq!(got, Some(b"\x1b[D".to_vec()));
}

#[test]
fn arrows_app_cursor_use_ss3() {
    let got = encode_key(&Key::Named(NamedKey::ArrowLeft), None, ModifiersState::empty(), app());
    assert_eq!(got, Some(b"\x1bOD".to_vec()));
    let got = encode_key(&Key::Named(NamedKey::Home), None, ModifiersState::empty(), app());
    assert_eq!(got, Some(b"\x1bOH".to_vec()));
}

#[test]
fn ctrl_letter_maps_to_control_byte() {
    for (input, byte) in [("a", 0x01u8), ("c", 0x03), ("m", 0x0d), ("z", 0x1a)] {
        let got = encode_key(&key_char(input), Some(input), ModifiersState::control(), no_app());
        assert_eq!(got, Some(vec![byte]), "ctrl+{input}");
    }
}

#[test]
fn ctrl_space_is_nul_and_ctrl_question_is_del() {
    let got = encode_key(&key_char(" "), Some(" "), ModifiersState::control(), no_app());
    assert_eq!(got, Some(vec![0x00]));
    let got = encode_key(&key_char("?"), Some("?"), ModifiersState::control(), no_app());
    assert_eq!(got, Some(vec![0x7f]));
}

#[test]
fn ctrl_uppercase_punctuation() {
    let got = encode_key(&key_char("["), Some("["), ModifiersState::control(), no_app());
    assert_eq!(got, Some(vec![0x1b]));
}

#[test]
fn alt_prefixes_with_esc() {
    let got = encode_key(&key_char("a"), Some("a"), ModifiersState::alt(), no_app());
    assert_eq!(got, Some(b"\x1ba".to_vec()));
}

#[test]
fn alt_plus_ctrl_letter_prefixes_control_byte() {
    let got = encode_key(
        &key_char("a"),
        Some("a"),
        ModifiersState::alt().union(ModifiersState::control()),
        no_app(),
    );
    assert_eq!(got, Some(vec![0x1b, 0x01]));
}

#[test]
fn shift_arrow_is_modifier_encoded() {
    let got = encode_key(&Key::Named(NamedKey::ArrowLeft), None, ModifiersState::shift(), no_app());
    assert_eq!(got, Some(b"\x1b[1;2D".to_vec()));
}

#[test]
fn ctrl_right_arrow_word_jump_sequence() {
    let got = encode_key(&Key::Named(NamedKey::ArrowRight), None, ModifiersState::control(), no_app());
    assert_eq!(got, Some(b"\x1b[1;5C".to_vec()));
}

#[test]
fn shift_f5_uses_tilde_form() {
    let got = encode_key(&Key::Named(NamedKey::F5), None, ModifiersState::shift(), no_app());
    assert_eq!(got, Some(b"\x1b[15;2~".to_vec()));
}

#[test]
fn shift_pageup_modifier_encoded() {
    let got = encode_key(&Key::Named(NamedKey::PageUp), None, ModifiersState::shift(), no_app());
    assert_eq!(got, Some(b"\x1b[5;2~".to_vec()));
}

#[test]
fn unmodified_function_keys_use_named_form() {
    let got = encode_key(&Key::Named(NamedKey::F1), None, ModifiersState::empty(), no_app());
    assert_eq!(got, Some(b"\x1bOP".to_vec()));
    let got = encode_key(&Key::Named(NamedKey::F5), None, ModifiersState::empty(), no_app());
    assert_eq!(got, Some(b"\x1b[15~".to_vec()));
}

#[test]
fn text_wins_over_logical_character_when_present() {
    let got = encode_key(&key_char("2"), Some("@"), ModifiersState::shift(), no_app());
    assert_eq!(got, Some(b"@".to_vec()));
}

#[test]
fn modifier_encoded_takes_precedence_over_plain_named() {
    let got = encode_key(&Key::Named(NamedKey::ArrowLeft), None, ModifiersState::alt(), no_app());
    assert_eq!(got, Some(b"\x1b[1;3D".to_vec()));
}

#[test]
fn unsupported_named_keys_return_none() {
    let got = encode_key(&Key::Named(NamedKey::Other), None, ModifiersState::empty(), no_app());
    assert_eq!(got, None);
}

#[test]
fn ctrl_with_multichar_text_returns_none() {
    let got = encode_key(&key_char("ab"), Some("ab"), ModifiersState::control(), no_app());
    assert_eq!(got, None);
}

#[test]
fn sgr_mouse_left_press_at_origin() {
    let got = encode_mouse_sgr(MouseButton::Left, MouseAction::Press, 0, 0, ModifiersState::empty());
    assert_eq!(got, b"\x1b[<0;1;1M");
}

#[test]
fn sgr_mouse_release_uses_lowercase_m() {
    let got = encode_mouse_sgr(MouseButton::Left, MouseAction::Release, 10, 5, ModifiersState::empty());
    assert_eq!(got, b"\x1b[<0;11;6m");
}

#[test]
fn sgr_mouse_motion_sets_motion_bit() {
    let got = encode_mouse_sgr(MouseButton::Left, MouseAction::Motion, 4, 4, ModifiersState::empty());
    assert_eq!(got, b"\x1b[<32;5;5M");
}

#[test]
fn sgr_mouse_wheel_uses_64_and_65() {
    let up = encode_mouse_sgr(MouseButton::WheelUp, MouseAction::Press, 0, 0, ModifiersState::empty());
    assert_eq!(up, b"\x1b[<64;1;1M");
    let down = encode_mouse_sgr(MouseButton::WheelDown, MouseAction::Press, 0, 0, ModifiersState::empty());
    assert_eq!(down, b"\x1b[<65;1;1M");
}

#[test]
fn sgr_mouse_modifiers_add_bits() {
    let got = encode_mouse_sgr(MouseButton::Left, MouseAction::Press, 0, 0, ModifiersState::control());
    assert_eq!(got, b"\x1b[<16;1;1M");
    let got = encode_mouse_sgr(MouseButton::Right, MouseAction::Press, 2, 3, ModifiersState::alt());
    assert_eq!(got, b"\x1b[<10;3;4M");
}

#[test]
fn sgr_mouse_shift_is_not_encoded_and_large_coordinates_are_decimal() {
    let got = encode_mouse_sgr(MouseButton::Middle, MouseAction::Press, 299, 1233, ModifiersState::shift());
    assert_eq!(got, b"\x1b[<1;300;1234M");
}

#[test]
fn normalize_paste_converts_line_endings() {
    assert_eq!(normalize_paste("a\nb"), "a\rb");
    assert_eq!(normalize_paste("a\r\nb"), "a\rb");
    assert_eq!(normalize_paste("a\rb"), "a\rb");
}

#[test]
fn normalize_paste_strips_embedded_end_marker() {
    let payload = "harmless\x1b[201~rm -rf /";
    assert_eq!(normalize_paste(payload), "harmlessrm -rf /");
}

#[test]
fn normalize_paste_output_has_no_line_feed_or_end_marker() {
    for s in ["x\n\n\r\n", "\x1b[201~\x1b[201~", "plain", "", "a\r\n\x1b[201~b\n"] {
        let out = normalize_paste(s);
        assert!(!out.contains('\n'), "{out:?}");
        assert!(!out.contains("\x1b[201~"), "{out:?}");
    }
}

#[test]
fn ctrl_at_and_brackets_map_to_c0() {
    let got = encode_key(&key_char("]"), Some("]"), ModifiersState::control(), no_app());
    assert_eq!(got, Some(vec![0x1d]));
    let got = encode_key(&key_char("\\"), Some("\\"), ModifiersState::control(), no_app());
    assert_eq!(got, Some(vec![0x1c]));
}

#[test]
fn paste_end_markers_are_removed_until_none_is_left() {
    // Removing the inner marker joins the rest into a new one; it goes too.
    assert_eq!(normalize_paste("\u{1b}[20\u{1b}[201~1~"), "");
    assert_eq!(normalize_paste("a\u{1b}[201~b"), "ab");
    assert_eq!(normalize_paste("x\u{1b}[2\u{1b}[201~01~y\r\nz"), "xy\rz");
}

#[test]
fn modified_character_keys_send_their_plain_bytes() {
    // Only cursor, editing and function keys have a modifier-encoded form;
    // Alt still acts as Meta for the others (readline's Alt+Backspace).
    let got = encode_key(&Key::Named(NamedKey::Backspace), None, ModifiersState::alt(), no_app());
    assert_eq!(got, Some(b"\x1b\x7f".to_vec()));
    let got = encode_key(&Key::Named(NamedKey::Enter), None, ModifiersState::shift(), no_app());
    assert_eq!(got, Some(b"\r".to_vec()));
    let got = encode_key(&Key::Named(NamedKey::Tab), None, ModifiersState::control(), no_app());
    assert_eq!(got, Some(b"\t".to_vec()));
}
