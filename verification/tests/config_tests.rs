use aterm::binding::{find, Action};
use aterm::config::{
    apply_ansi, apply_palette_overrides, apply_raw, parse_hex, AnsiPalette, Colors, Config, RawAnsi,
    RawBinding, RawColors, RawConfig, RawCursor, RawFont, RawKeyboard, RawPrimary, RawWindow,
};
use aterm::keys::{KeyCode, ModifiersState};
use aterm::platform::{default_font_family, Platform};

fn primary_bg(hex: &str) -> RawPrimary {
    RawPrimary { background: Some(hex.to_string()), foreground: None }
}

fn colors_with(primary: Option<RawPrimary>) -> RawColors {
    RawColors {
        primary,
        cursor: None,
        normal: None,
        bright: None,
        dark: None,
        light: None,
        auto_theme: None,
    }
}

#[test]
fn parse_hex_six_digits() {
    assert_eq!(parse_hex("#1a2b3c"), Some([0x1a, 0x2b, 0x3c]));
    assert_eq!(parse_hex("0x1A2B3C"), Some([0x1a, 0x2b, 0x3c]));
    assert_eq!(parse_hex("1a2b3c"), Some([0x1a, 0x2b, 0x3c]));
}

#[test]
fn parse_hex_eight_digits_drops_alpha() {
    assert_eq!(parse_hex("#1a2b3cff"), Some([0x1a, 0x2b, 0x3c]));
    assert_eq!(parse_hex("0x1a2b3c80"), Some([0x1a, 0x2b, 0x3c]));
}

#[test]
fn parse_hex_rejects_other_lengths() {
    assert_eq!(parse_hex("#abc"), None);
    assert_eq!(parse_hex("#1a2b3"), None);
    assert_eq!(parse_hex(""), None);
    assert_eq!(parse_hex("zzzzzz"), None);
}

#[test]
fn parse_hex_trims_and_rejects_bad_digits() {
    assert_eq!(parse_hex("  #ffffff \n"), Some([0xff, 0xff, 0xff]));
    assert_eq!(parse_hex("#12345g"), None);
    assert_eq!(parse_hex("#"), None);
}

#[test]
fn dynamic_title_defaults_true_and_can_be_disabled() {
    let mut cfg = Config::default_for(Platform::Linux);
    assert!(cfg.dynamic_title);
    let raw = RawConfig {
        window: Some(RawWindow { dynamic_title: Some(false) }),
        ..Default::default()
    };
    apply_raw(&mut cfg, raw);
    assert!(!cfg.dynamic_title);
}

#[test]
fn chars_binding_parses_to_send_chars() {
    let mut cfg = Config::default_for(Platform::Linux);
    let raw = RawConfig {
        keyboard: Some(RawKeyboard {
            bindings: vec![RawBinding {
                key: "Left".to_string(),
                mods: Some("Alt".to_string()),
                action: None,
                chars: Some("\u{001b}b".to_string()),
            }],
        }),
        ..Default::default()
    };
    apply_raw(&mut cfg, raw);
    let hit = find(&cfg.bindings, KeyCode::ArrowLeft, ModifiersState::alt())
        .expect("Alt+Left binding present");
    assert_eq!(hit.action, Action::SendChars(vec![0x1b, b'b']));
}

#[test]
fn binding_without_action_or_chars_is_ignored() {
    let mut cfg = Config::default_for(Platform::Linux);
    let before = cfg.bindings.len();
    let raw = RawConfig {
        keyboard: Some(RawKeyboard {
            bindings: vec![RawBinding {
                key: "Left".to_string(),
                mods: Some("Alt".to_string()),
                action: None,
                chars: None,
            }],
        }),
        ..Default::default()
    };
    apply_raw(&mut cfg, raw);
    assert_eq!(cfg.bindings.len(), before);
}

#[test]
fn no_colors_table_follows_system() {
    let mut cfg = Config::default_for(Platform::Linux);
    let raw = RawConfig { font: Some(RawFont { family: None }), ..Default::default() };
    apply_raw(&mut cfg, raw);
    assert!(cfg.follow_system_theme);
    assert_eq!(cfg.colors_light, Colors::default_light());
}

#[test]
fn flat_colors_table_pins_dark_scheme() {
    let mut cfg = Config::default_for(Platform::Linux);
    let raw = RawConfig { colors: Some(colors_with(Some(primary_bg("#102030")))), ..Default::default() };
    apply_raw(&mut cfg, raw);
    assert!(!cfg.follow_system_theme);
    assert_eq!(cfg.colors_dark.background, [0x10, 0x20, 0x30]);
    assert_eq!(cfg.colors.background, [0x10, 0x20, 0x30]);
}

#[test]
fn light_table_enables_following_and_overrides_light_only() {
    let mut cfg = Config::default_for(Platform::Linux);
    let mut colors = colors_with(Some(primary_bg("#102030")));
    colors.light = Some(Box::new(colors_with(Some(primary_bg("#fafbfc")))));
    let raw = RawConfig { colors: Some(colors), ..Default::default() };
    apply_raw(&mut cfg, raw);
    assert!(cfg.follow_system_theme);
    assert_eq!(cfg.colors_dark.background, [0x10, 0x20, 0x30]);
    assert_eq!(cfg.colors_light.background, [0xfa, 0xfb, 0xfc]);
}

#[test]
fn auto_theme_explicit_override_wins() {
    let mut cfg = Config::default_for(Platform::Linux);
    let mut colors = colors_with(Some(primary_bg("#102030")));
    colors.auto_theme = Some(true);
    let raw = RawConfig { colors: Some(colors), ..Default::default() };
    apply_raw(&mut cfg, raw);
    assert!(cfg.follow_system_theme);

    let mut cfg = Config::default_for(Platform::Linux);
    let mut colors = colors_with(None);
    colors.auto_theme = Some(false);
    colors.light = Some(Box::new(colors_with(Some(primary_bg("#fafbfc")))));
    let raw = RawConfig { colors: Some(colors), ..Default::default() };
    apply_raw(&mut cfg, raw);
    assert!(!cfg.follow_system_theme);
}

#[test]
fn font_family_override_and_platform_default() {
    let mut cfg = Config::default_for(Platform::MacOs);
    assert_eq!(cfg.font_family, "Menlo");
    assert_eq!(default_font_family(Platform::Linux), "monospace");
    let raw = RawConfig {
        font: Some(RawFont { family: Some("Iosevka".to_string()) }),
        ..Default::default()
    };
    apply_raw(&mut cfg, raw);
    assert_eq!(cfg.font_family, "Iosevka");
}

#[test]
fn unknown_key_or_action_bindings_are_skipped() {
    let mut cfg = Config::default_for(Platform::Linux);
    let before = cfg.bindings.clone();
    let raw = RawConfig {
        keyboard: Some(RawKeyboard {
            bindings: vec![
                RawBinding { key: "Bogus".to_string(), mods: None, action: Some("Copy".to_string()), chars: None },
                RawBinding { key: "K".to_string(), mods: None, action: Some("Bogus".to_string()), chars: None },
            ],
        }),
        ..Default::default()
    };
    apply_raw(&mut cfg, raw);
    assert_eq!(cfg.bindings.len(), before.len());
}

#[test]
fn palette_overrides_touch_only_named_colors() {
    let mut pal = Colors::default_dark().normal;
    let orig = pal;
    apply_ansi(
        &mut pal,
        Some(RawAnsi { red: Some("#010203".to_string()), blue: Some("nope".to_string()), ..Default::default() }),
    );
    assert_eq!(pal.red, [1, 2, 3]);
    assert_eq!(pal.blue, orig.blue);
    assert_eq!(pal.black, orig.black);
    let mut c = Colors::default_dark();
    apply_palette_overrides(
        &mut c,
        Some(RawPrimary { background: None, foreground: Some("#0a0b0c".to_string()) }),
        Some(RawCursor { cursor: Some("#ffffff".to_string()) }),
        None,
        None,
    );
    assert_eq!(c.foreground, [10, 11, 12]);
    assert_eq!(c.cursor, [255, 255, 255]);
    assert_eq!(c.background, Colors::default_dark().background);
    let _unused: AnsiPalette = c.bright;
}

#[test]
fn colour_bodies_must_be_all_hex_digits() {
    // A sign is not a digit, and the alpha pair is checked too.
    assert_eq!(parse_hex("+f+f+f"), None);
    assert_eq!(parse_hex("#1a2b3czz"), None);
    assert_eq!(parse_hex("#1a2b3cff"), Some([0x1a, 0x2b, 0x3c]));
    // A multi-byte character is not a digit either.
    assert_eq!(parse_hex("#a\u{e9}123"), None);
    assert_eq!(parse_hex("#\u{e9}1234"), None);
    assert_eq!(parse_hex("0xABCDEF"), Some([0xab, 0xcd, 0xef]));
}
