//! Interpretation of the user's alacritty config: colour palettes, the
//! subset of keys aterm reads, `import` merging, and keybinding overrides.

use vstd::prelude::*;
use vstd::utf8::*;
use crate::binding::{self, Action, Keybinding, default_bindings, merge_spec, parse_action_spec, parse_key_spec, parse_mods_spec};
use crate::keys::ModifiersState;
use crate::platform::{Platform, default_font_family};
use crate::text::{chars_of, trim, trimmed};

verus! {

/// The value of an ASCII hexadecimal digit (either case).
pub open spec fn hex_value(c: char) -> Option<nat> {
    if '0' <= c && c <= '9' {
        Some((c as u32 - 48) as nat)
    } else if 'a' <= c && c <= 'f' {
        Some((c as u32 - 87) as nat)
    } else if 'A' <= c && c <= 'F' {
        Some((c as u32 - 55) as nat)
    } else {
        None
    }
}

fn hex_digit(c: char) -> (v: Option<u8>)
    ensures
        match v {
            Some(x) => hex_value(c) == Some(x as nat) && x < 16,
            None => hex_value(c) is None,
        },
{
    if '0' <= c && c <= '9' {
        Some((c as u32 - 48) as u8)
    } else if 'a' <= c && c <= 'f' {
        Some((c as u32 - 87) as u8)
    } else if 'A' <= c && c <= 'F' {
        Some((c as u32 - 55) as u8)
    } else {
        None
    }
}

/// The colour text once trimmed and stripped of a `0x` or `#` prefix.
pub open spec fn hex_body(s: Seq<char>) -> Seq<char> {
    let t = trim(s);
    if t.len() >= 2 && t[0] == '0' && t[1] == 'x' {
        t.skip(2)
    } else if t.len() >= 1 && t[0] == '#' {
        t.skip(1)
    } else {
        t
    }
}

/// A colour body: six or eight hexadecimal digits (`RRGGBB` or
/// `RRGGBBAA`).
pub open spec fn is_hex_body(t: Seq<char>) -> bool {
    &&& (t.len() == 6 || t.len() == 8)
    &&& forall|i: int| 0 <= i < t.len() ==> #[trigger] hex_value(t[i]) is Some
}

/// The byte that the digit pair `k` (characters `2k`, `2k + 1`) spells.
pub open spec fn hex_pair_at(t: Seq<char>, k: int) -> nat {
    16 * hex_value(t[2 * k]).unwrap() + hex_value(t[2 * k + 1]).unwrap()
}

/// The colour a `#RRGGBB`, `0xRRGGBB` or `RRGGBB` string names; an
/// `AA` alpha suffix must be hex digits too and is discarded. Anything
/// else names no colour.
pub open spec fn parse_hex_spec(s: Seq<char>) -> Option<[u8; 3]> {
    let t = hex_body(s);
    if is_hex_body(t) {
        Some([hex_pair_at(t, 0) as u8, hex_pair_at(t, 1) as u8, hex_pair_at(t, 2) as u8])
    } else {
        None
    }
}

/// Parses a colour: `#RRGGBB`, `0xRRGGBB` or `RRGGBB`, with an optional
/// `AA` alpha suffix that is discarded; surrounding white space is ignored.
pub fn parse_hex(s: &str) -> (c: Option<[u8; 3]>)
    ensures
        c == parse_hex_spec(s@),
{
    let cs = chars_of(s);
    let t0 = trimmed(&cs);
    let t = if t0.len() >= 2 && t0[0] == '0' && t0[1] == 'x' {
        crate::text::copy_range(t0.as_slice(), 2, t0.len())
    } else if t0.len() >= 1 && t0[0] == '#' {
        crate::text::copy_range(t0.as_slice(), 1, t0.len())
    } else {
        t0
    };
    assert(t@ =~= hex_body(s@));
    if t.len() != 6 && t.len() != 8 {
        return None;
    }
    let mut digits: Vec<u8> = Vec::new();
    let mut i: usize = 0;
    while i < t.len()
        invariant
            i <= t@.len(),
            t@ == hex_body(s@),
            t@.len() == 6 || t@.len() == 8,
            digits@.len() == i,
            forall|j: int| 0 <= j < i ==> #[trigger] hex_value(t@[j]) == Some(digits@[j] as nat),
            forall|j: int| 0 <= j < i ==> #[trigger] digits@[j] < 16,
        decreases t@.len() - i,
    {
        match hex_digit(t[i]) {
            Some(d) => digits.push(d),
            None => {
                assert(!is_hex_body(t@)) by {
                    assert(hex_value(t@[i as int]) is None);
                }
                return None;
            },
        }
        i += 1;
    }
    assert(is_hex_body(t@));
    let r = 16 * digits[0] + digits[1];
    let g = 16 * digits[2] + digits[3];
    let b = 16 * digits[4] + digits[5];
    Some([r, g, b])
}

#[derive(Clone, Copy, Debug, PartialEq, Eq)]
pub struct AnsiPalette {
    pub black: [u8; 3],
    pub red: [u8; 3],
    pub green: [u8; 3],
    pub yellow: [u8; 3],
    pub blue: [u8; 3],
    pub magenta: [u8; 3],
    pub cyan: [u8; 3],
    pub white: [u8; 3],
}

#[derive(Clone, Copy, Debug, PartialEq, Eq)]
pub struct Colors {
    pub background: [u8; 3],
    pub foreground: [u8; 3],
    pub cursor: [u8; 3],
    pub normal: AnsiPalette,
    pub bright: AnsiPalette,
}

/// Alacritty's built-in default (dark) scheme.
pub open spec fn default_dark_spec() -> Colors {
    Colors {
            background: [0x18, 0x18, 0x18],
            foreground: [0xd8, 0xd8, 0xd8],
            cursor: [0xd8, 0xd8, 0xd8],
            normal: AnsiPalette {
                black: [0x18, 0x18, 0x18],
                red: [0xac, 0x42, 0x42],
                green: [0x90, 0xa9, 0x59],
                yellow: [0xf4, 0xbf, 0x75],
                blue: [0x6a, 0x9f, 0xb5],
                magenta: [0xaa, 0x75, 0x9f],
                cyan: [0x75, 0xb5, 0xaa],
                white: [0xd8, 0xd8, 0xd8],
            },
            bright: AnsiPalette {
                black: [0x6b, 0x6b, 0x6b],
                red: [0xc5, 0x55, 0x55],
                green: [0xaa, 0xc4, 0x74],
                yellow: [0xfe, 0xca, 0x88],
                blue: [0x82, 0xb8, 0xc8],
                magenta: [0xc2, 0x8c, 0xb8],
                cyan: [0x93, 0xd3, 0xc3],
                white: [0xf8, 0xf8, 0xf8],
            },
        }
}

/// The built-in light scheme (base16 "Default Light").
pub open spec fn default_light_spec() -> Colors {
    Colors {
            background: [0xf8, 0xf8, 0xf8],
            foreground: [0x38, 0x38, 0x38],
            cursor: [0x38, 0x38, 0x38],
            normal: AnsiPalette {
                black: [0xf8, 0xf8, 0xf8],
                red: [0xab, 0x46, 0x42],
                green: [0xa1, 0xb5, 0x6c],
                yellow: [0xf7, 0xca, 0x88],
                blue: [0x7c, 0xaf, 0xc2],
                magenta: [0xba, 0x8b, 0xaf],
                cyan: [0x86, 0xc1, 0xb9],
                white: [0x38, 0x38, 0x38],
            },
            bright: AnsiPalette {
                black: [0xb8, 0xb8, 0xb8],
                red: [0xab, 0x46, 0x42],
                green: [0xa1, 0xb5, 0x6c],
                yellow: [0xf7, 0xca, 0x88],
                blue: [0x7c, 0xaf, 0xc2],
                magenta: [0xba, 0x8b, 0xaf],
                cyan: [0x86, 0xc1, 0xb9],
                white: [0x18, 0x18, 0x18],
            },
        }
}

impl Colors {
    /// Alacritty's built-in default scheme; used when the system theme is
    /// dark or theme detection is unavailable.
    pub fn default_dark() -> (c: Colors)
        ensures
            c == default_dark_spec(),
    {
        Colors {
            background: [0x18, 0x18, 0x18],
            foreground: [0xd8, 0xd8, 0xd8],
            cursor: [0xd8, 0xd8, 0xd8],
            normal: AnsiPalette {
                black: [0x18, 0x18, 0x18],
                red: [0xac, 0x42, 0x42],
                green: [0x90, 0xa9, 0x59],
                yellow: [0xf4, 0xbf, 0x75],
                blue: [0x6a, 0x9f, 0xb5],
                magenta: [0xaa, 0x75, 0x9f],
                cyan: [0x75, 0xb5, 0xaa],
                white: [0xd8, 0xd8, 0xd8],
            },
            bright: AnsiPalette {
                black: [0x6b, 0x6b, 0x6b],
                red: [0xc5, 0x55, 0x55],
                green: [0xaa, 0xc4, 0x74],
                yellow: [0xfe, 0xca, 0x88],
                blue: [0x82, 0xb8, 0xc8],
                magenta: [0xc2, 0x8c, 0xb8],
                cyan: [0x93, 0xd3, 0xc3],
                white: [0xf8, 0xf8, 0xf8],
            },
        }
    }

    /// The built-in light scheme (base16 "Default Light"); used when the
    /// system reports a light appearance.
    pub fn default_light() -> (c: Colors)
        ensures
            c == default_light_spec(),
    {
        Colors {
            background: [0xf8, 0xf8, 0xf8],
            foreground: [0x38, 0x38, 0x38],
            cursor: [0x38, 0x38, 0x38],
            normal: AnsiPalette {
                black: [0xf8, 0xf8, 0xf8],
                red: [0xab, 0x46, 0x42],
                green: [0xa1, 0xb5, 0x6c],
                yellow: [0xf7, 0xca, 0x88],
                blue: [0x7c, 0xaf, 0xc2],
                magenta: [0xba, 0x8b, 0xaf],
                cyan: [0x86, 0xc1, 0xb9],
                white: [0x38, 0x38, 0x38],
            },
            bright: AnsiPalette {
                black: [0xb8, 0xb8, 0xb8],
                red: [0xab, 0x46, 0x42],
                green: [0xa1, 0xb5, 0x6c],
                yellow: [0xf7, 0xca, 0x88],
                blue: [0x7c, 0xaf, 0xc2],
                magenta: [0xba, 0x8b, 0xaf],
                cyan: [0x86, 0xc1, 0xb9],
                white: [0x18, 0x18, 0x18],
            },
        }
    }
}

impl Default for Colors {
    /// The dark scheme.
    fn default() -> (c: Colors)
        ensures
            c == default_dark_spec(),
    {
        Colors::default_dark()
    }
}

/// `[colors.primary]`.
#[derive(Clone, Debug, Default)]
pub struct RawPrimary {
    pub background: Option<String>,
    pub foreground: Option<String>,
}

/// `[colors.cursor]`.
#[derive(Clone, Debug, Default)]
pub struct RawCursor {
    pub cursor: Option<String>,
}

/// `[colors.normal]` / `[colors.bright]`.
#[derive(Clone, Debug, Default)]
pub struct RawAnsi {
    pub black: Option<String>,
    pub red: Option<String>,
    pub green: Option<String>,
    pub yellow: Option<String>,
    pub blue: Option<String>,
    pub magenta: Option<String>,
    pub cyan: Option<String>,
    pub white: Option<String>,
}

/// `cur`, or the colour `s` names if it names one.
pub open spec fn override_color(cur: [u8; 3], s: Option<String>) -> [u8; 3] {
    match s {
        Some(s) => match parse_hex_spec(s@) {
            Some(c) => c,
            None => cur,
        },
        None => cur,
    }
}

/// `pal` with each colour the raw table names replaced.
pub open spec fn apply_ansi_spec(pal: AnsiPalette, raw: Option<RawAnsi>) -> AnsiPalette {
    match raw {
        Some(r) => AnsiPalette {
            black: override_color(pal.black, r.black),
            red: override_color(pal.red, r.red),
            green: override_color(pal.green, r.green),
            yellow: override_color(pal.yellow, r.yellow),
            blue: override_color(pal.blue, r.blue),
            magenta: override_color(pal.magenta, r.magenta),
            cyan: override_color(pal.cyan, r.cyan),
            white: override_color(pal.white, r.white),
        },
        None => pal,
    }
}

/// Applies the colours a `[colors.normal]` or `[colors.bright]` table
/// names to `pal`; unparsable colours leave their entry as it was.
pub fn apply_ansi(pal: &mut AnsiPalette, raw: Option<RawAnsi>)
    ensures
        *final(pal) == apply_ansi_spec(*old(pal), raw),
{
    let raw = match raw {
        Some(r) => r,
        None => return,
    };
    if let Some(s) = &raw.black {
        if let Some(c) = parse_hex(s.as_str()) {
            pal.black = c;
        }
    }
    if let Some(s) = &raw.red {
        if let Some(c) = parse_hex(s.as_str()) {
            pal.red = c;
        }
    }
    if let Some(s) = &raw.green {
        if let Some(c) = parse_hex(s.as_str()) {
            pal.green = c;
        }
    }
    if let Some(s) = &raw.yellow {
        if let Some(c) = parse_hex(s.as_str()) {
            pal.yellow = c;
        }
    }
    if let Some(s) = &raw.blue {
        if let Some(c) = parse_hex(s.as_str()) {
            pal.blue = c;
        }
    }
    if let Some(s) = &raw.magenta {
        if let Some(c) = parse_hex(s.as_str()) {
            pal.magenta = c;
        }
    }
    if let Some(s) = &raw.cyan {
        if let Some(c) = parse_hex(s.as_str()) {
            pal.cyan = c;
        }
    }
    if let Some(s) = &raw.white {
        if let Some(c) = parse_hex(s.as_str()) {
            pal.white = c;
        }
    }
}

/// `target` with the standard colour keys (primary, cursor, normal,
/// bright) applied.
pub open spec fn palette_overrides_spec(
    target: Colors,
    primary: Option<RawPrimary>,
    cursor: Option<RawCursor>,
    normal: Option<RawAnsi>,
    bright: Option<RawAnsi>,
) -> Colors {
    Colors {
        background: match primary {
            Some(p) => override_color(target.background, p.background),
            None => target.background,
        },
        foreground: match primary {
            Some(p) => override_color(target.foreground, p.foreground),
            None => target.foreground,
        },
        cursor: match cursor {
            Some(c) => override_color(target.cursor, c.cursor),
            None => target.cursor,
        },
        normal: apply_ansi_spec(target.normal, normal),
        bright: apply_ansi_spec(target.bright, bright),
    }
}

/// Each colour key of a `[colors.normal]` / `[colors.bright]` table sets
/// the palette entry of the same name when it names a colour; every other
/// entry keeps its colour.
pub open spec fn ansi_keys_applied(before: AnsiPalette, raw: RawAnsi, after: AnsiPalette) -> bool {
    &&& (raw.black matches Some(t) ==> after.black == match parse_hex_spec(t@) { Some(c) => c, None => before.black })
    &&& (raw.black is None ==> after.black == before.black)
    &&& (raw.red matches Some(t) ==> after.red == match parse_hex_spec(t@) { Some(c) => c, None => before.red })
    &&& (raw.red is None ==> after.red == before.red)
    &&& (raw.green matches Some(t) ==> after.green == match parse_hex_spec(t@) { Some(c) => c, None => before.green })
    &&& (raw.green is None ==> after.green == before.green)
    &&& (raw.yellow matches Some(t) ==> after.yellow == match parse_hex_spec(t@) { Some(c) => c, None => before.yellow })
    &&& (raw.yellow is None ==> after.yellow == before.yellow)
    &&& (raw.blue matches Some(t) ==> after.blue == match parse_hex_spec(t@) { Some(c) => c, None => before.blue })
    &&& (raw.blue is None ==> after.blue == before.blue)
    &&& (raw.magenta matches Some(t) ==> after.magenta == match parse_hex_spec(t@) { Some(c) => c, None => before.magenta })
    &&& (raw.magenta is None ==> after.magenta == before.magenta)
    &&& (raw.cyan matches Some(t) ==> after.cyan == match parse_hex_spec(t@) { Some(c) => c, None => before.cyan })
    &&& (raw.cyan is None ==> after.cyan == before.cyan)
    &&& (raw.white matches Some(t) ==> after.white == match parse_hex_spec(t@) { Some(c) => c, None => before.white })
    &&& (raw.white is None ==> after.white == before.white)
}

/// The normal palette follows `[colors.normal]` and the bright palette
/// `[colors.bright]`, each key setting its own entry; a missing table
/// leaves its palette as it was, and neither table touches the other
/// palette or the primary and cursor colours.
pub proof fn law_palette_tables(
    target: Colors,
    primary: Option<RawPrimary>,
    cursor: Option<RawCursor>,
    normal: Option<RawAnsi>,
    bright: Option<RawAnsi>,
    other_normal: Option<RawAnsi>,
    other_bright: Option<RawAnsi>,
)
    ensures
        normal matches Some(n) ==> ansi_keys_applied(target.normal, n, palette_overrides_spec(target, primary, cursor, normal, bright).normal),
        bright matches Some(b) ==> ansi_keys_applied(target.bright, b, palette_overrides_spec(target, primary, cursor, normal, bright).bright),
        normal is None ==> palette_overrides_spec(target, primary, cursor, normal, bright).normal == target.normal,
        bright is None ==> palette_overrides_spec(target, primary, cursor, normal, bright).bright == target.bright,
        palette_overrides_spec(target, primary, cursor, normal, bright).normal == palette_overrides_spec(target, primary, cursor, normal, other_bright).normal,
        palette_overrides_spec(target, primary, cursor, normal, bright).bright == palette_overrides_spec(target, primary, cursor, other_normal, bright).bright,
        palette_overrides_spec(target, primary, cursor, normal, bright).background == palette_overrides_spec(target, primary, cursor, other_normal, other_bright).background,
        palette_overrides_spec(target, primary, cursor, normal, bright).foreground == palette_overrides_spec(target, primary, cursor, other_normal, other_bright).foreground,
        palette_overrides_spec(target, primary, cursor, normal, bright).cursor == palette_overrides_spec(target, primary, cursor, other_normal, other_bright).cursor,
{
}

/// `[colors.primary]` `background` and `foreground` set the background and
/// foreground, `[colors.cursor]` `cursor` the cursor colour, each when it
/// names a colour; otherwise the colour stays.
pub proof fn law_primary_and_cursor_keys(
    target: Colors,
    primary: Option<RawPrimary>,
    cursor: Option<RawCursor>,
    normal: Option<RawAnsi>,
    bright: Option<RawAnsi>,
)
    ensures
        ({
            let after = palette_overrides_spec(target, primary, cursor, normal, bright);
            &&& after.background == match primary {
                Some(p) => match p.background {
                    Some(t) => match parse_hex_spec(t@) {
                        Some(c) => c,
                        None => target.background,
                    },
                    None => target.background,
                },
                None => target.background,
            }
            &&& after.foreground == match primary {
                Some(p) => match p.foreground {
                    Some(t) => match parse_hex_spec(t@) {
                        Some(c) => c,
                        None => target.foreground,
                    },
                    None => target.foreground,
                },
                None => target.foreground,
            }
            &&& after.cursor == match cursor {
                Some(k) => match k.cursor {
                    Some(t) => match parse_hex_spec(t@) {
                        Some(c) => c,
                        None => target.cursor,
                    },
                    None => target.cursor,
                },
                None => target.cursor,
            }
        }),
{
}

/// Applies the standard alacritty colour keys onto one palette; shared by
/// the flat `[colors]` table and the `[colors.dark]`/`[colors.light]` tables.
pub fn apply_palette_overrides(
    target: &mut Colors,
    primary: Option<RawPrimary>,
    cursor: Option<RawCursor>,
    normal: Option<RawAnsi>,
    bright: Option<RawAnsi>,
)
    ensures
        *final(target) == palette_overrides_spec(*old(target), primary, cursor, normal, bright),
{
    if let Some(primary) = &primary {
        if let Some(s) = &primary.background {
            if let Some(bg) = parse_hex(s.as_str()) {
                target.background = bg;
            }
        }
        if let Some(s) = &primary.foreground {
            if let Some(fg) = parse_hex(s.as_str()) {
                target.foreground = fg;
            }
        }
    }
    if let Some(cur) = &cursor {
        if let Some(s) = &cur.cursor {
            if let Some(c) = parse_hex(s.as_str()) {
                target.cursor = c;
            }
        }
    }
    apply_ansi(&mut target.normal, normal);
    apply_ansi(&mut target.bright, bright);
}

/// `[colors]`, and recursively the aterm `[colors.dark]`/`[colors.light]`
/// tables of the same shape.
#[derive(Debug, Default)]
pub struct RawColors {
    pub primary: Option<RawPrimary>,
    pub cursor: Option<RawCursor>,
    pub normal: Option<RawAnsi>,
    pub bright: Option<RawAnsi>,
    /// Overrides applied to the dark palette only.
    pub dark: Option<Box<RawColors>>,
    /// Overrides applied to the light palette only.
    pub light: Option<Box<RawColors>>,
    /// Explicitly enable/disable following the OS appearance.
    pub auto_theme: Option<bool>,
}

/// `[font]` (the size is handled by the renderer, which owns font metrics).
#[derive(Clone, Debug, Default)]
pub struct RawFont {
    /// `normal.family`.
    pub family: Option<String>,
}

/// `[window]` (padding is handled by the renderer).
#[derive(Clone, Debug, Default)]
pub struct RawWindow {
    pub dynamic_title: Option<bool>,
}

/// One `[[keyboard.bindings]]` entry.
#[derive(Clone, Debug, Default)]
pub struct RawBinding {
    pub key: String,
    pub mods: Option<String>,
    pub action: Option<String>,
    /// Literal text to send to the PTY; wins over `action` when non-empty.
    pub chars: Option<String>,
}

/// `[keyboard]`.
#[derive(Clone, Debug, Default)]
pub struct RawKeyboard {
    pub bindings: Vec<RawBinding>,
}

/// The subset of the alacritty schema that aterm reads.
#[derive(Debug, Default)]
pub struct RawConfig {
    pub font: Option<RawFont>,
    pub colors: Option<RawColors>,
    pub window: Option<RawWindow>,
    pub keyboard: Option<RawKeyboard>,
}

/// The interpreted configuration (font metrics and padding aside).
#[derive(Clone, Debug)]
pub struct Config {
    pub font_family: String,
    /// The palette currently in effect.
    pub colors: Colors,
    /// Palette used when the system theme is dark (or unknown).
    pub colors_dark: Colors,
    /// Palette used when the system reports a light appearance.
    pub colors_light: Colors,
    /// Follow the OS light/dark appearance, swapping palettes live.
    pub follow_system_theme: bool,
    pub bindings: Vec<Keybinding>,
    /// When false, OSC 0/1/2 title changes from the shell are ignored.
    pub dynamic_title: bool,
}

impl Config {
    /// The built-in configuration: default font, dark palette active, no
    /// theme following, default bindings, dynamic titles on.
    pub fn default_for(platform: Platform) -> (c: Config)
        ensures
            c.font_family@ == default_font_family_spec(platform),
            c.colors == default_dark_spec(),
            c.colors_dark == default_dark_spec(),
            c.colors_light == default_light_spec(),
            !c.follow_system_theme,
            c.bindings@ == default_bindings(),
            c.dynamic_title,
    {
        Config {
            font_family: default_font_family(platform).to_owned(),
            colors: Colors::default_dark(),
            colors_dark: Colors::default_dark(),
            colors_light: Colors::default_light(),
            follow_system_theme: false,
            bindings: binding::defaults(),
            dynamic_title: true,
        }
    }
}

pub open spec fn default_font_family_spec(platform: Platform) -> Seq<char> {
    if platform == Platform::MacOs { "Menlo"@ } else { "monospace"@ }
}

/// The modifiers of a raw binding (none when `mods` is absent).
pub open spec fn raw_mods(rb: RawBinding) -> ModifiersState {
    match rb.mods {
        Some(m) => parse_mods_spec(m@),
        None => ModifiersState::spec_empty(),
    }
}

/// `a` is the action a raw binding asks for: `chars` when non-empty, else
/// the named action.
pub open spec fn raw_action_is(rb: RawBinding, a: Action) -> bool {
    match rb.chars {
        Some(c) if c@.len() > 0 => match a {
            Action::SendChars(v) => v@ == encode_utf8(c@),
            _ => false,
        },
        _ => match rb.action {
            Some(n) => parse_action_spec(n@) == Some(a),
            None => false,
        },
    }
}

/// The raw binding is usable: its key is known and it names an action.
pub open spec fn raw_binding_kept(rb: RawBinding) -> bool {
    &&& parse_key_spec(rb.key@) is Some
    &&& match rb.chars {
        Some(c) if c@.len() > 0 => true,
        _ => match rb.action {
            Some(n) => parse_action_spec(n@) is Some,
            None => false,
        },
    }
}

/// `kb` is the binding the raw entry describes.
pub open spec fn binding_from_raw(rb: RawBinding, kb: Keybinding) -> bool {
    &&& parse_key_spec(rb.key@) == Some(kb.key)
    &&& kb.mods == raw_mods(rb)
    &&& raw_action_is(rb, kb.action)
}

/// `user` is the list of bindings the raw entries describe, in order, the
/// unusable entries skipped.
pub open spec fn user_bindings_from(rbs: Seq<RawBinding>, user: Seq<Keybinding>) -> bool
    decreases rbs.len(),
{
    if rbs.len() == 0 {
        user.len() == 0
    } else if raw_binding_kept(rbs.last()) {
        user.len() > 0 && binding_from_raw(rbs.last(), user.last()) && user_bindings_from(
            rbs.drop_last(),
            user.drop_last(),
        )
    } else {
        user_bindings_from(rbs.drop_last(), user)
    }
}

/// Whether the app should follow the OS appearance: an explicit
/// `auto_theme` wins; otherwise follow unless a flat `[colors]` table pins a
/// single scheme without a dark/light split. No `[colors]` table: follow.
pub open spec fn follows_system_spec(colors: Option<RawColors>) -> bool {
    match colors {
        Some(c) => match c.auto_theme {
            Some(v) => v,
            None => {
                let has_flat = c.primary is Some || c.cursor is Some || c.normal is Some || c.bright is Some;
                let has_split = c.dark is Some || c.light is Some;
                has_split || !has_flat
            },
        },
        None => true,
    }
}

/// The dark palette after the flat `[colors]` keys, then `[colors.dark]`.
pub open spec fn dark_palette_spec(cur: Colors, colors: Option<RawColors>) -> Colors {
    match colors {
        Some(c) => {
            let flat = palette_overrides_spec(cur, c.primary, c.cursor, c.normal, c.bright);
            match c.dark {
                Some(d) => palette_overrides_spec(flat, d.primary, d.cursor, d.normal, d.bright),
                None => flat,
            }
        },
        None => cur,
    }
}

/// The light palette after `[colors.light]`.
pub open spec fn light_palette_spec(cur: Colors, colors: Option<RawColors>) -> Colors {
    match colors {
        Some(c) => match c.light {
            Some(l) => palette_overrides_spec(cur, l.primary, l.cursor, l.normal, l.bright),
            None => cur,
        },
        None => cur,
    }
}

proof fn lemma_user_bindings_push(rbs: Seq<RawBinding>, user: Seq<Keybinding>, rb: RawBinding)
    requires
        user_bindings_from(rbs, user),
        !raw_binding_kept(rb),
    ensures
        user_bindings_from(rbs.push(rb), user),
{
    assert(rbs.push(rb).drop_last() =~= rbs);
}

proof fn lemma_user_bindings_push_kept(rbs: Seq<RawBinding>, user: Seq<Keybinding>, rb: RawBinding, kb: Keybinding)
    requires
        user_bindings_from(rbs, user),
        raw_binding_kept(rb),
        binding_from_raw(rb, kb),
    ensures
        user_bindings_from(rbs.push(rb), user.push(kb)),
{
    assert(rbs.push(rb).drop_last() =~= rbs);
    assert(user.push(kb).drop_last() =~= user);
}

/// The binding a raw entry describes, or `None` when it is unusable.
fn binding_of_raw(rb: RawBinding) -> (kb: Option<Keybinding>)
    ensures
        match kb {
            Some(k) => raw_binding_kept(rb) && binding_from_raw(rb, k),
            None => !raw_binding_kept(rb),
        },
{
    let key = match binding::parse_key(rb.key.as_str()) {
        Some(k) => k,
        None => return None,
    };
    let action = match (&rb.chars, &rb.action) {
        (Some(chars), _) if !chars.as_str().is_empty() => Action::SendChars(chars.as_str().as_bytes_vec()),
        (_, Some(action)) => match binding::parse_action(action.as_str()) {
            Some(a) => a,
            None => return None,
        },
        _ => return None,
    };
    let mods = match &rb.mods {
        Some(m) => binding::parse_mods(m.as_str()),
        None => ModifiersState::empty(),
    };
    Some(Keybinding { key, mods, action })
}

/// Applies the raw config on top of `cfg`: font family, dynamic titles,
/// palettes and theme following, and user keybindings (layered over the
/// defaults when at least one is usable).
pub fn apply_raw(cfg: &mut Config, raw: RawConfig)
    ensures
        final(cfg).font_family@ == (match raw.font {
            Some(f) => match f.family {
                Some(fam) => fam@,
                None => old(cfg).font_family@,
            },
            None => old(cfg).font_family@,
        }),
        final(cfg).dynamic_title == (match raw.window {
            Some(w) => match w.dynamic_title {
                Some(dt) => dt,
                None => old(cfg).dynamic_title,
            },
            None => old(cfg).dynamic_title,
        }),
        final(cfg).colors_dark == dark_palette_spec(old(cfg).colors_dark, raw.colors),
        final(cfg).colors_light == light_palette_spec(old(cfg).colors_light, raw.colors),
        final(cfg).follow_system_theme == follows_system_spec(raw.colors),
        final(cfg).colors == final(cfg).colors_dark,
        match raw.keyboard {
            Some(kb) => exists|user: Seq<Keybinding>| #[trigger] user_bindings_from(kb.bindings@, user) && (if user.len() > 0 {
                final(cfg).bindings@ == merge_spec(user, default_bindings())
            } else {
                final(cfg).bindings@ == old(cfg).bindings@
            }),
            None => final(cfg).bindings@ == old(cfg).bindings@,
        },
{
    let ghost raw0 = raw;
    if let Some(font) = raw.font {
        if let Some(family) = font.family {
            cfg.font_family = family;
        }
    }
    if let Some(window) = raw.window {
        if let Some(dt) = window.dynamic_title {
            cfg.dynamic_title = dt;
        }
    }
    if let Some(colors) = raw.colors {
        let has_flat = colors.primary.is_some() || colors.cursor.is_some() || colors.normal.is_some()
            || colors.bright.is_some();
        apply_palette_overrides(&mut cfg.colors_dark, colors.primary, colors.cursor, colors.normal, colors.bright);
        let has_split = colors.dark.is_some() || colors.light.is_some();
        if let Some(dark) = colors.dark {
            let dark = *dark;
            apply_palette_overrides(&mut cfg.colors_dark, dark.primary, dark.cursor, dark.normal, dark.bright);
        }
        if let Some(light) = colors.light {
            let light = *light;
            apply_palette_overrides(&mut cfg.colors_light, light.primary, light.cursor, light.normal, light.bright);
        }
        cfg.follow_system_theme = match colors.auto_theme {
            Some(v) => v,
            None => has_split || !has_flat,
        };
    } else {
        cfg.follow_system_theme = true;
    }
    cfg.colors = cfg.colors_dark;
    if let Some(kb) = raw.keyboard {
        let ghost rbs = kb.bindings@;
        let mut user: Vec<Keybinding> = Vec::new();
        for rb in it: kb.bindings
            invariant
                it.seq() == rbs,
                user_bindings_from(rbs.take(it.index() as int), user@),
        {
            let ghost k = it.index() as int;
            let ghost rb0 = rb;
            assert(rbs.take(k).push(rb0) =~= rbs.take(k + 1));
            match binding_of_raw(rb) {
                Some(b) => {
                    proof {
                        lemma_user_bindings_push_kept(rbs.take(k), user@, rb0, b);
                    }
                    user.push(b);
                },
                None => {
                    proof {
                        lemma_user_bindings_push(rbs.take(k), user@, rb0);
                    }
                },
            }
        }
        assert(rbs.take(rbs.len() as int) =~= rbs);
        let ghost u = user@;
        if user.len() > 0 {
            cfg.bindings = binding::merge(user, binding::defaults());
        }
        assert(user_bindings_from(rbs, u));
    }
}


} // verus!
