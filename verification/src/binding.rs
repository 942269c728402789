//! App-level keybindings, modeled on alacritty's `[[keyboard.bindings]]`:
//! each binding is a (physical key, modifier set, action) triple. Built-in
//! defaults supply the standard Command-based shortcuts; user entries are
//! layered on top and replace a default with the same `(key, mods)` trigger.

use vstd::prelude::*;
use crate::keys::{KeyCode, ModifiersState};
use crate::text::{chars_of, is_white_space, string_from_chars, trim, trimmed, white_space};

verus! {

#[derive(Clone, Debug, PartialEq, Eq)]
pub enum Action {
    CreateTab,
    CloseTab,
    /// One-based tab index (1..=9).
    SelectTab(u8),
    PrevTab,
    NextTab,
    Copy,
    Paste,
    ScrollLineUp,
    ScrollLineDown,
    ScrollPageUp,
    ScrollPageDown,
    ScrollToTop,
    ScrollToBottom,
    IncreaseFontSize,
    DecreaseFontSize,
    ResetFontSize,
    /// Send a literal byte sequence to the PTY (alacritty's `chars`).
    SendChars(Vec<u8>),
    /// Suppress a default binding: the keystroke goes to the PTY.
    ReceiveChar,
}

#[derive(Clone, Debug)]
pub struct Keybinding {
    pub key: KeyCode,
    pub mods: ModifiersState,
    pub action: Action,
}

/// The key a single ASCII letter (upper case) names.
pub open spec fn letter_key(c: char) -> Option<KeyCode> {
    match c {
        'A' => Some(KeyCode::KeyA),
        'B' => Some(KeyCode::KeyB),
        'C' => Some(KeyCode::KeyC),
        'D' => Some(KeyCode::KeyD),
        'E' => Some(KeyCode::KeyE),
        'F' => Some(KeyCode::KeyF),
        'G' => Some(KeyCode::KeyG),
        'H' => Some(KeyCode::KeyH),
        'I' => Some(KeyCode::KeyI),
        'J' => Some(KeyCode::KeyJ),
        'K' => Some(KeyCode::KeyK),
        'L' => Some(KeyCode::KeyL),
        'M' => Some(KeyCode::KeyM),
        'N' => Some(KeyCode::KeyN),
        'O' => Some(KeyCode::KeyO),
        'P' => Some(KeyCode::KeyP),
        'Q' => Some(KeyCode::KeyQ),
        'R' => Some(KeyCode::KeyR),
        'S' => Some(KeyCode::KeyS),
        'T' => Some(KeyCode::KeyT),
        'U' => Some(KeyCode::KeyU),
        'V' => Some(KeyCode::KeyV),
        'W' => Some(KeyCode::KeyW),
        'X' => Some(KeyCode::KeyX),
        'Y' => Some(KeyCode::KeyY),
        'Z' => Some(KeyCode::KeyZ),        _ => None,
    }
}

fn ascii_letter_keycode(c: char) -> (k: Option<KeyCode>)
    ensures
        k == letter_key(c),
{
    match c {
        'A' => Some(KeyCode::KeyA),
        'B' => Some(KeyCode::KeyB),
        'C' => Some(KeyCode::KeyC),
        'D' => Some(KeyCode::KeyD),
        'E' => Some(KeyCode::KeyE),
        'F' => Some(KeyCode::KeyF),
        'G' => Some(KeyCode::KeyG),
        'H' => Some(KeyCode::KeyH),
        'I' => Some(KeyCode::KeyI),
        'J' => Some(KeyCode::KeyJ),
        'K' => Some(KeyCode::KeyK),
        'L' => Some(KeyCode::KeyL),
        'M' => Some(KeyCode::KeyM),
        'N' => Some(KeyCode::KeyN),
        'O' => Some(KeyCode::KeyO),
        'P' => Some(KeyCode::KeyP),
        'Q' => Some(KeyCode::KeyQ),
        'R' => Some(KeyCode::KeyR),
        'S' => Some(KeyCode::KeyS),
        'T' => Some(KeyCode::KeyT),
        'U' => Some(KeyCode::KeyU),
        'V' => Some(KeyCode::KeyV),
        'W' => Some(KeyCode::KeyW),
        'X' => Some(KeyCode::KeyX),
        'Y' => Some(KeyCode::KeyY),
        'Z' => Some(KeyCode::KeyZ),        _ => None,
    }
}

/// The key an ASCII digit names.
pub open spec fn digit_key(c: char) -> KeyCode {
    match c {
        '0' => KeyCode::Digit0,
        '1' => KeyCode::Digit1,
        '2' => KeyCode::Digit2,
        '3' => KeyCode::Digit3,
        '4' => KeyCode::Digit4,
        '5' => KeyCode::Digit5,
        '6' => KeyCode::Digit6,
        '7' => KeyCode::Digit7,
        '8' => KeyCode::Digit8,        _ => KeyCode::Digit9,
    }
}

fn ascii_digit_keycode(c: char) -> (k: KeyCode)
    ensures
        k == digit_key(c),
{
    match c {
        '0' => KeyCode::Digit0,
        '1' => KeyCode::Digit1,
        '2' => KeyCode::Digit2,
        '3' => KeyCode::Digit3,
        '4' => KeyCode::Digit4,
        '5' => KeyCode::Digit5,
        '6' => KeyCode::Digit6,
        '7' => KeyCode::Digit7,
        '8' => KeyCode::Digit8,        _ => KeyCode::Digit9,
    }
}

/// The key a punctuation character names.
pub open spec fn punct_key(c: char) -> Option<KeyCode> {
    match c {
        '-' => Some(KeyCode::Minus),
        '=' => Some(KeyCode::Equal),
        '[' => Some(KeyCode::BracketLeft),
        ']' => Some(KeyCode::BracketRight),
        ';' => Some(KeyCode::Semicolon),
        '\'' => Some(KeyCode::Quote),
        '`' => Some(KeyCode::Backquote),
        ',' => Some(KeyCode::Comma),
        '.' => Some(KeyCode::Period),
        '/' => Some(KeyCode::Slash),
        '\\' => Some(KeyCode::Backslash),        _ => None,
    }
}

fn punct_keycode(c: char) -> (k: Option<KeyCode>)
    ensures
        k == punct_key(c),
{
    match c {
        '-' => Some(KeyCode::Minus),
        '=' => Some(KeyCode::Equal),
        '[' => Some(KeyCode::BracketLeft),
        ']' => Some(KeyCode::BracketRight),
        ';' => Some(KeyCode::Semicolon),
        '\'' => Some(KeyCode::Quote),
        '`' => Some(KeyCode::Backquote),
        ',' => Some(KeyCode::Comma),
        '.' => Some(KeyCode::Period),
        '/' => Some(KeyCode::Slash),
        '\\' => Some(KeyCode::Backslash),        _ => None,
    }
}

/// ASCII letters folded to lower case; every other character unchanged.
pub open spec fn ascii_lower(c: char) -> char {
    if 'A' <= c && c <= 'Z' {
        ((c as u32) + 32) as char
    } else {
        c
    }
}

pub open spec fn ascii_lowercase(s: Seq<char>) -> Seq<char> {
    s.map_values(|c: char| ascii_lower(c))
}

fn lower_char(c: char) -> (d: char)
    ensures
        d == ascii_lower(c),
{
    if 'A' <= c && c <= 'Z' {
        ((c as u8) + 32) as char
    } else {
        c
    }
}

fn to_ascii_lowercase(s: &[char]) -> (out: Vec<char>)
    ensures
        out@ == ascii_lowercase(s@),
{
    let mut out: Vec<char> = Vec::new();
    let mut i: usize = 0;
    while i < s.len()
        invariant
            i <= s@.len(),
            out@ == ascii_lowercase(s@.take(i as int)),
        decreases s@.len() - i,
    {
        out.push(lower_char(s[i]));
        assert(ascii_lowercase(s@.take(i + 1)) =~= ascii_lowercase(s@.take(i as int)).push(
            ascii_lower(s@[i as int]),
        ));
        i = i + 1;
    }
    assert(s@.take(s@.len() as int) =~= s@);
    out
}

/// Whether `s` holds exactly the characters of `lit`.
fn eq_lit(s: &[char], lit: &str) -> (b: bool)
    ensures
        b == (s@ == lit@),
{
    let l = chars_of(lit);
    if s.len() != l.len() {
        return false;
    }
    let mut i: usize = 0;
    while i < s.len()
        invariant
            i <= s@.len(),
            l@ == lit@,
            s@.len() == l@.len(),
            forall|j: int| 0 <= j < i ==> s@[j] == l@[j],
        decreases s@.len() - i,
    {
        if s[i] != l[i] {
            assert(s@[i as int] != l@[i as int]);
            return false;
        }
        i = i + 1;
    }
    assert(s@ =~= l@);
    true
}

/// The key a (lower-cased) key name names.
pub open spec fn named_key(l: Seq<char>) -> Option<KeyCode> {
    if l == "left"@ || l == "arrowleft"@ {
        Some(KeyCode::ArrowLeft)
    } else if l == "right"@ || l == "arrowright"@ {
        Some(KeyCode::ArrowRight)
    } else if l == "up"@ || l == "arrowup"@ {
        Some(KeyCode::ArrowUp)
    } else if l == "down"@ || l == "arrowdown"@ {
        Some(KeyCode::ArrowDown)
    } else if l == "pageup"@ {
        Some(KeyCode::PageUp)
    } else if l == "pagedown"@ {
        Some(KeyCode::PageDown)
    } else if l == "home"@ {
        Some(KeyCode::Home)
    } else if l == "end"@ {
        Some(KeyCode::End)
    } else if l == "insert"@ {
        Some(KeyCode::Insert)
    } else if l == "delete"@ {
        Some(KeyCode::Delete)
    } else if l == "backspace"@ {
        Some(KeyCode::Backspace)
    } else if l == "tab"@ {
        Some(KeyCode::Tab)
    } else if l == "enter"@ || l == "return"@ {
        Some(KeyCode::Enter)
    } else if l == "space"@ {
        Some(KeyCode::Space)
    } else if l == "escape"@ || l == "esc"@ {
        Some(KeyCode::Escape)
    } else if l == "f1"@ {
        Some(KeyCode::F1)
    } else if l == "f2"@ {
        Some(KeyCode::F2)
    } else if l == "f3"@ {
        Some(KeyCode::F3)
    } else if l == "f4"@ {
        Some(KeyCode::F4)
    } else if l == "f5"@ {
        Some(KeyCode::F5)
    } else if l == "f6"@ {
        Some(KeyCode::F6)
    } else if l == "f7"@ {
        Some(KeyCode::F7)
    } else if l == "f8"@ {
        Some(KeyCode::F8)
    } else if l == "f9"@ {
        Some(KeyCode::F9)
    } else if l == "f10"@ {
        Some(KeyCode::F10)
    } else if l == "f11"@ {
        Some(KeyCode::F11)
    } else if l == "f12"@ {
        Some(KeyCode::F12)
    } else {
        None
    }
}

fn named_keycode(name: &[char]) -> (k: Option<KeyCode>)
    ensures
        k == named_key(ascii_lowercase(name@)),
{
    let l = to_ascii_lowercase(name);
    let l = l.as_slice();
    if eq_lit(l, "left") || eq_lit(l, "arrowleft") {
        Some(KeyCode::ArrowLeft)
    } else if eq_lit(l, "right") || eq_lit(l, "arrowright") {
        Some(KeyCode::ArrowRight)
    } else if eq_lit(l, "up") || eq_lit(l, "arrowup") {
        Some(KeyCode::ArrowUp)
    } else if eq_lit(l, "down") || eq_lit(l, "arrowdown") {
        Some(KeyCode::ArrowDown)
    } else if eq_lit(l, "pageup") {
        Some(KeyCode::PageUp)
    } else if eq_lit(l, "pagedown") {
        Some(KeyCode::PageDown)
    } else if eq_lit(l, "home") {
        Some(KeyCode::Home)
    } else if eq_lit(l, "end") {
        Some(KeyCode::End)
    } else if eq_lit(l, "insert") {
        Some(KeyCode::Insert)
    } else if eq_lit(l, "delete") {
        Some(KeyCode::Delete)
    } else if eq_lit(l, "backspace") {
        Some(KeyCode::Backspace)
    } else if eq_lit(l, "tab") {
        Some(KeyCode::Tab)
    } else if eq_lit(l, "enter") || eq_lit(l, "return") {
        Some(KeyCode::Enter)
    } else if eq_lit(l, "space") {
        Some(KeyCode::Space)
    } else if eq_lit(l, "escape") || eq_lit(l, "esc") {
        Some(KeyCode::Escape)
    } else if eq_lit(l, "f1") {
        Some(KeyCode::F1)
    } else if eq_lit(l, "f2") {
        Some(KeyCode::F2)
    } else if eq_lit(l, "f3") {
        Some(KeyCode::F3)
    } else if eq_lit(l, "f4") {
        Some(KeyCode::F4)
    } else if eq_lit(l, "f5") {
        Some(KeyCode::F5)
    } else if eq_lit(l, "f6") {
        Some(KeyCode::F6)
    } else if eq_lit(l, "f7") {
        Some(KeyCode::F7)
    } else if eq_lit(l, "f8") {
        Some(KeyCode::F8)
    } else if eq_lit(l, "f9") {
        Some(KeyCode::F9)
    } else if eq_lit(l, "f10") {
        Some(KeyCode::F10)
    } else if eq_lit(l, "f11") {
        Some(KeyCode::F11)
    } else if eq_lit(l, "f12") {
        Some(KeyCode::F12)
    } else {
        None
    }
}

pub open spec fn is_ascii_alphabetic(c: char) -> bool {
    ('A' <= c && c <= 'Z') || ('a' <= c && c <= 'z')
}

pub open spec fn is_ascii_digit(c: char) -> bool {
    '0' <= c && c <= '9'
}

pub open spec fn ascii_upper(c: char) -> char {
    if 'a' <= c && c <= 'z' {
        ((c as u32) - 32) as char
    } else {
        c
    }
}

/// The key a config key string ("T", "1", "Left", "PageUp", "F5", ...)
/// names: surrounding white space is ignored and letters and names are
/// case-insensitive.
pub open spec fn parse_key_spec(s: Seq<char>) -> Option<KeyCode> {
    let t = trim(s);
    if t.len() == 0 {
        None
    } else if t.len() == 1 && is_ascii_alphabetic(t[0]) {
        letter_key(ascii_upper(t[0]))
    } else if t.len() == 1 && is_ascii_digit(t[0]) {
        Some(digit_key(t[0]))
    } else if t.len() == 1 && punct_key(t[0]) is Some {
        punct_key(t[0])
    } else {
        named_key(ascii_lowercase(t))
    }
}

fn upper_char(c: char) -> (d: char)
    ensures
        d == ascii_upper(c),
{
    if 'a' <= c && c <= 'z' {
        ((c as u8) - 32) as char
    } else {
        c
    }
}

/// The only character of `s`, if it has exactly one.
pub fn single_char(s: &str) -> (c: Option<char>)
    ensures
        c == (if s@.len() == 1 {
            Some(s@[0])
        } else {
            None
        }),
{
    let cs = chars_of(s);
    if cs.len() == 1 {
        Some(cs[0])
    } else {
        None
    }
}

/// Parses a config key string into a `KeyCode`; `None` for unknown names.
pub fn parse_key(s: &str) -> (k: Option<KeyCode>)
    ensures
        k == parse_key_spec(s@),
{
    let cs = chars_of(s);
    let t = trimmed(&cs);
    if t.len() == 0 {
        return None;
    }
    let ts = string_from_chars(t.as_slice());
    if let Some(c) = single_char(ts.as_str()) {
        assert(t.len() == 1 && c == t[0]);
        if ('A' <= c && c <= 'Z') || ('a' <= c && c <= 'z') {
            return ascii_letter_keycode(upper_char(c));
        }
        if '0' <= c && c <= '9' {
            return Some(ascii_digit_keycode(c));
        }
        if let Some(k) = punct_keycode(c) {
            return Some(k);
        }
    }
    named_keycode(t.as_slice())
}

/// Characters that separate modifier tokens: `|`, `+` and white space.
pub open spec fn is_mod_separator(c: char) -> bool {
    c == '|' || c == '+' || is_white_space(c)
}

/// `s[i..j]` is one of the non-empty tokens that `s` splits into.
pub open spec fn is_token(s: Seq<char>, i: int, j: int) -> bool {
    &&& 0 <= i < j <= s.len()
    &&& (i == 0 || is_mod_separator(s[i - 1]))
    &&& (j == s.len() || is_mod_separator(s[j]))
    &&& forall|k: int| i <= k < j ==> !is_mod_separator(#[trigger] s[k])
}

/// The modifier one token names (case-insensitive); unknown tokens name none.
pub open spec fn token_mods(tok: Seq<char>) -> ModifiersState {
    let l = ascii_lowercase(tok);
    if l == "command"@ || l == "super"@ || l == "win"@ || l == "cmd"@ {
        ModifiersState { logo: true, ..ModifiersState::spec_empty() }
    } else if l == "control"@ || l == "ctrl"@ {
        ModifiersState { control: true, ..ModifiersState::spec_empty() }
    } else if l == "shift"@ {
        ModifiersState { shift: true, ..ModifiersState::spec_empty() }
    } else if l == "alt"@ || l == "option"@ || l == "opt"@ {
        ModifiersState { alt: true, ..ModifiersState::spec_empty() }
    } else {
        ModifiersState::spec_empty()
    }
}

/// The modifiers named by the tokens of `s` that end before index `n`.
pub open spec fn mods_named_before(s: Seq<char>, n: int) -> ModifiersState {
    ModifiersState {
        shift: exists|i: int, j: int|
            is_token(s, i, j) && j < n && #[trigger] token_mods(s.subrange(i, j)).shift,
        control: exists|i: int, j: int|
            is_token(s, i, j) && j < n && #[trigger] token_mods(s.subrange(i, j)).control,
        alt: exists|i: int, j: int|
            is_token(s, i, j) && j < n && #[trigger] token_mods(s.subrange(i, j)).alt,
        logo: exists|i: int, j: int|
            is_token(s, i, j) && j < n && #[trigger] token_mods(s.subrange(i, j)).logo,
    }
}

/// A string made of ASCII letters only.
pub open spec fn all_letters(s: Seq<char>) -> bool {
    forall|k: int| 0 <= k < s.len() ==> ('a' <= #[trigger] ascii_lower(s[k]) && ascii_lower(s[k]) <= 'z')
}

/// A non-empty string without separators is one token, and names what that
/// token names.
proof fn lemma_single_token(s: Seq<char>)
    requires
        s.len() > 0,
        forall|k: int| 0 <= k < s.len() ==> !is_mod_separator(#[trigger] s[k]),
    ensures
        parse_mods_spec(s) == token_mods(s),
{
    let n = s.len() as int;
    assert(s.subrange(0, n) =~= s);
    assert(is_token(s, 0, n));
    assert forall|i: int, j: int| #[trigger] is_token(s, i, j) implies i == 0 && j == n by {
        if i > 0 {
            assert(is_mod_separator(s[i - 1]));
        }
        if j < n {
            assert(is_mod_separator(s[j]));
        }
    }
    let t = token_mods(s.subrange(0, n));
    let m = parse_mods_spec(s);
    assert(m.shift == t.shift);
    assert(m.control == t.control);
    assert(m.alt == t.alt);
    assert(m.logo == t.logo);
}

proof fn lemma_letters_not_separators(s: Seq<char>)
    requires
        all_letters(s),
    ensures
        forall|k: int| 0 <= k < s.len() ==> !is_mod_separator(#[trigger] s[k]),
{
    assert forall|k: int| 0 <= k < s.len() implies !is_mod_separator(#[trigger] s[k]) by {
        assert('a' <= ascii_lower(s[k]) && ascii_lower(s[k]) <= 'z');
    }
}

proof fn lemma_spelled_letters(s: Seq<char>, w: Seq<char>)
    requires
        ascii_lowercase(s) == w,
        forall|k: int| 0 <= k < w.len() ==> 'a' <= #[trigger] w[k] && w[k] <= 'z',
    ensures
        all_letters(s),
        s.len() == w.len(),
{
    assert forall|k: int| 0 <= k < s.len() implies ('a' <= #[trigger] ascii_lower(s[k]) && ascii_lower(s[k]) <= 'z') by {
        assert(ascii_lowercase(s)[k] == ascii_lower(s[k]));
    }
}

/// Each documented modifier spelling, in any letter case, names exactly its
/// modifier: `Control`/`Ctrl` Ctrl, `Shift` Shift, `Alt`/`Option`/`Opt`
/// Alt, and `Command`/`Super`/`Win`/`Cmd` the logo key.
pub proof fn law_modifier_spellings(s: Seq<char>)
    ensures
        ascii_lowercase(s) == "control"@ || ascii_lowercase(s) == "ctrl"@ ==> parse_mods_spec(s)
            == (ModifiersState { shift: false, control: true, alt: false, logo: false }),
        ascii_lowercase(s) == "shift"@ ==> parse_mods_spec(s) == (ModifiersState {
            shift: true,
            control: false,
            alt: false,
            logo: false,
        }),
        ascii_lowercase(s) == "alt"@ || ascii_lowercase(s) == "option"@ || ascii_lowercase(s)
            == "opt"@ ==> parse_mods_spec(s) == (ModifiersState {
            shift: false,
            control: false,
            alt: true,
            logo: false,
        }),
        ascii_lowercase(s) == "command"@ || ascii_lowercase(s) == "super"@ || ascii_lowercase(s)
            == "win"@ || ascii_lowercase(s) == "cmd"@ ==> parse_mods_spec(s) == (ModifiersState {
            shift: false,
            control: false,
            alt: false,
            logo: true,
        }),
{
    reveal_strlit("control");
    reveal_strlit("ctrl");
    reveal_strlit("shift");
    reveal_strlit("alt");
    reveal_strlit("option");
    reveal_strlit("opt");
    reveal_strlit("command");
    reveal_strlit("super");
    reveal_strlit("win");
    reveal_strlit("cmd");
    let l = ascii_lowercase(s);
    // Spellings of equal length differ at some position.
    assert("control"@[2] != "command"@[2]);
    assert("control"@ != "command"@);
    assert("shift"@[1] != "super"@[1]);
    assert("shift"@ != "super"@);
    assert("alt"@[0] != "win"@[0] && "alt"@[0] != "cmd"@[0]);
    assert("alt"@ != "win"@ && "alt"@ != "cmd"@);
    assert("opt"@[0] != "win"@[0] && "opt"@[0] != "cmd"@[0]);
    assert("opt"@ != "win"@ && "opt"@ != "cmd"@);
    if l == "control"@ || l == "ctrl"@ || l == "shift"@ || l == "alt"@ || l == "option"@ || l
        == "opt"@ || l == "command"@ || l == "super"@ || l == "win"@ || l == "cmd"@ {
        lemma_spelled_letters(s, l);
        lemma_letters_not_separators(s);
        lemma_single_token(s);
    }
}

/// Two words joined by a separator (`|`, `+` or white space) name both
/// words' modifiers: `Control|Shift` holds Ctrl and Shift.
pub proof fn law_joined_modifiers(a: Seq<char>, sep: char, b: Seq<char>)
    requires
        a.len() > 0,
        b.len() > 0,
        all_letters(a),
        all_letters(b),
        is_mod_separator(sep),
    ensures
        parse_mods_spec(a + seq![sep] + b) == parse_mods_spec(a).spec_union(parse_mods_spec(b)),
{
    lemma_letters_not_separators(a);
    lemma_letters_not_separators(b);
    lemma_single_token(a);
    lemma_single_token(b);
    let s = a + seq![sep] + b;
    let na = a.len() as int;
    let n = s.len() as int;
    assert forall|k: int| 0 <= k < na implies #[trigger] s[k] == a[k] by {}
    assert forall|k: int| na < k < n implies #[trigger] s[k] == b[k - na - 1] by {}
    assert(s[na] == sep);
    assert(s.subrange(0, na) =~= a);
    assert(s.subrange(na + 1, n) =~= b);
    assert(is_token(s, 0, na)) by {
        assert forall|k: int| 0 <= k < na implies !is_mod_separator(#[trigger] s[k]) by {
            assert(s[k] == a[k]);
        }
    }
    assert(is_token(s, na + 1, n)) by {
        assert forall|k: int| na + 1 <= k < n implies !is_mod_separator(#[trigger] s[k]) by {
            assert(s[k] == b[k - na - 1]);
        }
    }
    assert forall|i: int, j: int| #[trigger] is_token(s, i, j) implies (i == 0 && j == na) || (i == na + 1
        && j == n) by {
        if i <= na && na < j {
            assert(!is_mod_separator(s[na]));
        }
        if j <= na {
            if i > 0 {
                assert(s[i - 1] == a[i - 1]);
                assert(!is_mod_separator(a[i - 1]));
            }
            if j < na {
                assert(s[j] == a[j]);
                assert(!is_mod_separator(a[j]));
            }
        } else {
            assert(i > na);
            if i > na + 1 {
                assert(s[i - 1] == b[i - 2 - na]);
                assert(!is_mod_separator(b[i - 2 - na]));
            }
        }
    }
    let m = parse_mods_spec(s);
    let ta = token_mods(s.subrange(0, na));
    let tb = token_mods(s.subrange(na + 1, n));
    assert(m.shift == (ta.shift || tb.shift));
    assert(m.control == (ta.control || tb.control));
    assert(m.alt == (ta.alt || tb.alt));
    assert(m.logo == (ta.logo || tb.logo));
}

/// The modifier set a mods string like "Command|Shift" names: the union of
/// what its tokens name; unknown tokens are skipped.
pub open spec fn parse_mods_spec(s: Seq<char>) -> ModifiersState {
    mods_named_before(s, s.len() + 1int)
}

fn mod_separator(c: char) -> (b: bool)
    ensures
        b == is_mod_separator(c),
{
    c == '|' || c == '+' || white_space(c)
}

fn mods_of_token(tok: &[char]) -> (m: ModifiersState)
    ensures
        m == token_mods(tok@),
{
    let l = to_ascii_lowercase(tok);
    let l = l.as_slice();
    if eq_lit(l, "command") || eq_lit(l, "super") || eq_lit(l, "win") || eq_lit(l, "cmd") {
        ModifiersState::logo()
    } else if eq_lit(l, "control") || eq_lit(l, "ctrl") {
        ModifiersState::control()
    } else if eq_lit(l, "shift") {
        ModifiersState::shift()
    } else if eq_lit(l, "alt") || eq_lit(l, "option") || eq_lit(l, "opt") {
        ModifiersState::alt()
    } else {
        ModifiersState::empty()
    }
}

/// A token ending at `j` starts at the start of the separator-free run that
/// reaches `j`.
proof fn lemma_token_start_unique(s: Seq<char>, start: int, i: int, j: int)
    requires
        0 <= start <= j <= s.len(),
        start == 0 || is_mod_separator(s[start - 1]),
        forall|k: int| start <= k < j ==> !is_mod_separator(#[trigger] s[k]),
        is_token(s, i, j),
    ensures
        i == start,
{
    if i < start {
        assert(!is_mod_separator(s[start - 1]));
    } else if i > start {
        assert(!is_mod_separator(s[i - 1]));
    }
}

proof fn lemma_mods_step(s: Seq<char>, start: int, n: int)
    requires
        0 <= start <= n <= s.len(),
        start == 0 || is_mod_separator(s[start - 1]),
        forall|k: int| start <= k < n ==> !is_mod_separator(#[trigger] s[k]),
        n == s.len() || is_mod_separator(s[n]),
    ensures
        mods_named_before(s, n + 1) == (if start < n {
            mods_named_before(s, n).spec_union(token_mods(s.subrange(start, n)))
        } else {
            mods_named_before(s, n)
        }),
{
    let before = mods_named_before(s, n);
    let after = mods_named_before(s, n + 1);
    if start < n {
        assert(is_token(s, start, n));
    }
    assert forall|i: int, j: int| is_token(s, i, j) && j == n implies i == start by {
        lemma_token_start_unique(s, start, i, j);
    }
    let t = token_mods(s.subrange(start, n));
    if after.shift {
        let (i, j) = choose|i: int, j: int|
            is_token(s, i, j) && j < n + 1 && #[trigger] token_mods(s.subrange(i, j)).shift;
        if j == n {
            assert(i == start);
        }
    }
    if after.control {
        let (i, j) = choose|i: int, j: int|
            is_token(s, i, j) && j < n + 1 && #[trigger] token_mods(s.subrange(i, j)).control;
        if j == n {
            assert(i == start);
        }
    }
    if after.alt {
        let (i, j) = choose|i: int, j: int|
            is_token(s, i, j) && j < n + 1 && #[trigger] token_mods(s.subrange(i, j)).alt;
        if j == n {
            assert(i == start);
        }
    }
    if after.logo {
        let (i, j) = choose|i: int, j: int|
            is_token(s, i, j) && j < n + 1 && #[trigger] token_mods(s.subrange(i, j)).logo;
        if j == n {
            assert(i == start);
        }
    }
}

/// Parses a mods string like "Command|Shift" (tokens split at `|`, `+` or
/// white space; alacritty's spellings Command/Super/Win/Cmd, Control/Ctrl,
/// Shift, Alt/Option/Opt). Unknown tokens are skipped so that a typo does
/// not drop the whole binding; the empty string names no modifier.
pub fn parse_mods(s: &str) -> (m: ModifiersState)
    ensures
        m == parse_mods_spec(s@),
{
    let cs = chars_of(s);
    let n = cs.len();
    let mut state = ModifiersState::empty();
    let mut start: usize = 0;
    let mut i: usize = 0;
    while i < n
        invariant
            n == cs@.len(),
            start <= i <= n,
            start == 0 || is_mod_separator(cs@[start - 1]),
            forall|k: int| start <= k < i ==> !is_mod_separator(#[trigger] cs@[k]),
            state == mods_named_before(cs@, i as int),
        decreases n - i,
    {
        if mod_separator(cs[i]) {
            proof {
                lemma_mods_step(cs@, start as int, i as int);
            }
            if start < i {
                let tok = crate::text::copy_range(cs.as_slice(), start, i);
                let t = mods_of_token(tok.as_slice());
                state = state.union(t);
            }
            start = i + 1;
        } else {
            assert(mods_named_before(cs@, i + 1) == mods_named_before(cs@, i as int)) by {
                let a = mods_named_before(cs@, i + 1);
                if a.shift {
                    let (p, q) = choose|p: int, q: int|
                        is_token(cs@, p, q) && q < i + 1 && #[trigger] token_mods(cs@.subrange(p, q)).shift;
                    assert(q != i);
                }
                if a.control {
                    let (p, q) = choose|p: int, q: int|
                        is_token(cs@, p, q) && q < i + 1 && #[trigger] token_mods(cs@.subrange(p, q)).control;
                    assert(q != i);
                }
                if a.alt {
                    let (p, q) = choose|p: int, q: int|
                        is_token(cs@, p, q) && q < i + 1 && #[trigger] token_mods(cs@.subrange(p, q)).alt;
                    assert(q != i);
                }
                if a.logo {
                    let (p, q) = choose|p: int, q: int|
                        is_token(cs@, p, q) && q < i + 1 && #[trigger] token_mods(cs@.subrange(p, q)).logo;
                    assert(q != i);
                }
            }
        }
        i = i + 1;
    }
    proof {
        lemma_mods_step(cs@, start as int, n as int);
    }
    if start < n {
        let tok = crate::text::copy_range(cs.as_slice(), start, n);
        let t = mods_of_token(tok.as_slice());
        state = state.union(t);
    }
    state
}

/// The value of a run of ASCII decimal digits.
pub open spec fn digits_value(d: Seq<char>) -> nat
    decreases d.len(),
{
    if d.len() == 0 {
        0
    } else {
        digits_value(d.drop_last()) * 10 + ((d.last() as u32) - 48) as nat
    }
}

pub open spec fn all_ascii_digits(d: Seq<char>) -> bool {
    forall|k: int| 0 <= k < d.len() ==> is_ascii_digit(#[trigger] d[k])
}

/// What `u8::from_str` accepts: an optional `+` then one or more ASCII
/// digits whose value fits in a `u8`.
pub open spec fn parse_u8_spec(r: Seq<char>) -> Option<nat> {
    let d = if r.len() > 0 && r[0] == '+' { r.drop_first() } else { r };
    if d.len() > 0 && all_ascii_digits(d) && digits_value(d) <= 255 {
        Some(digits_value(d))
    } else {
        None
    }
}

proof fn lemma_digits_value_monotone(d: Seq<char>, k: int)
    requires
        0 <= k <= d.len(),
    ensures
        digits_value(d.take(k)) <= digits_value(d),
    decreases d.len() - k,
{
    if k < d.len() {
        lemma_digits_value_monotone(d, k + 1);
        assert(d.take(k + 1).drop_last() =~= d.take(k));
    } else {
        assert(d.take(k) =~= d);
    }
}

fn parse_u8(r: &[char]) -> (n: Option<u8>)
    ensures
        match n {
            Some(v) => parse_u8_spec(r@) == Some(v as nat),
            None => parse_u8_spec(r@) is None,
        },
{
    let start: usize = if r.len() > 0 && r[0] == '+' { 1 } else { 0 };
    let ghost d = if r@.len() > 0 && r@[0] == '+' { r@.drop_first() } else { r@ };
    assert(d =~= r@.skip(start as int));
    if start >= r.len() {
        return None;
    }
    let mut acc: u32 = 0;
    let mut i: usize = start;
    while i < r.len()
        invariant
            start <= i <= r@.len(),
            d =~= r@.skip(start as int),
            d == (if r@.len() > 0 && r@[0] == '+' { r@.drop_first() } else { r@ }),
            acc as nat == digits_value(d.take(i - start)),
            acc <= 255,
            all_ascii_digits(d.take(i - start)),
        decreases r@.len() - i,
    {
        let c = r[i];
        if !('0' <= c && c <= '9') {
            assert(d[i - start] == c);
            assert(!all_ascii_digits(d));
            return None;
        }
        let ghost k = i - start;
        assert(d.take(k + 1).drop_last() =~= d.take(k));
        assert(d.take(k + 1).last() == c);
        acc = acc * 10 + ((c as u32) - 48);
        assert(all_ascii_digits(d.take(k + 1))) by {
            assert forall|j: int| 0 <= j < d.take(k + 1).len() implies is_ascii_digit(
                #[trigger] d.take(k + 1)[j],
            ) by {
                if j < k {
                    assert(d.take(k + 1)[j] == d.take(k)[j]);
                }
            }
        }
        if acc > 255 {
            proof {
                lemma_digits_value_monotone(d, k + 1);
            }
            return None;
        }
        i = i + 1;
    }
    assert(d.take(i - start) =~= d);
    Some(acc as u8)
}

/// The action an action name names (alacritty's spellings and aliases);
/// `SelectTab<n>` takes a one-based tab number from 1 to 9.
pub open spec fn parse_action_spec(s: Seq<char>) -> Option<Action> {
    let t = trim(s);
    if t.len() >= 9 && t.take(9) == "SelectTab"@ {
        match parse_u8_spec(t.skip(9)) {
            Some(n) => if 1 <= n && n <= 9 {
                Some(Action::SelectTab(n as u8))
            } else {
                None
            },
            None => None,
        }
    } else if t == "CreateTab"@ || t == "CreateNewTab"@ {
        Some(Action::CreateTab)
    } else if t == "CloseTab"@ {
        Some(Action::CloseTab)
    } else if t == "PrevTab"@ || t == "PreviousTab"@ || t == "SelectPrevTab"@ || t == "SelectPreviousTab"@ {
        Some(Action::PrevTab)
    } else if t == "NextTab"@ || t == "SelectNextTab"@ {
        Some(Action::NextTab)
    } else if t == "Copy"@ {
        Some(Action::Copy)
    } else if t == "Paste"@ {
        Some(Action::Paste)
    } else if t == "ScrollLineUp"@ {
        Some(Action::ScrollLineUp)
    } else if t == "ScrollLineDown"@ {
        Some(Action::ScrollLineDown)
    } else if t == "ScrollPageUp"@ {
        Some(Action::ScrollPageUp)
    } else if t == "ScrollPageDown"@ {
        Some(Action::ScrollPageDown)
    } else if t == "ScrollToTop"@ {
        Some(Action::ScrollToTop)
    } else if t == "ScrollToBottom"@ {
        Some(Action::ScrollToBottom)
    } else if t == "IncreaseFontSize"@ || t == "ZoomIn"@ {
        Some(Action::IncreaseFontSize)
    } else if t == "DecreaseFontSize"@ || t == "ZoomOut"@ {
        Some(Action::DecreaseFontSize)
    } else if t == "ResetFontSize"@ || t == "ZoomReset"@ {
        Some(Action::ResetFontSize)
    } else if t == "ReceiveChar"@ {
        Some(Action::ReceiveChar)
    } else {
        None
    }
}

/// Parses an action name; `None` for unknown names and out-of-range tabs.
pub fn parse_action(s: &str) -> (a: Option<Action>)
    ensures
        a == parse_action_spec(s@),
{
    let cs = chars_of(s);
    let tv = trimmed(&cs);
    let t = tv.as_slice();
    if t.len() >= 9 {
        let head = crate::text::copy_range(t, 0, 9);
        assert(head@ =~= t@.take(9));
        if eq_lit(head.as_slice(), "SelectTab") {
            let rest = crate::text::copy_range(t, 9, t.len());
            assert(rest@ =~= t@.skip(9));
            return match parse_u8(rest.as_slice()) {
                Some(n) => if 1 <= n && n <= 9 {
                    Some(Action::SelectTab(n))
                } else {
                    None
                },
                None => None,
            };
        }
    }
    if eq_lit(t, "CreateTab") || eq_lit(t, "CreateNewTab") {
        Some(Action::CreateTab)
    } else if eq_lit(t, "CloseTab") {
        Some(Action::CloseTab)
    } else if eq_lit(t, "PrevTab") || eq_lit(t, "PreviousTab") || eq_lit(t, "SelectPrevTab") || eq_lit(t, "SelectPreviousTab") {
        Some(Action::PrevTab)
    } else if eq_lit(t, "NextTab") || eq_lit(t, "SelectNextTab") {
        Some(Action::NextTab)
    } else if eq_lit(t, "Copy") {
        Some(Action::Copy)
    } else if eq_lit(t, "Paste") {
        Some(Action::Paste)
    } else if eq_lit(t, "ScrollLineUp") {
        Some(Action::ScrollLineUp)
    } else if eq_lit(t, "ScrollLineDown") {
        Some(Action::ScrollLineDown)
    } else if eq_lit(t, "ScrollPageUp") {
        Some(Action::ScrollPageUp)
    } else if eq_lit(t, "ScrollPageDown") {
        Some(Action::ScrollPageDown)
    } else if eq_lit(t, "ScrollToTop") {
        Some(Action::ScrollToTop)
    } else if eq_lit(t, "ScrollToBottom") {
        Some(Action::ScrollToBottom)
    } else if eq_lit(t, "IncreaseFontSize") || eq_lit(t, "ZoomIn") {
        Some(Action::IncreaseFontSize)
    } else if eq_lit(t, "DecreaseFontSize") || eq_lit(t, "ZoomOut") {
        Some(Action::DecreaseFontSize)
    } else if eq_lit(t, "ResetFontSize") || eq_lit(t, "ZoomReset") {
        Some(Action::ResetFontSize)
    } else if eq_lit(t, "ReceiveChar") {
        Some(Action::ReceiveChar)
    } else {
        None
    }
}

/// Command (Super) alone.
pub open spec fn cmd_mods() -> ModifiersState {
    ModifiersState { logo: true, ..ModifiersState::spec_empty() }
}

/// Shift alone.
pub open spec fn shift_mods() -> ModifiersState {
    ModifiersState { shift: true, ..ModifiersState::spec_empty() }
}

/// The digit key of one-based tab number `n` (1..=9).
pub open spec fn tab_digit_key(n: int) -> KeyCode {
    if n == 1 { KeyCode::Digit1 }
    else if n == 2 { KeyCode::Digit2 }
    else if n == 3 { KeyCode::Digit3 }
    else if n == 4 { KeyCode::Digit4 }
    else if n == 5 { KeyCode::Digit5 }
    else if n == 6 { KeyCode::Digit6 }
    else if n == 7 { KeyCode::Digit7 }
    else if n == 8 { KeyCode::Digit8 }
    else { KeyCode::Digit9 }
}

/// The fixed part of the built-in bindings: Cmd+T/W new/close tab, Cmd+C/V
/// copy/paste, Cmd+Left/Right previous/next tab, Shift+PageUp/PageDown/
/// Home/End scrolling, Cmd+= (with or without Shift) / Cmd+- / Cmd+0 font
/// size.
pub open spec fn fixed_default_bindings() -> Seq<Keybinding> {
    seq![
        Keybinding { key: KeyCode::KeyT, mods: cmd_mods(), action: Action::CreateTab },
        Keybinding { key: KeyCode::KeyW, mods: cmd_mods(), action: Action::CloseTab },
        Keybinding { key: KeyCode::KeyC, mods: cmd_mods(), action: Action::Copy },
        Keybinding { key: KeyCode::KeyV, mods: cmd_mods(), action: Action::Paste },
        Keybinding { key: KeyCode::ArrowLeft, mods: cmd_mods(), action: Action::PrevTab },
        Keybinding { key: KeyCode::ArrowRight, mods: cmd_mods(), action: Action::NextTab },
        Keybinding { key: KeyCode::PageUp, mods: shift_mods(), action: Action::ScrollPageUp },
        Keybinding { key: KeyCode::PageDown, mods: shift_mods(), action: Action::ScrollPageDown },
        Keybinding { key: KeyCode::Home, mods: shift_mods(), action: Action::ScrollToTop },
        Keybinding { key: KeyCode::End, mods: shift_mods(), action: Action::ScrollToBottom },
        Keybinding { key: KeyCode::Equal, mods: cmd_mods(), action: Action::IncreaseFontSize },
        Keybinding { key: KeyCode::Equal, mods: cmd_mods().spec_union(shift_mods()), action: Action::IncreaseFontSize },
        Keybinding { key: KeyCode::Minus, mods: cmd_mods(), action: Action::DecreaseFontSize },
        Keybinding { key: KeyCode::Digit0, mods: cmd_mods(), action: Action::ResetFontSize },
    ]
}

/// The built-in bindings: the fixed ones, then Cmd+1..9 select tab.
pub open spec fn default_bindings() -> Seq<Keybinding> {
    fixed_default_bindings() + Seq::new(9, |i: int| Keybinding { key: tab_digit_key(i + 1), mods: cmd_mods(), action: Action::SelectTab((i + 1) as u8) })
}

/// The built-in bindings (see `default_bindings`).
pub fn defaults() -> (v: Vec<Keybinding>)
    ensures
        v@ == default_bindings(),
{
    let cmd = ModifiersState::logo();
    let shift = ModifiersState::shift();
    let mut v: Vec<Keybinding> = Vec::new();
    v.push(Keybinding { key: KeyCode::KeyT, mods: cmd, action: Action::CreateTab });
    v.push(Keybinding { key: KeyCode::KeyW, mods: cmd, action: Action::CloseTab });
    v.push(Keybinding { key: KeyCode::KeyC, mods: cmd, action: Action::Copy });
    v.push(Keybinding { key: KeyCode::KeyV, mods: cmd, action: Action::Paste });
    v.push(Keybinding { key: KeyCode::ArrowLeft, mods: cmd, action: Action::PrevTab });
    v.push(Keybinding { key: KeyCode::ArrowRight, mods: cmd, action: Action::NextTab });
    v.push(Keybinding { key: KeyCode::PageUp, mods: shift, action: Action::ScrollPageUp });
    v.push(Keybinding { key: KeyCode::PageDown, mods: shift, action: Action::ScrollPageDown });
    v.push(Keybinding { key: KeyCode::Home, mods: shift, action: Action::ScrollToTop });
    v.push(Keybinding { key: KeyCode::End, mods: shift, action: Action::ScrollToBottom });
    v.push(Keybinding { key: KeyCode::Equal, mods: cmd, action: Action::IncreaseFontSize });
    v.push(Keybinding { key: KeyCode::Equal, mods: cmd.union(shift), action: Action::IncreaseFontSize });
    v.push(Keybinding { key: KeyCode::Minus, mods: cmd, action: Action::DecreaseFontSize });
    v.push(Keybinding { key: KeyCode::Digit0, mods: cmd, action: Action::ResetFontSize });
    let ghost fixed = v@;
    assert(fixed =~= fixed_default_bindings());
    let digits = [KeyCode::Digit1, KeyCode::Digit2, KeyCode::Digit3, KeyCode::Digit4, KeyCode::Digit5, KeyCode::Digit6, KeyCode::Digit7, KeyCode::Digit8, KeyCode::Digit9];
    let mut i: usize = 0;
    while i < 9
        invariant
            i <= 9,
            cmd == cmd_mods(),
            fixed == fixed_default_bindings(),
            v@.len() == fixed.len() + i,
            v@.take(fixed.len() as int) == fixed,
            forall|j: int| 0 <= j < 9 ==> digits@[j] == tab_digit_key(j + 1),
            forall|j: int| 0 <= j < i ==> #[trigger] v@[fixed.len() + j] == (Keybinding { key: tab_digit_key(j + 1), mods: cmd_mods(), action: Action::SelectTab((j + 1) as u8) }),
        decreases 9 - i,
    {
        v.push(Keybinding { key: digits[i], mods: cmd, action: Action::SelectTab((i + 1) as u8) });
        assert(v@.take(fixed.len() as int) =~= fixed);
        i = i + 1;
    }
    assert forall|j: int| 0 <= j < v@.len() implies v@[j] == default_bindings()[j] by {
        if j < fixed.len() {
            assert(v@[j] == v@.take(fixed.len() as int)[j]);
        } else {
            assert(v@[fixed.len() + (j - fixed.len())] == default_bindings()[j]);
        }
    }
    assert(v@ =~= default_bindings());
    v
}

/// `b` is triggered by `key` with exactly `mods`.
pub open spec fn triggered_by(b: Keybinding, key: KeyCode, mods: ModifiersState) -> bool {
    b.key == key && b.mods == mods
}

/// The first binding of `s` triggered by (`key`, `mods`).
pub open spec fn find_spec(s: Seq<Keybinding>, key: KeyCode, mods: ModifiersState) -> Option<Keybinding>
    decreases s.len(),
{
    if s.len() == 0 {
        None
    } else if triggered_by(s[0], key, mods) {
        Some(s[0])
    } else {
        find_spec(s.drop_first(), key, mods)
    }
}

/// Some binding of `user` has the same trigger as `d`.
pub open spec fn shadowed(user: Seq<Keybinding>, d: Keybinding) -> bool {
    exists|j: int| 0 <= j < user.len() && triggered_by(user[j], d.key, d.mods)
}

/// The bindings of `defaults`, in order, that no user binding shadows.
pub open spec fn unshadowed(defaults: Seq<Keybinding>, user: Seq<Keybinding>) -> Seq<Keybinding>
    decreases defaults.len(),
{
    if defaults.len() == 0 {
        seq![]
    } else {
        (if shadowed(user, defaults[0]) { seq![] } else { seq![defaults[0]] }) + unshadowed(
            defaults.drop_first(),
            user,
        )
    }
}

/// `user` layered over `defaults`: the defaults no user binding shadows,
/// then the user bindings.
pub open spec fn merge_spec(user: Seq<Keybinding>, defaults: Seq<Keybinding>) -> Seq<Keybinding> {
    unshadowed(defaults, user) + user
}

proof fn lemma_unshadowed_push(d: Seq<Keybinding>, x: Keybinding, user: Seq<Keybinding>)
    ensures
        unshadowed(d.push(x), user) == unshadowed(d, user) + (if shadowed(user, x) { seq![] } else { seq![x] }),
    decreases d.len(),
{
    if d.len() == 0 {
        assert(d.push(x).drop_first() =~= Seq::<Keybinding>::empty());
        assert(unshadowed(Seq::<Keybinding>::empty(), user) == Seq::<Keybinding>::empty());
        assert(d =~= Seq::<Keybinding>::empty());
        assert(unshadowed(d.push(x), user) =~= (if shadowed(user, x) { seq![] } else { seq![x] }));
    } else {
        lemma_unshadowed_push(d.drop_first(), x, user);
        assert(d.push(x).drop_first() =~= d.drop_first().push(x));
        assert(unshadowed(d.push(x), user) =~= unshadowed(d, user) + (if shadowed(user, x) { seq![] } else { seq![x] }));
    }
}

fn is_shadowed(user: &Vec<Keybinding>, d: &Keybinding) -> (b: bool)
    ensures
        b == shadowed(user@, *d),
{
    let mut j: usize = 0;
    while j < user.len()
        invariant
            j <= user@.len(),
            forall|k: int| 0 <= k < j ==> !triggered_by(user@[k], d.key, d.mods),
        decreases user@.len() - j,
    {
        if user[j].key == d.key && user[j].mods == d.mods {
            return true;
        }
        j = j + 1;
    }
    false
}

/// Layers `user` over `defaults`: every default whose (key, mods) is also
/// in `user` is dropped, then `user` is appended.
pub fn merge(user: Vec<Keybinding>, defaults: Vec<Keybinding>) -> (merged: Vec<Keybinding>)
    ensures
        merged@ == merge_spec(user@, defaults@),
{
    let mut out: Vec<Keybinding> = Vec::new();
    let ghost all = defaults@;
    for d in it: defaults
        invariant
            it.seq() == all,
            out@ == unshadowed(all.take(it.index() as int), user@),
    {
        let ghost k = it.index() as int;
        proof {
            lemma_unshadowed_push(all.take(k), d, user@);
            assert(all.take(k).push(d) =~= all.take(k + 1));
        }
        if !is_shadowed(&user, &d) {
            out.push(d);
        }
    }
    assert(all.take(all.len() as int) =~= all);
    let mut user = user;
    let ghost u = user@;
    out.append(&mut user);
    assert(out@ =~= merge_spec(u, all));
    out
}

/// The first binding triggered by (`key`, `mods`), if any.
pub fn find(bindings: &[Keybinding], key: KeyCode, mods: ModifiersState) -> (found: Option<&Keybinding>)
    ensures
        match found {
            Some(b) => find_spec(bindings@, key, mods) == Some(*b),
            None => find_spec(bindings@, key, mods) is None,
        },
{
    let mut i: usize = 0;
    assert(bindings@.skip(0) =~= bindings@);
    while i < bindings.len()
        invariant
            i <= bindings@.len(),
            find_spec(bindings@, key, mods) == find_spec(bindings@.skip(i as int), key, mods),
        decreases bindings@.len() - i,
    {
        if bindings[i].key == key && bindings[i].mods == mods {
            return Some(&bindings[i]);
        }
        assert(bindings@.skip(i as int).drop_first() =~= bindings@.skip(i + 1));
        i = i + 1;
    }
    None
}

proof fn lemma_find_concat(a: Seq<Keybinding>, b: Seq<Keybinding>, key: KeyCode, mods: ModifiersState)
    ensures
        find_spec(a + b, key, mods) == (if find_spec(a, key, mods) is Some {
            find_spec(a, key, mods)
        } else {
            find_spec(b, key, mods)
        }),
    decreases a.len(),
{
    if a.len() == 0 {
        assert(a + b =~= b);
    } else {
        lemma_find_concat(a.drop_first(), b, key, mods);
        assert((a + b).drop_first() =~= a.drop_first() + b);
    }
}

proof fn lemma_find_single(x: Keybinding, key: KeyCode, mods: ModifiersState)
    ensures
        find_spec(seq![x], key, mods) == (if triggered_by(x, key, mods) { Some(x) } else { None }),
{
    assert(seq![x].drop_first() =~= Seq::<Keybinding>::empty());
    assert(find_spec(Seq::<Keybinding>::empty(), key, mods) is None);
}

proof fn lemma_find_unshadowed(d: Seq<Keybinding>, user: Seq<Keybinding>, key: KeyCode, mods: ModifiersState)
    ensures
        (exists|j: int| 0 <= j < user.len() && triggered_by(user[j], key, mods)) ==> find_spec(unshadowed(d, user), key, mods) is None,
        !(exists|j: int| 0 <= j < user.len() && triggered_by(user[j], key, mods)) ==> find_spec(unshadowed(d, user), key, mods) == find_spec(d, key, mods),
    decreases d.len(),
{
    if d.len() == 0 {
        assert(unshadowed(d, user) == Seq::<Keybinding>::empty());
    } else {
        lemma_find_unshadowed(d.drop_first(), user, key, mods);
        let head: Seq<Keybinding> = if shadowed(user, d[0]) { seq![] } else { seq![d[0]] };
        let rest = unshadowed(d.drop_first(), user);
        assert(unshadowed(d, user) == head + rest);
        lemma_find_concat(head, rest, key, mods);
        lemma_find_single(d[0], key, mods);
        assert(find_spec(Seq::<Keybinding>::empty(), key, mods) is None);
        if exists|j: int| 0 <= j < user.len() && triggered_by(user[j], key, mods) {
            let j = choose|j: int| 0 <= j < user.len() && triggered_by(user[j], key, mods);
            if triggered_by(d[0], key, mods) {
                assert(triggered_by(user[j], d[0].key, d[0].mods));
                assert(shadowed(user, d[0]));
            }
        } else {
            if shadowed(user, d[0]) {
                let j = choose|j: int| 0 <= j < user.len() && triggered_by(user[j], d[0].key, d[0].mods);
                assert(!triggered_by(d[0], key, mods));
            }
        }
    }
}

/// A user binding wins: for a trigger the user bound, lookup in the merged
/// table finds the user's (first) binding for it, never a default.
pub proof fn law_merge_user_binding_wins(user: Seq<Keybinding>, defaults: Seq<Keybinding>, key: KeyCode, mods: ModifiersState)
    requires
        find_spec(user, key, mods) is Some,
    ensures
        find_spec(merge_spec(user, defaults), key, mods) == find_spec(user, key, mods),
{
    lemma_find_some_witness(user, key, mods);
    lemma_find_unshadowed(defaults, user, key, mods);
    lemma_find_concat(unshadowed(defaults, user), user, key, mods);
}

/// A default the user did not rebind still answers lookups for its trigger.
pub proof fn law_merge_keeps_other_defaults(user: Seq<Keybinding>, defaults: Seq<Keybinding>, key: KeyCode, mods: ModifiersState)
    requires
        find_spec(user, key, mods) is None,
    ensures
        find_spec(merge_spec(user, defaults), key, mods) == find_spec(defaults, key, mods),
{
    lemma_find_none_all(user, key, mods);
    lemma_find_unshadowed(defaults, user, key, mods);
    lemma_find_concat(unshadowed(defaults, user), user, key, mods);
}

/// A rebound default is replaced, not duplicated: every binding of the
/// merged table that the user's bindings shadow is one of the user's own.
pub proof fn law_merge_drops_shadowed_defaults(user: Seq<Keybinding>, defaults: Seq<Keybinding>, i: int)
    requires
        0 <= i < merge_spec(user, defaults).len(),
        shadowed(user, merge_spec(user, defaults)[i]),
    ensures
        i >= merge_spec(user, defaults).len() - user.len(),
        merge_spec(user, defaults)[i] == user[i - (merge_spec(user, defaults).len() - user.len())],
{
    lemma_unshadowed_not_shadowed(defaults, user);
}

proof fn lemma_unshadowed_not_shadowed(d: Seq<Keybinding>, user: Seq<Keybinding>)
    ensures
        forall|i: int| 0 <= i < unshadowed(d, user).len() ==> !shadowed(user, #[trigger] unshadowed(d, user)[i]),
    decreases d.len(),
{
    if d.len() > 0 {
        lemma_unshadowed_not_shadowed(d.drop_first(), user);
        let head: Seq<Keybinding> = if shadowed(user, d[0]) { seq![] } else { seq![d[0]] };
        let rest = unshadowed(d.drop_first(), user);
        assert forall|i: int| 0 <= i < (head + rest).len() implies !shadowed(user, #[trigger] (head + rest)[i]) by {
            if i >= head.len() {
                assert((head + rest)[i] == rest[i - head.len()]);
            }
        }
    }
}

proof fn lemma_find_some_witness(s: Seq<Keybinding>, key: KeyCode, mods: ModifiersState)
    requires
        find_spec(s, key, mods) is Some,
    ensures
        exists|j: int| 0 <= j < s.len() && triggered_by(s[j], key, mods),
    decreases s.len(),
{
    if !triggered_by(s[0], key, mods) {
        lemma_find_some_witness(s.drop_first(), key, mods);
        let j = choose|j: int| 0 <= j < s.drop_first().len() && triggered_by(s.drop_first()[j], key, mods);
        assert(triggered_by(s[j + 1], key, mods));
    } else {
        assert(triggered_by(s[0], key, mods));
    }
}

proof fn lemma_find_none_all(s: Seq<Keybinding>, key: KeyCode, mods: ModifiersState)
    requires
        find_spec(s, key, mods) is None,
    ensures
        !(exists|j: int| 0 <= j < s.len() && triggered_by(s[j], key, mods)),
    decreases s.len(),
{
    if s.len() > 0 {
        lemma_find_none_all(s.drop_first(), key, mods);
        assert forall|j: int| 0 <= j < s.len() implies !triggered_by(s[j], key, mods) by {
            if j > 0 {
                assert(s[j] == s.drop_first()[j - 1]);
            }
        }
    }
}

} // verus!
