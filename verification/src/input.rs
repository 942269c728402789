//! Translation of key, mouse and paste input into the byte sequences a
//! terminal application expects on its PTY: printable text, named editor
//! keys (plain, DECCKM application-cursor and xterm modifier-encoded forms),
//! Ctrl-letter control bytes, Alt-as-Meta, SGR (1006) mouse reports and
//! paste normalization.

use vstd::prelude::*;
use vstd::utf8::*;
use crate::keys::{Key, ModifiersState, NamedKey};
use crate::text::{dec, push_decimal};

verus! {

#[derive(Clone, Copy)]
pub struct TermKeyMode {
    /// DECCKM: cursor keys send SS3 (`ESC O`) rather than CSI (`ESC [`).
    pub app_cursor: bool,
}

/// `ESC`.
pub open spec fn esc() -> u8 {
    0x1bu8
}

/// The xterm modifier parameter: 1 + (shift | alt << 1 | ctrl << 2).
pub open spec fn modifier_param(mods: ModifiersState) -> nat {
    1 + (if mods.shift { 1nat } else { 0nat }) + (if mods.alt { 2nat } else { 0nat }) + (if mods.control {
        4nat
    } else {
        0nat
    })
}

/// Final letter of the keys xterm reports as `CSI 1;m <letter>` when modified.
pub open spec fn letter_key_final(named: NamedKey) -> Option<u8> {
    match named {
        NamedKey::ArrowUp => Some(0x41u8),
        NamedKey::ArrowDown => Some(0x42u8),
        NamedKey::ArrowRight => Some(0x43u8),
        NamedKey::ArrowLeft => Some(0x44u8),
        NamedKey::Home => Some(0x48u8),
        NamedKey::End => Some(0x46u8),
        NamedKey::F1 => Some(0x50u8),
        NamedKey::F2 => Some(0x51u8),
        NamedKey::F3 => Some(0x52u8),
        NamedKey::F4 => Some(0x53u8),
        _ => None,
    }
}

/// Parameter of the keys reported as `CSI <n> ~`.
pub open spec fn tilde_key_number(named: NamedKey) -> Option<nat> {
    match named {
        NamedKey::Insert => Some(2nat),
        NamedKey::Delete => Some(3nat),
        NamedKey::PageUp => Some(5nat),
        NamedKey::PageDown => Some(6nat),
        NamedKey::F5 => Some(15nat),
        NamedKey::F6 => Some(17nat),
        NamedKey::F7 => Some(18nat),
        NamedKey::F8 => Some(19nat),
        NamedKey::F9 => Some(20nat),
        NamedKey::F10 => Some(21nat),
        NamedKey::F11 => Some(23nat),
        NamedKey::F12 => Some(24nat),
        _ => None,
    }
}

/// Whether DECCKM switches this key from CSI to SS3.
pub open spec fn is_cursor_key(named: NamedKey) -> bool {
    match named {
        NamedKey::ArrowUp | NamedKey::ArrowDown | NamedKey::ArrowRight | NamedKey::ArrowLeft
        | NamedKey::Home | NamedKey::End => true,
        _ => false,
    }
}

/// `CSI <n> ; <m> ~` when `m` is given, `CSI <n> ~` otherwise.
pub open spec fn csi_tilde(n: nat, m: Option<nat>) -> Seq<u8> {
    match m {
        Some(m) => seq![esc(), 0x5bu8] + dec(n) + seq![0x3bu8] + dec(m) + seq![0x7eu8],
        None => seq![esc(), 0x5bu8] + dec(n) + seq![0x7eu8],
    }
}

/// The xterm modifier-encoded sequence for a named key: `CSI 1 ; <m> X`
/// for the cursor keys and F1-F4, `CSI <n> ; <m> ~` for the editing keys
/// and F5-F12. `None` when no Shift/Alt/Ctrl is held, and for the keys
/// that have neither form (Enter, Tab, Backspace, Escape, Space, ...),
/// which send their plain sequence, with `ESC` in front under Alt.
pub open spec fn named_modified_seq(named: NamedKey, mods: ModifiersState) -> Option<Seq<u8>> {
    if !mods.shift && !mods.alt && !mods.control {
        None
    } else {
        match letter_key_final(named) {
            Some(l) => Some(
                seq![esc(), 0x5bu8, 0x31u8, 0x3bu8] + dec(modifier_param(mods)) + seq![l],
            ),
            None => match tilde_key_number(named) {
                Some(n) => Some(csi_tilde(n, Some(modifier_param(mods)))),
                None => None,
            },
        }
    }
}

/// The unmodified sequence for a named key.
pub open spec fn named_plain_seq(named: NamedKey, app_cursor: bool) -> Option<Seq<u8>> {
    match named {
        NamedKey::Enter => Some(seq![0x0du8]),
        NamedKey::Tab => Some(seq![0x09u8]),
        NamedKey::Backspace => Some(seq![0x7fu8]),
        NamedKey::Escape => Some(seq![esc()]),
        NamedKey::Space => Some(seq![0x20u8]),
        _ => if is_cursor_key(named) {
            Some(
                seq![
                    esc(),
                    if app_cursor { 0x4fu8 } else { 0x5bu8 },
                    letter_key_final(named).unwrap(),
                ],
            )
        } else if letter_key_final(named) is Some {
            // F1..F4 are always SS3.
            Some(seq![esc(), 0x4fu8, letter_key_final(named).unwrap()])
        } else {
            match tilde_key_number(named) {
                Some(n) => Some(csi_tilde(n, None)),
                None => None,
            }
        },
    }
}

/// Alt acts as Meta: the bytes are prefixed with `ESC`.
pub open spec fn alt_prefixed(bytes: Seq<u8>, mods: ModifiersState) -> Seq<u8> {
    if mods.alt {
        seq![esc()] + bytes
    } else {
        bytes
    }
}

/// The control byte Ctrl+`c` sends, for a single ASCII character.
pub open spec fn control_byte(c: char) -> Option<u8> {
    if '@' <= c && c <= '_' {
        Some((c as u32 - 0x40) as u8)
    } else if 'a' <= c && c <= 'z' {
        Some((c as u32 - 0x60) as u8)
    } else if c == ' ' {
        Some(0u8)
    } else if c == '?' {
        Some(0x7fu8)
    } else {
        None
    }
}

/// The text a character key contributes: the layout text when non-empty,
/// else the key's own character string; `None` for other keys.
pub open spec fn key_text(key: Key, text: Option<Seq<char>>) -> Option<Seq<char>> {
    match text {
        Some(s) if s.len() > 0 => Some(s),
        _ => match key {
            Key::Character(s) => Some(s@),
            _ => None,
        },
    }
}

/// What the PTY receives for a key press, or `None` when the key sends nothing.
pub open spec fn encode_key_spec(
    key: Key,
    text: Option<Seq<char>>,
    mods: ModifiersState,
    mode: TermKeyMode,
) -> Option<Seq<u8>> {
    let named_result: Option<Seq<u8>> = match key {
        Key::Named(named) => match named_modified_seq(named, mods) {
            Some(seq) => Some(seq),
            None => match named_plain_seq(named, mode.app_cursor) {
                Some(seq) => Some(alt_prefixed(seq, mods)),
                None => None,
            },
        },
        _ => None,
    };
    if named_result is Some {
        named_result
    } else {
        match key_text(key, text) {
            None => None,
            Some(chars) => if mods.control {
                if chars.len() == 1 && (chars[0] as u32) < 0x80 && control_byte(chars[0]) is Some {
                    Some(alt_prefixed(seq![control_byte(chars[0]).unwrap()], mods))
                } else {
                    None
                }
            } else {
                Some(alt_prefixed(encode_utf8(chars), mods))
            },
        }
    }
}

fn prefix_alt(bytes: Vec<u8>, mods: ModifiersState) -> (out: Vec<u8>)
    ensures
        out@ == alt_prefixed(bytes@, mods),
{
    let ghost before = bytes@;
    let mut bytes = bytes;
    if mods.alt {
        bytes.insert(0, 0x1b);
        assert(bytes@ =~= seq![esc()] + before);
    }
    bytes
}

fn letter_final(named: NamedKey) -> (l: Option<u8>)
    ensures
        l == letter_key_final(named),
{
    match named {
        NamedKey::ArrowUp => Some(0x41u8),
        NamedKey::ArrowDown => Some(0x42u8),
        NamedKey::ArrowRight => Some(0x43u8),
        NamedKey::ArrowLeft => Some(0x44u8),
        NamedKey::Home => Some(0x48u8),
        NamedKey::End => Some(0x46u8),
        NamedKey::F1 => Some(0x50u8),
        NamedKey::F2 => Some(0x51u8),
        NamedKey::F3 => Some(0x52u8),
        NamedKey::F4 => Some(0x53u8),
        _ => None,
    }
}

fn tilde_number(named: NamedKey) -> (n: Option<usize>)
    ensures
        match n {
            Some(n) => tilde_key_number(named) == Some(n as nat),
            None => tilde_key_number(named) is None,
        },
{
    match named {
        NamedKey::Insert => Some(2),
        NamedKey::Delete => Some(3),
        NamedKey::PageUp => Some(5),
        NamedKey::PageDown => Some(6),
        NamedKey::F5 => Some(15),
        NamedKey::F6 => Some(17),
        NamedKey::F7 => Some(18),
        NamedKey::F8 => Some(19),
        NamedKey::F9 => Some(20),
        NamedKey::F10 => Some(21),
        NamedKey::F11 => Some(23),
        NamedKey::F12 => Some(24),
        _ => None,
    }
}

fn encode_named_modified(named: NamedKey, mods: ModifiersState) -> (out: Option<Vec<u8>>)
    ensures
        match out {
            Some(v) => named_modified_seq(named, mods) == Some(v@),
            None => named_modified_seq(named, mods) is None,
        },
{
    if !mods.shift && !mods.alt && !mods.control {
        return None;
    }
    let mut m: usize = 1;
    if mods.shift {
        m = m + 1;
    }
    if mods.alt {
        m = m + 2;
    }
    if mods.control {
        m = m + 4;
    }
    assert(m as nat == modifier_param(mods));
    match letter_final(named) {
        Some(l) => {
            let mut v: Vec<u8> = vec![0x1b, 0x5b, 0x31, 0x3b];
            push_decimal(&mut v, m);
            v.push(l);
            assert(v@ =~= seq![esc(), 0x5bu8, 0x31u8, 0x3bu8] + dec(modifier_param(mods)) + seq![l]);
            Some(v)
        },
        None => match tilde_number(named) {
            Some(n) => {
                let mut v: Vec<u8> = vec![0x1b, 0x5b];
                push_decimal(&mut v, n);
                v.push(0x3b);
                push_decimal(&mut v, m);
                v.push(0x7e);
                assert(v@ =~= csi_tilde(n as nat, Some(modifier_param(mods))));
                Some(v)
            },
            None => None,
        },
    }
}

fn encode_named(named: NamedKey, mode: TermKeyMode) -> (out: Option<Vec<u8>>)
    ensures
        match out {
            Some(v) => named_plain_seq(named, mode.app_cursor) == Some(v@),
            None => named_plain_seq(named, mode.app_cursor) is None,
        },
{
    let app = mode.app_cursor;
    match named {
        NamedKey::Enter => {
            let v: Vec<u8> = vec![0x0d];
            assert(v@ =~= seq![0x0du8]);
            Some(v)
        },
        NamedKey::Tab => {
            let v: Vec<u8> = vec![0x09];
            assert(v@ =~= seq![0x09u8]);
            Some(v)
        },
        NamedKey::Backspace => {
            let v: Vec<u8> = vec![0x7f];
            assert(v@ =~= seq![0x7fu8]);
            Some(v)
        },
        NamedKey::Escape => {
            let v: Vec<u8> = vec![0x1b];
            assert(v@ =~= seq![esc()]);
            Some(v)
        },
        NamedKey::Space => {
            let v: Vec<u8> = vec![0x20];
            assert(v@ =~= seq![0x20u8]);
            Some(v)
        },
        NamedKey::ArrowUp | NamedKey::ArrowDown | NamedKey::ArrowRight | NamedKey::ArrowLeft
        | NamedKey::Home | NamedKey::End => {
            let l = match letter_final(named) {
                Some(l) => l,
                None => 0,
            };
            let v: Vec<u8> = vec![0x1b, if app { 0x4f } else { 0x5b }, l];
            assert(v@ =~= seq![esc(), if app { 0x4fu8 } else { 0x5bu8 }, letter_key_final(named).unwrap()]);
            Some(v)
        },
        NamedKey::F1 | NamedKey::F2 | NamedKey::F3 | NamedKey::F4 => {
            let l = match letter_final(named) {
                Some(l) => l,
                None => 0,
            };
            let v: Vec<u8> = vec![0x1b, 0x4f, l];
            assert(v@ =~= seq![esc(), 0x4fu8, letter_key_final(named).unwrap()]);
            Some(v)
        },
        _ => match tilde_number(named) {
            Some(n) => {
                let mut v: Vec<u8> = vec![0x1b, 0x5b];
                push_decimal(&mut v, n);
                v.push(0x7e);
                assert(v@ =~= csi_tilde(n as nat, None));
                Some(v)
            },
            None => None,
        },
    }
}

fn control_byte_of(c: char) -> (b: Option<u8>)
    ensures
        b == control_byte(c),
{
    if '@' <= c && c <= '_' {
        Some((c as u32 - 0x40) as u8)
    } else if 'a' <= c && c <= 'z' {
        Some((c as u32 - 0x60) as u8)
    } else if c == ' ' {
        Some(0u8)
    } else if c == '?' {
        Some(0x7fu8)
    } else {
        None
    }
}

/// The bytes to write to the PTY for a key press. `text` is the text the
/// layout produced (it accounts for Shift and dead keys); `None` means the
/// key sends nothing.
pub fn encode_key(logical_key: &Key, text: Option<&str>, mods: ModifiersState, term_mode: TermKeyMode) -> (out: Option<Vec<u8>>)
    ensures
        match out {
            Some(v) => encode_key_spec(*logical_key, match text {
                Some(s) => Some(s@),
                None => None,
            }, mods, term_mode) == Some(v@),
            None => encode_key_spec(*logical_key, match text {
                Some(s) => Some(s@),
                None => None,
            }, mods, term_mode) is None,
        },
{
    if let Key::Named(named) = logical_key {
        // The modifier-encoded form takes precedence over the bare sequence.
        if let Some(seq) = encode_named_modified(*named, mods) {
            return Some(seq);
        }
        if let Some(seq) = encode_named(*named, term_mode) {
            return Some(prefix_alt(seq, mods));
        }
    }
    let chars: &str = match text {
        Some(s) if !s.is_empty() => s,
        _ => match logical_key {
            Key::Character(s) => s.as_str(),
            _ => return None,
        },
    };
    if mods.control {
        // Ctrl-letter: only meaningful for a single ASCII character.
        let cs = crate::text::chars_of(chars);
        if cs.len() == 1 && (cs[0] as u32) < 0x80 {
            match control_byte_of(cs[0]) {
                Some(b) => {
                    let v: Vec<u8> = vec![b];
                    assert(v@ =~= seq![control_byte(cs@[0]).unwrap()]);
                    return Some(prefix_alt(v, mods));
                },
                None => return None,
            }
        }
        return None;
    }
    let bytes = chars.as_bytes_vec();
    Some(prefix_alt(bytes, mods))
}

/// One of the buttons the terminal reports; wheel notches are buttons too.
#[derive(Clone, Copy, Debug, PartialEq, Eq, Structural)]
pub enum MouseButton {
    Left,
    Middle,
    Right,
    /// Wheel up / scroll backward.
    WheelUp,
    /// Wheel down / scroll forward.
    WheelDown,
}

#[derive(Clone, Copy, Debug, PartialEq, Eq, Structural)]
pub enum MouseAction {
    Press,
    Release,
    /// Movement with a button held (motion bit set).
    Motion,
}

/// The SGR button code: base button, +32 for motion, +8 for Alt, +16 for Ctrl.
/// Shift is deliberately not encoded.
pub open spec fn sgr_button_code(button: MouseButton, action: MouseAction, mods: ModifiersState) -> nat {
    (match button {
        MouseButton::Left => 0nat,
        MouseButton::Middle => 1nat,
        MouseButton::Right => 2nat,
        MouseButton::WheelUp => 64nat,
        MouseButton::WheelDown => 65nat,
    }) + (if action == MouseAction::Motion { 32nat } else { 0nat }) + (if mods.alt { 8nat } else { 0nat })
        + (if mods.control { 16nat } else { 0nat })
}

/// A 0-based cell index as the 1-based SGR coordinate, capped at `u16::MAX`.
pub open spec fn sgr_coordinate(i: usize) -> nat {
    if i + 1 > 65535 { 65535nat } else { (i + 1) as nat }
}

/// `CSI < Cb ; Cx ; Cy M` (press, motion) or `... m` (release).
pub open spec fn mouse_sgr_spec(button: MouseButton, action: MouseAction, col: usize, row: usize, mods: ModifiersState) -> Seq<u8> {
    seq![esc(), 0x5bu8, 0x3cu8] + dec(sgr_button_code(button, action, mods)) + seq![0x3bu8] + dec(
        sgr_coordinate(col),
    ) + seq![0x3bu8] + dec(sgr_coordinate(row)) + seq![
        if action == MouseAction::Release { 0x6du8 } else { 0x4du8 },
    ]
}

/// Encodes a mouse event in xterm's SGR (1006) format. `col`/`row` are
/// 0-based grid cells.
fn sgr_code(button: MouseButton, action: MouseAction, mods: ModifiersState) -> (n: usize)
    ensures
        n as nat == sgr_button_code(button, action, mods),
        n <= 121,
{
    let base: usize = match button {
        MouseButton::Left => 0,
        MouseButton::Middle => 1,
        MouseButton::Right => 2,
        MouseButton::WheelUp => 64,
        MouseButton::WheelDown => 65,
    };
    let motion: usize = if action == MouseAction::Motion { 32 } else { 0 };
    let alt: usize = if mods.alt { 8 } else { 0 };
    let ctrl: usize = if mods.control { 16 } else { 0 };
    base + motion + alt + ctrl
}

fn sgr_coord(i: usize) -> (n: usize)
    ensures
        n as nat == sgr_coordinate(i),
{
    if i.saturating_add(1) > 65535 {
        65535
    } else {
        i + 1
    }
}

/// Encodes a mouse event in xterm's SGR (1006) format. `col`/`row` are
/// 0-based grid cells.
pub fn encode_mouse_sgr(button: MouseButton, action: MouseAction, col: usize, row: usize, mods: ModifiersState) -> (out: Vec<u8>)
    ensures
        out@ == mouse_sgr_spec(button, action, col, row, mods),
{
    let cb = sgr_code(button, action, mods);
    let cx = sgr_coord(col);
    let cy = sgr_coord(row);
    let trailer: u8 = if action == MouseAction::Release { 0x6d } else { 0x4d };
    let mut v: Vec<u8> = vec![0x1b, 0x5b, 0x3c];
    let ghost v0 = v@;
    push_decimal(&mut v, cb);
    let ghost v1 = v@;
    v.push(0x3b);
    let ghost v2 = v@;
    push_decimal(&mut v, cx);
    let ghost v3 = v@;
    v.push(0x3b);
    let ghost v4 = v@;
    push_decimal(&mut v, cy);
    let ghost v5 = v@;
    v.push(trailer);
    proof {
        assert(v0 =~= seq![esc(), 0x5bu8, 0x3cu8]);
        assert(v2 =~= v1 + seq![0x3bu8]);
        assert(v4 =~= v3 + seq![0x3bu8]);
        assert(v@ =~= v5 + seq![trailer]);
        assert(v@ =~= seq![esc(), 0x5bu8, 0x3cu8] + dec(cb as nat) + seq![0x3bu8] + dec(cx as nat)
            + seq![0x3bu8] + dec(cy as nat) + seq![trailer]);
    }
    v
}

/// `s` with every non-overlapping occurrence of `pat`, scanned left to
/// right, replaced by `rep` (what `str::replace` computes).
pub open spec fn replace_all(s: Seq<char>, pat: Seq<char>, rep: Seq<char>) -> Seq<char>
    decreases s.len(),
{
    if s.len() == 0 {
        s
    } else if pat.len() > 0 && pat.len() <= s.len() && s.take(pat.len() as int) == pat {
        rep + replace_all(s.skip(pat.len() as int), pat, rep)
    } else {
        seq![s[0]] + replace_all(s.drop_first(), pat, rep)
    }
}

/// The bracketed-paste end marker `ESC [ 2 0 1 ~`.
pub open spec fn paste_end_marker() -> Seq<char> {
    seq!['\x1b', '[', '2', '0', '1', '~']
}

/// Paste text with CRLF and LF turned into CR.
pub open spec fn line_normalized(s: Seq<char>) -> Seq<char> {
    replace_all(replace_all(s, seq!['\r', '\n'], seq!['\r']), seq!['\n'], seq!['\r'])
}

/// With Shift, Alt or Ctrl held, every cursor, editing and function key
/// is sent in its modifier-encoded form; only without them is its plain
/// sequence used.
pub proof fn law_modified_named_keys_encoded(named: NamedKey, mods: ModifiersState)
    requires
        mods.shift || mods.alt || mods.control,
        letter_key_final(named) is Some || tilde_key_number(named) is Some,
    ensures
        named_modified_seq(named, mods) is Some,
{
}

/// The cursor keys and F1-F4 end in their own final byte whatever the
/// modifiers and cursor mode: Up `A`, Down `B`, Right `C`, Left `D`,
/// Home `H`, End `F`, F1-F4 `P` `Q` `R` `S` (xterm's `CSI`/`SS3` forms).
pub proof fn law_cursor_keys_final_byte(text: Option<Seq<char>>, mods: ModifiersState, mode: TermKeyMode)
    ensures
        encode_key_spec(Key::Named(NamedKey::ArrowUp), text, mods, mode) matches Some(b) && b.len() >= 3 && b.last() == 0x41u8,
        encode_key_spec(Key::Named(NamedKey::ArrowDown), text, mods, mode) matches Some(b) && b.len() >= 3 && b.last() == 0x42u8,
        encode_key_spec(Key::Named(NamedKey::ArrowRight), text, mods, mode) matches Some(b) && b.len() >= 3 && b.last() == 0x43u8,
        encode_key_spec(Key::Named(NamedKey::ArrowLeft), text, mods, mode) matches Some(b) && b.len() >= 3 && b.last() == 0x44u8,
        encode_key_spec(Key::Named(NamedKey::Home), text, mods, mode) matches Some(b) && b.len() >= 3 && b.last() == 0x48u8,
        encode_key_spec(Key::Named(NamedKey::End), text, mods, mode) matches Some(b) && b.len() >= 3 && b.last() == 0x46u8,
        encode_key_spec(Key::Named(NamedKey::F1), text, mods, mode) matches Some(b) && b.len() >= 3 && b.last() == 0x50u8,
        encode_key_spec(Key::Named(NamedKey::F2), text, mods, mode) matches Some(b) && b.len() >= 3 && b.last() == 0x51u8,
        encode_key_spec(Key::Named(NamedKey::F3), text, mods, mode) matches Some(b) && b.len() >= 3 && b.last() == 0x52u8,
        encode_key_spec(Key::Named(NamedKey::F4), text, mods, mode) matches Some(b) && b.len() >= 3 && b.last() == 0x53u8,
{
}

/// Unmodified, the cursor keys are `ESC [ X`, or `ESC O X` in application
/// cursor mode (DECCKM); F1-F4 are always `ESC O P`..`ESC O S`.
pub proof fn law_plain_cursor_keys(text: Option<Seq<char>>, mode: TermKeyMode, intro: u8)
    requires
        intro == (if mode.app_cursor { 0x4fu8 } else { 0x5bu8 }),
    ensures
        encode_key_spec(Key::Named(NamedKey::ArrowUp), text, ModifiersState::spec_empty(), mode) == Some(seq![0x1bu8, intro, 0x41u8]),
        encode_key_spec(Key::Named(NamedKey::ArrowDown), text, ModifiersState::spec_empty(), mode) == Some(seq![0x1bu8, intro, 0x42u8]),
        encode_key_spec(Key::Named(NamedKey::ArrowRight), text, ModifiersState::spec_empty(), mode) == Some(seq![0x1bu8, intro, 0x43u8]),
        encode_key_spec(Key::Named(NamedKey::ArrowLeft), text, ModifiersState::spec_empty(), mode) == Some(seq![0x1bu8, intro, 0x44u8]),
        encode_key_spec(Key::Named(NamedKey::Home), text, ModifiersState::spec_empty(), mode) == Some(seq![0x1bu8, intro, 0x48u8]),
        encode_key_spec(Key::Named(NamedKey::End), text, ModifiersState::spec_empty(), mode) == Some(seq![0x1bu8, intro, 0x46u8]),
        encode_key_spec(Key::Named(NamedKey::F1), text, ModifiersState::spec_empty(), mode) == Some(seq![0x1bu8, 0x4fu8, 0x50u8]),
        encode_key_spec(Key::Named(NamedKey::F2), text, ModifiersState::spec_empty(), mode) == Some(seq![0x1bu8, 0x4fu8, 0x51u8]),
        encode_key_spec(Key::Named(NamedKey::F3), text, ModifiersState::spec_empty(), mode) == Some(seq![0x1bu8, 0x4fu8, 0x52u8]),
        encode_key_spec(Key::Named(NamedKey::F4), text, ModifiersState::spec_empty(), mode) == Some(seq![0x1bu8, 0x4fu8, 0x53u8]),
{
}

/// Enter, Tab, Backspace, Escape and Space send CR, HT, DEL, ESC and SP
/// under any modifiers, with `ESC` in front when Alt is held.
pub proof fn law_character_keys(text: Option<Seq<char>>, mods: ModifiersState, mode: TermKeyMode)
    ensures
        encode_key_spec(Key::Named(NamedKey::Enter), text, mods, mode) == Some(if mods.alt { seq![0x1bu8, 0x0du8] } else { seq![0x0du8] }),
        encode_key_spec(Key::Named(NamedKey::Tab), text, mods, mode) == Some(if mods.alt { seq![0x1bu8, 0x09u8] } else { seq![0x09u8] }),
        encode_key_spec(Key::Named(NamedKey::Backspace), text, mods, mode) == Some(if mods.alt { seq![0x1bu8, 0x7fu8] } else { seq![0x7fu8] }),
        encode_key_spec(Key::Named(NamedKey::Escape), text, mods, mode) == Some(if mods.alt { seq![0x1bu8, 0x1bu8] } else { seq![0x1bu8] }),
        encode_key_spec(Key::Named(NamedKey::Space), text, mods, mode) == Some(if mods.alt { seq![0x1bu8, 0x20u8] } else { seq![0x20u8] }),
{
}

/// The editing keys and F5-F12 are `CSI n ~` (with `; m` before the `~`
/// when modified), each with its own parameter n: Insert 2, Delete 3,
/// PageUp 5, PageDown 6, F5 15, F6 17, F7 18, F8 19, F9 20, F10 21,
/// F11 23, F12 24.
pub proof fn law_tilde_keys_parameter(text: Option<Seq<char>>, mods: ModifiersState, mode: TermKeyMode)
    ensures
        encode_key_spec(Key::Named(NamedKey::Insert), text, mods, mode) matches Some(b) && b.len() >= 4 && b.subrange(0, 3) == seq![0x1bu8, 0x5bu8, 0x32u8] && (b[3] == 0x7eu8 || b[3] == 0x3bu8) && b.last() == 0x7eu8,
        encode_key_spec(Key::Named(NamedKey::Delete), text, mods, mode) matches Some(b) && b.len() >= 4 && b.subrange(0, 3) == seq![0x1bu8, 0x5bu8, 0x33u8] && (b[3] == 0x7eu8 || b[3] == 0x3bu8) && b.last() == 0x7eu8,
        encode_key_spec(Key::Named(NamedKey::PageUp), text, mods, mode) matches Some(b) && b.len() >= 4 && b.subrange(0, 3) == seq![0x1bu8, 0x5bu8, 0x35u8] && (b[3] == 0x7eu8 || b[3] == 0x3bu8) && b.last() == 0x7eu8,
        encode_key_spec(Key::Named(NamedKey::PageDown), text, mods, mode) matches Some(b) && b.len() >= 4 && b.subrange(0, 3) == seq![0x1bu8, 0x5bu8, 0x36u8] && (b[3] == 0x7eu8 || b[3] == 0x3bu8) && b.last() == 0x7eu8,
        encode_key_spec(Key::Named(NamedKey::F5), text, mods, mode) matches Some(b) && b.len() >= 5 && b.subrange(0, 4) == seq![0x1bu8, 0x5bu8, 0x31u8, 0x35u8] && (b[4] == 0x7eu8 || b[4] == 0x3bu8) && b.last() == 0x7eu8,
        encode_key_spec(Key::Named(NamedKey::F6), text, mods, mode) matches Some(b) && b.len() >= 5 && b.subrange(0, 4) == seq![0x1bu8, 0x5bu8, 0x31u8, 0x37u8] && (b[4] == 0x7eu8 || b[4] == 0x3bu8) && b.last() == 0x7eu8,
        encode_key_spec(Key::Named(NamedKey::F7), text, mods, mode) matches Some(b) && b.len() >= 5 && b.subrange(0, 4) == seq![0x1bu8, 0x5bu8, 0x31u8, 0x38u8] && (b[4] == 0x7eu8 || b[4] == 0x3bu8) && b.last() == 0x7eu8,
        encode_key_spec(Key::Named(NamedKey::F8), text, mods, mode) matches Some(b) && b.len() >= 5 && b.subrange(0, 4) == seq![0x1bu8, 0x5bu8, 0x31u8, 0x39u8] && (b[4] == 0x7eu8 || b[4] == 0x3bu8) && b.last() == 0x7eu8,
        encode_key_spec(Key::Named(NamedKey::F9), text, mods, mode) matches Some(b) && b.len() >= 5 && b.subrange(0, 4) == seq![0x1bu8, 0x5bu8, 0x32u8, 0x30u8] && (b[4] == 0x7eu8 || b[4] == 0x3bu8) && b.last() == 0x7eu8,
        encode_key_spec(Key::Named(NamedKey::F10), text, mods, mode) matches Some(b) && b.len() >= 5 && b.subrange(0, 4) == seq![0x1bu8, 0x5bu8, 0x32u8, 0x31u8] && (b[4] == 0x7eu8 || b[4] == 0x3bu8) && b.last() == 0x7eu8,
        encode_key_spec(Key::Named(NamedKey::F11), text, mods, mode) matches Some(b) && b.len() >= 5 && b.subrange(0, 4) == seq![0x1bu8, 0x5bu8, 0x32u8, 0x33u8] && (b[4] == 0x7eu8 || b[4] == 0x3bu8) && b.last() == 0x7eu8,
        encode_key_spec(Key::Named(NamedKey::F12), text, mods, mode) matches Some(b) && b.len() >= 5 && b.subrange(0, 4) == seq![0x1bu8, 0x5bu8, 0x32u8, 0x34u8] && (b[4] == 0x7eu8 || b[4] == 0x3bu8) && b.last() == 0x7eu8,
{
    reveal_with_fuel(dec, 3);
    let m = modifier_param(mods);
    assert(m < 10);
    assert(dec(m) == seq![(48 + m) as u8]);
}

/// Ctrl with a letter sends the letter's position in the alphabet (Ctrl+A
/// 1 ... Ctrl+Z 26), the same for either case.
pub proof fn law_control_letters(c: char)
    requires
        'a' <= c <= 'z',
    ensures
        control_byte(c) matches Some(b) && b as int == c as int - 'a' as int + 1,
        control_byte(c) == control_byte(((c as u32) - 32) as char),
{
}

/// In an SGR mouse report, press and release share the button code and
/// differ only in the final byte (`M` or `m`); motion adds 32 to the press
/// code, Alt 8 and Ctrl 16, and Shift is not reported. Unmodified presses
/// of left, middle and right are 0, 1, 2, and the wheel is 64 (up) and 65
/// (down).
pub proof fn law_mouse_report(button: MouseButton, mods: ModifiersState, col: usize, row: usize)
    ensures
        sgr_button_code(button, MouseAction::Release, mods) == sgr_button_code(button, MouseAction::Press, mods),
        sgr_button_code(button, MouseAction::Motion, mods) == sgr_button_code(button, MouseAction::Press, mods) + 32,
        sgr_button_code(button, MouseAction::Press, mods) == sgr_button_code(button, MouseAction::Press, ModifiersState::spec_empty())
            + (if mods.alt { 8int } else { 0int }) + (if mods.control { 16int } else { 0int }),
        sgr_button_code(MouseButton::Left, MouseAction::Press, ModifiersState::spec_empty()) == 0,
        sgr_button_code(MouseButton::Middle, MouseAction::Press, ModifiersState::spec_empty()) == 1,
        sgr_button_code(MouseButton::Right, MouseAction::Press, ModifiersState::spec_empty()) == 2,
        sgr_button_code(MouseButton::WheelUp, MouseAction::Press, ModifiersState::spec_empty()) == 64,
        sgr_button_code(MouseButton::WheelDown, MouseAction::Press, ModifiersState::spec_empty()) == 65,
        mouse_sgr_spec(button, MouseAction::Release, col, row, mods).last() == 0x6du8,
        mouse_sgr_spec(button, MouseAction::Press, col, row, mods).last() == 0x4du8,
        mouse_sgr_spec(button, MouseAction::Release, col, row, mods).drop_last() == mouse_sgr_spec(button, MouseAction::Press, col, row, mods).drop_last(),
{
    let a = mouse_sgr_spec(button, MouseAction::Release, col, row, mods);
    let b = mouse_sgr_spec(button, MouseAction::Press, col, row, mods);
    assert(a.drop_last() =~= b.drop_last());
}

/// Length of `s` with the pattern's occurrences deleted never grows.
proof fn lemma_delete_len(s: Seq<char>, pat: Seq<char>)
    ensures
        replace_all(s, pat, seq![]).len() <= s.len(),
    decreases s.len(),
{
    if s.len() == 0 {
    } else if pat.len() > 0 && pat.len() <= s.len() && s.take(pat.len() as int) == pat {
        lemma_delete_len(s.skip(pat.len() as int), pat);
    } else {
        lemma_delete_len(s.drop_first(), pat);
    }
}

/// `t` with end markers removed, again and again, until none is left
/// (removing one marker can join the text around it into a new one).
pub open spec fn strip_markers(t: Seq<char>) -> Seq<char>
    decreases t.len(),
{
    let r = replace_all(t, paste_end_marker(), seq![]);
    if r.len() >= t.len() {
        t
    } else {
        strip_markers(r)
    }
}

/// What `normalize_paste` produces: line endings as CR, end markers
/// removed until none is left.
pub open spec fn normalize_paste_spec(s: Seq<char>) -> Seq<char> {
    strip_markers(line_normalized(s))
}

/// Whether `pat` occurs in `s` at index `i`.
fn occurs_at(s: &Vec<char>, i: usize, pat: &Vec<char>) -> (b: bool)
    requires
        i <= s@.len(),
    ensures
        b == (pat@.len() <= s@.len() - i && s@.skip(i as int).take(pat@.len() as int) == pat@),
{
    if pat.len() > s.len() - i {
        return false;
    }
    let n = pat.len();
    let m = s.len();
    let mut k: usize = 0;
    while k < n
        invariant
            n == pat@.len(),
            m == s@.len(),
            k <= n,
            i + n <= m,
            forall|j: int| 0 <= j < k ==> s@[i + j] == pat@[j],
        decreases pat@.len() - k,
    {
        if s[i + k] != pat[k] {
            assert(s@.skip(i as int).take(pat@.len() as int)[k as int] != pat@[k as int]);
            return false;
        }
        k = k + 1;
    }
    assert(s@.skip(i as int).take(pat@.len() as int) =~= pat@);
    true
}

/// `replace_all` over character vectors.
fn replace_chars(s: &Vec<char>, pat: &Vec<char>, rep: &Vec<char>) -> (out: Vec<char>)
    requires
        pat@.len() > 0,
    ensures
        out@ == replace_all(s@, pat@, rep@),
{
    let mut out: Vec<char> = Vec::new();
    let mut i: usize = 0;
    assert(s@.skip(0) =~= s@);
    while i < s.len()
        invariant
            i <= s@.len(),
            pat@.len() > 0,
            out@ + replace_all(s@.skip(i as int), pat@, rep@) == replace_all(s@, pat@, rep@),
        decreases s@.len() - i,
    {
        let ghost rest = s@.skip(i as int);
        if occurs_at(s, i, pat) {
            let mut k: usize = 0;
            let ghost before = out@;
            while k < rep.len()
                invariant
                    k <= rep@.len(),
                    out@ == before + rep@.take(k as int),
                decreases rep@.len() - k,
            {
                out.push(rep[k]);
                assert(rep@.take(k as int).push(rep@[k as int]) =~= rep@.take(k + 1));
                k = k + 1;
            }
            assert(rep@.take(rep@.len() as int) =~= rep@);
            assert(rest.skip(pat@.len() as int) =~= s@.skip(i + pat@.len()));
            assert(out@ + replace_all(s@.skip(i + pat@.len()), pat@, rep@) =~= before + (rep@
                + replace_all(rest.skip(pat@.len() as int), pat@, rep@)));
            i = i + pat.len();
        } else {
            let ghost before = out@;
            out.push(s[i]);
            assert(rest.drop_first() =~= s@.skip(i + 1));
            assert(out@ + replace_all(s@.skip(i + 1), pat@, rep@) =~= before + (seq![rest[0]]
                + replace_all(rest.drop_first(), pat@, rep@)));
            i = i + 1;
        }
    }
    assert(s@.skip(i as int) =~= Seq::<char>::empty());
    assert(out@ + replace_all(s@.skip(i as int), pat@, rep@) =~= out@);
    out
}

/// Normalizes text for paste delivery to a PTY: CRLF and LF become CR
/// (terminals read CR as Enter), and embedded bracketed-paste end markers
/// are removed so pasted text cannot break out of paste mode.
pub fn normalize_paste(text: &str) -> (out: String)
    ensures
        out@ == normalize_paste_spec(text@),
{
    let s = crate::text::chars_of(text);
    let crlf: Vec<char> = vec!['\r', '\n'];
    let cr: Vec<char> = vec!['\r'];
    let lf: Vec<char> = vec!['\n'];
    let marker: Vec<char> = vec!['\x1b', '[', '2', '0', '1', '~'];
    let nothing: Vec<char> = Vec::new();
    assert(crlf@ =~= seq!['\r', '\n']);
    assert(cr@ =~= seq!['\r']);
    assert(lf@ =~= seq!['\n']);
    assert(marker@ =~= paste_end_marker());
    assert(nothing@ =~= Seq::<char>::empty());
    let a = replace_chars(&s, &crlf, &cr);
    let b = replace_chars(&a, &lf, &cr);
    assert(b@ == line_normalized(text@));
    let mut cur = b;
    loop
        invariant
            marker@ == paste_end_marker(),
            nothing@ == Seq::<char>::empty(),
            strip_markers(cur@) == normalize_paste_spec(text@),
        ensures
            cur@ == normalize_paste_spec(text@),
        decreases cur@.len(),
    {
        let next = replace_chars(&cur, &marker, &nothing);
        proof {
            lemma_delete_len(cur@, paste_end_marker());
        }
        if next.len() >= cur.len() {
            break;
        }
        cur = next;
    }
    crate::text::string_from_chars(cur.as_slice())
}

/// No element of `s` equals `c`.
pub open spec fn lacks(s: Seq<char>, c: char) -> bool {
    forall|i: int| 0 <= i < s.len() ==> s[i] != c
}

proof fn lemma_replace_preserves_lacks(s: Seq<char>, pat: Seq<char>, rep: Seq<char>, c: char)
    requires
        lacks(s, c),
        lacks(rep, c),
    ensures
        lacks(replace_all(s, pat, rep), c),
    decreases s.len(),
{
    if s.len() == 0 {
    } else if pat.len() > 0 && pat.len() <= s.len() && s.take(pat.len() as int) == pat {
        let rest = s.skip(pat.len() as int);
        assert(lacks(rest, c)) by {
            assert forall|i: int| 0 <= i < rest.len() implies rest[i] != c by {
                assert(rest[i] == s[i + pat.len()]);
            }
        }
        lemma_replace_preserves_lacks(rest, pat, rep, c);
        let r = replace_all(rest, pat, rep);
        assert forall|i: int| 0 <= i < (rep + r).len() implies (rep + r)[i] != c by {
            if i >= rep.len() {
                assert((rep + r)[i] == r[i - rep.len()]);
            }
        }
    } else {
        let rest = s.drop_first();
        assert(lacks(rest, c)) by {
            assert forall|i: int| 0 <= i < rest.len() implies rest[i] != c by {
                assert(rest[i] == s[i + 1]);
            }
        }
        lemma_replace_preserves_lacks(rest, pat, rep, c);
        let r = replace_all(rest, pat, rep);
        assert forall|i: int| 0 <= i < (seq![s[0]] + r).len() implies (seq![s[0]] + r)[i] != c by {
            if i >= 1 {
                assert((seq![s[0]] + r)[i] == r[i - 1]);
            }
        }
    }
}

proof fn lemma_replace_removes_char(s: Seq<char>, c: char, d: char)
    requires
        c != d,
    ensures
        lacks(replace_all(s, seq![c], seq![d]), c),
    decreases s.len(),
{
    if s.len() == 0 {
    } else {
        let pat = seq![c];
        if pat.len() <= s.len() && s.take(1) == pat {
            lemma_replace_removes_char(s.skip(1), c, d);
            let r = replace_all(s.skip(1), pat, seq![d]);
            assert forall|i: int| 0 <= i < (seq![d] + r).len() implies (seq![d] + r)[i] != c by {
                if i >= 1 {
                    assert((seq![d] + r)[i] == r[i - 1]);
                }
            }
        } else {
            assert(s[0] != c) by {
                if s[0] == c {
                    assert(s.take(1) =~= pat);
                }
            }
            lemma_replace_removes_char(s.drop_first(), c, d);
            let r = replace_all(s.drop_first(), pat, seq![d]);
            assert forall|i: int| 0 <= i < (seq![s[0]] + r).len() implies (seq![s[0]] + r)[i] != c by {
                if i >= 1 {
                    assert((seq![s[0]] + r)[i] == r[i - 1]);
                }
            }
        }
    }
}

/// Pasted text never carries a line feed to the PTY: every CRLF and LF
/// has become CR.
pub proof fn law_paste_has_no_line_feed(s: Seq<char>)
    ensures
        lacks(normalize_paste_spec(s), '\n'),
{
    let a = replace_all(s, seq!['\r', '\n'], seq!['\r']);
    lemma_replace_removes_char(a, '\n', '\r');
    lemma_strip_markers_lacks(line_normalized(s), '\n');
}

/// `pat` occurs in `s` starting at index `i`.
pub open spec fn occurs_in_at(s: Seq<char>, pat: Seq<char>, i: int) -> bool {
    0 <= i && i + pat.len() <= s.len() && s.subrange(i, i + pat.len()) == pat
}

/// Deleting the occurrences of a pattern that occurs shortens the text.
proof fn lemma_delete_shortens(s: Seq<char>, pat: Seq<char>, i: int)
    requires
        pat.len() > 0,
        occurs_in_at(s, pat, i),
    ensures
        replace_all(s, pat, seq![]).len() < s.len(),
    decreases s.len(),
{
    if s.take(pat.len() as int) == pat {
        lemma_delete_len(s.skip(pat.len() as int), pat);
        assert(Seq::<char>::empty() + replace_all(s.skip(pat.len() as int), pat, seq![])
            =~= replace_all(s.skip(pat.len() as int), pat, seq![]));
    } else {
        assert(i != 0) by {
            if i == 0 {
                assert(s.take(pat.len() as int) =~= s.subrange(0, pat.len() as int));
            }
        }
        let rest = s.drop_first();
        assert(rest.subrange(i - 1, i - 1 + pat.len()) =~= s.subrange(i, i + pat.len()));
        lemma_delete_shortens(rest, pat, i - 1);
    }
}

proof fn lemma_strip_markers_clean(t: Seq<char>, i: int)
    ensures
        !occurs_in_at(strip_markers(t), paste_end_marker(), i),
    decreases t.len(),
{
    let r = replace_all(t, paste_end_marker(), seq![]);
    if r.len() >= t.len() {
        if occurs_in_at(t, paste_end_marker(), i) {
            lemma_delete_shortens(t, paste_end_marker(), i);
        }
    } else {
        lemma_strip_markers_clean(r, i);
    }
}

proof fn lemma_strip_markers_lacks(t: Seq<char>, c: char)
    requires
        lacks(t, c),
    ensures
        lacks(strip_markers(t), c),
    decreases t.len(),
{
    let r = replace_all(t, paste_end_marker(), seq![]);
    if r.len() < t.len() {
        assert(lacks(Seq::<char>::empty(), c));
        lemma_replace_preserves_lacks(t, paste_end_marker(), seq![], c);
        lemma_strip_markers_lacks(r, c);
    }
}

/// Pasted text cannot end bracketed-paste mode early: no end marker
/// occurs anywhere in what reaches the PTY.
pub proof fn law_paste_has_no_end_marker(s: Seq<char>, i: int)
    ensures
        !occurs_in_at(normalize_paste_spec(s), paste_end_marker(), i),
{
    lemma_strip_markers_clean(line_normalized(s), i);
}

} // verus!
