//! Input routing decisions of the event loop: whether a key runs a binding
//! or goes to the PTY, whether a mouse event is reported to the running
//! program or handled locally (selection, scrolling, opening URLs), and
//! the button state kept for mouse reporting.

use vstd::prelude::*;
use crate::binding::Action;
use crate::input::{MouseAction, MouseButton, encode_mouse_sgr, mouse_sgr_spec};
use crate::keys::ModifiersState;
use crate::platform::Platform;
use crate::terminal::{MouseMode, MouseReporting};

verus! {

/// What to do with a pressed key.
#[derive(Clone, Debug, PartialEq, Eq)]
pub enum KeyRoute {
    /// Run the bound action.
    Run(Action),
    /// Encode the key for the PTY.
    Encode,
    /// Drop it: unbound Command/Super combinations are reserved for the
    /// OS and the app and never reach the shell.
    Swallow,
}

/// Route a key press given the action bound to it (looked up by physical
/// key, so layout-dependent characters do not matter) and whether
/// Command/Super is held. A key bound to `ReceiveChar` goes to the PTY.
pub fn route_key(binding: Option<Action>, logo: bool) -> (r: KeyRoute)
    ensures
        r == (match binding {
            Some(Action::ReceiveChar) => KeyRoute::Encode,
            Some(a) => KeyRoute::Run(a),
            None => if logo {
                KeyRoute::Swallow
            } else {
                KeyRoute::Encode
            },
        }),
{
    match binding {
        Some(Action::ReceiveChar) => KeyRoute::Encode,
        Some(a) => KeyRoute::Run(a),
        None => if logo {
            KeyRoute::Swallow
        } else {
            KeyRoute::Encode
        },
    }
}

/// The modifier that turns the pointer into a link opener: Command on
/// macOS, Control elsewhere.
pub fn url_modifier_held(platform: Platform, mods: ModifiersState) -> (b: bool)
    ensures
        b == (if platform == Platform::MacOs {
            mods.logo
        } else {
            mods.control
        }),
{
    match platform {
        Platform::MacOs => mods.logo,
        _ => mods.control,
    }
}

/// A character in the Unicode general category Cc (`char::is_control`).
pub open spec fn is_control(c: char) -> bool {
    (c as u32) <= 0x1f || (0x7f <= (c as u32) && (c as u32) <= 0x9f)
}

/// How a URL is handed to the OS opener.
#[derive(Clone, Debug, PartialEq, Eq)]
pub enum UrlLaunch {
    /// The URL holds control characters; it is not opened.
    Refused,
    /// No opener is known on this platform.
    Unsupported,
    /// Run `program` with `args`: the URL travels as one argument, never
    /// through a shell, so shell metacharacters in it cannot escape.
    Run { program: String, args: Vec<String> },
}

/// How to open `uri`: refused when it holds a control character;
/// otherwise `open` on macOS, `xdg-open` on Linux, `cmd /c start "" uri`
/// on Windows (`start` takes a window title first), nothing elsewhere.
pub open spec fn url_launch_ok(uri: Seq<char>, platform: Platform, l: UrlLaunch) -> bool {
    if exists|i: int| 0 <= i < uri.len() && is_control(#[trigger] uri[i]) {
        l == UrlLaunch::Refused
    } else {
        match platform {
            Platform::MacOs => l matches UrlLaunch::Run { program, args } && program@ == seq![
                'o',
                'p',
                'e',
                'n',
            ] && args@.len() == 1 && args@[0]@ == uri,
            Platform::Linux => l matches UrlLaunch::Run { program, args } && program@ == seq![
                'x',
                'd',
                'g',
                '-',
                'o',
                'p',
                'e',
                'n',
            ] && args@.len() == 1 && args@[0]@ == uri,
            Platform::Windows => l matches UrlLaunch::Run { program, args } && program@ == seq![
                'c',
                'm',
                'd',
            ] && args@.len() == 4 && args@[0]@ == seq!['/', 'c'] && args@[1]@ == seq![
                's',
                't',
                'a',
                'r',
                't',
            ] && args@[2]@ == Seq::<char>::empty() && args@[3]@ == uri,
            Platform::Other => l == UrlLaunch::Unsupported,
        }
    }
}

/// Decide how to hand `uri` to the OS opener (see [`url_launch_ok`]).
pub fn open_url(uri: &str, platform: Platform) -> (l: UrlLaunch)
    ensures
        url_launch_ok(uri@, platform, l),
{
    let chars = crate::text::chars_of(uri);
    let mut i: usize = 0;
    while i < chars.len()
        invariant
            i <= chars@.len(),
            chars@ == uri@,
            forall|j: int| 0 <= j < i ==> !is_control(#[trigger] chars@[j]),
        decreases chars@.len() - i,
    {
        let c = chars[i] as u32;
        if c <= 0x1f || (0x7f <= c && c <= 0x9f) {
            assert(is_control(uri@[i as int]));
            return UrlLaunch::Refused;
        }
        i += 1;
    }
    assert forall|j: int| 0 <= j < uri@.len() implies !is_control(#[trigger] uri@[j]) by {
        assert(chars@[j] == uri@[j]);
    }
    let mut args: Vec<String> = Vec::new();
    match platform {
        Platform::MacOs => {
            args.push(uri.to_owned());
            let program = String::from_str("open");
            proof {
                reveal_strlit("open");
            }
            assert(program@ =~= seq!['o', 'p', 'e', 'n']);
            UrlLaunch::Run { program, args }
        },
        Platform::Linux => {
            args.push(uri.to_owned());
            let program = String::from_str("xdg-open");
            proof {
                reveal_strlit("xdg-open");
            }
            assert(program@ =~= seq!['x', 'd', 'g', '-', 'o', 'p', 'e', 'n']);
            UrlLaunch::Run { program, args }
        },
        Platform::Windows => {
            let a0 = String::from_str("/c");
            let a1 = String::from_str("start");
            let program = String::from_str("cmd");
            proof {
                reveal_strlit("cmd");
                reveal_strlit("/c");
                reveal_strlit("start");
            }
            assert(a0@ =~= seq!['/', 'c']);
            assert(a1@ =~= seq!['s', 't', 'a', 'r', 't']);
            assert(program@ =~= seq!['c', 'm', 'd']);
            args.push(a0);
            args.push(a1);
            args.push(String::new());
            args.push(uri.to_owned());
            UrlLaunch::Run { program, args }
        },
        Platform::Other => UrlLaunch::Unsupported,
    }
}

/// The mouse buttons held and reported to the PTY (a bit per button:
/// left 1, middle 2, right 4), and the last cell a motion event was
/// reported for.
#[derive(Clone, Copy, Debug, PartialEq, Eq)]
pub struct MouseTracker {
    pub buttons_held: u8,
    pub last_cell: Option<(usize, usize)>,
}

/// The held-button bit of a reportable button; wheel notches have none.
pub open spec fn button_bit(b: MouseButton) -> Option<u8> {
    match b {
        MouseButton::Left => Some(1u8),
        MouseButton::Middle => Some(2u8),
        MouseButton::Right => Some(4u8),
        _ => None,
    }
}

/// The button a motion event reports: the lowest held one, or left when
/// none is (any-motion mode; the receiver only cares about the position).
pub open spec fn motion_button(held: u8) -> MouseButton {
    if held & 1 != 0 {
        MouseButton::Left
    } else if held & 2 != 0 {
        MouseButton::Middle
    } else if held & 4 != 0 {
        MouseButton::Right
    } else {
        MouseButton::Left
    }
}

/// The outcome of offering a mouse event to the running program.
#[derive(Clone, Debug, PartialEq, Eq)]
pub struct Report {
    /// The event was consumed by mouse reporting (no local handling).
    pub handled: bool,
    /// Bytes to send to the PTY.
    pub bytes: Option<Vec<u8>>,
}

impl MouseTracker {
    pub fn new() -> (t: MouseTracker)
        ensures
            t.buttons_held == 0,
            t.last_cell is None,
    {
        MouseTracker { buttons_held: 0, last_cell: None }
    }

    /// Offer pointer motion over `cell` (`None` outside the grid) to the
    /// running program. Shift always bypasses reporting so the user can
    /// select over a full-screen program. Motion is reported in
    /// any-motion mode, and in drag mode while a button is held; a move
    /// within the last reported cell is consumed silently.
    pub fn report_motion(
        &mut self,
        shift: bool,
        mode: Option<MouseMode>,
        cell: Option<(usize, usize)>,
        mods: ModifiersState,
    ) -> (r: Report)
        ensures
            final(self).buttons_held == old(self).buttons_held,
            ({
                let wants = match mode {
                    Some(m) => m.reporting == MouseReporting::AnyMotion || (m.reporting
                        == MouseReporting::Drag && old(self).buttons_held != 0),
                    None => false,
                };
                if shift || !wants || cell is None {
                    r == Report { handled: false, bytes: None } && *final(self) == *old(self)
                } else if cell == old(self).last_cell {
                    r == Report { handled: true, bytes: None } && *final(self) == *old(self)
                } else {
                    &&& final(self).last_cell == cell
                    &&& r.handled
                    &&& match r.bytes {
                        Some(b) => mode.unwrap().sgr && b@ == mouse_sgr_spec(
                            motion_button(old(self).buttons_held),
                            MouseAction::Motion,
                            cell.unwrap().1,
                            cell.unwrap().0,
                            mods,
                        ),
                        None => !mode.unwrap().sgr,
                    }
                }
            }),
    {
        if shift {
            return Report { handled: false, bytes: None };
        }
        let m = match mode {
            Some(m) => m,
            None => {
                return Report { handled: false, bytes: None };
            },
        };
        let wants = match m.reporting {
            MouseReporting::AnyMotion => true,
            MouseReporting::Drag => self.buttons_held != 0,
            _ => false,
        };
        if !wants {
            return Report { handled: false, bytes: None };
        }
        let (row, col) = match cell {
            Some(c) => c,
            None => {
                return Report { handled: false, bytes: None };
            },
        };
        let same = match self.last_cell {
            Some((r, c)) => r == row && c == col,
            None => false,
        };
        if same {
            return Report { handled: true, bytes: None };
        }
        self.last_cell = Some((row, col));
        let held = self.buttons_held;
        let button = if held & 1 != 0 {
            MouseButton::Left
        } else if held & 2 != 0 {
            MouseButton::Middle
        } else if held & 4 != 0 {
            MouseButton::Right
        } else {
            MouseButton::Left
        };
        let bytes = if m.sgr {
            Some(encode_mouse_sgr(button, MouseAction::Motion, col, row, mods))
        } else {
            None
        };
        Report { handled: true, bytes }
    }

    /// Offer a button press or release over `cell` to the running program.
    /// Without a reporting mode, outside the grid, or for a wheel button,
    /// nothing changes and the event is handled locally. Otherwise the
    /// held-button state is updated (a press also records the cell; the
    /// last release forgets it) and the event is reported in SGR encoding;
    /// without SGR it is not reported (the legacy encoding garbles columns
    /// past 223), and falls through to local handling.
    pub fn report_button(
        &mut self,
        pressed: bool,
        button: MouseButton,
        mode: Option<MouseMode>,
        cell: Option<(usize, usize)>,
        mods: ModifiersState,
    ) -> (r: Report)
        ensures
            ({
                let active = match mode {
                    Some(m) => m.reporting != MouseReporting::Off,
                    None => false,
                };
                if !active || cell is None || button_bit(button) is None {
                    r == Report { handled: false, bytes: None } && *final(self) == *old(self)
                } else {
                    let bit = button_bit(button).unwrap();
                    let (row, col) = cell.unwrap();
                    &&& pressed ==> final(self).buttons_held == old(self).buttons_held | bit
                        && final(self).last_cell == cell
                    &&& !pressed ==> final(self).buttons_held == old(self).buttons_held & !bit
                        && final(self).last_cell == (if final(self).buttons_held == 0 {
                        None
                    } else {
                        old(self).last_cell
                    })
                    &&& r.handled == mode.unwrap().sgr
                    &&& match r.bytes {
                        Some(b) => mode.unwrap().sgr && b@ == mouse_sgr_spec(
                            button,
                            if pressed {
                                MouseAction::Press
                            } else {
                                MouseAction::Release
                            },
                            col,
                            row,
                            mods,
                        ),
                        None => !mode.unwrap().sgr,
                    }
                }
            }),
    {
        let m = match mode {
            Some(m) => m,
            None => {
                return Report { handled: false, bytes: None };
            },
        };
        if m.reporting == MouseReporting::Off {
            return Report { handled: false, bytes: None };
        }
        let (row, col) = match cell {
            Some(c) => c,
            None => {
                return Report { handled: false, bytes: None };
            },
        };
        let bit: u8 = match button {
            MouseButton::Left => 1,
            MouseButton::Middle => 2,
            MouseButton::Right => 4,
            _ => {
                return Report { handled: false, bytes: None };
            },
        };
        let action = if pressed {
            self.buttons_held = self.buttons_held | bit;
            self.last_cell = Some((row, col));
            MouseAction::Press
        } else {
            self.buttons_held = self.buttons_held & !bit;
            if self.buttons_held == 0 {
                self.last_cell = None;
            }
            MouseAction::Release
        };
        if m.sgr {
            Report { handled: true, bytes: Some(encode_mouse_sgr(button, action, col, row, mods)) }
        } else {
            Report { handled: false, bytes: None }
        }
    }
}

/// What a mouse press or release does locally, once it was not reported.
#[derive(Clone, Copy, Debug, PartialEq, Eq, Structural)]
pub enum LocalClick {
    /// Open the hovered URL.
    OpenUrl,
    /// Start a selection at the pointer.
    StartSelection,
    /// End a drag selection.
    EndSelection,
    Ignore,
}

/// Whether a button event is offered to mouse reporting: not with Shift
/// held (so the user can still select), and not for a left click with the
/// URL modifier on a hovered URL (so click-to-open works inside tmux or
/// vim).
pub fn should_report_click(is_left: bool, shift: bool, url_mod: bool, has_hover: bool) -> (b: bool)
    ensures
        b == (!shift && !(is_left && url_mod && has_hover)),
{
    !shift && !(is_left && url_mod && has_hover)
}

/// The local meaning of a button event: only the left button has one. A
/// press opens the hovered URL under the URL modifier, else starts a
/// selection; a release ends the drag.
pub fn local_click(is_left: bool, pressed: bool, url_mod: bool, has_hover: bool) -> (c: LocalClick)
    ensures
        c == (if !is_left {
            LocalClick::Ignore
        } else if !pressed {
            LocalClick::EndSelection
        } else if url_mod && has_hover {
            LocalClick::OpenUrl
        } else {
            LocalClick::StartSelection
        }),
{
    if !is_left {
        LocalClick::Ignore
    } else if !pressed {
        LocalClick::EndSelection
    } else if url_mod && has_hover {
        LocalClick::OpenUrl
    } else {
        LocalClick::StartSelection
    }
}

/// What a whole number of wheel notches does.
#[derive(Clone, Debug, PartialEq, Eq)]
pub enum WheelAction {
    /// Report `count` wheel presses (`bytes` each) to the running program.
    Report { bytes: Vec<u8>, count: u32 },
    /// Send `count` arrow keys (`bytes` each): alternate scroll on the
    /// alternate screen, for less, man and vim.
    Arrows { bytes: Vec<u8>, count: u32 },
    /// Scroll the local viewport by this many lines (positive is up).
    Scroll(i32),
}

/// The arrow key a wheel notch becomes under alternate scroll.
pub open spec fn wheel_arrow(up: bool, app_cursor: bool) -> Seq<u8> {
    if app_cursor {
        if up {
            seq![0x1bu8, 0x4fu8, 0x41u8]
        } else {
            seq![0x1bu8, 0x4fu8, 0x42u8]
        }
    } else if up {
        seq![0x1bu8, 0x5bu8, 0x41u8]
    } else {
        seq![0x1bu8, 0x5bu8, 0x42u8]
    }
}

/// `|n|`.
pub open spec fn abs(n: i32) -> int {
    if n < 0 {
        -n
    } else {
        n as int
    }
}

/// Route `whole` wheel notches (positive is up): reported as wheel
/// presses at the pointer's cell (or the origin) when the program asked
/// for mouse reports in SGR and Shift is not held; turned into arrow keys
/// under alternate scroll on the alternate screen (again unless Shift is
/// held); otherwise they scroll the local viewport.
pub fn wheel_action(
    whole: i32,
    mode: MouseMode,
    shift: bool,
    app_cursor: bool,
    cell: Option<(usize, usize)>,
    mods: ModifiersState,
) -> (a: WheelAction)
    ensures
        if mode.reporting != MouseReporting::Off && mode.sgr && !shift {
            let (row, col) = match cell {
                Some(c) => c,
                None => (0usize, 0usize),
            };
            a matches WheelAction::Report { bytes, count } && count == abs(whole) && bytes@
                == mouse_sgr_spec(
                if whole > 0 {
                    MouseButton::WheelUp
                } else {
                    MouseButton::WheelDown
                },
                MouseAction::Press,
                col,
                row,
                mods,
            )
        } else if mode.alternate_scroll && mode.alt_screen && !shift {
            a matches WheelAction::Arrows { bytes, count } && count == abs(whole) && bytes@
                == wheel_arrow(whole > 0, app_cursor)
        } else {
            a == WheelAction::Scroll(whole)
        },
{
    let count: u32 = if whole < 0 {
        if whole == i32::MIN {
            2147483648u32
        } else {
            (-whole) as u32
        }
    } else {
        whole as u32
    };
    if mode.reporting != MouseReporting::Off && mode.sgr && !shift {
        let (row, col) = match cell {
            Some(c) => c,
            None => (0, 0),
        };
        let button = if whole > 0 { MouseButton::WheelUp } else { MouseButton::WheelDown };
        return WheelAction::Report {
            bytes: encode_mouse_sgr(button, MouseAction::Press, col, row, mods),
            count,
        };
    }
    if mode.alternate_scroll && mode.alt_screen && !shift {
        let bytes: Vec<u8> = if app_cursor {
            if whole > 0 { vec![0x1b, 0x4f, 0x41] } else { vec![0x1b, 0x4f, 0x42] }
        } else if whole > 0 {
            vec![0x1b, 0x5b, 0x41]
        } else {
            vec![0x1b, 0x5b, 0x42]
        };
        assert(bytes@ =~= wheel_arrow(whole > 0, app_cursor));
        return WheelAction::Arrows { bytes, count };
    }
    WheelAction::Scroll(whole)
}


/// Pressing a button that was not held and releasing it again leaves the
/// held-button state as it was.
pub proof fn law_press_release_restores(held: u8, bit: u8)
    requires
        bit == 1 || bit == 2 || bit == 4,
        held & bit == 0,
    ensures
        (held | bit) & !bit == held,
{
    assert((held | bit) & !bit == held) by (bit_vector)
        requires
            held & bit == 0,
    ;
}

} // verus!
