//! Terminal-side rules that do not need the emulator itself: colour
//! resolution against the configured palette, mapping regex matches and
//! hyperlink runs to viewport spans, mouse-reporting modes, selection
//! clamping, plain-text rows, event handling and tab labels.

use vstd::prelude::*;
use crate::config::{AnsiPalette, Colors};
use crate::text::{chars_of, copy_range, string_from_chars, trim_end, white_space};

verus! {

/// A named terminal colour slot.
#[derive(Clone, Copy, Debug, PartialEq, Eq, Structural)]
pub enum NamedColor {
    Black,
    Red,
    Green,
    Yellow,
    Blue,
    Magenta,
    Cyan,
    White,
    BrightBlack,
    BrightRed,
    BrightGreen,
    BrightYellow,
    BrightBlue,
    BrightMagenta,
    BrightCyan,
    BrightWhite,
    Foreground,
    Background,
    Cursor,
    DimBlack,
    DimRed,
    DimGreen,
    DimYellow,
    DimBlue,
    DimMagenta,
    DimCyan,
    DimWhite,
    BrightForeground,
    DimForeground,
}

/// A cell colour as the emulator stores it.
#[derive(Clone, Copy, Debug, PartialEq, Eq)]
pub enum AnsiColor {
    Named(NamedColor),
    /// A direct (true-colour) RGB value.
    Spec([u8; 3]),
    /// An index into the 256-colour palette.
    Indexed(u8),
}

/// Whether a colour paints a cell's foreground or background.
#[derive(Clone, Copy, Debug, PartialEq, Eq, Structural)]
pub enum Role {
    Fg,
    Bg,
}

/// One channel at SGR-dim intensity: 66%, rounded half up.
pub open spec fn dim_channel(v: u8) -> u8 {
    ((66 * (v as nat) + 50) / 100) as u8
}

/// A colour at SGR-dim (~66%) intensity.
pub fn dim(c: [u8; 3]) -> (d: [u8; 3])
    ensures
        d@ == seq![dim_channel(c[0]), dim_channel(c[1]), dim_channel(c[2])],
{
    let r = ((66 * (c[0] as u32) + 50) / 100) as u8;
    let g = ((66 * (c[1] as u32) + 50) / 100) as u8;
    let b = ((66 * (c[2] as u32) + 50) / 100) as u8;
    let d = [r, g, b];
    assert(d@ =~= seq![dim_channel(c[0]), dim_channel(c[1]), dim_channel(c[2])]);
    d
}

/// Entry `i` (0..8) of an ANSI palette: black, red, green, yellow, blue,
/// magenta, cyan, white.
pub open spec fn ansi_entry(pal: AnsiPalette, i: int) -> [u8; 3] {
    if i == 0 {
        pal.black
    } else if i == 1 {
        pal.red
    } else if i == 2 {
        pal.green
    } else if i == 3 {
        pal.yellow
    } else if i == 4 {
        pal.blue
    } else if i == 5 {
        pal.magenta
    } else if i == 6 {
        pal.cyan
    } else {
        pal.white
    }
}

/// One axis of the 6x6x6 colour cube: 0, then 95, 135, 175, 215, 255.
pub open spec fn cube_level(v: int) -> int {
    if v == 0 { 0 } else { 55 + 40 * v }
}

/// The 256-colour palette: 0..16 the configured normal/bright colours,
/// 16..232 the 6x6x6 cube, 232..256 a 24-step grey ramp from 8 to 238.
pub open spec fn indexed_color_spec(idx: u8, palette: Colors) -> Seq<u8> {
    if idx < 8 {
        ansi_entry(palette.normal, idx as int)@
    } else if idx < 16 {
        ansi_entry(palette.bright, idx - 8)@
    } else if idx <= 231 {
        let n = idx - 16;
        seq![cube_level(n / 36) as u8, cube_level((n / 6) % 6) as u8, cube_level(n % 6) as u8]
    } else {
        let g = (8 + 10 * (idx - 232)) as u8;
        seq![g, g, g]
    }
}

fn ansi_at(pal: &AnsiPalette, i: u8) -> (c: [u8; 3])
    requires
        i < 8,
    ensures
        c == ansi_entry(*pal, i as int),
{
    match i {
        0 => pal.black,
        1 => pal.red,
        2 => pal.green,
        3 => pal.yellow,
        4 => pal.blue,
        5 => pal.magenta,
        6 => pal.cyan,
        _ => pal.white,
    }
}

fn cube(v: u8) -> (l: u8)
    requires
        v < 6,
    ensures
        l as int == cube_level(v as int),
{
    if v == 0 { 0 } else { 55 + 40 * v }
}

/// The colour of a 256-colour palette index.
pub fn indexed_from_palette(idx: u8, palette: &Colors) -> (c: [u8; 3])
    ensures
        c@ == indexed_color_spec(idx, *palette),
{
    if idx < 16 {
        let pal = if idx >= 8 { &palette.bright } else { &palette.normal };
        return ansi_at(pal, idx % 8);
    }
    if idx <= 231 {
        let n = idx - 16;
        let c = [cube(n / 36), cube((n / 6) % 6), cube(n % 6)];
        assert(c@ =~= indexed_color_spec(idx, *palette));
        return c;
    }
    let gray = 8 + 10 * (idx - 232);
    let c = [gray, gray, gray];
    assert(c@ =~= indexed_color_spec(idx, *palette));
    c
}


/// Number of slots in the emulator's colour table: the 256 indexed colours
/// followed by the named ones.
pub const TERM_COLOR_COUNT: usize = 269;

/// The emulator's colour table slot of a named colour: the sixteen ANSI
/// colours share slots 0..16 with the indexed palette, the others follow
/// the 256 indexed colours.
pub open spec fn named_slot_spec(name: NamedColor) -> int {
    match name {
        NamedColor::Black => 0,
        NamedColor::Red => 1,
        NamedColor::Green => 2,
        NamedColor::Yellow => 3,
        NamedColor::Blue => 4,
        NamedColor::Magenta => 5,
        NamedColor::Cyan => 6,
        NamedColor::White => 7,
        NamedColor::BrightBlack => 8,
        NamedColor::BrightRed => 9,
        NamedColor::BrightGreen => 10,
        NamedColor::BrightYellow => 11,
        NamedColor::BrightBlue => 12,
        NamedColor::BrightMagenta => 13,
        NamedColor::BrightCyan => 14,
        NamedColor::BrightWhite => 15,
        NamedColor::Foreground => 256,
        NamedColor::Background => 257,
        NamedColor::Cursor => 258,
        NamedColor::DimBlack => 259,
        NamedColor::DimRed => 260,
        NamedColor::DimGreen => 261,
        NamedColor::DimYellow => 262,
        NamedColor::DimBlue => 263,
        NamedColor::DimMagenta => 264,
        NamedColor::DimCyan => 265,
        NamedColor::DimWhite => 266,
        NamedColor::BrightForeground => 267,
        NamedColor::DimForeground => 268,
    }
}

/// The colour table slot of a named colour.
pub fn named_slot(name: NamedColor) -> (i: usize)
    ensures
        i == named_slot_spec(name),
        i < TERM_COLOR_COUNT,
{
    match name {
        NamedColor::Black => 0,
        NamedColor::Red => 1,
        NamedColor::Green => 2,
        NamedColor::Yellow => 3,
        NamedColor::Blue => 4,
        NamedColor::Magenta => 5,
        NamedColor::Cyan => 6,
        NamedColor::White => 7,
        NamedColor::BrightBlack => 8,
        NamedColor::BrightRed => 9,
        NamedColor::BrightGreen => 10,
        NamedColor::BrightYellow => 11,
        NamedColor::BrightBlue => 12,
        NamedColor::BrightMagenta => 13,
        NamedColor::BrightCyan => 14,
        NamedColor::BrightWhite => 15,
        NamedColor::Foreground => 256,
        NamedColor::Background => 257,
        NamedColor::Cursor => 258,
        NamedColor::DimBlack => 259,
        NamedColor::DimRed => 260,
        NamedColor::DimGreen => 261,
        NamedColor::DimYellow => 262,
        NamedColor::DimBlue => 263,
        NamedColor::DimMagenta => 264,
        NamedColor::DimCyan => 265,
        NamedColor::DimWhite => 266,
        NamedColor::BrightForeground => 267,
        NamedColor::DimForeground => 268,
    }
}

/// A colour at SGR-dim intensity, as a sequence of channels.
pub open spec fn dimmed(c: [u8; 3]) -> Seq<u8> {
    seq![dim_channel(c[0]), dim_channel(c[1]), dim_channel(c[2])]
}

/// The configured colour of a named slot: primary colours and the two
/// ANSI palettes; bright foreground is the foreground, and the dim
/// variants are the normal colours (or the foreground) at dim intensity.
pub open spec fn named_color_spec(name: NamedColor, palette: Colors) -> Seq<u8> {
    match name {
        NamedColor::Foreground => palette.foreground@,
        NamedColor::Background => palette.background@,
        NamedColor::Cursor => palette.cursor@,
        NamedColor::Black => palette.normal.black@,
        NamedColor::Red => palette.normal.red@,
        NamedColor::Green => palette.normal.green@,
        NamedColor::Yellow => palette.normal.yellow@,
        NamedColor::Blue => palette.normal.blue@,
        NamedColor::Magenta => palette.normal.magenta@,
        NamedColor::Cyan => palette.normal.cyan@,
        NamedColor::White => palette.normal.white@,
        NamedColor::BrightBlack => palette.bright.black@,
        NamedColor::BrightRed => palette.bright.red@,
        NamedColor::BrightGreen => palette.bright.green@,
        NamedColor::BrightYellow => palette.bright.yellow@,
        NamedColor::BrightBlue => palette.bright.blue@,
        NamedColor::BrightMagenta => palette.bright.magenta@,
        NamedColor::BrightCyan => palette.bright.cyan@,
        NamedColor::BrightWhite => palette.bright.white@,
        NamedColor::BrightForeground => palette.foreground@,
        NamedColor::DimForeground => dimmed(palette.foreground),
        NamedColor::DimBlack => dimmed(palette.normal.black),
        NamedColor::DimRed => dimmed(palette.normal.red),
        NamedColor::DimGreen => dimmed(palette.normal.green),
        NamedColor::DimYellow => dimmed(palette.normal.yellow),
        NamedColor::DimBlue => dimmed(palette.normal.blue),
        NamedColor::DimMagenta => dimmed(palette.normal.magenta),
        NamedColor::DimCyan => dimmed(palette.normal.cyan),
        NamedColor::DimWhite => dimmed(palette.normal.white),
    }
}

/// A colour at dim intensity, channel by channel.
pub open spec fn dim_of(c: Seq<u8>) -> Seq<u8> {
    seq![dim_channel(c[0]), dim_channel(c[1]), dim_channel(c[2])]
}

/// The sixteen ANSI colours by name, in palette index order.
pub open spec fn ansi_names() -> Seq<NamedColor> {
    seq![NamedColor::Black, NamedColor::Red, NamedColor::Green, NamedColor::Yellow, NamedColor::Blue, NamedColor::Magenta, NamedColor::Cyan, NamedColor::White, NamedColor::BrightBlack, NamedColor::BrightRed, NamedColor::BrightGreen, NamedColor::BrightYellow, NamedColor::BrightBlue, NamedColor::BrightMagenta, NamedColor::BrightCyan, NamedColor::BrightWhite]
}

/// The sixteen configured ANSI colours of a palette, field by field.
pub open spec fn ansi_fields(p: Colors) -> Seq<Seq<u8>> {
    seq![p.normal.black@, p.normal.red@, p.normal.green@, p.normal.yellow@, p.normal.blue@, p.normal.magenta@, p.normal.cyan@, p.normal.white@, p.bright.black@, p.bright.red@, p.bright.green@, p.bright.yellow@, p.bright.blue@, p.bright.magenta@, p.bright.cyan@, p.bright.white@]
}

/// A named ANSI colour is the 256-colour palette entry of the same number
/// (Black 0 ... White 7, BrightBlack 8 ... BrightWhite 15): both read the
/// same table slot when a program changed it, and the same configured
/// colour when it did not.
pub proof fn law_named_colors_are_palette_indices(table: Seq<Option<[u8; 3]>>, palette: Colors)
    ensures
        resolve_color_spec(AnsiColor::Named(NamedColor::Black), table, palette) == resolve_color_spec(AnsiColor::Indexed(0), table, palette),
        resolve_color_spec(AnsiColor::Named(NamedColor::Red), table, palette) == resolve_color_spec(AnsiColor::Indexed(1), table, palette),
        resolve_color_spec(AnsiColor::Named(NamedColor::Green), table, palette) == resolve_color_spec(AnsiColor::Indexed(2), table, palette),
        resolve_color_spec(AnsiColor::Named(NamedColor::Yellow), table, palette) == resolve_color_spec(AnsiColor::Indexed(3), table, palette),
        resolve_color_spec(AnsiColor::Named(NamedColor::Blue), table, palette) == resolve_color_spec(AnsiColor::Indexed(4), table, palette),
        resolve_color_spec(AnsiColor::Named(NamedColor::Magenta), table, palette) == resolve_color_spec(AnsiColor::Indexed(5), table, palette),
        resolve_color_spec(AnsiColor::Named(NamedColor::Cyan), table, palette) == resolve_color_spec(AnsiColor::Indexed(6), table, palette),
        resolve_color_spec(AnsiColor::Named(NamedColor::White), table, palette) == resolve_color_spec(AnsiColor::Indexed(7), table, palette),
        resolve_color_spec(AnsiColor::Named(NamedColor::BrightBlack), table, palette) == resolve_color_spec(AnsiColor::Indexed(8), table, palette),
        resolve_color_spec(AnsiColor::Named(NamedColor::BrightRed), table, palette) == resolve_color_spec(AnsiColor::Indexed(9), table, palette),
        resolve_color_spec(AnsiColor::Named(NamedColor::BrightGreen), table, palette) == resolve_color_spec(AnsiColor::Indexed(10), table, palette),
        resolve_color_spec(AnsiColor::Named(NamedColor::BrightYellow), table, palette) == resolve_color_spec(AnsiColor::Indexed(11), table, palette),
        resolve_color_spec(AnsiColor::Named(NamedColor::BrightBlue), table, palette) == resolve_color_spec(AnsiColor::Indexed(12), table, palette),
        resolve_color_spec(AnsiColor::Named(NamedColor::BrightMagenta), table, palette) == resolve_color_spec(AnsiColor::Indexed(13), table, palette),
        resolve_color_spec(AnsiColor::Named(NamedColor::BrightCyan), table, palette) == resolve_color_spec(AnsiColor::Indexed(14), table, palette),
        resolve_color_spec(AnsiColor::Named(NamedColor::BrightWhite), table, palette) == resolve_color_spec(AnsiColor::Indexed(15), table, palette),
{
}

/// The dim colours are the normal colours at dim intensity, and the
/// bright and dim foregrounds are the foreground at full and dim intensity.
pub proof fn law_dim_colors(palette: Colors)
    ensures
        named_color_spec(NamedColor::DimBlack, palette) == dim_of(named_color_spec(NamedColor::Black, palette)),
        named_color_spec(NamedColor::DimRed, palette) == dim_of(named_color_spec(NamedColor::Red, palette)),
        named_color_spec(NamedColor::DimGreen, palette) == dim_of(named_color_spec(NamedColor::Green, palette)),
        named_color_spec(NamedColor::DimYellow, palette) == dim_of(named_color_spec(NamedColor::Yellow, palette)),
        named_color_spec(NamedColor::DimBlue, palette) == dim_of(named_color_spec(NamedColor::Blue, palette)),
        named_color_spec(NamedColor::DimMagenta, palette) == dim_of(named_color_spec(NamedColor::Magenta, palette)),
        named_color_spec(NamedColor::DimCyan, palette) == dim_of(named_color_spec(NamedColor::Cyan, palette)),
        named_color_spec(NamedColor::DimWhite, palette) == dim_of(named_color_spec(NamedColor::White, palette)),
        named_color_spec(NamedColor::BrightForeground, palette) == named_color_spec(NamedColor::Foreground, palette),
        named_color_spec(NamedColor::DimForeground, palette) == dim_of(named_color_spec(NamedColor::Foreground, palette)),
{
}

/// Distinct configured ANSI colours stay distinct: no two of the sixteen
/// names resolve to the same palette entry.
pub proof fn law_ansi_names_distinct(palette: Colors, i: int, j: int)
    requires
        0 <= i < 16,
        0 <= j < 16,
        i != j,
        forall|a: int, b: int| 0 <= a < 16 && 0 <= b < 16 && a != b ==> ansi_fields(palette)[a] != ansi_fields(palette)[b],
    ensures
        named_color_spec(ansi_names()[i], palette) != named_color_spec(ansi_names()[j], palette),
{
    let f = ansi_fields(palette);
    assert(f[i] != f[j]);
    assert(named_color_spec(ansi_names()[i], palette) == f[i]);
    assert(named_color_spec(ansi_names()[j], palette) == f[j]);
}

/// The configured colour of a named slot. Every named colour has one.
pub fn named_from_palette(name: NamedColor, palette: &Colors) -> (c: Option<[u8; 3]>)
    ensures
        c is Some,
        c.unwrap()@ == named_color_spec(name, *palette),
{
    Some(
        match name {
            NamedColor::Foreground => palette.foreground,
            NamedColor::Background => palette.background,
            NamedColor::Cursor => palette.cursor,
            NamedColor::Black => palette.normal.black,
            NamedColor::Red => palette.normal.red,
            NamedColor::Green => palette.normal.green,
            NamedColor::Yellow => palette.normal.yellow,
            NamedColor::Blue => palette.normal.blue,
            NamedColor::Magenta => palette.normal.magenta,
            NamedColor::Cyan => palette.normal.cyan,
            NamedColor::White => palette.normal.white,
            NamedColor::BrightBlack => palette.bright.black,
            NamedColor::BrightRed => palette.bright.red,
            NamedColor::BrightGreen => palette.bright.green,
            NamedColor::BrightYellow => palette.bright.yellow,
            NamedColor::BrightBlue => palette.bright.blue,
            NamedColor::BrightMagenta => palette.bright.magenta,
            NamedColor::BrightCyan => palette.bright.cyan,
            NamedColor::BrightWhite => palette.bright.white,
            NamedColor::BrightForeground => palette.foreground,
            NamedColor::DimForeground => dim(palette.foreground),
            NamedColor::DimBlack => dim(palette.normal.black),
            NamedColor::DimRed => dim(palette.normal.red),
            NamedColor::DimGreen => dim(palette.normal.green),
            NamedColor::DimYellow => dim(palette.normal.yellow),
            NamedColor::DimBlue => dim(palette.normal.blue),
            NamedColor::DimMagenta => dim(palette.normal.magenta),
            NamedColor::DimCyan => dim(palette.normal.cyan),
            NamedColor::DimWhite => dim(palette.normal.white),
        },
    )
}

/// The RGB a cell colour resolves to: a colour the running program set at
/// run time (OSC 4/10/11...) wins; otherwise named and indexed colours come
/// from the configured palette, and direct RGB is taken as is.
pub open spec fn resolve_color_spec(
    color: AnsiColor,
    table: Seq<Option<[u8; 3]>>,
    palette: Colors,
) -> Seq<u8> {
    match color {
        AnsiColor::Named(name) => match table[named_slot_spec(name)] {
            Some(rgb) => rgb@,
            None => named_color_spec(name, palette),
        },
        AnsiColor::Spec(rgb) => rgb@,
        AnsiColor::Indexed(idx) => match table[idx as int] {
            Some(rgb) => rgb@,
            None => indexed_color_spec(idx, palette),
        },
    }
}

/// Resolve a cell colour against the emulator's colour table (the colours
/// the running program changed) and the configured palette. `role` picks
/// the default used for a named colour the palette has no entry for.
pub fn resolve_color(
    color: AnsiColor,
    table: &[Option<[u8; 3]>; 269],
    palette: &Colors,
    role: Role,
) -> (c: [u8; 3])
    ensures
        c@ == resolve_color_spec(color, table@, *palette),
{
    match color {
        AnsiColor::Named(name) => {
            let slot = named_slot(name);
            match table[slot] {
                Some(rgb) => rgb,
                None => match named_from_palette(name, palette) {
                    Some(c) => c,
                    None => match role {
                        Role::Fg => palette.foreground,
                        Role::Bg => palette.background,
                    },
                },
            }
        },
        AnsiColor::Spec(rgb) => rgb,
        AnsiColor::Indexed(idx) => match table[idx as usize] {
            Some(rgb) => rgb,
            None => indexed_from_palette(idx, palette),
        },
    }
}


/// One rendered cell of a snapshot.
#[derive(Clone, Copy, Debug, PartialEq, Eq)]
pub struct SnapCell {
    pub ch: char,
    pub fg: [u8; 3],
    pub bg: [u8; 3],
    pub bold: bool,
    pub italic: bool,
    /// True for cells with SGR underline *or* an OSC 8 hyperlink: the latter
    /// are drawn underlined so the user can see they are clickable.
    pub underline: bool,
}

/// A cell nothing was drawn into: NUL on black, no attributes.
pub open spec fn is_blank(s: SnapCell) -> bool {
    &&& s.ch == '\0'
    &&& s.fg@ == seq![0u8, 0u8, 0u8]
    &&& s.bg@ == seq![0u8, 0u8, 0u8]
    &&& !s.bold
    &&& !s.italic
    &&& !s.underline
}

impl Default for SnapCell {
    fn default() -> (s: SnapCell)
        ensures
            is_blank(s),
    {
        let s = SnapCell {
            ch: '\0',
            fg: [0, 0, 0],
            bg: [0, 0, 0],
            bold: false,
            italic: false,
            underline: false,
        };
        assert(s.fg@ =~= seq![0u8, 0u8, 0u8]);
        assert(s.bg@ =~= seq![0u8, 0u8, 0u8]);
        s
    }
}

/// What the emulator stores for one cell: the character, its two colours
/// and the attribute flags the renderer reads.
#[derive(Clone, Copy, Debug, PartialEq, Eq)]
pub struct CellAttrs {
    pub c: char,
    pub fg: AnsiColor,
    pub bg: AnsiColor,
    /// SGR 7 (reverse video).
    pub inverse: bool,
    /// The placeholder slot to the right of a double-width character.
    pub wide_char_spacer: bool,
    pub bold: bool,
    pub italic: bool,
    /// Any of the underline styles.
    pub underlined: bool,
    /// The cell carries an OSC 8 hyperlink.
    pub hyperlink: bool,
}

/// How a cell is rendered: colours resolved (and swapped under reverse
/// video), spacer slots blanked to NUL, hyperlinks underlined.
pub open spec fn renders_as(
    s: SnapCell,
    a: CellAttrs,
    table: Seq<Option<[u8; 3]>>,
    palette: Colors,
) -> bool {
    let fg = resolve_color_spec(a.fg, table, palette);
    let bg = resolve_color_spec(a.bg, table, palette);
    &&& s.ch == (if a.wide_char_spacer { '\0' } else { a.c })
    &&& s.fg@ == (if a.inverse { bg } else { fg })
    &&& s.bg@ == (if a.inverse { fg } else { bg })
    &&& s.bold == a.bold
    &&& s.italic == a.italic
    &&& s.underline == (a.hyperlink || a.underlined)
}

/// Render one emulator cell.
pub fn snap_cell(a: &CellAttrs, table: &[Option<[u8; 3]>; 269], palette: &Colors) -> (s: SnapCell)
    ensures
        renders_as(s, *a, table@, *palette),
{
    let mut fg = resolve_color(a.fg, table, palette, Role::Fg);
    let mut bg = resolve_color(a.bg, table, palette, Role::Bg);
    if a.inverse {
        let t = fg;
        fg = bg;
        bg = t;
    }
    let ch = if a.wide_char_spacer { '\0' } else { a.c };
    SnapCell {
        ch,
        fg,
        bg,
        bold: a.bold,
        italic: a.italic,
        underline: a.hyperlink || a.underlined,
    }
}

/// The active selection in viewport coordinates. `end` is inclusive. For
/// non-block selections the rows strictly between the first and the last
/// are selected across their whole width.
#[derive(Clone, Copy, Debug, PartialEq, Eq, Structural)]
pub struct SelectionView {
    pub start_line: usize,
    pub start_col: usize,
    pub end_line: usize,
    pub end_col: usize,
    pub is_block: bool,
}

/// The emulator's selection in grid coordinates (lines above the live
/// screen are negative).
#[derive(Clone, Copy, Debug, PartialEq, Eq, Structural)]
pub struct SelectionRange {
    pub start_line: i32,
    pub start_col: usize,
    pub end_line: i32,
    pub end_col: usize,
    pub is_block: bool,
}

/// `a.saturating_sub(1)`.
pub open spec fn last_index(n: usize) -> int {
    if n == 0 { 0 } else { n - 1 }
}

pub open spec fn min_int(a: int, b: int) -> int {
    if a <= b { a } else { b }
}

pub open spec fn max_int(a: int, b: int) -> int {
    if a >= b { a } else { b }
}

/// A selection moved into the viewport and clamped to it, or `None` when
/// it lies entirely above or below the visible rows.
pub open spec fn clamp_selection_spec(
    r: SelectionRange,
    display_offset: usize,
    lines: usize,
    cols: usize,
) -> Option<SelectionView> {
    let s = r.start_line + display_offset;
    let e = r.end_line + display_offset;
    if e < 0 || s >= lines {
        None
    } else {
        Some(
            SelectionView {
                start_line: max_int(s, 0) as usize,
                start_col: min_int(r.start_col as int, last_index(cols)) as usize,
                end_line: min_int(e, lines - 1) as usize,
                end_col: min_int(r.end_col as int, last_index(cols)) as usize,
                is_block: r.is_block,
            },
        )
    }
}

/// Translate the emulator's selection into viewport coordinates, clamped
/// to the visible grid so a selection that runs into off-screen
/// scrollback still shows the visible part.
pub fn clamp_selection(
    r: SelectionRange,
    display_offset: usize,
    lines: usize,
    cols: usize,
) -> (v: Option<SelectionView>)
    requires
        display_offset <= i32::MAX,
        1 <= lines <= i32::MAX,
    ensures
        v == clamp_selection_spec(r, display_offset, lines, cols),
{
    let off = display_offset as i64;
    let s = r.start_line as i64 + off;
    let e = r.end_line as i64 + off;
    if e < 0 || s >= lines as i64 {
        return None;
    }
    let last_col = if cols == 0 { 0 } else { cols - 1 };
    let start_line = if s < 0 { 0 } else { s as usize };
    let end_line = if e > lines as i64 - 1 { lines - 1 } else { e as usize };
    Some(SelectionView {
        start_line,
        start_col: if r.start_col < last_col { r.start_col } else { last_col },
        end_line,
        end_col: if r.end_col < last_col { r.end_col } else { last_col },
        is_block: r.is_block,
    })
}


/// A cell the emulator reports for display, at its grid point (`line` is
/// negative for scrollback above the live screen).
#[derive(Clone, Copy, Debug, PartialEq, Eq)]
pub struct GridCell {
    pub line: i32,
    pub column: usize,
    pub attrs: CellAttrs,
}

/// What the renderer reads from the emulator under its lock.
pub struct TermContent {
    /// How many lines the viewport is scrolled back.
    pub display_offset: usize,
    /// The displayed cells, in the emulator's order.
    pub cells: Vec<GridCell>,
    pub cursor_line: i32,
    pub cursor_col: usize,
    pub cursor_visible: bool,
    pub selection: Option<SelectionRange>,
    /// The emulator's colour table: colours the running program changed.
    pub colors: [Option<[u8; 3]>; 269],
}

/// The visible viewport, ready to render.
pub struct GridSnapshot {
    pub cells: Vec<Vec<SnapCell>>,
    pub cursor_line: usize,
    pub cursor_col: usize,
    pub cursor_visible: bool,
    pub fg: [u8; 3],
    /// The terminal's default background: cells with this background are
    /// not drawn, so they fall through to the surface clear colour.
    pub bg: [u8; 3],
    /// Active selection in viewport coordinates, if any.
    pub selection: Option<SelectionView>,
}

/// Whether grid cell `g` shows at viewport row `l`, column `c`.
pub open spec fn lands_at(g: GridCell, display_offset: usize, l: int, c: int) -> bool {
    g.line + display_offset == l && g.column == c
}

/// The index of the last of `items` that shows at (`l`, `c`).
pub open spec fn last_writer(items: Seq<GridCell>, display_offset: usize, l: int, c: int) -> Option<int>
    decreases items.len(),
{
    if items.len() == 0 {
        None
    } else if lands_at(items.last(), display_offset, l, c) {
        Some(items.len() - 1)
    } else {
        last_writer(items.drop_last(), display_offset, l, c)
    }
}

proof fn lemma_last_writer_bounds(items: Seq<GridCell>, display_offset: usize, l: int, c: int)
    ensures
        last_writer(items, display_offset, l, c) matches Some(k) ==> 0 <= k < items.len()
            && lands_at(items[k], display_offset, l, c),
    decreases items.len(),
{
    if items.len() > 0 && !lands_at(items.last(), display_offset, l, c) {
        lemma_last_writer_bounds(items.drop_last(), display_offset, l, c);
    }
}

/// Snapshot cell (`l`, `c`) renders the last emulator cell shown there,
/// or is blank when none is.
pub open spec fn snapshot_cell_ok(
    s: SnapCell,
    items: Seq<GridCell>,
    display_offset: usize,
    l: int,
    c: int,
    table: Seq<Option<[u8; 3]>>,
    palette: Colors,
) -> bool {
    match last_writer(items, display_offset, l, c) {
        Some(k) => renders_as(s, items[k].attrs, table, palette),
        None => is_blank(s),
    }
}

/// The viewport row of a grid line, when it is not above the viewport.
pub open spec fn viewport_row(line: i32, display_offset: usize) -> Option<int> {
    if line + display_offset >= 0 {
        Some(line + display_offset)
    } else {
        None
    }
}

/// A colour-table entry, or the configured fallback.
pub open spec fn table_or(entry: Option<[u8; 3]>, fallback: [u8; 3]) -> Seq<u8> {
    match entry {
        Some(rgb) => rgb@,
        None => fallback@,
    }
}

/// Snapshot the viewport for rendering: a `lines` x `cols` grid of
/// rendered cells, the cursor in viewport coordinates, the default colours
/// and the clamped selection.
pub fn build_snapshot(content: &TermContent, lines: usize, cols: usize, palette: &Colors) -> (snap:
    GridSnapshot)
    requires
        content.display_offset <= i32::MAX,
        1 <= lines <= i32::MAX,
    ensures
        snap.cells@.len() == lines,
        forall|l: int| 0 <= l < lines ==> #[trigger] snap.cells@[l]@.len() == cols,
        forall|l: int, c: int|
            0 <= l < lines && 0 <= c < cols ==> snapshot_cell_ok(
                #[trigger] snap.cells@[l]@[c],
                content.cells@,
                content.display_offset,
                l,
                c,
                content.colors@,
                *palette,
            ),
        snap.cursor_line == (match viewport_row(content.cursor_line, content.display_offset) {
            Some(r) => r,
            None => 0,
        }),
        snap.cursor_col == (match viewport_row(content.cursor_line, content.display_offset) {
            Some(_) => content.cursor_col,
            None => 0,
        }),
        snap.cursor_visible == content.cursor_visible,
        snap.fg@ == table_or(content.colors@[256], palette.foreground),
        snap.bg@ == table_or(content.colors@[257], palette.background),
        snap.selection == (match content.selection {
            Some(r) => clamp_selection_spec(r, content.display_offset, lines, cols),
            None => None,
        }),
{
    let off = content.display_offset;
    let mut cells: Vec<Vec<SnapCell>> = Vec::new();
    let mut l: usize = 0;
    while l < lines
        invariant
            l <= lines,
            cells@.len() == l,
            forall|i: int| 0 <= i < l ==> #[trigger] cells@[i]@.len() == cols,
            forall|i: int, c: int|
                0 <= i < l && 0 <= c < cols ==> is_blank(#[trigger] cells@[i]@[c]),
        decreases lines - l,
    {
        let mut row: Vec<SnapCell> = Vec::new();
        let mut c: usize = 0;
        while c < cols
            invariant
                c <= cols,
                row@.len() == c,
                forall|j: int| 0 <= j < c ==> is_blank(#[trigger] row@[j]),
            decreases cols - c,
        {
            row.push(SnapCell::default());
            c += 1;
        }
        cells.push(row);
        l += 1;
    }
    let n = content.cells.len();
    let mut k: usize = 0;
    while k < n
        invariant
            k <= n,
            n == content.cells@.len(),
            off == content.display_offset,
            off <= i32::MAX,
            lines <= i32::MAX,
            cells@.len() == lines,
            forall|i: int| 0 <= i < lines ==> #[trigger] cells@[i]@.len() == cols,
            forall|i: int, c: int|
                0 <= i < lines && 0 <= c < cols ==> snapshot_cell_ok(
                    #[trigger] cells@[i]@[c],
                    content.cells@.take(k as int),
                    off,
                    i,
                    c,
                    content.colors@,
                    *palette,
                ),
        decreases n - k,
    {
        let g = content.cells[k];
        let vl = g.line as i64 + off as i64;
        let ghost before = cells@;
        let ghost items = content.cells@;
        proof {
            assert(items.take(k + 1).drop_last() =~= items.take(k as int));
            assert(items.take(k + 1).last() == items[k as int]);
        }
        if vl >= 0 && vl < lines as i64 && g.column < cols {
            let row_i = vl as usize;
            let cell = snap_cell(&g.attrs, &content.colors, palette);
            let mut row: Vec<SnapCell> = Vec::new();
            std::mem::swap(&mut row, &mut cells[row_i]);
            row.set(g.column, cell);
            cells.set(row_i, row);
            proof {
                assert forall|i: int, c: int|
                    0 <= i < lines && 0 <= c < cols implies snapshot_cell_ok(
                    #[trigger] cells@[i]@[c],
                    items.take(k + 1),
                    off,
                    i,
                    c,
                    content.colors@,
                    *palette,
                ) by {
                    if i == row_i && c == g.column {
                        assert(items.take(k + 1)[k as int] == g);
                    } else {
                        assert(cells@[i]@[c] == before[i]@[c]);
                        assert(!lands_at(g, off, i, c));
                        lemma_last_writer_bounds(items.take(k as int), off, i, c);
                    }
                }
            }
        } else {
            proof {
                assert forall|i: int, c: int|
                    0 <= i < lines && 0 <= c < cols implies snapshot_cell_ok(
                    #[trigger] cells@[i]@[c],
                    items.take(k + 1),
                    off,
                    i,
                    c,
                    content.colors@,
                    *palette,
                ) by {
                    assert(!lands_at(g, off, i, c));
                    lemma_last_writer_bounds(items.take(k as int), off, i, c);
                }
            }
        }
        k += 1;
    }
    proof {
        assert(content.cells@.take(n as int) =~= content.cells@);
    }
    let cursor_vl = content.cursor_line as i64 + off as i64;
    let (cursor_line, cursor_col) = if cursor_vl >= 0 {
        (cursor_vl as usize, content.cursor_col)
    } else {
        (0, 0)
    };
    let fg = match content.colors[256] {
        Some(rgb) => rgb,
        None => palette.foreground,
    };
    let bg = match content.colors[257] {
        Some(rgb) => rgb,
        None => palette.background,
    };
    let selection = match content.selection {
        Some(r) => clamp_selection(r, off, lines, cols),
        None => None,
    };
    GridSnapshot {
        cells,
        cursor_line,
        cursor_col,
        cursor_visible: content.cursor_visible,
        fg,
        bg,
        selection,
    }
}


/// A point of the emulator's grid (`line` is negative in scrollback).
#[derive(Clone, Copy, Debug, PartialEq, Eq, Structural)]
pub struct GridPoint {
    pub line: i32,
    pub column: usize,
}

/// `a` comes no later than `b` in reading order (line, then column).
pub open spec fn point_le(a: GridPoint, b: GridPoint) -> bool {
    a.line < b.line || (a.line == b.line && a.column <= b.column)
}

/// Prose punctuation that ends a sentence rather than a URL.
pub open spec fn is_trailing_punct(c: char) -> bool {
    c == '.' || c == ',' || c == ':' || c == ';' || c == '!' || c == '?' || c == '\''
}

/// How many times `c` occurs in `s`.
pub open spec fn count_char(s: Seq<char>, c: char) -> nat
    decreases s.len(),
{
    if s.len() == 0 {
        0
    } else {
        count_char(s.drop_last(), c) + if s.last() == c {
            1nat
        } else {
            0nat
        }
    }
}

/// The last character of a matched URL belongs to the surrounding text:
/// trailing punctuation, or a closing bracket the URL did not open.
pub open spec fn ends_with_stray(s: Seq<char>) -> bool {
    &&& s.len() > 0
    &&& {
        ||| is_trailing_punct(s.last())
        ||| (s.last() == ')' && count_char(s, '(') < count_char(s, ')'))
        ||| (s.last() == ']' && count_char(s, '[') < count_char(s, ']'))
    }
}

/// Length of a matched URL once stray trailing characters are trimmed,
/// one at a time from the end (`(see https://example.com/foo).` keeps
/// `https://example.com/foo`; a balanced `(bar)` stays).
pub open spec fn url_trim_len(s: Seq<char>) -> nat
    decreases s.len(),
{
    if ends_with_stray(s) {
        url_trim_len(s.drop_last())
    } else {
        s.len()
    }
}

/// The grid cell before `p` in reading order, on a grid `cols` wide.
pub open spec fn step_back(p: GridPoint, cols: usize) -> GridPoint {
    if p.column > 0 {
        GridPoint { line: p.line, column: (p.column - 1) as usize }
    } else {
        GridPoint { line: (p.line - 1) as i32, column: (cols - 1) as usize }
    }
}

/// The grid cell `k` cells before `p` in reading order.
pub open spec fn retreat(p: GridPoint, k: nat, cols: usize) -> GridPoint
    decreases k,
{
    if k == 0 {
        p
    } else {
        step_back(retreat(p, (k - 1) as nat, cols), cols)
    }
}

proof fn lemma_url_trim_len_le(s: Seq<char>)
    ensures
        url_trim_len(s) <= s.len(),
    decreases s.len(),
{
    if ends_with_stray(s) {
        lemma_url_trim_len_le(s.drop_last());
    }
}

fn count_of(s: &Vec<char>, c: char) -> (n: usize)
    ensures
        n == count_char(s@, c),
{
    let mut n: usize = 0;
    let mut i: usize = 0;
    while i < s.len()
        invariant
            i <= s@.len(),
            n == count_char(s@.take(i as int), c),
            n <= i,
        decreases s@.len() - i,
    {
        assert(s@.take(i + 1).drop_last() =~= s@.take(i as int));
        if s[i] == c {
            n += 1;
        }
        i += 1;
    }
    assert(s@.take(i as int) =~= s@);
    n
}

/// Trim stray trailing characters from the URL `uri` matched up to grid
/// cell `end` (each trimmed character takes one cell), on a grid `cols`
/// wide. `None` when nothing is left or `point` lies past the trimmed end,
/// i.e. on the trimmed text; otherwise the trimmed URL and its new end.
pub fn trim_url_match(uri: &str, end: GridPoint, point: GridPoint, cols: usize) -> (r: Option<(String, GridPoint)>)
    requires
        cols > 0,
        end.line - uri@.len() >= i32::MIN,
    ensures
        ({
            let n = url_trim_len(uri@);
            let e = retreat(end, (uri@.len() - n) as nat, cols);
            match r {
                Some((t, e2)) => n > 0 && point_le(point, e) && t@ == uri@.take(n as int) && e2 == e,
                None => !(n > 0 && point_le(point, e)),
            }
        }),
{
    let cs = chars_of(uri);
    let mut n: usize = cs.len();
    let mut opens: usize = count_of(&cs, '(');
    let mut closes: usize = count_of(&cs, ')');
    let mut lbr: usize = count_of(&cs, '[');
    let mut rbr: usize = count_of(&cs, ']');
    let mut e = end;
    let ghost len = cs@.len();
    assert(cs@.take(n as int) =~= cs@);
    proof {
        lemma_url_trim_len_le(cs@);
    }
    loop
        invariant
            cs@ == uri@,
            len == cs@.len(),
            n <= len,
            cols > 0,
            end.line - len >= i32::MIN,
            url_trim_len(cs@) == url_trim_len(cs@.take(n as int)),
            opens == count_char(cs@.take(n as int), '('),
            closes == count_char(cs@.take(n as int), ')'),
            lbr == count_char(cs@.take(n as int), '['),
            rbr == count_char(cs@.take(n as int), ']'),
            e == retreat(end, (len - n) as nat, cols),
            e.line >= end.line - (len - n),
        ensures
            n == url_trim_len(uri@),
            e == retreat(end, (len - n) as nat, cols),
        decreases n,
    {
        let ghost t = cs@.take(n as int);
        if n == 0 {
            break;
        }
        let c = cs[n - 1];
        assert(t.last() == c);
        let stray = c == '.' || c == ',' || c == ':' || c == ';' || c == '!' || c == '?' || c == '\''
            || (c == ')' && opens < closes) || (c == ']' && lbr < rbr);
        if !stray {
            assert(!ends_with_stray(t));
            break;
        }
        assert(ends_with_stray(t));
        assert(t.drop_last() =~= cs@.take(n - 1));
        if c == '(' {
            opens -= 1;
        }
        if c == ')' {
            closes -= 1;
        }
        if c == '[' {
            lbr -= 1;
        }
        if c == ']' {
            rbr -= 1;
        }
        e = if e.column > 0 {
            GridPoint { line: e.line, column: e.column - 1 }
        } else {
            GridPoint { line: e.line - 1, column: cols - 1 }
        };
        n -= 1;
    }
    let before = e.line < point.line || (e.line == point.line && e.column < point.column);
    if n == 0 || before {
        return None;
    }
    let kept = crate::text::copy_range(cs.as_slice(), 0, n);
    assert(kept@ =~= uri@.take(n as int));
    Some((crate::text::string_from_chars(kept.as_slice()), e))
}

/// One inclusive horizontal span of a URL in viewport coordinates. URLs
/// that wrap across rows produce several spans.
#[derive(Clone, Copy, Debug, PartialEq, Eq, Structural)]
pub struct UrlSpan {
    pub line: usize,
    pub start_col: usize,
    pub end_col: usize,
}

/// A URL under the pointer and where it is drawn.
#[derive(Clone, Debug)]
pub struct UrlMatch {
    pub uri: String,
    pub spans: Vec<UrlSpan>,
}

/// The viewport span on row `line` of a match running from grid point
/// `start` to `end` (inclusive), on a viewport `vp_cols` wide.
pub open spec fn span_on_row(
    start: GridPoint,
    end: GridPoint,
    display_offset: usize,
    vp_cols: usize,
    line: int,
) -> UrlSpan {
    let max_col = vp_cols - 1;
    UrlSpan {
        line: line as usize,
        start_col: if line == start.line + display_offset {
            min_int(start.column as int, max_col) as usize
        } else {
            0
        },
        end_col: if line == end.line + display_offset {
            min_int(end.column as int, max_col) as usize
        } else {
            max_col as usize
        },
    }
}

/// Per-row viewport spans of a match, clamped to the visible grid: one
/// span for each visible row the match touches, top to bottom.
pub open spec fn match_spans_spec(
    start: GridPoint,
    end: GridPoint,
    display_offset: usize,
    vp_lines: usize,
    vp_cols: usize,
) -> Seq<UrlSpan> {
    let s = start.line + display_offset;
    let e = end.line + display_offset;
    if e < 0 || s >= vp_lines || vp_cols == 0 {
        Seq::empty()
    } else {
        let lo = max_int(s, 0);
        let hi = min_int(e, vp_lines - 1);
        Seq::new(
            (hi - lo + 1) as nat,
            |i: int| span_on_row(start, end, display_offset, vp_cols, lo + i),
        )
    }
}

/// Convert a regex match (an inclusive grid range) into per-row viewport
/// spans clamped to the visible grid. Empty when the whole match is off
/// screen.
pub fn match_to_spans(
    start: GridPoint,
    end: GridPoint,
    display_offset: usize,
    vp_lines: usize,
    vp_cols: usize,
) -> (spans: Vec<UrlSpan>)
    requires
        start.line <= end.line,
        display_offset <= i32::MAX,
        vp_lines <= i32::MAX,
    ensures
        spans@ == match_spans_spec(start, end, display_offset, vp_lines, vp_cols),
{
    let off = display_offset as i64;
    let start_line = start.line as i64 + off;
    let end_line = end.line as i64 + off;
    if end_line < 0 || start_line >= vp_lines as i64 || vp_cols == 0 {
        return Vec::new();
    }
    let max_col = vp_cols - 1;
    let lo = if start_line < 0 { 0 } else { start_line };
    let hi = if end_line > vp_lines as i64 - 1 { vp_lines as i64 - 1 } else { end_line };
    let ghost want = match_spans_spec(start, end, display_offset, vp_lines, vp_cols);
    let mut spans: Vec<UrlSpan> = Vec::new();
    let mut line = lo;
    while line <= hi
        invariant
            lo <= line <= hi + 1,
            0 <= lo,
            hi < vp_lines,
            vp_lines <= i32::MAX,
            want.len() == hi - lo + 1,
            max_col == vp_cols - 1,
            start_line == start.line + display_offset,
            end_line == end.line + display_offset,
            spans@.len() == line - lo,
            forall|i: int| 0 <= i < line - lo ==> #[trigger] spans@[i] == want[i],
            want == match_spans_spec(start, end, display_offset, vp_lines, vp_cols),
            lo == max_int(start_line as int, 0),
            hi == min_int(end_line as int, vp_lines - 1),
        decreases hi + 1 - line,
    {
        let s = if line == start_line {
            if start.column < max_col { start.column } else { max_col }
        } else {
            0
        };
        let e = if line == end_line {
            if end.column < max_col { end.column } else { max_col }
        } else {
            max_col
        };
        spans.push(UrlSpan { line: line as usize, start_col: s, end_col: e });
        line += 1;
    }
    assert(spans@ =~= want);
    spans
}

/// The run of cells around column `col` that carry the same OSC 8
/// hyperlink, as a single span on viewport row `vp_line`. `same_link[c]`
/// tells whether the cell at column `c` of that row carries it. Links
/// that wrap onto the next row are not followed.
pub fn osc8_spans(same_link: &Vec<bool>, col: usize, vp_line: usize) -> (spans: Vec<UrlSpan>)
    requires
        col < same_link@.len(),
    ensures
        spans@.len() == 1,
        spans@[0].line == vp_line,
        spans@[0].start_col <= col <= spans@[0].end_col < same_link@.len(),
        forall|j: int| spans@[0].start_col <= j < col ==> #[trigger] same_link@[j],
        forall|j: int| col < j <= spans@[0].end_col ==> #[trigger] same_link@[j],
        spans@[0].start_col == 0 || !same_link@[spans@[0].start_col - 1],
        spans@[0].end_col + 1 == same_link@.len() || !same_link@[spans@[0].end_col + 1],
{
    let cols = same_link.len();
    let mut start_col = col;
    while start_col > 0 && same_link[start_col - 1]
        invariant
            start_col <= col < cols,
            cols == same_link@.len(),
            forall|j: int| start_col <= j < col ==> #[trigger] same_link@[j],
        decreases start_col,
    {
        start_col -= 1;
    }
    let mut end_col = col;
    while end_col + 1 < cols && same_link[end_col + 1]
        invariant
            col <= end_col < cols,
            cols == same_link@.len(),
            forall|j: int| col < j <= end_col ==> #[trigger] same_link@[j],
        decreases cols - end_col,
    {
        end_col += 1;
    }
    let mut spans: Vec<UrlSpan> = Vec::new();
    spans.push(UrlSpan { line: vp_line, start_col, end_col });
    spans
}

/// The grid lines shown in the viewport: `(first, last)`.
pub open spec fn viewport_bounds_spec(display_offset: usize, lines: usize) -> (int, int) {
    (-display_offset, lines - 1 - display_offset)
}

/// How far past the viewport a wrapped URL is followed, in lines.
pub const URL_MAX_SEARCH_LINES: i32 = 100;

/// The grid lines the URL search runs over: the viewport widened by
/// [`URL_MAX_SEARCH_LINES`] on each side, but no further than the lines
/// the enclosing wrapped lines reach (`wrap_start`, `wrap_end`).
pub fn url_search_lines(display_offset: usize, lines: usize, wrap_start: i32, wrap_end: i32) -> (r: (
    i32,
    i32,
))
    requires
        display_offset <= i32::MAX - 100,
        1 <= lines <= i32::MAX - 100,
    ensures
        r.0 == max_int(wrap_start as int, -display_offset - 100),
        r.1 == min_int(wrap_end as int, lines - 1 - display_offset + 100),
{
    let viewport_start = -(display_offset as i32);
    let viewport_end = viewport_start + (lines as i32 - 1);
    let lo = viewport_start - URL_MAX_SEARCH_LINES;
    let hi = viewport_end + URL_MAX_SEARCH_LINES;
    (if wrap_start > lo { wrap_start } else { lo }, if wrap_end < hi { wrap_end } else { hi })
}

/// Match `i` lies in the leading run of matches that end above the
/// viewport's first line (`viewport_start`).
pub open spec fn skipped(matches: Seq<(GridPoint, GridPoint)>, viewport_start: i32, i: int) -> bool {
    forall|j: int| 0 <= j <= i ==> #[trigger] matches[j].1.line < viewport_start
}

/// The inclusive grid range `m` contains `p`.
pub open spec fn contains_point(m: (GridPoint, GridPoint), p: GridPoint) -> bool {
    point_le(m.0, p) && point_le(p, m.1)
}

/// Among regex matches found in reading order, match `k` is the one under
/// `point`: the leading matches that end above the viewport are skipped,
/// the scan stops at the first match that starts below the viewport's last
/// line (`viewport_end`), and `k` is the first remaining match that
/// contains `point`.
pub open spec fn picks_match(
    matches: Seq<(GridPoint, GridPoint)>,
    point: GridPoint,
    viewport_start: i32,
    viewport_end: i32,
    k: int,
) -> bool {
    &&& 0 <= k < matches.len()
    &&& !skipped(matches, viewport_start, k)
    &&& contains_point(matches[k], point)
    &&& forall|i: int|
        0 <= i <= k && !skipped(matches, viewport_start, i) ==> (#[trigger] matches[i]).0.line
            <= viewport_end
    &&& forall|i: int|
        0 <= i < k && !skipped(matches, viewport_start, i) ==> !contains_point(
            #[trigger] matches[i],
            point,
        )
}

/// Find the match under `point` (see [`picks_match`]); returns its index.
pub fn pick_url_match(
    matches: &Vec<(GridPoint, GridPoint)>,
    point: GridPoint,
    viewport_start: i32,
    viewport_end: i32,
) -> (r: Option<usize>)
    ensures
        match r {
            Some(k) => picks_match(matches@, point, viewport_start, viewport_end, k as int),
            None => forall|k: int| !picks_match(matches@, point, viewport_start, viewport_end, k),
        },
{
    let n = matches.len();
    let mut i: usize = 0;
    while i < n && matches[i].1.line < viewport_start
        invariant
            i <= n,
            n == matches@.len(),
            forall|j: int| 0 <= j < i ==> #[trigger] matches@[j].1.line < viewport_start,
        decreases n - i,
    {
        i += 1;
    }
    let p = i;
    proof {
        assert forall|k: int| 0 <= k < p implies skipped(matches@, viewport_start, k) by {
            assert forall|j: int| 0 <= j <= k implies #[trigger] matches@[j].1.line < viewport_start by {
                assert(matches@[j].1.line < viewport_start);
            }
        }
        assert forall|k: int| p <= k < n implies !skipped(matches@, viewport_start, k) by {
            assert(matches@[p as int].1.line >= viewport_start);
        }
    }
    while i < n
        invariant
            p <= i <= n,
            n == matches@.len(),
            forall|k: int| 0 <= k < p ==> skipped(matches@, viewport_start, k),
            forall|k: int| p <= k < n ==> !skipped(matches@, viewport_start, k),
            forall|k: int|
                p <= k < i ==> (#[trigger] matches@[k]).0.line <= viewport_end && !contains_point(
                    matches@[k],
                    point,
                ),
        decreases n - i,
    {
        let (a, b) = matches[i];
        if a.line > viewport_end {
            proof {
                assert forall|k: int| !picks_match(matches@, point, viewport_start, viewport_end, k) by {
                    if 0 <= k < n && !skipped(matches@, viewport_start, k) && k >= i {
                        assert(matches@[i as int].0.line > viewport_end);
                        assert(!skipped(matches@, viewport_start, i as int));
                    }
                }
            }
            return None;
        }
        let a_le = a.line < point.line || (a.line == point.line && a.column <= point.column);
        let b_ge = point.line < b.line || (point.line == b.line && point.column <= b.column);
        if a_le && b_ge {
            return Some(i);
        }
        i += 1;
    }
    None
}


/// The emulator's mode bits that the input layer reads.
#[derive(Clone, Copy, Debug, PartialEq, Eq, Structural)]
pub struct TermModes {
    /// DECCKM: application cursor keys.
    pub app_cursor: bool,
    /// DEC private mode 2004.
    pub bracketed_paste: bool,
    /// DECSET 1003.
    pub mouse_motion: bool,
    /// DECSET 1002.
    pub mouse_drag: bool,
    /// DECSET 1000.
    pub mouse_report_click: bool,
    /// DECSET 1006.
    pub sgr_mouse: bool,
    /// DECSET 1007.
    pub alternate_scroll: bool,
    pub alt_screen: bool,
}

/// Which mouse events the application asked to receive.
#[derive(Clone, Copy, Debug, PartialEq, Eq, Structural)]
pub enum MouseReporting {
    /// No reporting mode is set.
    Off,
    /// Press + release only (DECSET 1000).
    Click,
    /// Press + release + motion while a button is held (DECSET 1002).
    Drag,
    /// Press + release + all motion (DECSET 1003).
    AnyMotion,
}

/// The application's mouse-reporting preference, sampled at the moment of
/// a mouse event; the input layer decides from it whether to forward the
/// event to the PTY or to handle it locally (selection, scrolling).
#[derive(Clone, Copy, Debug, PartialEq, Eq, Structural)]
pub struct MouseMode {
    pub reporting: MouseReporting,
    /// SGR encoding (DECSET 1006). Only SGR is emitted: the legacy encoding
    /// cannot represent cells past column 223.
    pub sgr: bool,
    /// DECSET 1007: with no reporting mode active, the application wants
    /// wheel scrolls turned into arrow keys.
    pub alternate_scroll: bool,
    pub alt_screen: bool,
}

/// The most inclusive reporting mode that is set wins.
pub open spec fn reporting_of(m: TermModes) -> MouseReporting {
    if m.mouse_motion {
        MouseReporting::AnyMotion
    } else if m.mouse_drag {
        MouseReporting::Drag
    } else if m.mouse_report_click {
        MouseReporting::Click
    } else {
        MouseReporting::Off
    }
}

/// The mouse-reporting preference the mode bits describe.
pub fn mouse_mode(m: TermModes) -> (mm: MouseMode)
    ensures
        mm.reporting == reporting_of(m),
        mm.sgr == m.sgr_mouse,
        mm.alternate_scroll == m.alternate_scroll,
        mm.alt_screen == m.alt_screen,
{
    let reporting = if m.mouse_motion {
        MouseReporting::AnyMotion
    } else if m.mouse_drag {
        MouseReporting::Drag
    } else if m.mouse_report_click {
        MouseReporting::Click
    } else {
        MouseReporting::Off
    };
    MouseMode {
        reporting,
        sgr: m.sgr_mouse,
        alternate_scroll: m.alternate_scroll,
        alt_screen: m.alt_screen,
    }
}

/// The characters of a row, spacer slots (NUL) dropped.
pub open spec fn visible_chars(row: Seq<SnapCell>) -> Seq<char>
    decreases row.len(),
{
    if row.len() == 0 {
        Seq::empty()
    } else if row.last().ch == '\0' {
        visible_chars(row.drop_last())
    } else {
        visible_chars(row.drop_last()).push(row.last().ch)
    }
}

/// A row as plain text: spacer slots dropped so wide glyphs appear once,
/// trailing white space trimmed.
pub fn row_text(row: &Vec<SnapCell>) -> (t: String)
    ensures
        t@ == trim_end(visible_chars(row@)),
{
    let mut chars: Vec<char> = Vec::new();
    let mut i: usize = 0;
    while i < row.len()
        invariant
            i <= row@.len(),
            chars@ == visible_chars(row@.take(i as int)),
        decreases row@.len() - i,
    {
        assert(row@.take(i + 1).drop_last() =~= row@.take(i as int));
        if row[i].ch != '\0' {
            chars.push(row[i].ch);
        }
        i += 1;
    }
    assert(row@.take(row@.len() as int) =~= row@);
    let mut j: usize = chars.len();
    assert(chars@.subrange(0, j as int) =~= chars@);
    while j > 0 && white_space(chars[j - 1])
        invariant
            j <= chars@.len(),
            trim_end(chars@) == trim_end(chars@.subrange(0, j as int)),
        decreases j,
    {
        assert(chars@.subrange(0, j as int).drop_last() =~= chars@.subrange(0, j - 1));
        j -= 1;
    }
    let kept = copy_range(chars.as_slice(), 0, j);
    string_from_chars(kept.as_slice())
}

/// The viewport as plain text, one string per row.
pub fn snapshot_text(snap: &GridSnapshot) -> (rows: Vec<String>)
    ensures
        rows@.len() == snap.cells@.len(),
        forall|i: int|
            0 <= i < rows@.len() ==> (#[trigger] rows@[i])@ == trim_end(visible_chars(snap.cells@[i]@)),
{
    let mut rows: Vec<String> = Vec::new();
    let mut i: usize = 0;
    while i < snap.cells.len()
        invariant
            i <= snap.cells@.len(),
            rows@.len() == i,
            forall|k: int|
                0 <= k < i ==> (#[trigger] rows@[k])@ == trim_end(visible_chars(snap.cells@[k]@)),
        decreases snap.cells@.len() - i,
    {
        rows.push(row_text(&snap.cells[i]));
        i += 1;
    }
    rows
}


/// An event the emulator reports to its session.
#[derive(Clone, Debug, PartialEq, Eq)]
pub enum SessionEvent {
    /// OSC 0/1/2 title change.
    Title(String),
    ResetTitle,
    /// New output to draw.
    Wakeup,
    /// The shell exited (or the PTY closed).
    Exit,
    /// Anything else; ignored.
    Other,
}

/// The title a tab starts with, and falls back to on a title reset.
pub open spec fn initial_title() -> Seq<char> {
    seq!['s', 'h', 'e', 'l', 'l']
}

/// The per-tab state that emulator events change.
pub struct SessionState {
    pub title: String,
    pub exited: bool,
    /// When false, title-change requests from the running program are
    /// ignored and the tab keeps its title.
    pub dynamic_title: bool,
}

/// The title after `events`, starting from `title`.
pub open spec fn title_after(title: Seq<char>, dynamic_title: bool, events: Seq<SessionEvent>) -> Seq<
    char,
>
    decreases events.len(),
{
    if events.len() == 0 {
        title
    } else {
        let t = title_after(title, dynamic_title, events.drop_last());
        match events.last() {
            SessionEvent::Title(s) => if dynamic_title {
                s@
            } else {
                t
            },
            SessionEvent::ResetTitle => if dynamic_title {
                initial_title()
            } else {
                t
            },
            _ => t,
        }
    }
}

/// Some event in `events` is an exit.
pub open spec fn saw_exit(events: Seq<SessionEvent>) -> bool {
    exists|i: int| 0 <= i < events.len() && #[trigger] events[i] == SessionEvent::Exit
}

/// Some event in `events` asks for a redraw (new output or an exit).
pub open spec fn saw_wake(events: Seq<SessionEvent>) -> bool {
    exists|i: int|
        0 <= i < events.len() && (#[trigger] events[i] == SessionEvent::Exit || events[i]
            == SessionEvent::Wakeup)
}

proof fn lemma_event_flags_step(pre: Seq<SessionEvent>, post: Seq<SessionEvent>)
    requires
        post.len() > 0,
        post.drop_last() == pre,
    ensures
        saw_exit(post) == (saw_exit(pre) || post.last() == SessionEvent::Exit),
        saw_wake(post) == (saw_wake(pre) || post.last() == SessionEvent::Exit || post.last()
            == SessionEvent::Wakeup),
{
    assert forall|j: int| 0 <= j < pre.len() implies #[trigger] post[j] == pre[j] by {
        assert(post.drop_last()[j] == post[j]);
    }
    if saw_exit(pre) {
        let w = choose|j: int| 0 <= j < pre.len() && #[trigger] pre[j] == SessionEvent::Exit;
        assert(post[w] == SessionEvent::Exit);
    }
    if saw_wake(pre) {
        let w = choose|j: int|
            0 <= j < pre.len() && (#[trigger] pre[j] == SessionEvent::Exit || pre[j]
                == SessionEvent::Wakeup);
        assert(post[w] == pre[w]);
    }
    if post.last() == SessionEvent::Exit {
        assert(post[post.len() - 1] == SessionEvent::Exit);
    }
    if post.last() == SessionEvent::Wakeup {
        assert(post[post.len() - 1] == SessionEvent::Wakeup);
    }
    if saw_exit(post) {
        let w = choose|j: int| 0 <= j < post.len() && #[trigger] post[j] == SessionEvent::Exit;
        if w < pre.len() {
            assert(pre[w] == SessionEvent::Exit);
        }
    }
    if saw_wake(post) {
        let w = choose|j: int|
            0 <= j < post.len() && (#[trigger] post[j] == SessionEvent::Exit || post[j]
                == SessionEvent::Wakeup);
        if w < pre.len() {
            assert(pre[w] == post[w]);
        }
    }
}

impl SessionState {
    /// A fresh tab titled "shell".
    pub fn new(dynamic_title: bool) -> (s: SessionState)
        ensures
            s.title@ == initial_title(),
            !s.exited,
            s.dynamic_title == dynamic_title,
    {
        let title = String::from_str("shell");
        proof {
            reveal_strlit("shell");
        }
        assert(title@ =~= initial_title());
        SessionState { title, exited: false, dynamic_title }
    }

    /// Apply the pending emulator events in order. Returns whether a
    /// redraw is needed.
    pub fn pump_events(&mut self, events: &Vec<SessionEvent>) -> (wake: bool)
        ensures
            final(self).title@ == title_after(old(self).title@, old(self).dynamic_title, events@),
            final(self).exited == (old(self).exited || saw_exit(events@)),
            final(self).dynamic_title == old(self).dynamic_title,
            wake == saw_wake(events@),
    {
        let mut wake = false;
        let mut i: usize = 0;
        while i < events.len()
            invariant
                i <= events@.len(),
                self.title@ == title_after(old(self).title@, old(self).dynamic_title, events@.take(i as int)),
                self.exited == (old(self).exited || saw_exit(events@.take(i as int))),
                self.dynamic_title == old(self).dynamic_title,
                wake == saw_wake(events@.take(i as int)),
            decreases events@.len() - i,
        {
            let ghost pre = events@.take(i as int);
            let ghost post = events@.take(i + 1);
            assert(post.drop_last() =~= pre);
            assert(post.last() == events@[i as int]);
            match &events[i] {
                SessionEvent::Title(t) => {
                    if self.dynamic_title {
                        self.title = t.clone();
                    }
                },
                SessionEvent::ResetTitle => {
                    if self.dynamic_title {
                        let title = String::from_str("shell");
                        proof {
                            reveal_strlit("shell");
                        }
                        assert(title@ =~= initial_title());
                        self.title = title;
                    }
                },
                SessionEvent::Wakeup => {
                    wake = true;
                },
                SessionEvent::Exit => {
                    self.exited = true;
                    wake = true;
                },
                SessionEvent::Other => {},
            }
            proof {
                lemma_event_flags_step(pre, post);
            }
            i += 1;
        }
        assert(events@.take(events@.len() as int) =~= events@);
        wake
    }
}


/// The contents of an optional string.
pub open spec fn opt_view(o: Option<String>) -> Option<Seq<char>> {
    match o {
        Some(s) => Some(s@),
        None => None,
    }
}

/// `name (cwd)`.
pub open spec fn with_cwd(name: Seq<char>, cwd: Seq<char>) -> Seq<char> {
    name + seq![' ', '('] + cwd + seq![')']
}

/// The tab label: when a program other than the shell runs in the
/// foreground, its name and working directory as `name (cwd)`, since the
/// shell stops updating its title while a job runs; ssh keeps the title
/// the remote shell forwards; otherwise the tab's own title.
pub open spec fn tab_label_spec(
    base: Seq<char>,
    fg_pid: Option<u32>,
    shell_pid: Option<u32>,
    name: Option<Seq<char>>,
    cwd: Option<Seq<char>>,
) -> Seq<char> {
    if fg_pid is None || shell_pid == fg_pid {
        base
    } else if name == Some(seq!['s', 's', 'h']) {
        base
    } else {
        match (name, cwd) {
            (Some(n), Some(c)) => with_cwd(n, c),
            (Some(n), None) => n,
            (None, Some(c)) => with_cwd(base, c),
            (None, None) => base,
        }
    }
}

/// Whether the tty's foreground process group is a job other than the
/// shell (at the prompt the shell's own pgid, its pid, is in front).
pub fn runs_foreground_job(fg_pid: Option<u32>, shell_pid: Option<u32>) -> (b: bool)
    ensures
        b == !(fg_pid is None || shell_pid == fg_pid),
{
    match fg_pid {
        None => false,
        Some(p) => match shell_pid {
            Some(q) => q != p,
            None => true,
        },
    }
}

/// ssh is the one program whose forwarded title is kept verbatim.
pub fn keeps_own_title(name: &Option<String>) -> (b: bool)
    ensures
        b == (opt_view(*name) == Some(seq!['s', 's', 'h'])),
{
    match name {
        Some(n) => {
            let ssh = String::from_str("ssh");
            proof {
                reveal_strlit("ssh");
            }
            assert(ssh@ =~= seq!['s', 's', 'h']);
            *n == ssh
        },
        None => false,
    }
}

fn append_with_cwd(mut s: String, cwd: &str) -> (r: String)
    ensures
        r@ == with_cwd(s@, cwd@),
{
    let ghost s0 = s@;
    s.append(" (");
    s.append(cwd);
    s.append(")");
    proof {
        reveal_strlit(" (");
        reveal_strlit(")");
    }
    assert(s@ =~= with_cwd(s0, cwd@));
    s
}

/// Compose the tab label from the tab's title, the tty's foreground
/// process group, the shell's pid, and the foreground program's name and
/// working directory (home shown as `~`), where they could be read.
pub fn compute_tab_label(
    base: &str,
    fg_pid: Option<u32>,
    shell_pid: Option<u32>,
    name: Option<String>,
    cwd: Option<String>,
) -> (label: String)
    ensures
        label@ == tab_label_spec(base@, fg_pid, shell_pid, opt_view(name), opt_view(cwd)),
{
    if !runs_foreground_job(fg_pid, shell_pid) || keeps_own_title(&name) {
        return base.to_owned();
    }
    match (name, cwd) {
        (Some(n), Some(c)) => append_with_cwd(n, c.as_str()),
        (Some(n), None) => n,
        (None, Some(c)) => append_with_cwd(base.to_owned(), c.as_str()),
        (None, None) => base.to_owned(),
    }
}


/// Which half of a cell the pointer is over.
#[derive(Clone, Copy, Debug, PartialEq, Eq, Structural)]
pub enum Side {
    Left,
    Right,
}

/// Where a selection starts or is extended to for a pointer over viewport
/// cell (`vp_line`, `vp_col`): the cell clamped to the grid, moved into
/// grid coordinates, and the half of the cell the pointer is over.
pub fn selection_anchor(
    vp_line: usize,
    vp_col: usize,
    right_half: bool,
    lines: usize,
    cols: usize,
    display_offset: usize,
) -> (r: (GridPoint, Side))
    requires
        display_offset <= i32::MAX,
        lines <= i32::MAX,
    ensures
        r.0.line == min_int(vp_line as int, last_index(lines)) - display_offset,
        r.0.column == min_int(vp_col as int, last_index(cols)),
        r.1 == (if right_half { Side::Right } else { Side::Left }),
{
    let last_line = if lines == 0 { 0 } else { lines - 1 };
    let last_col = if cols == 0 { 0 } else { cols - 1 };
    let l = if vp_line < last_line { vp_line } else { last_line };
    let c = if vp_col < last_col { vp_col } else { last_col };
    let side = if right_half { Side::Right } else { Side::Left };
    (GridPoint { line: l as i32 - display_offset as i32, column: c }, side)
}

/// Whether viewport cell (`vp_line`, `vp_col`) lies inside a `lines` x
/// `cols` grid.
pub fn in_viewport(vp_line: usize, vp_col: usize, lines: usize, cols: usize) -> (b: bool)
    ensures
        b == (vp_line < lines && vp_col < cols),
{
    !(cols == 0 || lines == 0 || vp_line >= lines || vp_col >= cols)
}


/// With dynamic titles off, no event changes a tab's title.
pub proof fn law_static_title(title: Seq<char>, events: Seq<SessionEvent>)
    ensures
        title_after(title, false, events) == title,
    decreases events.len(),
{
    if events.len() > 0 {
        law_static_title(title, events.drop_last());
    }
}

/// A title change is reported by the last title event: after a run of
/// events ending in `Title(t)`, the title is `t` (with dynamic titles on).
pub proof fn law_last_title_wins(title: Seq<char>, events: Seq<SessionEvent>, t: String)
    requires
        events.len() > 0,
        events.last() == SessionEvent::Title(t),
    ensures
        title_after(title, true, events) == t@,
{
}

} // verus!
