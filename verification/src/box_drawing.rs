//! Which glyphs are drawn procedurally instead of from the font, and the
//! geometry-free part of drawing them: the line weights of each box-drawing
//! character, the square glyph family, and the braille dot layout.
//!
//! Most monospace fonts draw box-drawing characters (U+2500-U+259F) a
//! little narrower than the cell, so adjacent `─` cells show a visible gap;
//! the braille range (U+2800-U+28FF), used for bar graphs, has the same
//! problem. `⏺` (U+23FA) and the square family `■ □ ▪ ▫ ⬝ ⬞` are missing
//! from many monospace fonts. These are drawn as quads sized to the cell.

use vstd::prelude::*;

verus! {

/// The character is one the renderer draws itself.
pub open spec fn is_handled_spec(ch: char) -> bool {
    let c = ch as u32;
    ||| (0x2500 <= c && c <= 0x259F)
    ||| (0x2800 <= c && c <= 0x28FF)
    ||| c == 0x23FA
    ||| square_spec_of(ch) is Some
}

/// Side (in tenths of the cell width) and fill of the square glyphs. The
/// three sizes follow the Unicode names: BLACK SQUARE, BLACK SMALL SQUARE,
/// BLACK VERY SMALL SQUARE, each with a hollow (WHITE) twin.
pub open spec fn square_spec_of(ch: char) -> Option<(u8, bool)> {
    if ch == '\u{25A0}' {
        Some((8, true))
    } else if ch == '\u{25A1}' {
        Some((8, false))
    } else if ch == '\u{25AA}' {
        Some((5, true))
    } else if ch == '\u{25AB}' {
        Some((5, false))
    } else if ch == '\u{2B1D}' {
        Some((3, true))
    } else if ch == '\u{2B1E}' {
        Some((3, false))
    } else {
        None
    }
}

/// Side (tenths of the cell width) and fill of a square glyph; `None` for
/// every other character.
pub fn square_spec(ch: char) -> (r: Option<(u8, bool)>)
    ensures
        r == square_spec_of(ch),
{
    if ch == '\u{25A0}' {
        Some((8, true))
    } else if ch == '\u{25A1}' {
        Some((8, false))
    } else if ch == '\u{25AA}' {
        Some((5, true))
    } else if ch == '\u{25AB}' {
        Some((5, false))
    } else if ch == '\u{2B1D}' {
        Some((3, true))
    } else if ch == '\u{2B1E}' {
        Some((3, false))
    } else {
        None
    }
}

/// Whether `ch` is drawn procedurally (the caller then suppresses the
/// font glyph for that cell).
pub fn is_handled(ch: char) -> (b: bool)
    ensures
        b == is_handled_spec(ch),
{
    let c = ch as u32;
    (0x2500 <= c && c <= 0x259F) || (0x2800 <= c && c <= 0x28FF) || c == 0x23FA || square_spec(
        ch,
    ).is_some()
}

/// How a procedurally drawn glyph is drawn.
#[derive(Clone, Copy, Debug, PartialEq, Eq, Structural)]
pub enum GlyphKind {
    /// U+2500-U+257F: lines from the cell edges to its centre.
    BoxDrawing,
    /// U+2580-U+259F: filled fractions of the cell and shades.
    BlockElement,
    /// U+2800-U+28FF, with its dot mask.
    Braille(u8),
    /// U+23FA: a filled circle.
    Circle,
    /// A square glyph: side in tenths of the cell width, filled or hollow.
    Square(u8, bool),
    /// Drawn from the font.
    Font,
}

/// Which drawing routine, if any, handles `ch`.
pub open spec fn glyph_kind_spec(ch: char) -> GlyphKind {
    let c = ch as u32;
    if 0x2500 <= c && c <= 0x257F {
        GlyphKind::BoxDrawing
    } else if 0x2580 <= c && c <= 0x259F {
        GlyphKind::BlockElement
    } else if 0x2800 <= c && c <= 0x28FF {
        GlyphKind::Braille((c - 0x2800) as u8)
    } else if c == 0x23FA {
        GlyphKind::Circle
    } else {
        match square_spec_of(ch) {
            Some((tenths, filled)) => GlyphKind::Square(tenths, filled),
            None => GlyphKind::Font,
        }
    }
}

/// Pick the drawing routine for `ch`.
pub fn glyph_kind(ch: char) -> (k: GlyphKind)
    ensures
        k == glyph_kind_spec(ch),
{
    let c = ch as u32;
    if 0x2500 <= c && c <= 0x257F {
        GlyphKind::BoxDrawing
    } else if 0x2580 <= c && c <= 0x259F {
        GlyphKind::BlockElement
    } else if 0x2800 <= c && c <= 0x28FF {
        GlyphKind::Braille((c - 0x2800) as u8)
    } else if c == 0x23FA {
        GlyphKind::Circle
    } else {
        match square_spec(ch) {
            Some((tenths, filled)) => GlyphKind::Square(tenths, filled),
            None => GlyphKind::Font,
        }
    }
}

/// A character is drawn procedurally exactly when some routine other than
/// the font draws it.
pub proof fn law_handled_iff_drawn(ch: char)
    ensures
        is_handled_spec(ch) <==> glyph_kind_spec(ch) != GlyphKind::Font,
{
}

/// Line weight at a cell edge: no line, a light (1x) stroke, a heavy (2x)
/// stroke, or two parallel light strokes.
#[derive(Clone, Copy, Debug, PartialEq, Eq, Structural)]
pub enum Weight {
    NoLine,
    Light,
    Heavy,
    Double,
}

/// Dash style of a straight line.
#[derive(Clone, Copy, Debug, PartialEq, Eq, Structural)]
pub enum Dash {
    Solid,
    /// U+254C-U+254F.
    Double,
    /// U+2504-U+2507.
    Triple,
    /// U+2508-U+250B.
    Quad,
}

/// The line weights toward each edge of the cell, and the dash style.
#[derive(Clone, Copy, Debug, PartialEq, Eq, Structural)]
pub struct Sides {
    pub left: Weight,
    pub right: Weight,
    pub up: Weight,
    pub down: Weight,
    pub dash: Dash,
}

pub open spec fn sides(left: Weight, right: Weight, up: Weight, down: Weight, dash: Dash) -> Sides {
    Sides { left, right, up, down, dash }
}

impl Sides {
    /// No line toward any edge.
    pub fn none() -> (s: Sides)
        ensures
            s == sides(Weight::NoLine, Weight::NoLine, Weight::NoLine, Weight::NoLine, Dash::Solid),
    {
        Sides {
            left: Weight::NoLine,
            right: Weight::NoLine,
            up: Weight::NoLine,
            down: Weight::NoLine,
            dash: Dash::Solid,
        }
    }

    /// The weight that sets the horizontal stroke: the left one, or the
    /// right one when there is no line to the left.
    pub fn horizontal_weight(&self) -> (w: Weight)
        ensures
            w == (if self.left != Weight::NoLine { self.left } else { self.right }),
    {
        if self.left != Weight::NoLine { self.left } else { self.right }
    }

    /// The weight that sets the vertical stroke: the upper one, or the
    /// lower one when there is no line upward.
    pub fn vertical_weight(&self) -> (w: Weight)
        ensures
            w == (if self.up != Weight::NoLine { self.up } else { self.down }),
    {
        if self.up != Weight::NoLine { self.up } else { self.down }
    }

    /// A dashed line runs horizontally when it has a line to the left or
    /// to the right.
    pub fn is_horizontal(&self) -> (b: bool)
        ensures
            b == (self.left != Weight::NoLine || self.right != Weight::NoLine),
    {
        self.left != Weight::NoLine || self.right != Weight::NoLine
    }
}

fn mk(left: Weight, right: Weight, up: Weight, down: Weight, dash: Dash) -> (s: Sides)
    ensures
        s == sides(left, right, up, down, dash),
{
    Sides { left, right, up, down, dash }
}

/// The line weights of each box-drawing character. Rounded corners are
/// drawn as plain corners; the diagonals and unmapped characters have no
/// edge lines.
pub open spec fn sides_spec(ch: char) -> Sides {
    match ch {
        '─' => sides(Weight::Light, Weight::Light, Weight::NoLine, Weight::NoLine, Dash::Solid),
        '━' => sides(Weight::Heavy, Weight::Heavy, Weight::NoLine, Weight::NoLine, Dash::Solid),
        '│' => sides(Weight::NoLine, Weight::NoLine, Weight::Light, Weight::Light, Dash::Solid),
        '┃' => sides(Weight::NoLine, Weight::NoLine, Weight::Heavy, Weight::Heavy, Dash::Solid),
        '┄' => sides(Weight::Light, Weight::Light, Weight::NoLine, Weight::NoLine, Dash::Triple),
        '┅' => sides(Weight::Heavy, Weight::Heavy, Weight::NoLine, Weight::NoLine, Dash::Triple),
        '┆' => sides(Weight::NoLine, Weight::NoLine, Weight::Light, Weight::Light, Dash::Triple),
        '┇' => sides(Weight::NoLine, Weight::NoLine, Weight::Heavy, Weight::Heavy, Dash::Triple),
        '┈' => sides(Weight::Light, Weight::Light, Weight::NoLine, Weight::NoLine, Dash::Quad),
        '┉' => sides(Weight::Heavy, Weight::Heavy, Weight::NoLine, Weight::NoLine, Dash::Quad),
        '┊' => sides(Weight::NoLine, Weight::NoLine, Weight::Light, Weight::Light, Dash::Quad),
        '┋' => sides(Weight::NoLine, Weight::NoLine, Weight::Heavy, Weight::Heavy, Dash::Quad),
        '╌' => sides(Weight::Light, Weight::Light, Weight::NoLine, Weight::NoLine, Dash::Double),
        '╍' => sides(Weight::Heavy, Weight::Heavy, Weight::NoLine, Weight::NoLine, Dash::Double),
        '╎' => sides(Weight::NoLine, Weight::NoLine, Weight::Light, Weight::Light, Dash::Double),
        '╏' => sides(Weight::NoLine, Weight::NoLine, Weight::Heavy, Weight::Heavy, Dash::Double),
        '┌' => sides(Weight::NoLine, Weight::Light, Weight::NoLine, Weight::Light, Dash::Solid),
        '┐' => sides(Weight::Light, Weight::NoLine, Weight::NoLine, Weight::Light, Dash::Solid),
        '└' => sides(Weight::NoLine, Weight::Light, Weight::Light, Weight::NoLine, Dash::Solid),
        '┘' => sides(Weight::Light, Weight::NoLine, Weight::Light, Weight::NoLine, Dash::Solid),
        '┏' => sides(Weight::NoLine, Weight::Heavy, Weight::NoLine, Weight::Heavy, Dash::Solid),
        '┓' => sides(Weight::Heavy, Weight::NoLine, Weight::NoLine, Weight::Heavy, Dash::Solid),
        '┗' => sides(Weight::NoLine, Weight::Heavy, Weight::Heavy, Weight::NoLine, Dash::Solid),
        '┛' => sides(Weight::Heavy, Weight::NoLine, Weight::Heavy, Weight::NoLine, Dash::Solid),
        '┍' => sides(Weight::NoLine, Weight::Heavy, Weight::NoLine, Weight::Light, Dash::Solid),
        '┎' => sides(Weight::NoLine, Weight::Light, Weight::NoLine, Weight::Heavy, Dash::Solid),
        '┑' => sides(Weight::Heavy, Weight::NoLine, Weight::NoLine, Weight::Light, Dash::Solid),
        '┒' => sides(Weight::Light, Weight::NoLine, Weight::NoLine, Weight::Heavy, Dash::Solid),
        '┕' => sides(Weight::NoLine, Weight::Heavy, Weight::Light, Weight::NoLine, Dash::Solid),
        '┖' => sides(Weight::NoLine, Weight::Light, Weight::Heavy, Weight::NoLine, Dash::Solid),
        '┙' => sides(Weight::Heavy, Weight::NoLine, Weight::Light, Weight::NoLine, Dash::Solid),
        '┚' => sides(Weight::Light, Weight::NoLine, Weight::Heavy, Weight::NoLine, Dash::Solid),
        '╭' => sides(Weight::NoLine, Weight::Light, Weight::NoLine, Weight::Light, Dash::Solid),
        '╮' => sides(Weight::Light, Weight::NoLine, Weight::NoLine, Weight::Light, Dash::Solid),
        '╯' => sides(Weight::Light, Weight::NoLine, Weight::Light, Weight::NoLine, Dash::Solid),
        '╰' => sides(Weight::NoLine, Weight::Light, Weight::Light, Weight::NoLine, Dash::Solid),
        '├' => sides(Weight::NoLine, Weight::Light, Weight::Light, Weight::Light, Dash::Solid),
        '┤' => sides(Weight::Light, Weight::NoLine, Weight::Light, Weight::Light, Dash::Solid),
        '┬' => sides(Weight::Light, Weight::Light, Weight::NoLine, Weight::Light, Dash::Solid),
        '┴' => sides(Weight::Light, Weight::Light, Weight::Light, Weight::NoLine, Dash::Solid),
        '┼' => sides(Weight::Light, Weight::Light, Weight::Light, Weight::Light, Dash::Solid),
        '┣' => sides(Weight::NoLine, Weight::Heavy, Weight::Heavy, Weight::Heavy, Dash::Solid),
        '┫' => sides(Weight::Heavy, Weight::NoLine, Weight::Heavy, Weight::Heavy, Dash::Solid),
        '┳' => sides(Weight::Heavy, Weight::Heavy, Weight::NoLine, Weight::Heavy, Dash::Solid),
        '┻' => sides(Weight::Heavy, Weight::Heavy, Weight::Heavy, Weight::NoLine, Dash::Solid),
        '╋' => sides(Weight::Heavy, Weight::Heavy, Weight::Heavy, Weight::Heavy, Dash::Solid),
        '┝' => sides(Weight::NoLine, Weight::Heavy, Weight::Light, Weight::Light, Dash::Solid),
        '┞' => sides(Weight::NoLine, Weight::Light, Weight::Heavy, Weight::Light, Dash::Solid),
        '┟' => sides(Weight::NoLine, Weight::Light, Weight::Light, Weight::Heavy, Dash::Solid),
        '┠' => sides(Weight::NoLine, Weight::Light, Weight::Heavy, Weight::Heavy, Dash::Solid),
        '┡' => sides(Weight::NoLine, Weight::Heavy, Weight::Heavy, Weight::Light, Dash::Solid),
        '┢' => sides(Weight::NoLine, Weight::Heavy, Weight::Light, Weight::Heavy, Dash::Solid),
        '┥' => sides(Weight::Heavy, Weight::NoLine, Weight::Light, Weight::Light, Dash::Solid),
        '┦' => sides(Weight::Light, Weight::NoLine, Weight::Heavy, Weight::Light, Dash::Solid),
        '┧' => sides(Weight::Light, Weight::NoLine, Weight::Light, Weight::Heavy, Dash::Solid),
        '┨' => sides(Weight::Light, Weight::NoLine, Weight::Heavy, Weight::Heavy, Dash::Solid),
        '┩' => sides(Weight::Heavy, Weight::NoLine, Weight::Heavy, Weight::Light, Dash::Solid),
        '┪' => sides(Weight::Heavy, Weight::NoLine, Weight::Light, Weight::Heavy, Dash::Solid),
        '┭' => sides(Weight::Heavy, Weight::Light, Weight::NoLine, Weight::Light, Dash::Solid),
        '┮' => sides(Weight::Light, Weight::Heavy, Weight::NoLine, Weight::Light, Dash::Solid),
        '┯' => sides(Weight::Heavy, Weight::Heavy, Weight::NoLine, Weight::Light, Dash::Solid),
        '┰' => sides(Weight::Light, Weight::Light, Weight::NoLine, Weight::Heavy, Dash::Solid),
        '┱' => sides(Weight::Heavy, Weight::Light, Weight::NoLine, Weight::Heavy, Dash::Solid),
        '┲' => sides(Weight::Light, Weight::Heavy, Weight::NoLine, Weight::Heavy, Dash::Solid),
        '┵' => sides(Weight::Heavy, Weight::Light, Weight::Light, Weight::NoLine, Dash::Solid),
        '┶' => sides(Weight::Light, Weight::Heavy, Weight::Light, Weight::NoLine, Dash::Solid),
        '┷' => sides(Weight::Heavy, Weight::Heavy, Weight::Light, Weight::NoLine, Dash::Solid),
        '┸' => sides(Weight::Light, Weight::Light, Weight::Heavy, Weight::NoLine, Dash::Solid),
        '┹' => sides(Weight::Heavy, Weight::Light, Weight::Heavy, Weight::NoLine, Dash::Solid),
        '┺' => sides(Weight::Light, Weight::Heavy, Weight::Heavy, Weight::NoLine, Dash::Solid),
        '┽' => sides(Weight::Heavy, Weight::Light, Weight::Light, Weight::Light, Dash::Solid),
        '┾' => sides(Weight::Light, Weight::Heavy, Weight::Light, Weight::Light, Dash::Solid),
        '┿' => sides(Weight::Heavy, Weight::Heavy, Weight::Light, Weight::Light, Dash::Solid),
        '╀' => sides(Weight::Light, Weight::Light, Weight::Heavy, Weight::Light, Dash::Solid),
        '╁' => sides(Weight::Light, Weight::Light, Weight::Light, Weight::Heavy, Dash::Solid),
        '╂' => sides(Weight::Light, Weight::Light, Weight::Heavy, Weight::Heavy, Dash::Solid),
        '╃' => sides(Weight::Heavy, Weight::Light, Weight::Heavy, Weight::Light, Dash::Solid),
        '╄' => sides(Weight::Light, Weight::Heavy, Weight::Heavy, Weight::Light, Dash::Solid),
        '╅' => sides(Weight::Heavy, Weight::Light, Weight::Light, Weight::Heavy, Dash::Solid),
        '╆' => sides(Weight::Light, Weight::Heavy, Weight::Light, Weight::Heavy, Dash::Solid),
        '╇' => sides(Weight::Heavy, Weight::Heavy, Weight::Heavy, Weight::Light, Dash::Solid),
        '╈' => sides(Weight::Heavy, Weight::Heavy, Weight::Light, Weight::Heavy, Dash::Solid),
        '╉' => sides(Weight::Heavy, Weight::Light, Weight::Heavy, Weight::Heavy, Dash::Solid),
        '╊' => sides(Weight::Light, Weight::Heavy, Weight::Heavy, Weight::Heavy, Dash::Solid),
        '╴' => sides(Weight::Light, Weight::NoLine, Weight::NoLine, Weight::NoLine, Dash::Solid),
        '╵' => sides(Weight::NoLine, Weight::NoLine, Weight::Light, Weight::NoLine, Dash::Solid),
        '╶' => sides(Weight::NoLine, Weight::Light, Weight::NoLine, Weight::NoLine, Dash::Solid),
        '╷' => sides(Weight::NoLine, Weight::NoLine, Weight::NoLine, Weight::Light, Dash::Solid),
        '╸' => sides(Weight::Heavy, Weight::NoLine, Weight::NoLine, Weight::NoLine, Dash::Solid),
        '╹' => sides(Weight::NoLine, Weight::NoLine, Weight::Heavy, Weight::NoLine, Dash::Solid),
        '╺' => sides(Weight::NoLine, Weight::Heavy, Weight::NoLine, Weight::NoLine, Dash::Solid),
        '╻' => sides(Weight::NoLine, Weight::NoLine, Weight::NoLine, Weight::Heavy, Dash::Solid),
        '╼' => sides(Weight::Light, Weight::Heavy, Weight::NoLine, Weight::NoLine, Dash::Solid),
        '╽' => sides(Weight::NoLine, Weight::NoLine, Weight::Light, Weight::Heavy, Dash::Solid),
        '╾' => sides(Weight::Heavy, Weight::Light, Weight::NoLine, Weight::NoLine, Dash::Solid),
        '╿' => sides(Weight::NoLine, Weight::NoLine, Weight::Heavy, Weight::Light, Dash::Solid),
        '═' => sides(Weight::Double, Weight::Double, Weight::NoLine, Weight::NoLine, Dash::Solid),
        '║' => sides(Weight::NoLine, Weight::NoLine, Weight::Double, Weight::Double, Dash::Solid),
        '╔' => sides(Weight::NoLine, Weight::Double, Weight::NoLine, Weight::Double, Dash::Solid),
        '╗' => sides(Weight::Double, Weight::NoLine, Weight::NoLine, Weight::Double, Dash::Solid),
        '╚' => sides(Weight::NoLine, Weight::Double, Weight::Double, Weight::NoLine, Dash::Solid),
        '╝' => sides(Weight::Double, Weight::NoLine, Weight::Double, Weight::NoLine, Dash::Solid),
        '╠' => sides(Weight::NoLine, Weight::Double, Weight::Double, Weight::Double, Dash::Solid),
        '╣' => sides(Weight::Double, Weight::NoLine, Weight::Double, Weight::Double, Dash::Solid),
        '╦' => sides(Weight::Double, Weight::Double, Weight::NoLine, Weight::Double, Dash::Solid),
        '╩' => sides(Weight::Double, Weight::Double, Weight::Double, Weight::NoLine, Dash::Solid),
        '╬' => sides(Weight::Double, Weight::Double, Weight::Double, Weight::Double, Dash::Solid),
        '╒' => sides(Weight::NoLine, Weight::Double, Weight::NoLine, Weight::Light, Dash::Solid),
        '╓' => sides(Weight::NoLine, Weight::Light, Weight::NoLine, Weight::Double, Dash::Solid),
        '╕' => sides(Weight::Double, Weight::NoLine, Weight::NoLine, Weight::Light, Dash::Solid),
        '╖' => sides(Weight::Light, Weight::NoLine, Weight::NoLine, Weight::Double, Dash::Solid),
        '╘' => sides(Weight::NoLine, Weight::Double, Weight::Light, Weight::NoLine, Dash::Solid),
        '╙' => sides(Weight::NoLine, Weight::Light, Weight::Double, Weight::NoLine, Dash::Solid),
        '╛' => sides(Weight::Double, Weight::NoLine, Weight::Light, Weight::NoLine, Dash::Solid),
        '╜' => sides(Weight::Light, Weight::NoLine, Weight::Double, Weight::NoLine, Dash::Solid),
        '╞' => sides(Weight::NoLine, Weight::Double, Weight::Light, Weight::Light, Dash::Solid),
        '╟' => sides(Weight::NoLine, Weight::Light, Weight::Double, Weight::Double, Dash::Solid),
        '╡' => sides(Weight::Double, Weight::NoLine, Weight::Light, Weight::Light, Dash::Solid),
        '╢' => sides(Weight::Light, Weight::NoLine, Weight::Double, Weight::Double, Dash::Solid),
        '╤' => sides(Weight::Double, Weight::Double, Weight::NoLine, Weight::Light, Dash::Solid),
        '╥' => sides(Weight::Light, Weight::Light, Weight::NoLine, Weight::Double, Dash::Solid),
        '╧' => sides(Weight::Double, Weight::Double, Weight::Light, Weight::NoLine, Dash::Solid),
        '╨' => sides(Weight::Light, Weight::Light, Weight::Double, Weight::NoLine, Dash::Solid),
        '╪' => sides(Weight::Double, Weight::Double, Weight::Light, Weight::Light, Dash::Solid),
        '╫' => sides(Weight::Light, Weight::Light, Weight::Double, Weight::Double, Dash::Solid),
        _ => sides(Weight::NoLine, Weight::NoLine, Weight::NoLine, Weight::NoLine, Dash::Solid),
    }
}

/// The line weights of a box-drawing character (see [`sides_spec`]).
#[verifier::spinoff_prover]
#[verifier::rlimit(40)]
pub fn sides_for(ch: char) -> (s: Sides)
    ensures
        s == sides_spec(ch),
{
    match ch {
        '─' => mk(Weight::Light, Weight::Light, Weight::NoLine, Weight::NoLine, Dash::Solid),
        '━' => mk(Weight::Heavy, Weight::Heavy, Weight::NoLine, Weight::NoLine, Dash::Solid),
        '│' => mk(Weight::NoLine, Weight::NoLine, Weight::Light, Weight::Light, Dash::Solid),
        '┃' => mk(Weight::NoLine, Weight::NoLine, Weight::Heavy, Weight::Heavy, Dash::Solid),
        '┄' => mk(Weight::Light, Weight::Light, Weight::NoLine, Weight::NoLine, Dash::Triple),
        '┅' => mk(Weight::Heavy, Weight::Heavy, Weight::NoLine, Weight::NoLine, Dash::Triple),
        '┆' => mk(Weight::NoLine, Weight::NoLine, Weight::Light, Weight::Light, Dash::Triple),
        '┇' => mk(Weight::NoLine, Weight::NoLine, Weight::Heavy, Weight::Heavy, Dash::Triple),
        '┈' => mk(Weight::Light, Weight::Light, Weight::NoLine, Weight::NoLine, Dash::Quad),
        '┉' => mk(Weight::Heavy, Weight::Heavy, Weight::NoLine, Weight::NoLine, Dash::Quad),
        '┊' => mk(Weight::NoLine, Weight::NoLine, Weight::Light, Weight::Light, Dash::Quad),
        '┋' => mk(Weight::NoLine, Weight::NoLine, Weight::Heavy, Weight::Heavy, Dash::Quad),
        '╌' => mk(Weight::Light, Weight::Light, Weight::NoLine, Weight::NoLine, Dash::Double),
        '╍' => mk(Weight::Heavy, Weight::Heavy, Weight::NoLine, Weight::NoLine, Dash::Double),
        '╎' => mk(Weight::NoLine, Weight::NoLine, Weight::Light, Weight::Light, Dash::Double),
        '╏' => mk(Weight::NoLine, Weight::NoLine, Weight::Heavy, Weight::Heavy, Dash::Double),
        '┌' => mk(Weight::NoLine, Weight::Light, Weight::NoLine, Weight::Light, Dash::Solid),
        '┐' => mk(Weight::Light, Weight::NoLine, Weight::NoLine, Weight::Light, Dash::Solid),
        '└' => mk(Weight::NoLine, Weight::Light, Weight::Light, Weight::NoLine, Dash::Solid),
        '┘' => mk(Weight::Light, Weight::NoLine, Weight::Light, Weight::NoLine, Dash::Solid),
        '┏' => mk(Weight::NoLine, Weight::Heavy, Weight::NoLine, Weight::Heavy, Dash::Solid),
        '┓' => mk(Weight::Heavy, Weight::NoLine, Weight::NoLine, Weight::Heavy, Dash::Solid),
        '┗' => mk(Weight::NoLine, Weight::Heavy, Weight::Heavy, Weight::NoLine, Dash::Solid),
        '┛' => mk(Weight::Heavy, Weight::NoLine, Weight::Heavy, Weight::NoLine, Dash::Solid),
        '┍' => mk(Weight::NoLine, Weight::Heavy, Weight::NoLine, Weight::Light, Dash::Solid),
        '┎' => mk(Weight::NoLine, Weight::Light, Weight::NoLine, Weight::Heavy, Dash::Solid),
        '┑' => mk(Weight::Heavy, Weight::NoLine, Weight::NoLine, Weight::Light, Dash::Solid),
        '┒' => mk(Weight::Light, Weight::NoLine, Weight::NoLine, Weight::Heavy, Dash::Solid),
        '┕' => mk(Weight::NoLine, Weight::Heavy, Weight::Light, Weight::NoLine, Dash::Solid),
        '┖' => mk(Weight::NoLine, Weight::Light, Weight::Heavy, Weight::NoLine, Dash::Solid),
        '┙' => mk(Weight::Heavy, Weight::NoLine, Weight::Light, Weight::NoLine, Dash::Solid),
        '┚' => mk(Weight::Light, Weight::NoLine, Weight::Heavy, Weight::NoLine, Dash::Solid),
        '╭' => mk(Weight::NoLine, Weight::Light, Weight::NoLine, Weight::Light, Dash::Solid),
        '╮' => mk(Weight::Light, Weight::NoLine, Weight::NoLine, Weight::Light, Dash::Solid),
        '╯' => mk(Weight::Light, Weight::NoLine, Weight::Light, Weight::NoLine, Dash::Solid),
        '╰' => mk(Weight::NoLine, Weight::Light, Weight::Light, Weight::NoLine, Dash::Solid),
        '├' => mk(Weight::NoLine, Weight::Light, Weight::Light, Weight::Light, Dash::Solid),
        '┤' => mk(Weight::Light, Weight::NoLine, Weight::Light, Weight::Light, Dash::Solid),
        '┬' => mk(Weight::Light, Weight::Light, Weight::NoLine, Weight::Light, Dash::Solid),
        '┴' => mk(Weight::Light, Weight::Light, Weight::Light, Weight::NoLine, Dash::Solid),
        '┼' => mk(Weight::Light, Weight::Light, Weight::Light, Weight::Light, Dash::Solid),
        '┣' => mk(Weight::NoLine, Weight::Heavy, Weight::Heavy, Weight::Heavy, Dash::Solid),
        '┫' => mk(Weight::Heavy, Weight::NoLine, Weight::Heavy, Weight::Heavy, Dash::Solid),
        '┳' => mk(Weight::Heavy, Weight::Heavy, Weight::NoLine, Weight::Heavy, Dash::Solid),
        '┻' => mk(Weight::Heavy, Weight::Heavy, Weight::Heavy, Weight::NoLine, Dash::Solid),
        '╋' => mk(Weight::Heavy, Weight::Heavy, Weight::Heavy, Weight::Heavy, Dash::Solid),
        '┝' => mk(Weight::NoLine, Weight::Heavy, Weight::Light, Weight::Light, Dash::Solid),
        '┞' => mk(Weight::NoLine, Weight::Light, Weight::Heavy, Weight::Light, Dash::Solid),
        '┟' => mk(Weight::NoLine, Weight::Light, Weight::Light, Weight::Heavy, Dash::Solid),
        '┠' => mk(Weight::NoLine, Weight::Light, Weight::Heavy, Weight::Heavy, Dash::Solid),
        '┡' => mk(Weight::NoLine, Weight::Heavy, Weight::Heavy, Weight::Light, Dash::Solid),
        '┢' => mk(Weight::NoLine, Weight::Heavy, Weight::Light, Weight::Heavy, Dash::Solid),
        '┥' => mk(Weight::Heavy, Weight::NoLine, Weight::Light, Weight::Light, Dash::Solid),
        '┦' => mk(Weight::Light, Weight::NoLine, Weight::Heavy, Weight::Light, Dash::Solid),
        '┧' => mk(Weight::Light, Weight::NoLine, Weight::Light, Weight::Heavy, Dash::Solid),
        '┨' => mk(Weight::Light, Weight::NoLine, Weight::Heavy, Weight::Heavy, Dash::Solid),
        '┩' => mk(Weight::Heavy, Weight::NoLine, Weight::Heavy, Weight::Light, Dash::Solid),
        '┪' => mk(Weight::Heavy, Weight::NoLine, Weight::Light, Weight::Heavy, Dash::Solid),
        '┭' => mk(Weight::Heavy, Weight::Light, Weight::NoLine, Weight::Light, Dash::Solid),
        '┮' => mk(Weight::Light, Weight::Heavy, Weight::NoLine, Weight::Light, Dash::Solid),
        '┯' => mk(Weight::Heavy, Weight::Heavy, Weight::NoLine, Weight::Light, Dash::Solid),
        '┰' => mk(Weight::Light, Weight::Light, Weight::NoLine, Weight::Heavy, Dash::Solid),
        '┱' => mk(Weight::Heavy, Weight::Light, Weight::NoLine, Weight::Heavy, Dash::Solid),
        '┲' => mk(Weight::Light, Weight::Heavy, Weight::NoLine, Weight::Heavy, Dash::Solid),
        '┵' => mk(Weight::Heavy, Weight::Light, Weight::Light, Weight::NoLine, Dash::Solid),
        '┶' => mk(Weight::Light, Weight::Heavy, Weight::Light, Weight::NoLine, Dash::Solid),
        '┷' => mk(Weight::Heavy, Weight::Heavy, Weight::Light, Weight::NoLine, Dash::Solid),
        '┸' => mk(Weight::Light, Weight::Light, Weight::Heavy, Weight::NoLine, Dash::Solid),
        '┹' => mk(Weight::Heavy, Weight::Light, Weight::Heavy, Weight::NoLine, Dash::Solid),
        '┺' => mk(Weight::Light, Weight::Heavy, Weight::Heavy, Weight::NoLine, Dash::Solid),
        '┽' => mk(Weight::Heavy, Weight::Light, Weight::Light, Weight::Light, Dash::Solid),
        '┾' => mk(Weight::Light, Weight::Heavy, Weight::Light, Weight::Light, Dash::Solid),
        '┿' => mk(Weight::Heavy, Weight::Heavy, Weight::Light, Weight::Light, Dash::Solid),
        '╀' => mk(Weight::Light, Weight::Light, Weight::Heavy, Weight::Light, Dash::Solid),
        '╁' => mk(Weight::Light, Weight::Light, Weight::Light, Weight::Heavy, Dash::Solid),
        '╂' => mk(Weight::Light, Weight::Light, Weight::Heavy, Weight::Heavy, Dash::Solid),
        '╃' => mk(Weight::Heavy, Weight::Light, Weight::Heavy, Weight::Light, Dash::Solid),
        '╄' => mk(Weight::Light, Weight::Heavy, Weight::Heavy, Weight::Light, Dash::Solid),
        '╅' => mk(Weight::Heavy, Weight::Light, Weight::Light, Weight::Heavy, Dash::Solid),
        '╆' => mk(Weight::Light, Weight::Heavy, Weight::Light, Weight::Heavy, Dash::Solid),
        '╇' => mk(Weight::Heavy, Weight::Heavy, Weight::Heavy, Weight::Light, Dash::Solid),
        '╈' => mk(Weight::Heavy, Weight::Heavy, Weight::Light, Weight::Heavy, Dash::Solid),
        '╉' => mk(Weight::Heavy, Weight::Light, Weight::Heavy, Weight::Heavy, Dash::Solid),
        '╊' => mk(Weight::Light, Weight::Heavy, Weight::Heavy, Weight::Heavy, Dash::Solid),
        '╴' => mk(Weight::Light, Weight::NoLine, Weight::NoLine, Weight::NoLine, Dash::Solid),
        '╵' => mk(Weight::NoLine, Weight::NoLine, Weight::Light, Weight::NoLine, Dash::Solid),
        '╶' => mk(Weight::NoLine, Weight::Light, Weight::NoLine, Weight::NoLine, Dash::Solid),
        '╷' => mk(Weight::NoLine, Weight::NoLine, Weight::NoLine, Weight::Light, Dash::Solid),
        '╸' => mk(Weight::Heavy, Weight::NoLine, Weight::NoLine, Weight::NoLine, Dash::Solid),
        '╹' => mk(Weight::NoLine, Weight::NoLine, Weight::Heavy, Weight::NoLine, Dash::Solid),
        '╺' => mk(Weight::NoLine, Weight::Heavy, Weight::NoLine, Weight::NoLine, Dash::Solid),
        '╻' => mk(Weight::NoLine, Weight::NoLine, Weight::NoLine, Weight::Heavy, Dash::Solid),
        '╼' => mk(Weight::Light, Weight::Heavy, Weight::NoLine, Weight::NoLine, Dash::Solid),
        '╽' => mk(Weight::NoLine, Weight::NoLine, Weight::Light, Weight::Heavy, Dash::Solid),
        '╾' => mk(Weight::Heavy, Weight::Light, Weight::NoLine, Weight::NoLine, Dash::Solid),
        '╿' => mk(Weight::NoLine, Weight::NoLine, Weight::Heavy, Weight::Light, Dash::Solid),
        '═' => mk(Weight::Double, Weight::Double, Weight::NoLine, Weight::NoLine, Dash::Solid),
        '║' => mk(Weight::NoLine, Weight::NoLine, Weight::Double, Weight::Double, Dash::Solid),
        '╔' => mk(Weight::NoLine, Weight::Double, Weight::NoLine, Weight::Double, Dash::Solid),
        '╗' => mk(Weight::Double, Weight::NoLine, Weight::NoLine, Weight::Double, Dash::Solid),
        '╚' => mk(Weight::NoLine, Weight::Double, Weight::Double, Weight::NoLine, Dash::Solid),
        '╝' => mk(Weight::Double, Weight::NoLine, Weight::Double, Weight::NoLine, Dash::Solid),
        '╠' => mk(Weight::NoLine, Weight::Double, Weight::Double, Weight::Double, Dash::Solid),
        '╣' => mk(Weight::Double, Weight::NoLine, Weight::Double, Weight::Double, Dash::Solid),
        '╦' => mk(Weight::Double, Weight::Double, Weight::NoLine, Weight::Double, Dash::Solid),
        '╩' => mk(Weight::Double, Weight::Double, Weight::Double, Weight::NoLine, Dash::Solid),
        '╬' => mk(Weight::Double, Weight::Double, Weight::Double, Weight::Double, Dash::Solid),
        '╒' => mk(Weight::NoLine, Weight::Double, Weight::NoLine, Weight::Light, Dash::Solid),
        '╓' => mk(Weight::NoLine, Weight::Light, Weight::NoLine, Weight::Double, Dash::Solid),
        '╕' => mk(Weight::Double, Weight::NoLine, Weight::NoLine, Weight::Light, Dash::Solid),
        '╖' => mk(Weight::Light, Weight::NoLine, Weight::NoLine, Weight::Double, Dash::Solid),
        '╘' => mk(Weight::NoLine, Weight::Double, Weight::Light, Weight::NoLine, Dash::Solid),
        '╙' => mk(Weight::NoLine, Weight::Light, Weight::Double, Weight::NoLine, Dash::Solid),
        '╛' => mk(Weight::Double, Weight::NoLine, Weight::Light, Weight::NoLine, Dash::Solid),
        '╜' => mk(Weight::Light, Weight::NoLine, Weight::Double, Weight::NoLine, Dash::Solid),
        '╞' => mk(Weight::NoLine, Weight::Double, Weight::Light, Weight::Light, Dash::Solid),
        '╟' => mk(Weight::NoLine, Weight::Light, Weight::Double, Weight::Double, Dash::Solid),
        '╡' => mk(Weight::Double, Weight::NoLine, Weight::Light, Weight::Light, Dash::Solid),
        '╢' => mk(Weight::Light, Weight::NoLine, Weight::Double, Weight::Double, Dash::Solid),
        '╤' => mk(Weight::Double, Weight::Double, Weight::NoLine, Weight::Light, Dash::Solid),
        '╥' => mk(Weight::Light, Weight::Light, Weight::NoLine, Weight::Double, Dash::Solid),
        '╧' => mk(Weight::Double, Weight::Double, Weight::Light, Weight::NoLine, Dash::Solid),
        '╨' => mk(Weight::Light, Weight::Light, Weight::Double, Weight::NoLine, Dash::Solid),
        '╪' => mk(Weight::Double, Weight::Double, Weight::Light, Weight::Light, Dash::Solid),
        '╫' => mk(Weight::Light, Weight::Light, Weight::Double, Weight::Double, Dash::Solid),
        _ => Sides::none(),
    }
}

/// `s` reflected left to right.
pub open spec fn hmirror(s: Sides) -> Sides {
    Sides { left: s.right, right: s.left, ..s }
}

/// `s` reflected top to bottom.
pub open spec fn vmirror(s: Sides) -> Sides {
    Sides { up: s.down, down: s.up, ..s }
}

/// The lines of `a` and `b` drawn together (each edge takes `a`'s line,
/// or `b`'s where `a` has none).
pub open spec fn join(a: Sides, b: Sides) -> Sides {
    Sides {
        left: if a.left != Weight::NoLine { a.left } else { b.left },
        right: if a.right != Weight::NoLine { a.right } else { b.right },
        up: if a.up != Weight::NoLine { a.up } else { b.up },
        down: if a.down != Weight::NoLine { a.down } else { b.down },
        dash: a.dash,
    }
}

/// `s` with dash style `d`.
pub open spec fn with_dash(s: Sides, d: Dash) -> Sides {
    Sides { dash: d, ..s }
}

/// The half lines (U+2574-U+257B) each reach one edge: LIGHT/HEAVY LEFT,
/// UP, RIGHT, DOWN.
pub proof fn law_half_lines()
    ensures
        sides_spec('╴') == sides(Weight::Light, Weight::NoLine, Weight::NoLine, Weight::NoLine, Dash::Solid),
        sides_spec('╵') == sides(Weight::NoLine, Weight::NoLine, Weight::Light, Weight::NoLine, Dash::Solid),
        sides_spec('╶') == sides(Weight::NoLine, Weight::Light, Weight::NoLine, Weight::NoLine, Dash::Solid),
        sides_spec('╷') == sides(Weight::NoLine, Weight::NoLine, Weight::NoLine, Weight::Light, Dash::Solid),
        sides_spec('╸') == sides(Weight::Heavy, Weight::NoLine, Weight::NoLine, Weight::NoLine, Dash::Solid),
        sides_spec('╹') == sides(Weight::NoLine, Weight::NoLine, Weight::Heavy, Weight::NoLine, Dash::Solid),
        sides_spec('╺') == sides(Weight::NoLine, Weight::Heavy, Weight::NoLine, Weight::NoLine, Dash::Solid),
        sides_spec('╻') == sides(Weight::NoLine, Weight::NoLine, Weight::NoLine, Weight::Heavy, Dash::Solid),
{
}

/// Every light and heavy line, corner, tee and cross is the half lines its
/// Unicode name lists drawn together (U+2518 LIGHT UP AND LEFT is the
/// light up half and the light left half).
#[verifier::rlimit(50)]
pub proof fn law_lines_from_half_lines()
    ensures
        sides_spec('─') == join(sides_spec('╴'), sides_spec('╶')),
        sides_spec('━') == join(sides_spec('╸'), sides_spec('╺')),
        sides_spec('│') == join(sides_spec('╵'), sides_spec('╷')),
        sides_spec('┃') == join(sides_spec('╹'), sides_spec('╻')),
        sides_spec('┌') == join(sides_spec('╶'), sides_spec('╷')),
        sides_spec('┐') == join(sides_spec('╴'), sides_spec('╷')),
        sides_spec('└') == join(sides_spec('╶'), sides_spec('╵')),
        sides_spec('┘') == join(sides_spec('╴'), sides_spec('╵')),
        sides_spec('┏') == join(sides_spec('╺'), sides_spec('╻')),
        sides_spec('┓') == join(sides_spec('╸'), sides_spec('╻')),
        sides_spec('┗') == join(sides_spec('╺'), sides_spec('╹')),
        sides_spec('┛') == join(sides_spec('╸'), sides_spec('╹')),
        sides_spec('┍') == join(sides_spec('╺'), sides_spec('╷')),
        sides_spec('┎') == join(sides_spec('╶'), sides_spec('╻')),
        sides_spec('┑') == join(sides_spec('╸'), sides_spec('╷')),
        sides_spec('┒') == join(sides_spec('╴'), sides_spec('╻')),
        sides_spec('┕') == join(sides_spec('╺'), sides_spec('╵')),
        sides_spec('┖') == join(sides_spec('╶'), sides_spec('╹')),
        sides_spec('┙') == join(sides_spec('╸'), sides_spec('╵')),
        sides_spec('┚') == join(sides_spec('╴'), sides_spec('╹')),
        sides_spec('├') == join(join(sides_spec('╶'), sides_spec('╵')), sides_spec('╷')),
        sides_spec('┤') == join(join(sides_spec('╴'), sides_spec('╵')), sides_spec('╷')),
        sides_spec('┬') == join(join(sides_spec('╴'), sides_spec('╶')), sides_spec('╷')),
        sides_spec('┴') == join(join(sides_spec('╴'), sides_spec('╶')), sides_spec('╵')),
        sides_spec('┼') == join(join(join(sides_spec('╴'), sides_spec('╶')), sides_spec('╵')), sides_spec('╷')),
        sides_spec('┣') == join(join(sides_spec('╺'), sides_spec('╹')), sides_spec('╻')),
        sides_spec('┫') == join(join(sides_spec('╸'), sides_spec('╹')), sides_spec('╻')),
        sides_spec('┳') == join(join(sides_spec('╸'), sides_spec('╺')), sides_spec('╻')),
        sides_spec('┻') == join(join(sides_spec('╸'), sides_spec('╺')), sides_spec('╹')),
        sides_spec('╋') == join(join(join(sides_spec('╸'), sides_spec('╺')), sides_spec('╹')), sides_spec('╻')),
        sides_spec('┝') == join(join(sides_spec('╺'), sides_spec('╵')), sides_spec('╷')),
        sides_spec('┞') == join(join(sides_spec('╶'), sides_spec('╹')), sides_spec('╷')),
        sides_spec('┟') == join(join(sides_spec('╶'), sides_spec('╵')), sides_spec('╻')),
        sides_spec('┠') == join(join(sides_spec('╶'), sides_spec('╹')), sides_spec('╻')),
        sides_spec('┡') == join(join(sides_spec('╺'), sides_spec('╹')), sides_spec('╷')),
        sides_spec('┢') == join(join(sides_spec('╺'), sides_spec('╵')), sides_spec('╻')),
        sides_spec('┥') == join(join(sides_spec('╸'), sides_spec('╵')), sides_spec('╷')),
        sides_spec('┦') == join(join(sides_spec('╴'), sides_spec('╹')), sides_spec('╷')),
        sides_spec('┧') == join(join(sides_spec('╴'), sides_spec('╵')), sides_spec('╻')),
        sides_spec('┨') == join(join(sides_spec('╴'), sides_spec('╹')), sides_spec('╻')),
        sides_spec('┩') == join(join(sides_spec('╸'), sides_spec('╹')), sides_spec('╷')),
        sides_spec('┪') == join(join(sides_spec('╸'), sides_spec('╵')), sides_spec('╻')),
        sides_spec('┭') == join(join(sides_spec('╸'), sides_spec('╶')), sides_spec('╷')),
        sides_spec('┮') == join(join(sides_spec('╴'), sides_spec('╺')), sides_spec('╷')),
        sides_spec('┯') == join(join(sides_spec('╸'), sides_spec('╺')), sides_spec('╷')),
        sides_spec('┰') == join(join(sides_spec('╴'), sides_spec('╶')), sides_spec('╻')),
        sides_spec('┱') == join(join(sides_spec('╸'), sides_spec('╶')), sides_spec('╻')),
        sides_spec('┲') == join(join(sides_spec('╴'), sides_spec('╺')), sides_spec('╻')),
        sides_spec('┵') == join(join(sides_spec('╸'), sides_spec('╶')), sides_spec('╵')),
        sides_spec('┶') == join(join(sides_spec('╴'), sides_spec('╺')), sides_spec('╵')),
        sides_spec('┷') == join(join(sides_spec('╸'), sides_spec('╺')), sides_spec('╵')),
        sides_spec('┸') == join(join(sides_spec('╴'), sides_spec('╶')), sides_spec('╹')),
        sides_spec('┹') == join(join(sides_spec('╸'), sides_spec('╶')), sides_spec('╹')),
        sides_spec('┺') == join(join(sides_spec('╴'), sides_spec('╺')), sides_spec('╹')),
        sides_spec('┽') == join(join(join(sides_spec('╸'), sides_spec('╶')), sides_spec('╵')), sides_spec('╷')),
        sides_spec('┾') == join(join(join(sides_spec('╴'), sides_spec('╺')), sides_spec('╵')), sides_spec('╷')),
        sides_spec('┿') == join(join(join(sides_spec('╸'), sides_spec('╺')), sides_spec('╵')), sides_spec('╷')),
        sides_spec('╀') == join(join(join(sides_spec('╴'), sides_spec('╶')), sides_spec('╹')), sides_spec('╷')),
        sides_spec('╁') == join(join(join(sides_spec('╴'), sides_spec('╶')), sides_spec('╵')), sides_spec('╻')),
        sides_spec('╂') == join(join(join(sides_spec('╴'), sides_spec('╶')), sides_spec('╹')), sides_spec('╻')),
        sides_spec('╃') == join(join(join(sides_spec('╸'), sides_spec('╶')), sides_spec('╹')), sides_spec('╷')),
        sides_spec('╄') == join(join(join(sides_spec('╴'), sides_spec('╺')), sides_spec('╹')), sides_spec('╷')),
        sides_spec('╅') == join(join(join(sides_spec('╸'), sides_spec('╶')), sides_spec('╵')), sides_spec('╻')),
        sides_spec('╆') == join(join(join(sides_spec('╴'), sides_spec('╺')), sides_spec('╵')), sides_spec('╻')),
        sides_spec('╇') == join(join(join(sides_spec('╸'), sides_spec('╺')), sides_spec('╹')), sides_spec('╷')),
        sides_spec('╈') == join(join(join(sides_spec('╸'), sides_spec('╺')), sides_spec('╵')), sides_spec('╻')),
        sides_spec('╉') == join(join(join(sides_spec('╸'), sides_spec('╶')), sides_spec('╹')), sides_spec('╻')),
        sides_spec('╊') == join(join(join(sides_spec('╴'), sides_spec('╺')), sides_spec('╹')), sides_spec('╻')),
        sides_spec('╼') == join(sides_spec('╴'), sides_spec('╺')),
        sides_spec('╽') == join(sides_spec('╵'), sides_spec('╻')),
        sides_spec('╾') == join(sides_spec('╸'), sides_spec('╶')),
        sides_spec('╿') == join(sides_spec('╹'), sides_spec('╷')),
{
}

/// Corners and tees are mirror images of their opposites: reflecting left
/// to right turns U+250C into U+2510 and U+251C into U+2524, top to bottom
/// turns U+250C into U+2514 and U+252C into U+2534.
pub proof fn law_corner_mirrors()
    ensures
        sides_spec('┐') == hmirror(sides_spec('┌')),
        sides_spec('┘') == hmirror(sides_spec('└')),
        sides_spec('┤') == hmirror(sides_spec('├')),
        sides_spec('┓') == hmirror(sides_spec('┏')),
        sides_spec('┛') == hmirror(sides_spec('┗')),
        sides_spec('┫') == hmirror(sides_spec('┣')),
        sides_spec('└') == vmirror(sides_spec('┌')),
        sides_spec('┘') == vmirror(sides_spec('┐')),
        sides_spec('┴') == vmirror(sides_spec('┬')),
        sides_spec('┗') == vmirror(sides_spec('┏')),
        sides_spec('┛') == vmirror(sides_spec('┓')),
        sides_spec('┻') == vmirror(sides_spec('┳')),
{
}

/// The double-line family: the horizontal, vertical and down-and-right
/// double lines reach the edges their names give; the other corners are
/// their mirror images; tees and crosses are two corners drawn together.
pub proof fn law_double_lines()
    ensures
        sides_spec('═') == sides(Weight::Double, Weight::Double, Weight::NoLine, Weight::NoLine, Dash::Solid),
        sides_spec('║') == sides(Weight::NoLine, Weight::NoLine, Weight::Double, Weight::Double, Dash::Solid),
        sides_spec('╔') == sides(Weight::NoLine, Weight::Double, Weight::NoLine, Weight::Double, Dash::Solid),
        sides_spec('╒') == sides(Weight::NoLine, Weight::Double, Weight::NoLine, Weight::Light, Dash::Solid),
        sides_spec('╓') == sides(Weight::NoLine, Weight::Light, Weight::NoLine, Weight::Double, Dash::Solid),
        sides_spec('╗') == hmirror(sides_spec('╔')),
        sides_spec('╚') == vmirror(sides_spec('╔')),
        sides_spec('╕') == hmirror(sides_spec('╒')),
        sides_spec('╘') == vmirror(sides_spec('╒')),
        sides_spec('╖') == hmirror(sides_spec('╓')),
        sides_spec('╙') == vmirror(sides_spec('╓')),
        sides_spec('╝') == hmirror(sides_spec('╚')),
        sides_spec('╛') == hmirror(sides_spec('╘')),
        sides_spec('╜') == hmirror(sides_spec('╙')),
        sides_spec('╣') == hmirror(sides_spec('╠')),
        sides_spec('╡') == hmirror(sides_spec('╞')),
        sides_spec('╢') == hmirror(sides_spec('╟')),
        sides_spec('╩') == vmirror(sides_spec('╦')),
        sides_spec('╧') == vmirror(sides_spec('╤')),
        sides_spec('╨') == vmirror(sides_spec('╥')),
        sides_spec('╠') == join(sides_spec('╔'), sides_spec('╚')),
        sides_spec('╞') == join(sides_spec('╒'), sides_spec('╘')),
        sides_spec('╟') == join(sides_spec('╓'), sides_spec('╙')),
        sides_spec('╦') == join(sides_spec('╔'), sides_spec('╗')),
        sides_spec('╤') == join(sides_spec('╒'), sides_spec('╕')),
        sides_spec('╥') == join(sides_spec('╓'), sides_spec('╖')),
        sides_spec('╬') == join(sides_spec('╠'), sides_spec('╣')),
        sides_spec('╪') == join(sides_spec('╞'), sides_spec('╡')),
        sides_spec('╫') == join(sides_spec('╟'), sides_spec('╢')),
{
}

/// Dashed lines have the weights of their solid line; rounded corners are
/// drawn as the square ones.
pub proof fn law_dashed_and_rounded()
    ensures
        sides_spec('┄') == with_dash(sides_spec('─'), Dash::Triple),
        sides_spec('┅') == with_dash(sides_spec('━'), Dash::Triple),
        sides_spec('┆') == with_dash(sides_spec('│'), Dash::Triple),
        sides_spec('┇') == with_dash(sides_spec('┃'), Dash::Triple),
        sides_spec('┈') == with_dash(sides_spec('─'), Dash::Quad),
        sides_spec('┉') == with_dash(sides_spec('━'), Dash::Quad),
        sides_spec('┊') == with_dash(sides_spec('│'), Dash::Quad),
        sides_spec('┋') == with_dash(sides_spec('┃'), Dash::Quad),
        sides_spec('╌') == with_dash(sides_spec('─'), Dash::Double),
        sides_spec('╍') == with_dash(sides_spec('━'), Dash::Double),
        sides_spec('╎') == with_dash(sides_spec('│'), Dash::Double),
        sides_spec('╏') == with_dash(sides_spec('┃'), Dash::Double),
        sides_spec('╭') == sides_spec('┌'),
        sides_spec('╮') == sides_spec('┐'),
        sides_spec('╯') == sides_spec('┘'),
        sides_spec('╰') == sides_spec('└'),
{
}

/// The dashes a line of style `dash` is split into (a solid line is one).
pub fn dash_count(dash: Dash) -> (n: u8)
    ensures
        n == (match dash {
            Dash::Solid => 1u8,
            Dash::Double => 2u8,
            Dash::Triple => 3u8,
            Dash::Quad => 4u8,
        }),
{
    match dash {
        Dash::Solid => 1,
        Dash::Double => 2,
        Dash::Triple => 3,
        Dash::Quad => 4,
    }
}


/// One edge of a block-element rectangle, in eighths of the cell measured
/// from the cell's near side (left or top) or from its far side (right or
/// bottom). In pixels, `n` eighths of a cell of size `s` is `n * s / 8`
/// rounded; measuring from the far side keeps the complementary halves of
/// an odd-sized cell apart.
#[derive(Clone, Copy, Debug, PartialEq, Eq, Structural)]
pub enum Edge {
    FromStart(u8),
    FromEnd(u8),
}

/// A filled rectangle of a block element, by its four edges.
#[derive(Clone, Copy, Debug, PartialEq, Eq, Structural)]
pub struct BlockRect {
    pub left: Edge,
    pub top: Edge,
    pub right: Edge,
    pub bottom: Edge,
}

/// How a block element (U+2580-U+259F) is drawn: its rectangles, and the
/// opacity in quarters (the shades are 1, 2 and 3 quarters; every other
/// element is opaque, 4).
#[derive(Clone, Debug)]
pub struct BlockShape {
    pub rects: Vec<BlockRect>,
    pub alpha_quarters: u8,
}

pub open spec fn block_rect(left: Edge, top: Edge, right: Edge, bottom: Edge) -> BlockRect {
    BlockRect { left, top, right, bottom }
}

/// The rectangles of each block element: the upper half; the lower
/// eighths; the full block; the left eighths; the right half; the upper
/// and right eighth; the quadrant combinations. The shades fill the cell.
pub open spec fn block_rects_spec(ch: char) -> Seq<BlockRect> {
    let c = ch as u32;
    let s0 = Edge::FromStart(0);
    let e0 = Edge::FromEnd(0);
    let s4 = Edge::FromStart(4);
    let e4 = Edge::FromEnd(4);
    if c == 0x2580 {
        seq![block_rect(s0, s0, e0, s4)]
    } else if 0x2581 <= c <= 0x2587 {
        seq![block_rect(s0, Edge::FromEnd((c - 0x2580) as u8), e0, e0)]
    } else if c == 0x2588 || (0x2591 <= c <= 0x2593) {
        seq![block_rect(s0, s0, e0, e0)]
    } else if 0x2589 <= c <= 0x258F {
        seq![block_rect(s0, s0, Edge::FromStart((0x2590 - c) as u8), e0)]
    } else if c == 0x2590 {
        seq![block_rect(e4, s0, e0, e0)]
    } else if c == 0x2594 {
        seq![block_rect(s0, s0, e0, Edge::FromStart(1))]
    } else if c == 0x2595 {
        seq![block_rect(Edge::FromEnd(1), s0, e0, e0)]
    } else if c == 0x2596 {
        seq![block_rect(s0, e4, s4, e0)]
    } else if c == 0x2597 {
        seq![block_rect(e4, e4, e0, e0)]
    } else if c == 0x2598 {
        seq![block_rect(s0, s0, s4, s4)]
    } else if c == 0x2599 {
        seq![block_rect(s0, s0, s4, e0), block_rect(s4, e4, e0, e0)]
    } else if c == 0x259A {
        seq![block_rect(s0, s0, s4, s4), block_rect(s4, e4, e0, e0)]
    } else if c == 0x259B {
        seq![block_rect(s0, s0, e0, s4), block_rect(s0, s4, s4, e0)]
    } else if c == 0x259C {
        seq![block_rect(s0, s0, e0, s4), block_rect(s4, s4, e0, e0)]
    } else if c == 0x259D {
        seq![block_rect(e4, s0, e0, s4)]
    } else if c == 0x259E {
        seq![block_rect(s4, s0, e0, s4), block_rect(s0, s4, s4, e0)]
    } else if c == 0x259F {
        seq![block_rect(s4, s0, e0, e0), block_rect(s0, s4, s4, e0)]
    } else {
        seq![]
    }
}

/// Opacity of a block element in quarters: light, medium and dark shade
/// are 1, 2 and 3; everything else is opaque.
pub open spec fn block_alpha_spec(ch: char) -> u8 {
    if ch == '\u{2591}' {
        1
    } else if ch == '\u{2592}' {
        2
    } else if ch == '\u{2593}' {
        3
    } else {
        4
    }
}

fn one_rect(r: BlockRect) -> (v: Vec<BlockRect>)
    ensures
        v@ == seq![r],
{
    let mut v: Vec<BlockRect> = Vec::new();
    v.push(r);
    v
}

fn two_rects(a: BlockRect, b: BlockRect) -> (v: Vec<BlockRect>)
    ensures
        v@ == seq![a, b],
{
    let mut v: Vec<BlockRect> = Vec::new();
    v.push(a);
    v.push(b);
    v
}

/// The rectangles and opacity of block element `ch`; a character outside
/// the block-element range draws nothing.
pub fn block_element(ch: char) -> (shape: BlockShape)
    ensures
        shape.rects@ == block_rects_spec(ch),
        shape.alpha_quarters == block_alpha_spec(ch),
{
    let c = ch as u32;
    let s0 = Edge::FromStart(0);
    let e0 = Edge::FromEnd(0);
    let s4 = Edge::FromStart(4);
    let e4 = Edge::FromEnd(4);
    let rects = if c == 0x2580 {
        one_rect(BlockRect { left: s0, top: s0, right: e0, bottom: s4 })
    } else if 0x2581 <= c && c <= 0x2587 {
        let n: u8 = (c - 0x2580) as u8;
        one_rect(BlockRect { left: s0, top: Edge::FromEnd(n), right: e0, bottom: e0 })
    } else if c == 0x2588 || (0x2591 <= c && c <= 0x2593) {
        one_rect(BlockRect { left: s0, top: s0, right: e0, bottom: e0 })
    } else if 0x2589 <= c && c <= 0x258F {
        let n: u8 = (0x2590 - c) as u8;
        one_rect(BlockRect { left: s0, top: s0, right: Edge::FromStart(n), bottom: e0 })
    } else if c == 0x2590 {
        one_rect(BlockRect { left: e4, top: s0, right: e0, bottom: e0 })
    } else if c == 0x2594 {
        one_rect(BlockRect { left: s0, top: s0, right: e0, bottom: Edge::FromStart(1) })
    } else if c == 0x2595 {
        one_rect(BlockRect { left: Edge::FromEnd(1), top: s0, right: e0, bottom: e0 })
    } else if c == 0x2596 {
        one_rect(BlockRect { left: s0, top: e4, right: s4, bottom: e0 })
    } else if c == 0x2597 {
        one_rect(BlockRect { left: e4, top: e4, right: e0, bottom: e0 })
    } else if c == 0x2598 {
        one_rect(BlockRect { left: s0, top: s0, right: s4, bottom: s4 })
    } else if c == 0x2599 {
        two_rects(
            BlockRect { left: s0, top: s0, right: s4, bottom: e0 },
            BlockRect { left: s4, top: e4, right: e0, bottom: e0 },
        )
    } else if c == 0x259A {
        two_rects(
            BlockRect { left: s0, top: s0, right: s4, bottom: s4 },
            BlockRect { left: s4, top: e4, right: e0, bottom: e0 },
        )
    } else if c == 0x259B {
        two_rects(
            BlockRect { left: s0, top: s0, right: e0, bottom: s4 },
            BlockRect { left: s0, top: s4, right: s4, bottom: e0 },
        )
    } else if c == 0x259C {
        two_rects(
            BlockRect { left: s0, top: s0, right: e0, bottom: s4 },
            BlockRect { left: s4, top: s4, right: e0, bottom: e0 },
        )
    } else if c == 0x259D {
        one_rect(BlockRect { left: e4, top: s0, right: e0, bottom: s4 })
    } else if c == 0x259E {
        two_rects(
            BlockRect { left: s4, top: s0, right: e0, bottom: s4 },
            BlockRect { left: s0, top: s4, right: s4, bottom: e0 },
        )
    } else if c == 0x259F {
        two_rects(
            BlockRect { left: s4, top: s0, right: e0, bottom: e0 },
            BlockRect { left: s0, top: s4, right: s4, bottom: e0 },
        )
    } else {
        Vec::new()
    };
    let alpha_quarters: u8 = if ch == '\u{2591}' {
        1
    } else if ch == '\u{2592}' {
        2
    } else if ch == '\u{2593}' {
        3
    } else {
        4
    };
    BlockShape { rects, alpha_quarters }
}

/// Position of an edge in eighths of the cell, measured from the near side.
pub open spec fn edge_eighths(e: Edge) -> int {
    match e {
        Edge::FromStart(n) => n as int,
        Edge::FromEnd(n) => 8 - n,
    }
}

/// The full block is one rectangle spanning the whole cell, and the upper
/// and lower half blocks are each one full-width rectangle meeting at the
/// cell's middle line, so together they tile the cell.
pub proof fn law_half_blocks_tile()
    ensures
        block_rects_spec('\u{2588}').len() == 1,
        edge_eighths(block_rects_spec('\u{2588}')[0].left) == 0,
        edge_eighths(block_rects_spec('\u{2588}')[0].top) == 0,
        edge_eighths(block_rects_spec('\u{2588}')[0].right) == 8,
        edge_eighths(block_rects_spec('\u{2588}')[0].bottom) == 8,
        block_rects_spec('\u{2580}').len() == 1,
        block_rects_spec('\u{2584}').len() == 1,
        edge_eighths(block_rects_spec('\u{2580}')[0].top) == 0,
        edge_eighths(block_rects_spec('\u{2580}')[0].bottom) == edge_eighths(
            block_rects_spec('\u{2584}')[0].top,
        ),
        edge_eighths(block_rects_spec('\u{2584}')[0].bottom) == 8,
        block_rects_spec('\u{2580}')[0].left == block_rects_spec('\u{2584}')[0].left,
        block_rects_spec('\u{2580}')[0].right == block_rects_spec('\u{2584}')[0].right,
{
}

/// Braille dots in drawing order, as (bit of the mask, column, row):
/// Unicode numbers dots 1-3 down the left column, 4-6 down the right, and
/// 7 and 8 at the bottom left and right.
pub open spec fn braille_layout() -> Seq<(u8, u8, u8)> {
    seq![(0, 0, 0), (1, 0, 1), (2, 0, 2), (6, 0, 3), (3, 1, 0), (4, 1, 1), (5, 1, 2), (7, 1, 3)]
}

/// Bit `bit` of `mask` is set.
pub open spec fn bit_set(mask: u8, bit: u8) -> bool {
    (mask >> bit) & 1u8 == 1u8
}

/// The dots (column, row) raised by `mask`, among the first `k` of the
/// layout.
pub open spec fn braille_dots_upto(mask: u8, k: int) -> Seq<(u8, u8)>
    decreases k,
{
    if k <= 0 {
        Seq::empty()
    } else {
        let before = braille_dots_upto(mask, k - 1);
        let d = braille_layout()[k - 1];
        if bit_set(mask, d.0) {
            before.push((d.1, d.2))
        } else {
            before
        }
    }
}

/// The dots of braille pattern `mask`, in drawing order.
pub open spec fn braille_dots_spec(mask: u8) -> Seq<(u8, u8)> {
    braille_dots_upto(mask, 8)
}

/// The raised dots, as (column, row), of the braille pattern with dot
/// mask `mask` (the code point minus U+2800).
pub fn braille_dots(mask: u8) -> (dots: Vec<(u8, u8)>)
    ensures
        dots@ == braille_dots_spec(mask),
{
    let layout: [(u8, u8, u8); 8] = [
        (0, 0, 0),
        (1, 0, 1),
        (2, 0, 2),
        (6, 0, 3),
        (3, 1, 0),
        (4, 1, 1),
        (5, 1, 2),
        (7, 1, 3),
    ];
    assert(layout@ =~= braille_layout());
    let mut dots: Vec<(u8, u8)> = Vec::new();
    let mut k: usize = 0;
    while k < 8
        invariant
            k <= 8,
            layout@ == braille_layout(),
            dots@ == braille_dots_upto(mask, k as int),
            forall|i: int| 0 <= i < 8 ==> (#[trigger] layout@[i]).0 < 8,
        decreases 8 - k,
    {
        let (bit, col, row) = layout[k];
        let set = mask & (1u8 << bit) != 0;
        assert(set == bit_set(mask, bit)) by (bit_vector)
            requires
                bit < 8,
                set == (mask & (1u8 << bit) != 0),
        ;
        if set {
            dots.push((col, row));
        }
        k += 1;
    }
    dots
}

/// The number of set bits of `mask`.
pub open spec fn popcount(mask: u8) -> int {
    (if bit_set(mask, 0) { 1int } else { 0int }) + (if bit_set(mask, 1) { 1int } else { 0int }) + (
    if bit_set(mask, 2) {
        1int
    } else {
        0int
    }) + (if bit_set(mask, 3) { 1int } else { 0int }) + (if bit_set(mask, 4) { 1int } else { 0int })
        + (if bit_set(mask, 5) { 1int } else { 0int }) + (if bit_set(mask, 6) { 1int } else { 0int })
        + (if bit_set(mask, 7) { 1int } else { 0int })
}

/// Each bit of a braille mask raises exactly one dot.
pub proof fn law_braille_dot_per_bit(mask: u8)
    ensures
        braille_dots_spec(mask).len() == popcount(mask),
{
    reveal_with_fuel(braille_dots_upto, 9);
}

} // verus!
