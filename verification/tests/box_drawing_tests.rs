use aterm::box_drawing::{
    block_element, BlockRect, Edge,
    braille_dots, dash_count, glyph_kind, is_handled, sides_for, square_spec, Dash, GlyphKind, Sides, Weight,
};

#[test]
fn is_handled_range() {
    assert!(is_handled('─'));
    assert!(is_handled('│'));
    assert!(is_handled('█'));
    assert!(is_handled('▒'));
    assert!(is_handled('⠁'));
    assert!(is_handled('⣿'));
    assert!(is_handled('⏺'));
    assert!(is_handled('■'));
    assert!(is_handled('□'));
    assert!(is_handled('▪'));
    assert!(is_handled('▫'));
    assert!(is_handled('⬝'));
    assert!(is_handled('⬞'));
    assert!(!is_handled('a'));
    assert!(!is_handled(' '));
    assert!(!is_handled('▲'));
    assert!(!is_handled('●'));
}

#[test]
fn braille_all_dots() {
    assert_eq!(braille_dots(0xFF).len(), 8);
}

#[test]
fn braille_empty_no_dots() {
    assert!(braille_dots(0).is_empty());
}

#[test]
fn braille_bit_count_matches() {
    for mask in 0u32..=0xFF {
        let ch = char::from_u32(0x2800 + mask).unwrap();
        let dots = match glyph_kind(ch) {
            GlyphKind::Braille(m) => braille_dots(m),
            other => panic!("{ch:?} is {other:?}"),
        };
        assert_eq!(dots.len(), mask.count_ones() as usize, "mask {mask:08b}");
    }
}

#[test]
fn braille_dot_positions_follow_unicode_numbering() {
    // dot 1 (bit 0) top-left, dot 4 (bit 3) top-right, dot 7 (bit 6)
    // bottom-left, dot 8 (bit 7) bottom-right.
    assert_eq!(braille_dots(0b0000_0001), vec![(0, 0)]);
    assert_eq!(braille_dots(0b0000_1000), vec![(1, 0)]);
    assert_eq!(braille_dots(0b0100_0000), vec![(0, 3)]);
    assert_eq!(braille_dots(0b1000_0000), vec![(1, 3)]);
    assert_eq!(braille_dots(0b0100_1001), vec![(0, 0), (0, 3), (1, 0)]);
}

#[test]
fn square_family_sizes() {
    assert_eq!(square_spec('■'), Some((8, true)));
    assert_eq!(square_spec('□'), Some((8, false)));
    assert_eq!(square_spec('▪'), Some((5, true)));
    assert_eq!(square_spec('▫'), Some((5, false)));
    assert_eq!(square_spec('⬝'), Some((3, true)));
    assert_eq!(square_spec('⬞'), Some((3, false)));
    assert_eq!(square_spec('x'), None);
}

#[test]
fn glyph_kind_dispatch() {
    assert_eq!(glyph_kind('─'), GlyphKind::BoxDrawing);
    assert_eq!(glyph_kind('╿'), GlyphKind::BoxDrawing);
    assert_eq!(glyph_kind('▀'), GlyphKind::BlockElement);
    assert_eq!(glyph_kind('▟'), GlyphKind::BlockElement);
    assert_eq!(glyph_kind('⠀'), GlyphKind::Braille(0));
    assert_eq!(glyph_kind('⏺'), GlyphKind::Circle);
    assert_eq!(glyph_kind('⬞'), GlyphKind::Square(3, false));
    assert_eq!(glyph_kind('a'), GlyphKind::Font);
    for c in ['a', '─', '▒', '⣿', '⏺', '■', '●'] {
        assert_eq!(is_handled(c), glyph_kind(c) != GlyphKind::Font);
    }
}

#[test]
fn sides_for_lines_corners_and_junctions() {
    let n = Weight::NoLine;
    let l = Weight::Light;
    let h = Weight::Heavy;
    let d = Weight::Double;
    let mk = |left, right, up, down, dash| Sides { left, right, up, down, dash };
    assert_eq!(sides_for('─'), mk(l, l, n, n, Dash::Solid));
    assert_eq!(sides_for('┃'), mk(n, n, h, h, Dash::Solid));
    assert_eq!(sides_for('┌'), mk(n, l, n, l, Dash::Solid));
    assert_eq!(sides_for('╭'), mk(n, l, n, l, Dash::Solid));
    assert_eq!(sides_for('┼'), mk(l, l, l, l, Dash::Solid));
    assert_eq!(sides_for('┿'), mk(h, h, l, l, Dash::Solid));
    assert_eq!(sides_for('╬'), mk(d, d, d, d, Dash::Solid));
    assert_eq!(sides_for('╒'), mk(n, d, n, l, Dash::Solid));
    assert_eq!(sides_for('┄'), mk(l, l, n, n, Dash::Triple));
    assert_eq!(sides_for('┋'), mk(n, n, h, h, Dash::Quad));
    assert_eq!(sides_for('╍'), mk(h, h, n, n, Dash::Double));
    assert_eq!(sides_for('╼'), mk(l, h, n, n, Dash::Solid));
    assert_eq!(sides_for('╱'), Sides::none());
    assert_eq!(sides_for('a'), Sides::none());
}

#[test]
fn stroke_weights_and_dash_counts() {
    let s = sides_for('╼');
    assert_eq!(s.horizontal_weight(), Weight::Light);
    assert!(s.is_horizontal());
    let v = sides_for('╷');
    assert_eq!(v.vertical_weight(), Weight::Light);
    assert!(!v.is_horizontal());
    assert_eq!(dash_count(Dash::Solid), 1);
    assert_eq!(dash_count(Dash::Double), 2);
    assert_eq!(dash_count(Dash::Triple), 3);
    assert_eq!(dash_count(Dash::Quad), 4);
}

#[test]
fn block_elements_map_to_eighths_of_the_cell() {
    let full = BlockRect {
        left: Edge::FromStart(0),
        top: Edge::FromStart(0),
        right: Edge::FromEnd(0),
        bottom: Edge::FromEnd(0),
    };
    // Upper half.
    let upper = block_element('\u{2580}');
    assert_eq!(upper.rects, vec![BlockRect { bottom: Edge::FromStart(4), ..full }]);
    assert_eq!(upper.alpha_quarters, 4);
    // Lower three eighths.
    assert_eq!(block_element('\u{2583}').rects, vec![BlockRect { top: Edge::FromEnd(3), ..full }]);
    // Left seven eighths and left one eighth.
    assert_eq!(block_element('\u{2589}').rects, vec![BlockRect { right: Edge::FromStart(7), ..full }]);
    assert_eq!(block_element('\u{258F}').rects, vec![BlockRect { right: Edge::FromStart(1), ..full }]);
    // Right half is measured from the right edge.
    assert_eq!(block_element('\u{2590}').rects, vec![BlockRect { left: Edge::FromEnd(4), ..full }]);
    // Shades fill the cell at a quarter, half and three quarters opacity.
    for (ch, q) in [('\u{2591}', 1u8), ('\u{2592}', 2), ('\u{2593}', 3)] {
        let s = block_element(ch);
        assert_eq!(s.rects, vec![full]);
        assert_eq!(s.alpha_quarters, q);
    }
    // Quadrant upper left + lower left + lower right: two rectangles.
    let q = block_element('\u{2599}');
    assert_eq!(q.rects.len(), 2);
    assert_eq!(q.rects[0], BlockRect { right: Edge::FromStart(4), ..full });
    assert_eq!(q.rects[1], BlockRect { left: Edge::FromStart(4), top: Edge::FromEnd(4), ..full });
    // Outside the range nothing is drawn.
    assert!(block_element('A').rects.is_empty());
}
