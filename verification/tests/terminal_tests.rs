use aterm::config::Colors;
use aterm::terminal::{
    build_snapshot, clamp_selection, compute_tab_label, dim, in_viewport, indexed_from_palette,
    keeps_own_title, match_to_spans, mouse_mode, named_from_palette, named_slot, osc8_spans,
    pick_url_match, resolve_color, row_text, runs_foreground_job, selection_anchor, snap_cell,
    snapshot_text, trim_url_match, url_search_lines, AnsiColor, CellAttrs, GridCell, GridPoint, MouseReporting,
    NamedColor, Role, SelectionRange, SelectionView, SessionEvent, SessionState, Side, SnapCell,
    TermContent, TermModes, UrlSpan, TERM_COLOR_COUNT,
};

fn pt(line: i32, col: usize) -> GridPoint {
    GridPoint { line, column: col }
}

fn no_overrides() -> [Option<[u8; 3]>; 269] {
    [None; 269]
}

fn plain(c: char) -> CellAttrs {
    CellAttrs {
        c,
        fg: AnsiColor::Named(NamedColor::Foreground),
        bg: AnsiColor::Named(NamedColor::Background),
        inverse: false,
        wide_char_spacer: false,
        bold: false,
        italic: false,
        underlined: false,
        hyperlink: false,
    }
}

#[test]
fn indexed_palette_first_8_match_normal() {
    let p = Colors::default();
    assert_eq!(indexed_from_palette(0, &p), p.normal.black);
    assert_eq!(indexed_from_palette(1, &p), p.normal.red);
    assert_eq!(indexed_from_palette(7, &p), p.normal.white);
}

#[test]
fn indexed_palette_bright_block_match_bright() {
    let p = Colors::default();
    assert_eq!(indexed_from_palette(8, &p), p.bright.black);
    assert_eq!(indexed_from_palette(15, &p), p.bright.white);
}

#[test]
fn indexed_palette_color_cube_endpoints() {
    let p = Colors::default();
    assert_eq!(indexed_from_palette(16, &p), [0, 0, 0]);
    assert_eq!(indexed_from_palette(231, &p), [255, 255, 255]);
}

#[test]
fn indexed_palette_greyscale_endpoints() {
    let p = Colors::default();
    assert_eq!(indexed_from_palette(232, &p), [8, 8, 8]);
    assert_eq!(indexed_from_palette(255, &p), [238, 238, 238]);
}

#[test]
fn indexed_palette_cube_middle() {
    let p = Colors::default();
    // 16 + 36*1 + 6*2 + 3 = 67: levels 95, 135, 175.
    assert_eq!(indexed_from_palette(67, &p), [95, 135, 175]);
}

#[test]
fn dim_reduces_intensity() {
    assert_eq!(dim([100, 200, 0]), [66, 132, 0]);
    assert_eq!(dim([0, 0, 0]), [0, 0, 0]);
}

#[test]
fn dim_matches_float_rounding_for_every_channel() {
    for v in 0u16..=255 {
        let v = v as u8;
        let want = (v as f32 * 0.66).round() as u8;
        assert_eq!(dim([v, v, v]), [want, want, want], "channel {v}");
    }
}

#[test]
fn match_to_spans_single_line_in_viewport() {
    let spans = match_to_spans(pt(-3, 4), pt(-3, 10), 5, 10, 80);
    assert_eq!(spans, vec![UrlSpan { line: 2, start_col: 4, end_col: 10 }]);
}

#[test]
fn match_to_spans_multi_line_fills_middle_rows() {
    let spans = match_to_spans(pt(-4, 70), pt(-2, 5), 5, 10, 80);
    assert_eq!(
        spans,
        vec![
            UrlSpan { line: 1, start_col: 70, end_col: 79 },
            UrlSpan { line: 2, start_col: 0, end_col: 79 },
            UrlSpan { line: 3, start_col: 0, end_col: 5 },
        ]
    );
}

#[test]
fn match_to_spans_clips_off_screen_top_and_bottom() {
    let spans = match_to_spans(pt(-10, 0), pt(-4, 3), 5, 10, 80);
    assert_eq!(spans.first().map(|s| s.line), Some(0));
    assert_eq!(spans.last().map(|s| (s.line, s.end_col)), Some((1, 3)));
    let spans = match_to_spans(pt(20, 0), pt(20, 5), 5, 10, 80);
    assert!(spans.is_empty());
}

#[test]
fn match_to_spans_handles_zero_width_grid() {
    let spans = match_to_spans(pt(0, 0), pt(0, 0), 0, 5, 0);
    assert!(spans.is_empty());
}

#[test]
fn match_to_spans_clamps_columns() {
    let spans = match_to_spans(pt(0, 100), pt(1, 200), 0, 5, 80);
    assert_eq!(
        spans,
        vec![UrlSpan { line: 0, start_col: 79, end_col: 79 }, UrlSpan { line: 1, start_col: 0, end_col: 79 }]
    );
}

#[test]
fn named_colors_come_from_palette_and_dim_variants_are_dimmed() {
    let p = Colors::default();
    assert_eq!(named_from_palette(NamedColor::Red, &p), Some(p.normal.red));
    assert_eq!(named_from_palette(NamedColor::BrightBlue, &p), Some(p.bright.blue));
    assert_eq!(named_from_palette(NamedColor::BrightForeground, &p), Some(p.foreground));
    assert_eq!(named_from_palette(NamedColor::DimRed, &p), Some(dim(p.normal.red)));
    assert_eq!(named_from_palette(NamedColor::DimForeground, &p), Some(dim(p.foreground)));
    assert_eq!(named_from_palette(NamedColor::Cursor, &p), Some(p.cursor));
}

#[test]
fn named_slots_follow_the_emulator_table() {
    assert_eq!(TERM_COLOR_COUNT, 269);
    assert_eq!(named_slot(NamedColor::Black), 0);
    assert_eq!(named_slot(NamedColor::BrightWhite), 15);
    assert_eq!(named_slot(NamedColor::Foreground), 256);
    assert_eq!(named_slot(NamedColor::DimForeground), 268);
}

#[test]
fn resolve_color_prefers_runtime_table() {
    let p = Colors::default();
    let mut table = no_overrides();
    assert_eq!(resolve_color(AnsiColor::Named(NamedColor::Green), &table, &p, Role::Fg), p.normal.green);
    table[2] = Some([1, 2, 3]);
    assert_eq!(resolve_color(AnsiColor::Named(NamedColor::Green), &table, &p, Role::Fg), [1, 2, 3]);
    assert_eq!(resolve_color(AnsiColor::Indexed(2), &table, &p, Role::Bg), [1, 2, 3]);
    assert_eq!(resolve_color(AnsiColor::Indexed(232), &table, &p, Role::Bg), [8, 8, 8]);
    assert_eq!(resolve_color(AnsiColor::Spec([9, 9, 9]), &table, &p, Role::Fg), [9, 9, 9]);
    table[256] = Some([4, 5, 6]);
    assert_eq!(resolve_color(AnsiColor::Named(NamedColor::Foreground), &table, &p, Role::Fg), [4, 5, 6]);
}

#[test]
fn snap_cell_swaps_on_inverse_and_blanks_spacers() {
    let p = Colors::default();
    let table = no_overrides();
    let mut a = plain('x');
    a.inverse = true;
    a.hyperlink = true;
    let s = snap_cell(&a, &table, &p);
    assert_eq!(s.ch, 'x');
    assert_eq!(s.fg, p.background);
    assert_eq!(s.bg, p.foreground);
    assert!(s.underline);
    let mut b = plain('y');
    b.wide_char_spacer = true;
    b.bold = true;
    let s = snap_cell(&b, &table, &p);
    assert_eq!(s.ch, '\0');
    assert!(s.bold && !s.italic && !s.underline);
}

#[test]
fn build_snapshot_places_cells_and_clamps_selection() {
    let p = Colors::default();
    let content = TermContent {
        display_offset: 2,
        cells: vec![
            GridCell { line: -2, column: 0, attrs: plain('a') },
            GridCell { line: -1, column: 1, attrs: plain('b') },
            GridCell { line: -3, column: 0, attrs: plain('z') },
            GridCell { line: 5, column: 0, attrs: plain('q') },
            GridCell { line: -2, column: 0, attrs: plain('c') },
        ],
        cursor_line: -1,
        cursor_col: 1,
        cursor_visible: true,
        selection: Some(SelectionRange { start_line: -5, start_col: 3, end_line: -1, end_col: 9, is_block: false }),
        colors: no_overrides(),
    };
    let snap = build_snapshot(&content, 3, 4, &p);
    assert_eq!(snap.cells.len(), 3);
    assert!(snap.cells.iter().all(|r| r.len() == 4));
    assert_eq!(snap.cells[0][0].ch, 'c');
    assert_eq!(snap.cells[1][1].ch, 'b');
    assert_eq!(snap.cells[2][3], SnapCell::default());
    assert_eq!(snap.cursor_line, 1);
    assert_eq!(snap.cursor_col, 1);
    assert_eq!(snap.fg, p.foreground);
    assert_eq!(snap.bg, p.background);
    assert_eq!(
        snap.selection,
        Some(SelectionView { start_line: 0, start_col: 3, end_line: 1, end_col: 3, is_block: false })
    );
    assert_eq!(snapshot_text(&snap), vec!["c".to_string(), "b".to_string(), String::new()]);
}

#[test]
fn clamp_selection_drops_offscreen() {
    let below = SelectionRange { start_line: 10, start_col: 0, end_line: 12, end_col: 0, is_block: true };
    assert_eq!(clamp_selection(below, 0, 5, 80), None);
    let above = SelectionRange { start_line: -9, start_col: 0, end_line: -8, end_col: 0, is_block: true };
    assert_eq!(clamp_selection(above, 2, 5, 80), None);
}

#[test]
fn row_text_drops_spacers_and_trailing_blanks() {
    let mut row = vec![SnapCell::default(); 6];
    row[0].ch = '漢';
    row[1].ch = '\0';
    row[2].ch = 'x';
    row[3].ch = ' ';
    row[4].ch = ' ';
    row[5].ch = '\0';
    assert_eq!(row_text(&row), "漢x");
}

#[test]
fn osc8_span_grows_over_same_link() {
    let same = vec![false, true, true, true, false, true];
    assert_eq!(osc8_spans(&same, 2, 7), vec![UrlSpan { line: 7, start_col: 1, end_col: 3 }]);
    assert_eq!(osc8_spans(&same, 5, 0), vec![UrlSpan { line: 0, start_col: 5, end_col: 5 }]);
}

#[test]
fn pick_url_match_skips_above_and_stops_below() {
    let m = vec![
        (pt(-20, 0), pt(-20, 9)),
        (pt(-1, 0), pt(0, 4)),
        (pt(1, 2), pt(1, 8)),
        (pt(30, 0), pt(30, 5)),
    ];
    assert_eq!(pick_url_match(&m, pt(0, 3), -5, 10), Some(1));
    assert_eq!(pick_url_match(&m, pt(1, 5), -5, 10), Some(2));
    assert_eq!(pick_url_match(&m, pt(1, 9), -5, 10), None);
    assert_eq!(pick_url_match(&m, pt(-20, 3), -5, 10), None);
    assert_eq!(pick_url_match(&m, pt(30, 1), -5, 10), None);
}

#[test]
fn url_search_window_is_bounded() {
    assert_eq!(url_search_lines(0, 24, -500, 500), (-100, 123));
    assert_eq!(url_search_lines(10, 24, -12, 20), (-12, 20));
}

#[test]
fn mouse_mode_precedence() {
    let mut m = TermModes {
        app_cursor: false,
        bracketed_paste: false,
        mouse_motion: false,
        mouse_drag: true,
        mouse_report_click: true,
        sgr_mouse: true,
        alternate_scroll: false,
        alt_screen: true,
    };
    assert_eq!(mouse_mode(m).reporting, MouseReporting::Drag);
    m.mouse_motion = true;
    assert_eq!(mouse_mode(m).reporting, MouseReporting::AnyMotion);
    m.mouse_motion = false;
    m.mouse_drag = false;
    m.mouse_report_click = false;
    let mm = mouse_mode(m);
    assert_eq!(mm.reporting, MouseReporting::Off);
    assert!(mm.sgr && mm.alt_screen && !mm.alternate_scroll);
}

#[test]
fn session_events_update_title_and_exit() {
    let mut s = SessionState::new(true);
    assert_eq!(s.title, "shell");
    let wake = s.pump_events(&vec![SessionEvent::Title("vim".to_string()), SessionEvent::Other]);
    assert!(!wake);
    assert_eq!(s.title, "vim");
    let wake = s.pump_events(&vec![SessionEvent::ResetTitle, SessionEvent::Wakeup]);
    assert!(wake);
    assert_eq!(s.title, "shell");
    assert!(!s.exited);
    assert!(s.pump_events(&vec![SessionEvent::Exit]));
    assert!(s.exited);
}

#[test]
fn static_title_ignores_title_events() {
    let mut s = SessionState::new(false);
    s.pump_events(&vec![SessionEvent::Title("x".to_string())]);
    assert_eq!(s.title, "shell");
}

#[test]
fn tab_label_composition() {
    assert!(!runs_foreground_job(None, Some(5)));
    assert!(!runs_foreground_job(Some(5), Some(5)));
    assert!(runs_foreground_job(Some(6), Some(5)));
    assert!(keeps_own_title(&Some("ssh".to_string())));
    assert!(!keeps_own_title(&Some("sshd".to_string())));
    assert_eq!(compute_tab_label("zsh", Some(5), Some(5), Some("htop".into()), Some("~".into())), "zsh");
    assert_eq!(compute_tab_label("zsh", Some(6), Some(5), Some("htop".into()), Some("~/src".into())), "htop (~/src)");
    assert_eq!(compute_tab_label("zsh", Some(6), Some(5), Some("htop".into()), None), "htop");
    assert_eq!(compute_tab_label("zsh", Some(6), Some(5), None, Some("/tmp".into())), "zsh (/tmp)");
    assert_eq!(compute_tab_label("zsh", Some(6), Some(5), None, None), "zsh");
    assert_eq!(compute_tab_label("host:~", Some(6), Some(5), Some("ssh".into()), Some("~".into())), "host:~");
}

#[test]
fn selection_anchor_clamps_into_grid() {
    assert_eq!(selection_anchor(50, 200, true, 24, 80, 3), (pt(20, 79), Side::Right));
    assert_eq!(selection_anchor(2, 5, false, 24, 80, 0), (pt(2, 5), Side::Left));
    assert!(in_viewport(23, 79, 24, 80));
    assert!(!in_viewport(24, 0, 24, 80));
    assert!(!in_viewport(0, 0, 0, 0));
}

#[test]
fn url_matches_lose_trailing_punctuation_and_stray_brackets() {
    let p = |line: i32, column: usize| GridPoint { line, column };
    // "(see https://example.com/foo)." matched from the scheme: `).` trimmed.
    let got = trim_url_match("https://example.com/foo).", p(0, 29), p(0, 5), 80);
    assert_eq!(got, Some(("https://example.com/foo".to_string(), p(0, 27))));
    // A balanced bracket is part of the URL.
    let got = trim_url_match("https://x.org/wiki/Foo_(bar)", p(3, 27), p(3, 0), 80);
    assert_eq!(got, Some(("https://x.org/wiki/Foo_(bar)".to_string(), p(3, 27))));
    // Trimming steps back across a wrapped row.
    let got = trim_url_match("http://a.b/c?!.", p(1, 1), p(0, 0), 10);
    assert_eq!(got, Some(("http://a.b/c".to_string(), p(0, 8))));
    // The pointer on the trimmed text hovers no URL.
    assert_eq!(trim_url_match("https://example.com/foo).", p(0, 29), p(0, 29), 80), None);
}
