use aterm::render::{
    bg_runs, cell_in_selection, hover_url_covers, row_glyphs, selection_rows, tab_budgets, tab_strip,
    truncate_with_ellipsis, underline_runs, BgRun, SelRow,
};
use aterm::terminal::{GridSnapshot, SelectionView, SnapCell, UrlSpan};

fn snap_with_selection(sel: SelectionView) -> GridSnapshot {
    GridSnapshot {
        cells: vec![vec![SnapCell::default(); 10]; 5],
        cursor_line: 0,
        cursor_col: 0,
        cursor_visible: false,
        fg: [0; 3],
        bg: [0; 3],
        selection: Some(sel),
    }
}

#[test]
fn truncate_keeps_short_strings_intact() {
    assert_eq!(truncate_with_ellipsis("abc", 10), "abc");
    assert_eq!(truncate_with_ellipsis("abc", 3), "abc");
}

#[test]
fn truncate_appends_ellipsis_when_over_budget() {
    assert_eq!(truncate_with_ellipsis("abcdef", 4), "abc…");
    assert_eq!(truncate_with_ellipsis("abcdef", 1), "…");
    assert_eq!(truncate_with_ellipsis("abcdef", 0), "");
}

#[test]
fn truncate_handles_multibyte_chars() {
    assert_eq!(truncate_with_ellipsis("αβγδεζ", 4), "αβγ…");
}

#[test]
fn cell_in_selection_single_line() {
    let snap = snap_with_selection(SelectionView { start_line: 1, start_col: 2, end_line: 1, end_col: 5, is_block: false });
    assert!(!cell_in_selection(&snap, 1, 1));
    assert!(cell_in_selection(&snap, 1, 2));
    assert!(cell_in_selection(&snap, 1, 5));
    assert!(!cell_in_selection(&snap, 1, 6));
    assert!(!cell_in_selection(&snap, 0, 3));
}

#[test]
fn cell_in_selection_multi_line() {
    let snap = snap_with_selection(SelectionView { start_line: 1, start_col: 3, end_line: 3, end_col: 2, is_block: false });
    assert!(!cell_in_selection(&snap, 1, 2));
    assert!(cell_in_selection(&snap, 1, 3));
    assert!(cell_in_selection(&snap, 1, 9));
    assert!(cell_in_selection(&snap, 2, 0));
    assert!(cell_in_selection(&snap, 2, 9));
    assert!(cell_in_selection(&snap, 3, 0));
    assert!(cell_in_selection(&snap, 3, 2));
    assert!(!cell_in_selection(&snap, 3, 3));
}

#[test]
fn hover_url_covers_matches_only_inside_spans() {
    let spans = vec![
        UrlSpan { line: 1, start_col: 2, end_col: 5 },
        UrlSpan { line: 3, start_col: 0, end_col: 9 },
    ];
    assert!(!hover_url_covers(&spans, 0, 3));
    assert!(!hover_url_covers(&spans, 1, 1));
    assert!(hover_url_covers(&spans, 1, 2));
    assert!(hover_url_covers(&spans, 1, 5));
    assert!(!hover_url_covers(&spans, 1, 6));
    assert!(hover_url_covers(&spans, 3, 0));
    assert!(hover_url_covers(&spans, 3, 9));
    assert!(!hover_url_covers(&spans, 4, 0));
}

#[test]
fn cell_in_selection_block() {
    let snap = snap_with_selection(SelectionView { start_line: 0, start_col: 2, end_line: 2, end_col: 4, is_block: true });
    assert!(cell_in_selection(&snap, 0, 2));
    assert!(cell_in_selection(&snap, 2, 4));
    assert!(!cell_in_selection(&snap, 1, 1));
    assert!(!cell_in_selection(&snap, 1, 5));
    assert!(!cell_in_selection(&snap, 3, 3));
}

#[test]
fn cell_in_selection_without_selection() {
    let mut snap = snap_with_selection(SelectionView { start_line: 0, start_col: 0, end_line: 0, end_col: 0, is_block: false });
    snap.selection = None;
    assert!(!cell_in_selection(&snap, 0, 0));
}

#[test]
fn tab_budgets_short_titles_get_natural_width() {
    assert_eq!(tab_budgets(&vec![3, 5, 2], 100), vec![3, 5, 2]);
    assert_eq!(tab_budgets(&vec![], 10), Vec::<usize>::new());
}

#[test]
fn tab_budgets_round_robin_shares_the_rest() {
    // 40 columns, 2 gaps of 2: 36 for titles; 4 each first, then 24 more
    // handed out one at a time until the third is complete at 6.
    assert_eq!(tab_budgets(&vec![30, 30, 6], 40), vec![15, 15, 6]);
    // 21 for titles after one gap: 4 + 4, then 13 more round-robin.
    assert_eq!(tab_budgets(&vec![20, 20], 23), vec![11, 10]);
}

#[test]
fn tab_budgets_narrow_bar_is_greedy_in_order() {
    // 10 columns, 4 gaps of 2 leave 2: the first tab takes them.
    assert_eq!(tab_budgets(&vec![9, 9, 9, 9, 9], 10), vec![2, 0, 0, 0, 0]);
    // 13 columns, 2 gaps: 9 left; 4, 4, 1.
    assert_eq!(tab_budgets(&vec![9, 9, 9], 13), vec![4, 4, 1]);
    assert_eq!(tab_budgets(&vec![9, 9], 1), vec![0, 0]);
}

#[test]
fn tab_strip_lays_out_titles_and_dividers() {
    let titles = vec!["alpha".to_string(), "beta".to_string(), "gamma".to_string(), "d".to_string()];
    let strip = tab_strip(&titles, 1, 200);
    let texts: Vec<(&str, bool)> = strip.segments.iter().map(|(s, a)| (s.as_str(), *a)).collect();
    assert_eq!(
        texts,
        vec![("alpha", false), ("  ", false), ("beta", true), ("  ", false), ("gamma", false), ("  ", false), ("d", false)]
    );
    let starts: Vec<(usize, usize, bool)> = strip.tabs.iter().map(|t| (t.start, t.width, t.active)).collect();
    assert_eq!(starts, vec![(0, 5, false), (7, 4, true), (13, 5, false), (20, 1, false)]);
    // Only the gap between "gamma" and "d" separates two inactive tabs.
    assert_eq!(strip.dividers, vec![18]);
}

#[test]
fn tab_strip_truncates_and_placeholder() {
    let titles = vec!["abcdefghij".to_string(), "xy".to_string()];
    let strip = tab_strip(&titles, 0, 10);
    assert_eq!(strip.budgets, vec![6, 2]);
    assert_eq!(strip.segments[0].0, "abcde…");
    let empty = tab_strip(&Vec::new(), 0, 10);
    assert_eq!(empty.segments.len(), 1);
    assert_eq!(empty.segments[0].0, "(no tabs)");
    assert!(empty.tabs.is_empty() && empty.dividers.is_empty());
}

fn colored_row(bgs: &[[u8; 3]]) -> Vec<SnapCell> {
    bgs.iter().map(|bg| SnapCell { bg: *bg, ..SnapCell::default() }).collect()
}

#[test]
fn bg_runs_merge_equal_neighbours_and_skip_default_and_cursor() {
    let d = [0, 0, 0];
    let r = [200, 0, 0];
    let g = [0, 200, 0];
    let snap = GridSnapshot {
        cells: vec![colored_row(&[r, r, d, g, g, r, r, r])],
        cursor_line: 0,
        cursor_col: 6,
        cursor_visible: true,
        fg: [255, 255, 255],
        bg: d,
        selection: None,
    };
    assert_eq!(
        bg_runs(&snap, 0),
        vec![
            BgRun { start: 0, end: 2, rgb: r },
            BgRun { start: 3, end: 5, rgb: g },
            BgRun { start: 5, end: 6, rgb: r },
            BgRun { start: 7, end: 8, rgb: r },
        ]
    );
}

#[test]
fn underline_runs_join_sgr_underline_and_hover() {
    let mut row = vec![SnapCell::default(); 8];
    row[1].underline = true;
    row[2].underline = true;
    row[7].underline = true;
    let snap = GridSnapshot {
        cells: vec![row],
        cursor_line: 0,
        cursor_col: 0,
        cursor_visible: false,
        fg: [0; 3],
        bg: [0; 3],
        selection: None,
    };
    let hover = vec![UrlSpan { line: 0, start_col: 3, end_col: 4 }];
    assert_eq!(underline_runs(&snap, &hover, 0), vec![(1, 5), (7, 8)]);
    assert_eq!(underline_runs(&snap, &[], 0), vec![(1, 3), (7, 8)]);
}

#[test]
fn selection_rows_cover_first_middle_last() {
    let snap = snap_with_selection(SelectionView { start_line: 1, start_col: 3, end_line: 9, end_col: 2, is_block: false });
    assert_eq!(
        selection_rows(&snap),
        vec![
            SelRow { row: 1, start: 3, end: 10 },
            SelRow { row: 2, start: 0, end: 10 },
            SelRow { row: 3, start: 0, end: 10 },
            SelRow { row: 4, start: 0, end: 10 },
        ]
    );
    let block = snap_with_selection(SelectionView { start_line: 0, start_col: 2, end_line: 1, end_col: 40, is_block: true });
    assert_eq!(
        selection_rows(&block),
        vec![SelRow { row: 0, start: 2, end: 10 }, SelRow { row: 1, start: 2, end: 10 }]
    );
}

#[test]
fn row_glyphs_pick_text_colour() {
    let fg = [10, 10, 10];
    let bg = [20, 20, 20];
    let mut row = vec![SnapCell { ch: 'a', fg, bg, ..SnapCell::default() }; 4];
    row[1].ch = ' ';
    row[2].ch = '\0';
    row[3].bold = true;
    let snap = GridSnapshot {
        cells: vec![row],
        cursor_line: 0,
        cursor_col: 0,
        cursor_visible: true,
        fg: [250, 250, 250],
        bg: [5, 5, 5],
        selection: Some(SelectionView { start_line: 0, start_col: 3, end_line: 0, end_col: 3, is_block: false }),
    };
    let g = row_glyphs(&snap, 0);
    assert_eq!(g[0].fg, bg);
    assert_eq!(g[1].ch, '\u{A0}');
    assert_eq!(g[1].fg, fg);
    assert_eq!(g[2].ch, '\u{A0}');
    assert_eq!(g[3].fg, [5, 5, 5]);
    assert!(g[3].bold);
}
