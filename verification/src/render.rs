//! What the renderer draws, in cells and characters: tab-strip layout,
//! title truncation, background and underline runs, selection rows and the
//! per-cell text colours. Conversion to pixels happens at the edge.

use vstd::prelude::*;
use crate::terminal::{
    GridPoint, GridSnapshot, SelectionView, SnapCell, UrlSpan, last_index, match_spans_spec, max_int,
    min_int, point_le,
};
use crate::text::{copy_range, string_from_chars};

verus! {

/// The ellipsis that marks a truncated title.
pub open spec fn ellipsis() -> char {
    '\u{2026}'
}

/// `s` cut to at most `max_chars` characters, the last of them an
/// ellipsis when anything was cut.
pub open spec fn truncate_spec(s: Seq<char>, max_chars: usize) -> Seq<char> {
    if max_chars == 0 {
        Seq::empty()
    } else if s.len() <= max_chars {
        s
    } else {
        s.take(max_chars - 1).push(ellipsis())
    }
}

/// Truncate to `max_chars` characters (not bytes), ending in `…` when cut.
pub fn truncate_with_ellipsis(s: &str, max_chars: usize) -> (t: String)
    ensures
        t@ == truncate_spec(s@, max_chars),
{
    let chars = crate::text::chars_of(s);
    let count = chars.len();
    if max_chars == 0 {
        return String::new();
    }
    if count <= max_chars {
        return s.to_owned();
    }
    let mut head = copy_range(chars.as_slice(), 0, max_chars - 1);
    head.push('\u{2026}');
    assert(head@ =~= truncate_spec(s@, max_chars));
    string_from_chars(head.as_slice())
}

/// Some span covers cell (`row`, `col`).
pub open spec fn covers_spec(spans: Seq<UrlSpan>, row: usize, col: usize) -> bool {
    exists|i: int|
        0 <= i < spans.len() && (#[trigger] spans[i]).line == row && spans[i].start_col <= col
            <= spans[i].end_col
}

/// Whether the hovered URL's spans cover cell (`row`, `col`).
pub fn hover_url_covers(spans: &[UrlSpan], row: usize, col: usize) -> (b: bool)
    ensures
        b == covers_spec(spans@, row, col),
{
    let mut i: usize = 0;
    while i < spans.len()
        invariant
            i <= spans@.len(),
            forall|j: int|
                0 <= j < i ==> !((#[trigger] spans@[j]).line == row && spans@[j].start_col <= col
                    <= spans@[j].end_col),
        decreases spans@.len() - i,
    {
        let s = spans[i];
        if s.line == row && col >= s.start_col && col <= s.end_col {
            return true;
        }
        i += 1;
    }
    false
}

/// Cell (`row`, `col`) is selected: inside the rectangle for a block
/// selection; otherwise from the start cell to the end of its row, whole
/// middle rows, and the last row up to the end cell.
pub open spec fn selected_spec(sel: SelectionView, row: usize, col: usize) -> bool {
    if sel.is_block {
        sel.start_line <= row <= sel.end_line && sel.start_col <= col <= sel.end_col
    } else if row < sel.start_line || row > sel.end_line {
        false
    } else if sel.start_line == sel.end_line {
        sel.start_col <= col <= sel.end_col
    } else if row == sel.start_line {
        col >= sel.start_col
    } else if row == sel.end_line {
        col <= sel.end_col
    } else {
        true
    }
}

/// Whether cell (`row`, `col`) is part of the snapshot's selection.
pub fn cell_in_selection(snap: &GridSnapshot, row: usize, col: usize) -> (b: bool)
    ensures
        b == (match snap.selection {
            Some(sel) => selected_spec(sel, row, col),
            None => false,
        }),
{
    let sel = match snap.selection {
        Some(sel) => sel,
        None => {
            return false;
        },
    };
    if sel.is_block {
        return row >= sel.start_line && row <= sel.end_line && col >= sel.start_col && col
            <= sel.end_col;
    }
    if row < sel.start_line || row > sel.end_line {
        return false;
    }
    if sel.start_line == sel.end_line {
        col >= sel.start_col && col <= sel.end_col
    } else if row == sel.start_line {
        col >= sel.start_col
    } else if row == sel.end_line {
        col <= sel.end_col
    } else {
        true
    }
}


/// Columns between adjacent tab titles.
pub const SEP_CHARS: usize = 2;

/// The width every title is given first (or its natural width, if
/// shorter), so that each tab stays usable on a narrow bar.
pub const MIN_TITLE_CHARS: usize = 4;

pub open spec fn sum(s: Seq<usize>) -> int
    decreases s.len(),
{
    if s.len() == 0 {
        0
    } else {
        sum(s.drop_last()) + s.last()
    }
}

/// The first, guaranteed share of a title of natural width `n`.
pub open spec fn min_title(n: usize) -> int {
    min_int(n as int, MIN_TITLE_CHARS as int)
}

/// Sum of the guaranteed shares of the first `i` titles.
pub open spec fn guaranteed_before(natural: Seq<usize>, i: int) -> int
    decreases i,
{
    if i <= 0 {
        0
    } else {
        guaranteed_before(natural, i - 1) + min_title(natural[i - 1])
    }
}

/// Characters left for titles once the separators are taken out.
pub open spec fn title_pool(n_tabs: int, usable_chars: usize) -> int {
    max_int(0, usable_chars - max_int(0, n_tabs - 1) * SEP_CHARS)
}

/// The width of a title of natural width `n` at fill level `level`.
pub open spec fn filled(n: usize, level: int) -> int {
    min_int(n as int, MIN_TITLE_CHARS + level)
}

/// Title budgets: every tab first gets its guaranteed share, in order,
/// while characters last; what is left is handed out one character at a
/// time, round-robin in tab order, to titles still shorter than their
/// natural width. So either the pool ran out during the first round
/// (budgets are the greedy prefix), or every title is at its natural width
/// or at a common level — one more for the tabs before the point where
/// the pool ran out — and the budgets use the whole pool or every title
/// is complete.
pub open spec fn budgets_ok(natural: Seq<usize>, usable_chars: usize, b: Seq<usize>) -> bool {
    let n = natural.len() as int;
    let pool = title_pool(n, usable_chars);
    &&& b.len() == n
    &&& if pool < guaranteed_before(natural, n) {
        forall|i: int|
            0 <= i < n ==> #[trigger] b[i] == min_int(
                min_title(natural[i]),
                max_int(0, pool - guaranteed_before(natural, i)),
            )
    } else {
        &&& sum(b) == min_int(pool, sum(natural))
        &&& exists|t: int, c: int| #[trigger] filled_to_level(natural, b, t, c)
    }
}

/// Every title is filled to level `t`, the first `c` to level `t + 1`.
pub open spec fn filled_to_level(natural: Seq<usize>, b: Seq<usize>, t: int, c: int) -> bool {
    &&& t >= 0
    &&& 0 <= c <= natural.len()
    &&& forall|i: int|
        0 <= i < natural.len() ==> #[trigger] b[i] == filled(
            natural[i],
            t + (if i < c {
                1int
            } else {
                0int
            }),
        )
}

proof fn lemma_sum_update(s: Seq<usize>, i: int, v: usize)
    requires
        0 <= i < s.len(),
    ensures
        sum(s.update(i, v)) == sum(s) - s[i] + v,
    decreases s.len(),
{
    if i < s.len() - 1 {
        assert(s.update(i, v).drop_last() =~= s.drop_last().update(i, v));
        lemma_sum_update(s.drop_last(), i, v);
    } else {
        assert(s.update(i, v).drop_last() =~= s.drop_last());
    }
}

proof fn lemma_sum_le(a: Seq<usize>, b: Seq<usize>)
    requires
        a.len() == b.len(),
        forall|i: int| 0 <= i < a.len() ==> a[i] <= b[i],
    ensures
        sum(a) <= sum(b),
        sum(a) == sum(b) ==> a == b,
    decreases a.len(),
{
    if a.len() > 0 {
        lemma_sum_le(a.drop_last(), b.drop_last());
        if sum(a) == sum(b) {
            assert(a.last() == b.last());
            assert(a.drop_last() == b.drop_last());
            assert(a =~= a.drop_last().push(a.last()));
            assert(b =~= b.drop_last().push(b.last()));
        }
    }
}

/// Share the characters of the tab strip among the titles (natural widths
/// `natural`, `usable_chars` characters across): see [`budgets_ok`].
pub fn tab_budgets(natural: &Vec<usize>, usable_chars: usize) -> (b: Vec<usize>)
    requires
        natural@.len() <= usize::MAX / 2,
    ensures
        budgets_ok(natural@, usable_chars, b@),
        sum(b@) <= title_pool(natural@.len() as int, usable_chars),
{
    let n = natural.len();
    let mut budgets: Vec<usize> = Vec::new();
    if n == 0 {
        assert(filled_to_level(natural@, budgets@, 0, 0));
        return budgets;
    }
    let total_seps = (n - 1) * SEP_CHARS;
    let mut pool = if usable_chars > total_seps { usable_chars - total_seps } else { 0 };
    let ghost p0: int = pool as int;
    assert(p0 == title_pool(n as int, usable_chars));
    let mut i: usize = 0;
    while i < n
        invariant
            i <= n,
            n == natural@.len(),
            budgets@.len() == i,
            pool + sum(budgets@) == p0,
            p0 >= guaranteed_before(natural@, i as int) ==> pool == p0 - guaranteed_before(
                natural@,
                i as int,
            ),
            p0 < guaranteed_before(natural@, i as int) ==> pool == 0,
            forall|j: int|
                0 <= j < i ==> #[trigger] budgets@[j] == min_int(
                    min_title(natural@[j]),
                    max_int(0, p0 - guaranteed_before(natural@, j)),
                ),
        decreases n - i,
    {
        let want = if natural[i] < MIN_TITLE_CHARS { natural[i] } else { MIN_TITLE_CHARS };
        let take = if want < pool { want } else { pool };
        let ghost before = budgets@;
        budgets.push(take);
        assert(budgets@.drop_last() =~= before);
        pool -= take;
        i += 1;
    }
    let ghost greedy = budgets@;
    proof {
        if p0 >= guaranteed_before(natural@, n as int) {
            assert forall|j: int| 0 <= j < n implies #[trigger] budgets@[j] == filled(
                natural@[j],
                0,
            ) by {
                lemma_guaranteed_mono(natural@, j + 1, n as int);
            }
        }
    }
    let ghost mut t: int = 0;
    let ghost mut c: int = 0;
    loop
        invariant
            n == natural@.len(),
            budgets@.len() == n,
            pool + sum(budgets@) == p0,
            p0 < guaranteed_before(natural@, n as int) ==> pool == 0 && budgets@ == greedy,
            p0 >= guaranteed_before(natural@, n as int) ==> {
                &&& t >= 0
                &&& 0 <= c <= n
                &&& (c == 0 || pool == 0)
                &&& forall|j: int|
                    0 <= j < n ==> #[trigger] budgets@[j] == filled(
                        natural@[j],
                        t + (if j < c {
                            1int
                        } else {
                            0int
                        }),
                    )
            },
        ensures
            pool + sum(budgets@) == p0,
            budgets@.len() == n,
            p0 < guaranteed_before(natural@, n as int) ==> budgets@ == greedy,
            p0 >= guaranteed_before(natural@, n as int) ==> {
                &&& pool == 0 || budgets@ == natural@
                &&& t >= 0
                &&& 0 <= c <= n
                &&& forall|j: int|
                    0 <= j < n ==> #[trigger] budgets@[j] == filled(
                        natural@[j],
                        t + (if j < c {
                            1int
                        } else {
                            0int
                        }),
                    )
            },
        decreases pool,
    {
        if pool == 0 {
            break;
        }
        let ghost pass_pool = pool;
        let mut progressed = false;
        let mut k: usize = 0;
        while k < n
            invariant
                k <= n,
                n == natural@.len(),
                budgets@.len() == n,
                pool + sum(budgets@) == p0,
                pool <= pass_pool,
                pass_pool > 0,
                c == 0,
                t >= 0,
                p0 >= guaranteed_before(natural@, n as int),
                progressed ==> pool < pass_pool,
                !progressed ==> pool == pass_pool && forall|j: int|
                    0 <= j < k ==> #[trigger] budgets@[j] == natural@[j],
                forall|j: int|
                    0 <= j < n ==> #[trigger] budgets@[j] == filled(
                        natural@[j],
                        t + (if j < k {
                            1int
                        } else {
                            0int
                        }),
                    ),
            ensures
                k <= n,
                pool + sum(budgets@) == p0,
                budgets@.len() == n,
                progressed ==> pool < pass_pool,
                !progressed ==> pool == pass_pool && k == n && forall|j: int|
                    0 <= j < n ==> #[trigger] budgets@[j] == natural@[j],
                k < n ==> pool == 0,
                forall|j: int|
                    0 <= j < n ==> #[trigger] budgets@[j] == filled(
                        natural@[j],
                        t + (if j < k {
                            1int
                        } else {
                            0int
                        }),
                    ),
            decreases n - k,
        {
            if pool == 0 {
                break;
            }
            if budgets[k] < natural[k] {
                let ghost before = budgets@;
                let v = budgets[k] + 1;
                budgets.set(k, v);
                proof {
                    lemma_sum_update(before, k as int, v);
                }
                pool -= 1;
                progressed = true;
            }
            k += 1;
        }
        if !progressed {
            proof {
                t = t + 1;
                c = 0;
            }
            break;
        }
        proof {
            if k == n {
                t = t + 1;
                c = 0;
                assert forall|j: int| 0 <= j < n implies #[trigger] budgets@[j] == filled(
                    natural@[j],
                    t + (if j < c {
                        1int
                    } else {
                        0int
                    }),
                ) by {}
            } else {
                c = k as int;
            }
        }
    }
    proof {
        if p0 >= guaranteed_before(natural@, n as int) {
            assert forall|j: int| 0 <= j < n implies budgets@[j] <= natural@[j] by {
                assert(budgets@[j] == filled(
                    natural@[j],
                    t + (if j < c {
                        1int
                    } else {
                        0int
                    }),
                ));
            }
            lemma_sum_le(budgets@, natural@);
            assert(sum(budgets@) == min_int(p0, sum(natural@)));
            assert(filled_to_level(natural@, budgets@, t, c));
        }
    }
    budgets
}

proof fn lemma_guaranteed_mono(natural: Seq<usize>, i: int, j: int)
    requires
        0 <= i <= j <= natural.len(),
    ensures
        guaranteed_before(natural, i) <= guaranteed_before(natural, j),
    decreases j - i,
{
    if i < j {
        lemma_guaranteed_mono(natural, i, j - 1);
    }
}


/// Where one tab's title sits in the strip, in characters from the strip's
/// left edge.
#[derive(Clone, Copy, Debug, PartialEq, Eq, Structural)]
pub struct TabPlacement {
    pub start: usize,
    pub width: usize,
    pub active: bool,
}

/// The tab strip laid out in characters.
pub struct TabStrip {
    /// Title budgets (see [`budgets_ok`]).
    pub budgets: Vec<usize>,
    /// Text runs in order: titles, separated by blank gaps; the flag marks
    /// the active tab's title.
    pub segments: Vec<(String, bool)>,
    pub tabs: Vec<TabPlacement>,
    /// Start of each gap in which a divider line is drawn: only between two
    /// inactive tabs.
    pub dividers: Vec<usize>,
}

/// The natural widths of the titles, in characters.
pub open spec fn natural_widths(titles: Seq<String>) -> Seq<usize> {
    Seq::new(titles.len(), |i: int| titles[i]@.len() as usize)
}

/// Characters taken by the first `i` tabs and the gaps after them.
pub open spec fn start_of(widths: Seq<usize>, i: int) -> int
    decreases i,
{
    if i <= 0 {
        0
    } else {
        start_of(widths, i - 1) + widths[i - 1] + SEP_CHARS
    }
}

/// The gaps before tabs `1..=i` whose neighbours are both inactive.
pub open spec fn dividers_spec(widths: Seq<usize>, active: usize, i: int) -> Seq<usize>
    decreases i,
{
    if i <= 0 {
        Seq::empty()
    } else {
        let before = dividers_spec(widths, active, i - 1);
        if i - 1 != active && i != active {
            before.push((start_of(widths, i) - SEP_CHARS) as usize)
        } else {
            before
        }
    }
}

proof fn lemma_truncate_len(s: Seq<char>, max_chars: usize)
    ensures
        truncate_spec(s, max_chars).len() == min_int(s.len() as int, max_chars as int),
{
}

proof fn lemma_start_bound(widths: Seq<usize>, i: int)
    requires
        0 <= i <= widths.len(),
    ensures
        start_of(widths, i) == sum(widths.take(i)) + i * SEP_CHARS,
    decreases i,
{
    if i > 0 {
        lemma_start_bound(widths, i - 1);
        assert(widths.take(i).drop_last() =~= widths.take(i - 1));
    }
}

proof fn lemma_sum_take_le(s: Seq<usize>, i: int)
    requires
        0 <= i <= s.len(),
    ensures
        sum(s.take(i)) <= sum(s),
    decreases s.len(),
{
    if i < s.len() {
        assert(s.take(i) =~= s.drop_last().take(i));
        lemma_sum_take_le(s.drop_last(), i);
    } else {
        assert(s.take(i) =~= s);
    }
}

/// Lay out the tab strip: budgets from [`tab_budgets`], each title
/// truncated to its budget, titles separated by two-character gaps, and a
/// placeholder when there are no tabs.
pub fn tab_strip(titles: &Vec<String>, active: usize, usable_chars: usize) -> (strip: TabStrip)
    requires
        titles@.len() <= usize::MAX / 2,
    ensures
        budgets_ok(natural_widths(titles@), usable_chars, strip.budgets@),
        strip.tabs@.len() == titles@.len(),
        forall|i: int|
            0 <= i < titles@.len() ==> {
                let w = Seq::new(
                    titles@.len(),
                    |j: int| min_int(titles@[j]@.len() as int, strip.budgets@[j] as int) as usize,
                );
                &&& (#[trigger] strip.tabs@[i]).width == w[i]
                &&& strip.tabs@[i].start == start_of(w, i)
                &&& strip.tabs@[i].active == (i == active)
            },
        titles@.len() == 0 ==> strip.segments@.len() == 1 && strip.segments@[0].0@ == seq![
            '(',
            'n',
            'o',
            ' ',
            't',
            'a',
            'b',
            's',
            ')',
        ] && !strip.segments@[0].1,
        titles@.len() > 0 ==> strip.segments@.len() == 2 * titles@.len() - 1,
        forall|i: int|
            0 <= i < titles@.len() ==> (#[trigger] strip.segments@[2 * i]).0@ == truncate_spec(
                titles@[i]@,
                strip.budgets@[i],
            ) && strip.segments@[2 * i].1 == (i == active),
        forall|i: int|
            0 < i < titles@.len() ==> (#[trigger] strip.segments@[2 * i - 1]).0@ == seq![' ', ' ']
                && !strip.segments@[2 * i - 1].1,
        strip.dividers@ == dividers_spec(
            Seq::new(
                titles@.len(),
                |j: int| min_int(titles@[j]@.len() as int, strip.budgets@[j] as int) as usize,
            ),
            active,
            titles@.len() - 1,
        ),
{
    let n = titles.len();
    let mut natural: Vec<usize> = Vec::new();
    let mut i: usize = 0;
    while i < n
        invariant
            i <= n,
            n == titles@.len(),
            natural@ == natural_widths(titles@).take(i as int),
        decreases n - i,
    {
        let count = crate::text::chars_of(titles[i].as_str()).len();
        natural.push(count);
        assert(natural@ =~= natural_widths(titles@).take(i + 1));
        i += 1;
    }
    assert(natural@ =~= natural_widths(titles@));
    let budgets = tab_budgets(&natural, usable_chars);
    let ghost w = Seq::new(
        titles@.len(),
        |j: int| min_int(titles@[j]@.len() as int, budgets@[j] as int) as usize,
    );
    proof {
        assert forall|j: int| 0 <= j < n implies w[j] <= budgets@[j] by {}
        lemma_sum_le(w, budgets@);
    }
    let mut segments: Vec<(String, bool)> = Vec::new();
    let mut tabs: Vec<TabPlacement> = Vec::new();
    let mut dividers: Vec<usize> = Vec::new();
    let mut cursor: usize = 0;
    let mut k: usize = 0;
    while k < n
        invariant
            k <= n,
            n == titles@.len(),
            n <= usize::MAX / 2,
            budgets@.len() == n,
            budgets_ok(natural_widths(titles@), usable_chars, budgets@),
            sum(budgets@) <= title_pool(n as int, usable_chars),
            w == Seq::new(
                titles@.len(),
                |j: int| min_int(titles@[j]@.len() as int, budgets@[j] as int) as usize,
            ),
            sum(w) <= sum(budgets@),
            k > 0 ==> cursor == start_of(w, k as int) - SEP_CHARS,
            k == 0 ==> cursor == 0,
            tabs@.len() == k,
            forall|j: int|
                0 <= j < k ==> (#[trigger] tabs@[j]).width == w[j] && tabs@[j].start == start_of(
                    w,
                    j,
                ) && tabs@[j].active == (j == active),
            k > 0 ==> segments@.len() == 2 * k - 1,
            k == 0 ==> segments@.len() == 0,
            forall|j: int|
                0 <= j < k ==> (#[trigger] segments@[2 * j]).0@ == truncate_spec(
                    titles@[j]@,
                    budgets@[j],
                ) && segments@[2 * j].1 == (j == active),
            forall|j: int|
                0 < j < k ==> (#[trigger] segments@[2 * j - 1]).0@ == seq![' ', ' ']
                    && !segments@[2 * j - 1].1,
            dividers@ == dividers_spec(w, active, k - 1),
        decreases n - k,
    {
        proof {
            lemma_start_bound(w, k as int);
            lemma_sum_take_le(w, k as int);
            lemma_start_bound(w, (k + 1) as int);
            lemma_sum_take_le(w, (k + 1) as int);
            assert(w.take(k + 1).drop_last() =~= w.take(k as int));
        }
        if k > 0 {
            let gap = String::from_str("  ");
            proof {
                reveal_strlit("  ");
            }
            assert(gap@ =~= seq![' ', ' ']);
            segments.push((gap, false));
            if !(k - 1 == active) && !(k == active) {
                dividers.push(cursor);
            }
            cursor += SEP_CHARS;
        }
        let title = truncate_with_ellipsis(titles[k].as_str(), budgets[k]);
        let ghost tw = title@.len();
        proof {
            lemma_truncate_len(titles@[k as int]@, budgets@[k as int]);
        }
        let width = crate::text::chars_of(title.as_str()).len();
        assert(width == w[k as int]);
        tabs.push(TabPlacement { start: cursor, width, active: k == active });
        segments.push((title, k == active));
        cursor += width;
        k += 1;
    }
    if n == 0 {
        let none = String::from_str("(no tabs)");
        proof {
            reveal_strlit("(no tabs)");
        }
        segments.push((none, false));
    }
    TabStrip { budgets, segments, tabs, dividers }
}


/// Two colours are equal.
pub fn same_rgb(a: [u8; 3], b: [u8; 3]) -> (r: bool)
    ensures
        r == (a@ == b@),
{
    let r = a[0] == b[0] && a[1] == b[1] && a[2] == b[2];
    if r {
        assert(a@ =~= b@);
    }
    r
}

/// The cursor's column on row `row`, when the cursor is visible there.
pub open spec fn cursor_col_on(snap: GridSnapshot, row: usize) -> Option<usize> {
    if snap.cursor_visible && snap.cursor_line == row {
        Some(snap.cursor_col)
    } else {
        None
    }
}

/// The background painted under cell `col` of row `row`: none for the
/// cursor cell (the cursor block covers it) and for the default
/// background (the surface clear colour shows through).
pub open spec fn painted_bg(snap: GridSnapshot, row: usize, col: int) -> Option<Seq<u8>> {
    let cell = snap.cells@[row as int]@[col];
    if cursor_col_on(snap, row) == Some(col as usize) || cell.bg@ == snap.bg@ {
        None
    } else {
        Some(cell.bg@)
    }
}

/// A horizontal run of cells `[start, end)` painted in one colour.
#[derive(Clone, Copy, Debug, PartialEq, Eq)]
pub struct BgRun {
    pub start: usize,
    pub end: usize,
    pub rgb: [u8; 3],
}

/// `runs` are the maximal runs of equal painted background on row `row`:
/// ordered, non-empty, each uniformly painted, together covering exactly
/// the painted cells, and two runs that touch differ in colour.
pub open spec fn bg_runs_ok(snap: GridSnapshot, row: usize, runs: Seq<BgRun>) -> bool {
    let len = snap.cells@[row as int]@.len();
    &&& forall|i: int|
        0 <= i < runs.len() ==> (#[trigger] runs[i]).start < runs[i].end <= len
    &&& forall|i: int, j: int| 0 <= i < j < runs.len() ==> #[trigger] runs[i].end <= #[trigger] runs[j].start
    &&& forall|i: int, c: int|
        #![trigger runs[i], painted_bg(snap, row, c)]
        0 <= i < runs.len() && runs[i].start <= c < runs[i].end ==> painted_bg(snap, row, c)
            == Some(runs[i].rgb@)
    &&& forall|c: int|
        0 <= c < len && #[trigger] painted_bg(snap, row, c) is Some ==> exists|i: int|
            0 <= i < runs.len() && (#[trigger] runs[i]).start <= c < runs[i].end
    &&& forall|i: int|
        0 <= i < runs.len() - 1 && (#[trigger] runs[i]).end == runs[i + 1].start ==> runs[i].rgb@
            != runs[i + 1].rgb@
}

/// The background runs of row `row`, left to right.
pub fn bg_runs(snap: &GridSnapshot, row: usize) -> (runs: Vec<BgRun>)
    requires
        row < snap.cells@.len(),
    ensures
        bg_runs_ok(*snap, row, runs@),
{
    let cells = &snap.cells[row];
    let len = cells.len();
    let cursor: Option<usize> = if snap.cursor_visible && snap.cursor_line == row {
        Some(snap.cursor_col)
    } else {
        None
    };
    let mut runs: Vec<BgRun> = Vec::new();
    let mut open: Option<(usize, [u8; 3])> = None;
    let mut col: usize = 0;
    while col < len
        invariant
            col <= len,
            len == snap.cells@[row as int]@.len(),
            *cells == snap.cells@[row as int],
            cursor == cursor_col_on(*snap, row),
            forall|i: int| 0 <= i < runs@.len() ==> (#[trigger] runs@[i]).start < runs@[i].end,
            forall|i: int|
                0 <= i < runs@.len() ==> (#[trigger] runs@[i]).end <= (match open {
                    Some((st, _)) => st as int,
                    None => col as int,
                }),
            forall|i: int, j: int|
                0 <= i < j < runs@.len() ==> #[trigger] runs@[i].end <= #[trigger] runs@[j].start,
            forall|i: int, c: int|
                #![trigger runs@[i], painted_bg(*snap, row, c)]
                0 <= i < runs@.len() && runs@[i].start <= c < runs@[i].end ==> painted_bg(
                    *snap,
                    row,
                    c,
                ) == Some(runs@[i].rgb@),
            match open {
                Some((st, rgb)) => st < col && forall|c: int|
                    st <= c < col ==> #[trigger] painted_bg(*snap, row, c) == Some(rgb@),
                None => true,
            },
            forall|c: int|
                0 <= c < col && #[trigger] painted_bg(*snap, row, c) is Some && !(match open {
                    Some((st, _)) => st <= c,
                    None => false,
                }) ==> exists|i: int| 0 <= i < runs@.len() && (#[trigger] runs@[i]).start <= c < runs@[i].end,
            forall|i: int|
                0 <= i < runs@.len() - 1 && (#[trigger] runs@[i]).end == runs@[i + 1].start
                    ==> runs@[i].rgb@ != runs@[i + 1].rgb@,
            runs@.len() > 0 ==> match open {
                Some((st, rgb)) => runs@.last().end == st ==> runs@.last().rgb@ != rgb@,
                None => runs@.last().end < col,
            },
        decreases len - col,
    {
        let cell = cells[col];
        let is_cursor = match cursor {
            Some(cc) => cc == col,
            None => false,
        };
        let here: Option<[u8; 3]> = if is_cursor || same_rgb(cell.bg, snap.bg) {
            None
        } else {
            Some(cell.bg)
        };
        assert(here == None::<[u8; 3]> <==> painted_bg(*snap, row, col as int) is None);
        assert(here matches Some(h) ==> painted_bg(*snap, row, col as int) == Some(h@));
        let ghost runs_before = runs@;
        match open {
            Some((st, rgb)) => {
                let continues = match here {
                    Some(h) => same_rgb(h, rgb),
                    None => false,
                };
                if !continues {
                    runs.push(BgRun { start: st, end: col, rgb });
                    assert(runs@.drop_last() =~= runs_before);
                    open = match here {
                        Some(h) => Some((col, h)),
                        None => None,
                    };
                    proof {
                        assert forall|c: int|
                            0 <= c < col + 1 && #[trigger] painted_bg(*snap, row, c) is Some
                                && !(match open {
                                Some((st2, _)) => st2 <= c,
                                None => false,
                            }) implies exists|i: int|
                            0 <= i < runs@.len() && (#[trigger] runs@[i]).start <= c
                                < runs@[i].end by {
                            if st <= c < col {
                                assert(runs@[runs@.len() - 1].start <= c < runs@[runs@.len() - 1].end);
                            } else if c < st {
                                let i = choose|i: int|
                                    0 <= i < runs_before.len() && (#[trigger] runs_before[i]).start
                                        <= c < runs_before[i].end;
                                assert(runs@[i] == runs_before[i]);
                            }
                        }
                    }
                }
            },
            None => {
                if let Some(h) = here {
                    open = Some((col, h));
                }
            },
        }
        col += 1;
    }
    if let Some((st, rgb)) = open {
        let ghost runs_before = runs@;
        runs.push(BgRun { start: st, end: len, rgb });
        assert(runs@.drop_last() =~= runs_before);
        proof {
            assert forall|c: int|
                0 <= c < len && #[trigger] painted_bg(*snap, row, c) is Some implies exists|i: int|
                0 <= i < runs@.len() && (#[trigger] runs@[i]).start <= c < runs@[i].end by {
                if st <= c {
                    assert(runs@[runs@.len() - 1].start <= c < runs@[runs@.len() - 1].end);
                } else {
                    let i = choose|i: int|
                        0 <= i < runs_before.len() && (#[trigger] runs_before[i]).start <= c
                            < runs_before[i].end;
                    assert(runs@[i] == runs_before[i]);
                }
            }
        }
    }
    runs
}


/// Cell `col` of row `row` is underlined: SGR underline or a hyperlink,
/// or it lies under the hovered URL.
pub open spec fn underlined(snap: GridSnapshot, hover: Seq<UrlSpan>, row: usize, col: int) -> bool {
    snap.cells@[row as int]@[col].underline || covers_spec(hover, row, col as usize)
}

/// `runs` are the maximal runs `[start, end)` of underlined cells of row
/// `row`, left to right.
pub open spec fn underline_runs_ok(
    snap: GridSnapshot,
    hover: Seq<UrlSpan>,
    row: usize,
    runs: Seq<(usize, usize)>,
) -> bool {
    let len = snap.cells@[row as int]@.len();
    &&& forall|i: int| 0 <= i < runs.len() ==> (#[trigger] runs[i]).0 < runs[i].1 <= len
    &&& forall|i: int, j: int| 0 <= i < j < runs.len() ==> #[trigger] runs[i].1 < #[trigger] runs[j].0
    &&& forall|i: int, c: int|
        #![trigger runs[i], underlined(snap, hover, row, c)]
        0 <= i < runs.len() && runs[i].0 <= c < runs[i].1 ==> underlined(snap, hover, row, c)
    &&& forall|i: int|
        0 <= i < runs.len() ==> ((#[trigger] runs[i]).0 == 0 || !underlined(
            snap,
            hover,
            row,
            runs[i].0 - 1,
        )) && (runs[i].1 == len || !underlined(snap, hover, row, runs[i].1 as int))
    &&& forall|c: int|
        0 <= c < len && #[trigger] underlined(snap, hover, row, c) ==> exists|i: int|
            0 <= i < runs.len() && (#[trigger] runs[i]).0 <= c < runs[i].1
}

/// The underline runs of row `row`, left to right.
pub fn underline_runs(snap: &GridSnapshot, hover: &[UrlSpan], row: usize) -> (runs: Vec<(usize, usize)>)
    requires
        row < snap.cells@.len(),
    ensures
        underline_runs_ok(*snap, hover@, row, runs@),
{
    let cells = &snap.cells[row];
    let len = cells.len();
    let mut runs: Vec<(usize, usize)> = Vec::new();
    let mut start: Option<usize> = None;
    let mut col: usize = 0;
    while col < len
        invariant
            col <= len,
            len == snap.cells@[row as int]@.len(),
            *cells == snap.cells@[row as int],
            forall|i: int| 0 <= i < runs@.len() ==> (#[trigger] runs@[i]).0 < runs@[i].1,
            forall|i: int|
                0 <= i < runs@.len() ==> (#[trigger] runs@[i]).1 < (match start {
                    Some(st) => st as int,
                    None => col as int,
                }),
            forall|i: int, j: int| 0 <= i < j < runs@.len() ==> #[trigger] runs@[i].1 < #[trigger] runs@[j].0,
            forall|i: int, c: int|
                #![trigger runs@[i], underlined(*snap, hover@, row, c)]
                0 <= i < runs@.len() && runs@[i].0 <= c < runs@[i].1 ==> underlined(*snap, hover@, row, c),
            forall|i: int|
                0 <= i < runs@.len() ==> ((#[trigger] runs@[i]).0 == 0 || !underlined(
                    *snap,
                    hover@,
                    row,
                    runs@[i].0 - 1,
                )) && !underlined(*snap, hover@, row, runs@[i].1 as int),
            match start {
                Some(st) => st < col && (st == 0 || !underlined(*snap, hover@, row, st - 1))
                    && forall|c: int| st <= c < col ==> #[trigger] underlined(*snap, hover@, row, c),
                None => col == 0 || !underlined(*snap, hover@, row, col - 1),
            },
            forall|c: int|
                0 <= c < col && #[trigger] underlined(*snap, hover@, row, c) && !(match start {
                    Some(st) => st <= c,
                    None => false,
                }) ==> exists|i: int| 0 <= i < runs@.len() && (#[trigger] runs@[i]).0 <= c < runs@[i].1,
        decreases len - col,
    {
        let on = cells[col].underline || hover_url_covers(hover, row, col);
        assert(on == underlined(*snap, hover@, row, col as int));
        match start {
            None => {
                if on {
                    start = Some(col);
                }
            },
            Some(st) => {
                if !on {
                    let ghost before = runs@;
                    runs.push((st, col));
                    assert(runs@.drop_last() =~= before);
                    start = None;
                    proof {
                        assert forall|c: int|
                            0 <= c < col + 1 && #[trigger] underlined(*snap, hover@, row, c)
                                implies exists|i: int|
                            0 <= i < runs@.len() && (#[trigger] runs@[i]).0 <= c < runs@[i].1 by {
                            if st <= c < col {
                                assert(runs@[runs@.len() - 1].0 <= c < runs@[runs@.len() - 1].1);
                            } else if c < st {
                                let i = choose|i: int|
                                    0 <= i < before.len() && (#[trigger] before[i]).0 <= c
                                        < before[i].1;
                                assert(runs@[i] == before[i]);
                            }
                        }
                    }
                }
            },
        }
        col += 1;
    }
    if let Some(st) = start {
        let ghost before = runs@;
        runs.push((st, len));
        assert(runs@.drop_last() =~= before);
        proof {
            assert forall|c: int|
                0 <= c < len && #[trigger] underlined(*snap, hover@, row, c) implies exists|i: int|
                0 <= i < runs@.len() && (#[trigger] runs@[i]).0 <= c < runs@[i].1 by {
                if st <= c {
                    assert(runs@[runs@.len() - 1].0 <= c < runs@[runs@.len() - 1].1);
                } else {
                    let i = choose|i: int| 0 <= i < before.len() && (#[trigger] before[i]).0 <= c < before[i].1;
                    assert(runs@[i] == before[i]);
                }
            }
        }
    }
    runs
}


/// The highlighted columns `[start, end)` of one selected row.
#[derive(Clone, Copy, Debug, PartialEq, Eq, Structural)]
pub struct SelRow {
    pub row: usize,
    pub start: usize,
    pub end: usize,
}

/// The highlight of row `r` of a selection on a row `len` cells wide.
pub open spec fn sel_row_span(sel: SelectionView, r: usize, len: usize) -> SelRow {
    let last = len - 1;
    let (s, e) = if sel.is_block || sel.start_line == sel.end_line {
        (sel.start_col as int, sel.end_col as int)
    } else if r == sel.start_line {
        (sel.start_col as int, last)
    } else if r == sel.end_line {
        (0, sel.end_col as int)
    } else {
        (0, last)
    };
    SelRow { row: r, start: min_int(s, last) as usize, end: (min_int(e, last) + 1) as usize }
}

/// The highlights of the selected rows from the selection's first row up
/// to row `upto`, skipping rows with no cells.
pub open spec fn sel_rows_spec(snap: GridSnapshot, sel: SelectionView, upto: int) -> Seq<SelRow>
    decreases upto - sel.start_line + 1,
{
    if upto < sel.start_line {
        Seq::empty()
    } else {
        let before = sel_rows_spec(snap, sel, upto - 1);
        let len = snap.cells@[upto]@.len();
        if len == 0 {
            before
        } else {
            before.push(sel_row_span(sel, upto as usize, len as usize))
        }
    }
}

/// The last row a selection highlights: its end row, but not past the grid.
pub open spec fn sel_last_row(snap: GridSnapshot, sel: SelectionView) -> int {
    min_int(sel.end_line as int, last_index(snap.cells@.len() as usize))
}

/// The selection highlight, row by row: drawn on top of the cell
/// backgrounds in the default foreground colour.
pub fn selection_rows(snap: &GridSnapshot) -> (rows: Vec<SelRow>)
    requires
        snap.selection is Some ==> snap.cells@.len() > 0,
    ensures
        rows@ == (match snap.selection {
            Some(sel) => sel_rows_spec(*snap, sel, sel_last_row(*snap, sel)),
            None => Seq::empty(),
        }),
{
    let mut rows: Vec<SelRow> = Vec::new();
    let sel = match snap.selection {
        Some(sel) => sel,
        None => {
            return rows;
        },
    };
    let last_row = if sel.end_line < snap.cells.len() - 1 { sel.end_line } else { snap.cells.len() - 1 };
    if sel.start_line > last_row {
        return rows;
    }
    let mut r = sel.start_line;
    while r <= last_row
        invariant
            sel.start_line <= r <= last_row + 1,
            last_row < snap.cells@.len(),
            snap.selection == Some(sel),
            last_row == sel_last_row(*snap, sel),
            rows@ == sel_rows_spec(*snap, sel, r - 1),
        decreases last_row + 1 - r,
    {
        let len = snap.cells[r].len();
        if len > 0 {
            let last = len - 1;
            let (s, e) = if sel.is_block || sel.start_line == sel.end_line {
                (sel.start_col, sel.end_col)
            } else if r == sel.start_line {
                (sel.start_col, last)
            } else if r == sel.end_line {
                (0, sel.end_col)
            } else {
                (0, last)
            };
            let s = if s < last { s } else { last };
            let e = if e < last { e } else { last };
            rows.push(SelRow { row: r, start: s, end: e + 1 });
        }
        r += 1;
    }
    rows
}

/// What one cell contributes to its row's text.
#[derive(Clone, Copy, Debug, PartialEq, Eq)]
pub struct CellGlyph {
    pub ch: char,
    pub fg: [u8; 3],
    pub bold: bool,
    pub italic: bool,
}

/// How cell `col` of row `row` is drawn as text: spacer slots as blanks,
/// blanks as no-break spaces (so shaping cannot collapse runs of spaces
/// and drift the column grid); under the cursor in the cell's background
/// colour so it reads against the cursor block; selected text in the
/// default background, which reads against the selection highlight.
pub open spec fn glyph_ok(g: CellGlyph, snap: GridSnapshot, row: usize, col: int) -> bool {
    let cell = snap.cells@[row as int]@[col];
    let ch = if cell.ch == '\0' { ' ' } else { cell.ch };
    let on_cursor = cursor_col_on(snap, row) == Some(col as usize);
    let selected = match snap.selection {
        Some(sel) => selected_spec(sel, row, col as usize),
        None => false,
    };
    &&& g.ch == (if ch == ' ' { '\u{A0}' } else { ch })
    &&& g.fg@ == (if on_cursor {
        cell.bg@
    } else if selected {
        snap.bg@
    } else {
        cell.fg@
    })
    &&& g.bold == cell.bold
    &&& g.italic == cell.italic
}

/// The text of row `row`, one glyph per cell.
pub fn row_glyphs(snap: &GridSnapshot, row: usize) -> (glyphs: Vec<CellGlyph>)
    requires
        row < snap.cells@.len(),
    ensures
        glyphs@.len() == snap.cells@[row as int]@.len(),
        forall|c: int| 0 <= c < glyphs@.len() ==> glyph_ok(#[trigger] glyphs@[c], *snap, row, c),
{
    let cells = &snap.cells[row];
    let cursor_here = snap.cursor_visible && snap.cursor_line == row;
    let mut glyphs: Vec<CellGlyph> = Vec::new();
    let mut col: usize = 0;
    while col < cells.len()
        invariant
            col <= cells@.len(),
            *cells == snap.cells@[row as int],
            cursor_here == (snap.cursor_visible && snap.cursor_line == row),
            glyphs@.len() == col,
            forall|c: int| 0 <= c < col ==> glyph_ok(#[trigger] glyphs@[c], *snap, row, c),
        decreases cells@.len() - col,
    {
        let cell = cells[col];
        let ch = if cell.ch == '\0' { ' ' } else { cell.ch };
        let on_cursor = cursor_here && col == snap.cursor_col;
        let selected = cell_in_selection(snap, row, col);
        let fg = if on_cursor {
            cell.bg
        } else if selected {
            snap.bg
        } else {
            cell.fg
        };
        glyphs.push(
            CellGlyph {
                ch: if ch == ' ' { '\u{A0}' } else { ch },
                fg,
                bold: cell.bold,
                italic: cell.italic,
            },
        );
        col += 1;
    }
    glyphs
}


/// The highlight drawn for a selected row covers exactly the row's
/// selected cells, when the selection's columns lie inside the row (as
/// they do for a selection clamped to the grid).
pub proof fn law_highlight_is_selection(sel: SelectionView, r: usize, len: usize, c: usize)
    requires
        sel.start_line <= r <= sel.end_line,
        sel.start_col < len,
        sel.end_col < len,
        c < len,
    ensures
        ({
            let span = sel_row_span(sel, r, len);
            span.start <= c < span.end
        }) <==> selected_spec(sel, r, c),
{
}

/// Title budgets never exceed the titles' natural widths.
pub proof fn law_budgets_within_natural(natural: Seq<usize>, usable_chars: usize, b: Seq<usize>, i: int)
    requires
        budgets_ok(natural, usable_chars, b),
        0 <= i < natural.len(),
    ensures
        b[i] <= natural[i],
{
    let n = natural.len() as int;
    let pool = title_pool(n, usable_chars);
    if pool >= guaranteed_before(natural, n) {
        let (t, c) = choose|t: int, c: int| #[trigger] filled_to_level(natural, b, t, c);
        assert(b[i] == filled(natural[i], t + (if i < c { 1int } else { 0int })));
    }
}

/// Hovering a URL underlines exactly the visible cells of its match: a
/// viewport cell is covered by the match's spans iff its grid point lies
/// between the match's ends (for a match whose end columns are inside the
/// viewport).
pub proof fn law_spans_cover_match(
    start: GridPoint,
    end: GridPoint,
    display_offset: usize,
    vp_lines: usize,
    vp_cols: usize,
    l: usize,
    c: usize,
)
    requires
        start.line <= end.line,
        start.column < vp_cols,
        end.column < vp_cols,
        l < vp_lines,
        c < vp_cols,
        display_offset <= i32::MAX,
        vp_lines <= i32::MAX,
    ensures
        covers_spec(match_spans_spec(start, end, display_offset, vp_lines, vp_cols), l, c) <==> (
        point_le(start, GridPoint { line: (l - display_offset) as i32, column: c }) && point_le(
            GridPoint { line: (l - display_offset) as i32, column: c },
            end,
        )),
{
    let spans = match_spans_spec(start, end, display_offset, vp_lines, vp_cols);
    let s = start.line + display_offset;
    let e = end.line + display_offset;
    let p = GridPoint { line: (l - display_offset) as i32, column: c };
    if !(e < 0 || s >= vp_lines || vp_cols == 0) {
        let lo = max_int(s, 0);
        let hi = min_int(e, vp_lines - 1);
        if lo <= l <= hi {
            let i = l - lo;
            assert(spans[i].line == l);
            if point_le(start, p) && point_le(p, end) {
                assert(spans[i].start_col <= c <= spans[i].end_col);
            }
        }
        if covers_spec(spans, l, c) {
            let i = choose|i: int|
                0 <= i < spans.len() && (#[trigger] spans[i]).line == l && spans[i].start_col <= c
                    <= spans[i].end_col;
            assert(lo + i == l);
        }
    }
}

} // verus!
