//! The margin outline's rows for one frame: which headings the follow window
//! shows, and how each row reads (its rung, edge fade, group gap and fold).
//!
//! Measured space arrives as whole rows: `max_rows` is how many label rows the
//! band holds, and `avail_half_rows` how many half rows, since a group gap eats
//! half a row.
use vstd::prelude::*;
use crate::outline::{
    Heading, OutlineRung, first_top_level, group_gap_before, reveal_shown_with, reveal_shows, revealed,
    row_rung, spec_is_top_level,
};
use crate::window::{scroll_window, spec_scroll_window};

verus! {

/// A folded heading's tail: the heading's document line and how many lines
/// the fold hides.
#[derive(Clone, Copy, PartialEq, Eq, Debug, Structural)]
pub struct FoldTail {
    pub line: usize,
    pub hidden: usize,
}

/// One decided outline row: the heading it shows (an index into the full
/// list) and that heading's document line, its ink rung, whether it is the
/// current heading, whether it fades as a clipped edge of the window, whether
/// a half-row group gap opens above it, and whether its section is folded
/// (with the number of hidden lines, `0` when it is not).
#[derive(Clone, Copy, PartialEq, Eq, Debug, Structural)]
pub struct OutlinePlanRow {
    pub heading: usize,
    pub line: usize,
    pub rung: OutlineRung,
    pub current: bool,
    pub faded: bool,
    pub gap_before: bool,
    pub collapsed: bool,
    pub hidden: usize,
}

/// Some heading before `i` is top-level.
pub open spec fn has_top_before(hs: Seq<Heading>, i: int) -> bool {
    exists|f: int| 0 <= f < i && spec_is_top_level(#[trigger] hs[f].level)
}

/// A group gap opens above heading `i`: it is top-level and is not the first
/// top-level heading.
pub open spec fn gap_at(hs: Seq<Heading>, i: int) -> bool {
    spec_is_top_level(hs[i].level) && has_top_before(hs, i)
}

/// How many of the shown rows `shown[lo..hi]` open a group gap.
pub open spec fn gaps_between(hs: Seq<Heading>, shown: Seq<usize>, lo: int, hi: int) -> int
    decreases hi - lo,
{
    if hi <= lo {
        0
    } else {
        gaps_between(hs, shown, lo, hi - 1) + if gap_at(hs, shown[hi - 1] as int) { 1int } else { 0int }
    }
}

/// The row the window keeps in view: the current heading's position among
/// the shown headings, or the first row when it is not shown.
pub open spec fn sel_in(shown: Seq<usize>, current: Option<usize>) -> int {
    match current {
        Some(c) => if shown.contains(c) { choose|k: int| 0 <= k < shown.len() && shown[k] == c } else { 0 },
        None => 0,
    }
}

/// The window `(top, count)` over `shown` at a row budget of `budget`: the
/// scroll window with the selection in view, shrunk one row at a time until
/// its rows plus their inner group gaps fit `avail_half` half rows, or it is
/// down to one row.
pub open spec fn follow_window(hs: Seq<Heading>, shown: Seq<usize>, sel: int, budget: int, avail_half: int) -> (int, int)
    decreases budget,
{
    let w = spec_scroll_window(shown.len() as int, sel, 0, budget);
    if budget <= 1 || w.1 <= 1 || 2 * w.1 + gaps_between(hs, shown, w.0 + 1, w.0 + w.1) <= avail_half {
        w
    } else {
        follow_window(hs, shown, sel, budget - 1, avail_half)
    }
}

/// The hidden-line count of the first fold tail at or after `k` whose line is
/// `line`.
pub open spec fn fold_from(folds: Seq<FoldTail>, line: usize, k: int) -> Option<usize>
    decreases folds.len() - k,
{
    if k < 0 || k >= folds.len() {
        None
    } else if folds[k].line == line {
        Some(folds[k].hidden)
    } else {
        fold_from(folds, line, k + 1)
    }
}

/// Row `vis` of the window `(wt, cnt)` over `shown`.
pub open spec fn plan_row(
    hs: Seq<Heading>,
    folds: Seq<FoldTail>,
    shown: Seq<usize>,
    current: Option<usize>,
    wt: int,
    cnt: int,
    vis: int,
) -> OutlinePlanRow {
    let idx = shown[wt + vis];
    let is_current = current == Some(idx);
    let clipped = (vis == 0 && wt > 0) || (vis == cnt - 1 && wt + cnt < shown.len());
    let fold = fold_from(folds, hs[idx as int].line, 0);
    OutlinePlanRow {
        heading: idx,
        line: hs[idx as int].line,
        rung: if is_current { OutlineRung::Content } else { OutlineRung::Faint },
        current: is_current,
        faded: clipped && !is_current,
        gap_before: vis > 0 && gap_at(hs, idx as int),
        collapsed: fold is Some,
        hidden: match fold {
            Some(n) => n,
            None => 0,
        },
    }
}

/// The outline's rows, or `None` when it shows nothing: no headings, no room
/// for a row, or nothing revealed.
pub open spec fn spec_outline_plan(
    hs: Seq<Heading>,
    folds: Seq<FoldTail>,
    current: Option<usize>,
    reveal: bool,
    max_rows: int,
    avail_half: int,
) -> Option<Seq<OutlinePlanRow>> {
    let shown = revealed(hs, current, reveal, hs.len() as int);
    if hs.len() == 0 || max_rows <= 0 || shown.len() == 0 {
        None
    } else {
        let w = follow_window(hs, shown, sel_in(shown, current), max_rows, avail_half);
        Some(Seq::new(w.1 as nat, |vis: int| plan_row(hs, folds, shown, current, w.0, w.1, vis)))
    }
}

/// The position of the current heading among the strictly increasing
/// `shown`, or `0` when it is not shown.
fn sel_position(shown: &Vec<usize>, current: Option<usize>) -> (sel: usize)
    requires
        forall|k: int, m: int| 0 <= k < m < shown@.len() ==> shown@[k] < shown@[m],
    ensures
        sel as int == sel_in(shown@, current),
        shown@.len() > 0 ==> sel < shown@.len(),
{
    match current {
        None => 0,
        Some(c) => {
            let mut k: usize = 0;
            while k < shown.len()
                invariant
                    k <= shown@.len(),
                    forall|a: int, b: int| 0 <= a < b < shown@.len() ==> shown@[a] < shown@[b],
                    forall|j: int| 0 <= j < k ==> shown@[j] != c,
                    current == Some(c),
                decreases shown.len() - k,
            {
                if shown[k] == c {
                    proof {
                        assert(shown@.contains(c));
                        let w = choose|w: int| 0 <= w < shown@.len() && shown@[w] == c;
                        if w < k {
                            assert(shown@[w] != c);
                        } else if w > k {
                            assert(shown@[k as int] < shown@[w]);
                        }
                        assert(w == k as int);
                    }
                    return k;
                }
                k = k + 1;
            }
            proof {
                assert(!shown@.contains(c));
            }
            0
        },
    }
}

/// Whether a group gap opens above each shown heading.
fn gap_flags(headings: &[Heading], shown: &Vec<usize>) -> (flags: Vec<bool>)
    requires
        forall|k: int| 0 <= k < shown@.len() ==> shown@[k] < headings@.len(),
    ensures
        flags@.len() == shown@.len(),
        forall|k: int| 0 <= k < shown@.len() ==> flags@[k] == gap_at(headings@, shown@[k] as int),
{
    let first_top = first_top_level(headings);
    let mut flags: Vec<bool> = Vec::new();
    let mut k: usize = 0;
    while k < shown.len()
        invariant
            k <= shown@.len(),
            flags@.len() == k,
            forall|j: int| 0 <= j < shown@.len() ==> shown@[j] < headings@.len(),
            first_top is None ==> forall|j: int| 0 <= j < headings@.len() ==> !spec_is_top_level(#[trigger] headings@[j].level),
            first_top matches Some(f) ==> f < headings@.len() && spec_is_top_level(headings@[f as int].level)
                && forall|j: int| 0 <= j < f ==> !spec_is_top_level(#[trigger] headings@[j].level),
            forall|j: int| 0 <= j < k ==> flags@[j] == gap_at(headings@, shown@[j] as int),
        decreases shown.len() - k,
    {
        let i = shown[k];
        let g = group_gap_before(headings, first_top, i);
        proof {
            let hs = headings@;
            match first_top {
                Some(f) => {
                    if (f as int) < i as int {
                        assert(spec_is_top_level(hs[f as int].level));
                        assert(has_top_before(hs, i as int));
                    } else {
                        assert forall|w: int| 0 <= w < i as int implies !spec_is_top_level(#[trigger] hs[w].level) by {
                            assert(w < f);
                        }
                        assert(!has_top_before(hs, i as int));
                    }
                },
                None => {
                    assert(!has_top_before(hs, i as int));
                },
            }
            assert(g == gap_at(hs, i as int));
        }
        flags.push(g);
        k = k + 1;
    }
    flags
}

/// How many of `flags[lo..hi]` are set: the group gaps inside a window.
fn count_gaps(flags: &Vec<bool>, lo: usize, hi: usize, Ghost(hs): Ghost<Seq<Heading>>, Ghost(shown): Ghost<Seq<usize>>) -> (n: usize)
    requires
        hi <= flags@.len(),
        flags@.len() == shown.len(),
        forall|k: int| 0 <= k < shown.len() ==> flags@[k] == gap_at(hs, shown[k] as int),
    ensures
        n as int == gaps_between(hs, shown, lo as int, hi as int),
        n <= hi,
{
    if hi <= lo {
        return 0;
    }
    let mut n: usize = 0;
    let mut j: usize = lo;
    while j < hi
        invariant
            lo <= j <= hi,
            hi <= flags@.len(),
            flags@.len() == shown.len(),
            forall|k: int| 0 <= k < shown.len() ==> flags@[k] == gap_at(hs, shown[k] as int),
            n as int == gaps_between(hs, shown, lo as int, j as int),
            n <= j,
        decreases hi - j,
    {
        if flags[j] {
            n = n + 1;
        }
        j = j + 1;
    }
    n
}

/// The hidden-line count of the first fold tail on `line`, if any.
fn fold_hidden(folds: &[FoldTail], line: usize) -> (r: Option<usize>)
    ensures
        r == fold_from(folds@, line, 0),
{
    let mut k: usize = 0;
    while k < folds.len()
        invariant
            k <= folds@.len(),
            fold_from(folds@, line, 0) == fold_from(folds@, line, k as int),
        decreases folds.len() - k,
    {
        if folds[k].line == line {
            return Some(folds[k].hidden);
        }
        k = k + 1;
    }
    None
}

/// The outline's rows for one frame: the headings the depth reveal shows,
/// windowed to keep the current heading in view and shrunk until the rows and
/// their group gaps fit the band, each row carrying its rung, edge fade, group
/// gap and fold. `None` when the outline shows nothing.
pub fn plan_outline_rows(
    headings: &[Heading],
    current: Option<usize>,
    reveal: bool,
    max_rows: usize,
    avail_half_rows: usize,
    folds: &[FoldTail],
) -> (r: Option<Vec<OutlinePlanRow>>)
    requires
        current matches Some(c) ==> c < headings@.len(),
    ensures
        match spec_outline_plan(headings@, folds@, current, reveal, max_rows as int, avail_half_rows as int) {
            None => r is None,
            Some(rows) => r matches Some(v) && v@ == rows,
        },
{
    if headings.len() == 0 || max_rows == 0 {
        return None;
    }
    let shown = reveal_shown_with(headings, current, reveal);
    let len = shown.len();
    if len == 0 {
        return None;
    }
    let ghost hs = headings@;
    let ghost sh = shown@;
    let ghost avail = avail_half_rows as int;
    let sel = sel_position(&shown, current);
    let flags = gap_flags(headings, &shown);
    let mut budget = max_rows;
    let mut win: (usize, usize) = scroll_window(len, sel, 0, budget);
    loop
        invariant
            1 <= budget <= max_rows,
            avail == avail_half_rows as int,
            len == sh.len(),
            len >= 1,
            sel < len,
            sh == shown@,
            flags@.len() == sh.len(),
            forall|k: int| 0 <= k < sh.len() ==> flags@[k] == gap_at(hs, sh[k] as int),
            win.0 as int == spec_scroll_window(len as int, sel as int, 0, budget as int).0,
            win.1 as int == spec_scroll_window(len as int, sel as int, 0, budget as int).1,
            win.1 as int == if len < budget { len as int } else { budget as int },
            win.0 + win.1 <= len,
            follow_window(hs, sh, sel as int, budget as int, avail) == follow_window(hs, sh, sel as int, max_rows as int, avail),
        ensures
            (win.0 as int, win.1 as int) == follow_window(hs, sh, sel as int, max_rows as int, avail),
            1 <= win.1,
            win.0 + win.1 <= len,
        decreases budget,
    {
        let wt = win.0;
        let cnt = win.1;
        let gaps = count_gaps(&flags, wt + 1, wt + cnt, Ghost(hs), Ghost(sh));
        let fits = (cnt as u128) * 2 + (gaps as u128) <= avail_half_rows as u128;
        proof {
            let w = spec_scroll_window(sh.len() as int, sel as int, 0, budget as int);
            assert(w == (wt as int, cnt as int));
            assert(fits == (2 * w.1 + gaps_between(hs, sh, w.0 + 1, w.0 + w.1) <= avail));
            if budget <= 1 || cnt <= 1 || fits {
                assert(follow_window(hs, sh, sel as int, budget as int, avail) == w);
            } else {
                assert(follow_window(hs, sh, sel as int, budget as int, avail)
                    == follow_window(hs, sh, sel as int, budget - 1, avail));
            }
        }
        if budget <= 1 || cnt <= 1 || fits {
            break;
        }
        budget = budget - 1;
        win = scroll_window(len, sel, 0, budget);
    }
    let wt = win.0;
    let cnt = win.1;
    let mut rows: Vec<OutlinePlanRow> = Vec::new();
    let mut vis: usize = 0;
    while vis < cnt
        invariant
            wt + cnt <= len,
            len == sh.len(),
            sh == shown@,
            hs == headings@,
            forall|k: int| 0 <= k < sh.len() ==> sh[k] < hs.len(),
            flags@.len() == sh.len(),
            forall|k: int| 0 <= k < sh.len() ==> flags@[k] == gap_at(hs, sh[k] as int),
            vis <= cnt,
            rows@.len() == vis,
            forall|k: int| 0 <= k < vis ==> rows@[k] == plan_row(hs, folds@, sh, current, wt as int, cnt as int, k),
        decreases cnt - vis,
    {
        let idx = shown[wt + vis];
        let is_current = match current {
            Some(c) => c == idx,
            None => false,
        };
        let clipped = (vis == 0 && wt > 0) || (vis == cnt - 1 && wt + cnt < len);
        let line = headings[idx].line;
        let fold = fold_hidden(folds, line);
        let row = OutlinePlanRow {
            heading: idx,
            line,
            rung: row_rung(is_current),
            current: is_current,
            faded: clipped && !is_current,
            gap_before: vis > 0 && flags[wt + vis],
            collapsed: fold.is_some(),
            hidden: match fold {
                Some(n) => n,
                None => 0,
            },
        };
        proof {
            assert(row == plan_row(hs, folds@, sh, current, wt as int, cnt as int, vis as int));
        }
        rows.push(row);
        vis = vis + 1;
    }
    proof {
        assert(rows@ =~= Seq::new(cnt as nat, |v: int| plan_row(hs, folds@, sh, current, wt as int, cnt as int, v)));
    }
    Some(rows)
}

} // verus!

verus! {

/// How many of `rows` open a group gap above themselves.
pub open spec fn gap_count(rows: Seq<OutlinePlanRow>) -> int
    decreases rows.len(),
{
    if rows.len() == 0 {
        0
    } else {
        gap_count(rows.drop_last()) + if rows.last().gap_before { 1int } else { 0int }
    }
}

/// The revealed indices are strictly increasing, below `n`, each revealed,
/// and every revealed index below `n` is among them.
proof fn lemma_revealed(hs: Seq<Heading>, current: Option<usize>, reveal: bool, n: int)
    requires
        0 <= n <= usize::MAX,
    ensures
        forall|k: int, m: int| 0 <= k < m < revealed(hs, current, reveal, n).len()
            ==> revealed(hs, current, reveal, n)[k] < revealed(hs, current, reveal, n)[m],
        forall|k: int| 0 <= k < revealed(hs, current, reveal, n).len()
            ==> (revealed(hs, current, reveal, n)[k] as int) < n
                && reveal_shows(hs, current, reveal, revealed(hs, current, reveal, n)[k] as int),
        forall|i: int| 0 <= i < n && reveal_shows(hs, current, reveal, i)
            ==> revealed(hs, current, reveal, n).contains(i as usize),
    decreases n,
{
    if n > 0 {
        lemma_revealed(hs, current, reveal, n - 1);
        let prev = revealed(hs, current, reveal, n - 1);
        let r = revealed(hs, current, reveal, n);
        if reveal_shows(hs, current, reveal, n - 1) {
            assert(r == prev.push((n - 1) as usize));
            assert(r[r.len() - 1] as int == n - 1);
            assert forall|k: int, m: int| 0 <= k < m < r.len() implies r[k] < r[m] by {
                if m < r.len() - 1 {
                    assert(r[k] == prev[k] && r[m] == prev[m]);
                } else {
                    assert(r[k] == prev[k]);
                }
            }
            assert forall|k: int| 0 <= k < r.len() implies (r[k] as int) < n
                && reveal_shows(hs, current, reveal, r[k] as int) by {
                if k < r.len() - 1 {
                    assert(r[k] == prev[k]);
                }
            }
        } else {
            assert(r == prev);
        }
        assert forall|i: int| 0 <= i < n && reveal_shows(hs, current, reveal, i) implies r.contains(i as usize) by {
            if i < n - 1 {
                let w = choose|w: int| 0 <= w < prev.len() && prev[w] == i as usize;
                assert(r[w] == i as usize);
            } else {
                assert(r[r.len() - 1] == i as usize);
            }
        }
    }
}

/// The shape of a scroll window from the top: it holds `min(len, max)` rows,
/// stays inside the list and keeps `sel` in view.
proof fn lemma_scroll_window_shape(len: int, sel: int, max: int)
    requires
        0 <= sel < len,
        1 <= max,
    ensures
        spec_scroll_window(len, sel, 0, max).1 == if len < max { len } else { max },
        0 <= spec_scroll_window(len, sel, 0, max).0,
        spec_scroll_window(len, sel, 0, max).0 + spec_scroll_window(len, sel, 0, max).1 <= len,
        spec_scroll_window(len, sel, 0, max).0 <= sel < spec_scroll_window(len, sel, 0, max).0 + spec_scroll_window(len, sel, 0, max).1,
{
}

/// The follow window holds between one row and `budget`, stays inside the
/// list, keeps `sel` in view, and fits `avail` half rows unless it is a
/// single row.
proof fn lemma_follow_window_shape(hs: Seq<Heading>, shown: Seq<usize>, sel: int, budget: int, avail: int)
    requires
        1 <= budget,
        0 <= sel < shown.len(),
    ensures
        1 <= follow_window(hs, shown, sel, budget, avail).1 <= budget,
        0 <= follow_window(hs, shown, sel, budget, avail).0,
        follow_window(hs, shown, sel, budget, avail).0 + follow_window(hs, shown, sel, budget, avail).1 <= shown.len(),
        follow_window(hs, shown, sel, budget, avail).0 <= sel
            < follow_window(hs, shown, sel, budget, avail).0 + follow_window(hs, shown, sel, budget, avail).1,
        follow_window(hs, shown, sel, budget, avail).1 <= 1
            || 2 * follow_window(hs, shown, sel, budget, avail).1 + gaps_between(
                hs,
                shown,
                follow_window(hs, shown, sel, budget, avail).0 + 1,
                follow_window(hs, shown, sel, budget, avail).0 + follow_window(hs, shown, sel, budget, avail).1,
            ) <= avail,
    decreases budget,
{
    lemma_scroll_window_shape(shown.len() as int, sel, budget);
    let w = spec_scroll_window(shown.len() as int, sel, 0, budget);
    if !(budget <= 1 || w.1 <= 1 || 2 * w.1 + gaps_between(hs, shown, w.0 + 1, w.0 + w.1) <= avail) {
        lemma_follow_window_shape(hs, shown, sel, budget - 1, avail);
    }
}

/// The position `sel_in` picks is a row of `shown`, and holds the current
/// heading when it is shown.
proof fn lemma_sel_in(shown: Seq<usize>, current: Option<usize>)
    requires
        shown.len() >= 1,
    ensures
        0 <= sel_in(shown, current) < shown.len(),
        current matches Some(c) ==> (shown.contains(c) ==> shown[sel_in(shown, current)] == c),
{
}

/// Counting the gap flags of a window's rows counts the gaps between its
/// second row and its end.
proof fn lemma_gap_count(
    hs: Seq<Heading>,
    folds: Seq<FoldTail>,
    shown: Seq<usize>,
    current: Option<usize>,
    wt: int,
    cnt: int,
    k: int,
)
    requires
        0 <= wt,
        1 <= k <= cnt,
        wt + cnt <= shown.len(),
    ensures
        gap_count(Seq::new(k as nat, |vis: int| plan_row(hs, folds, shown, current, wt, cnt, vis)))
            == gaps_between(hs, shown, wt + 1, wt + k),
    decreases k,
{
    let rows = Seq::new(k as nat, |vis: int| plan_row(hs, folds, shown, current, wt, cnt, vis));
    if k == 1 {
        assert(rows.drop_last() =~= Seq::<OutlinePlanRow>::empty());
        assert(gap_count(rows.drop_last()) == 0);
        assert(!rows.last().gap_before);
        assert(gap_count(rows) == gap_count(rows.drop_last()) + 0);
        assert(gaps_between(hs, shown, wt + 1, wt + 1) == 0);
    } else {
        lemma_gap_count(hs, folds, shown, current, wt, cnt, k - 1);
        assert(rows.drop_last() =~= Seq::new((k - 1) as nat, |vis: int| plan_row(hs, folds, shown, current, wt, cnt, vis)));
        assert(rows.last().gap_before == gap_at(hs, shown[wt + k - 1] as int));
    }
}

/// The section being read never scrolls out of the margin: whenever there is
/// a current heading, exactly one row shows it, and that row is the only one
/// marked current.
pub proof fn law_the_current_heading_stays_in_view(
    hs: Seq<Heading>,
    folds: Seq<FoldTail>,
    c: usize,
    reveal: bool,
    max_rows: int,
    avail_half: int,
)
    requires
        c < hs.len() <= usize::MAX,
        spec_outline_plan(hs, folds, Some(c), reveal, max_rows, avail_half) is Some,
    ensures
        ({
            let rows = spec_outline_plan(hs, folds, Some(c), reveal, max_rows, avail_half)->0;
            &&& exists|vis: int| 0 <= vis < rows.len() && (#[trigger] rows[vis]).current && rows[vis].heading == c
            &&& forall|vis: int| 0 <= vis < rows.len() && (#[trigger] rows[vis]).current ==> rows[vis].heading == c
            &&& forall|a: int, b: int| 0 <= a < rows.len() && 0 <= b < rows.len() && (#[trigger] rows[a]).current
                && (#[trigger] rows[b]).current ==> a == b
        }),
{
    let current = Some(c);
    let shown = revealed(hs, current, reveal, hs.len() as int);
    lemma_revealed(hs, current, reveal, hs.len() as int);
    assert(reveal_shows(hs, current, reveal, c as int));
    assert(shown.contains(c));
    lemma_sel_in(shown, current);
    let sel = sel_in(shown, current);
    lemma_follow_window_shape(hs, shown, sel, max_rows, avail_half);
    let w = follow_window(hs, shown, sel, max_rows, avail_half);
    let rows = spec_outline_plan(hs, folds, current, reveal, max_rows, avail_half)->0;
    let vis = sel - w.0;
    assert(rows[vis].heading == c && rows[vis].current);
    assert forall|a: int, b: int| 0 <= a < rows.len() && 0 <= b < rows.len() && (#[trigger] rows[a]).current
        && (#[trigger] rows[b]).current implies a == b by {
        assert(shown[w.0 + a] == c && shown[w.0 + b] == c);
        if a < b {
            assert(shown[w.0 + a] < shown[w.0 + b]);
        } else if b < a {
            assert(shown[w.0 + b] < shown[w.0 + a]);
        }
    }
}

/// A short outline shows every revealed heading, from the top: when the
/// revealed headings and their group gaps fit both the row budget and the
/// band, the rows are exactly those headings in document order.
pub proof fn law_a_short_outline_shows_every_heading(
    hs: Seq<Heading>,
    folds: Seq<FoldTail>,
    current: Option<usize>,
    reveal: bool,
    max_rows: int,
    avail_half: int,
)
    requires
        spec_outline_plan(hs, folds, current, reveal, max_rows, avail_half) is Some,
        revealed(hs, current, reveal, hs.len() as int).len() <= max_rows,
        2 * revealed(hs, current, reveal, hs.len() as int).len() + gaps_between(
            hs,
            revealed(hs, current, reveal, hs.len() as int),
            1,
            revealed(hs, current, reveal, hs.len() as int).len() as int,
        ) <= avail_half,
    ensures
        spec_outline_plan(hs, folds, current, reveal, max_rows, avail_half)->0.len()
            == revealed(hs, current, reveal, hs.len() as int).len(),
        forall|vis: int| 0 <= vis < revealed(hs, current, reveal, hs.len() as int).len()
            ==> (#[trigger] spec_outline_plan(hs, folds, current, reveal, max_rows, avail_half)->0[vis]).heading
                == revealed(hs, current, reveal, hs.len() as int)[vis],
{
    let shown = revealed(hs, current, reveal, hs.len() as int);
    lemma_sel_in(shown, current);
    let sel = sel_in(shown, current);
    let w = spec_scroll_window(shown.len() as int, sel, 0, max_rows);
    assert(w == (0int, shown.len() as int));
    assert(follow_window(hs, shown, sel, max_rows, avail_half) == w);
}

/// The rows never outnumber the row budget, there is always at least one,
/// and together with their group gaps they fit the band unless a single row
/// is all that is left.
pub proof fn law_the_rows_fit_the_band(
    hs: Seq<Heading>,
    folds: Seq<FoldTail>,
    current: Option<usize>,
    reveal: bool,
    max_rows: int,
    avail_half: int,
)
    requires
        spec_outline_plan(hs, folds, current, reveal, max_rows, avail_half) is Some,
    ensures
        ({
            let rows = spec_outline_plan(hs, folds, current, reveal, max_rows, avail_half)->0;
            &&& 1 <= rows.len() <= max_rows
            &&& rows.len() <= 1 || 2 * rows.len() + gap_count(rows) <= avail_half
        }),
{
    let shown = revealed(hs, current, reveal, hs.len() as int);
    lemma_sel_in(shown, current);
    let sel = sel_in(shown, current);
    lemma_follow_window_shape(hs, shown, sel, max_rows, avail_half);
    let w = follow_window(hs, shown, sel, max_rows, avail_half);
    lemma_gap_count(hs, folds, shown, current, w.0, w.1, w.1);
}

/// How the rows read: no group gap above the first row, the current row in
/// content ink and never faded, every other row faint.
pub proof fn law_outline_rows_read_cleanly(
    hs: Seq<Heading>,
    folds: Seq<FoldTail>,
    current: Option<usize>,
    reveal: bool,
    max_rows: int,
    avail_half: int,
)
    requires
        spec_outline_plan(hs, folds, current, reveal, max_rows, avail_half) is Some,
    ensures
        ({
            let rows = spec_outline_plan(hs, folds, current, reveal, max_rows, avail_half)->0;
            &&& !rows[0].gap_before
            &&& forall|vis: int| 0 <= vis < rows.len() ==> ((#[trigger] rows[vis]).current
                ==> !rows[vis].faded && rows[vis].rung == OutlineRung::Content)
                && (!rows[vis].current ==> rows[vis].rung == OutlineRung::Faint)
        }),
{
    law_the_rows_fit_the_band(hs, folds, current, reveal, max_rows, avail_half);
}

} // verus!

verus! {

/// A row is current exactly when it shows the current heading, and a row
/// fades exactly when it is not current and sits on a clipped edge of the
/// window: the first row while headings are hidden above it (it is not the
/// first shown heading), or the last row while headings are hidden below it
/// (it is not the last shown heading).
pub proof fn law_rows_on_a_clipped_edge_fade(
    hs: Seq<Heading>,
    folds: Seq<FoldTail>,
    current: Option<usize>,
    reveal: bool,
    max_rows: int,
    avail_half: int,
)
    requires
        hs.len() <= usize::MAX,
        spec_outline_plan(hs, folds, current, reveal, max_rows, avail_half) is Some,
    ensures
        ({
            let rows = spec_outline_plan(hs, folds, current, reveal, max_rows, avail_half)->0;
            let shown = revealed(hs, current, reveal, hs.len() as int);
            forall|vis: int| 0 <= vis < rows.len() ==> {
                &&& (#[trigger] rows[vis]).current == (current == Some(rows[vis].heading))
                &&& rows[vis].faded == (!rows[vis].current && (
                    (vis == 0 && rows[vis].heading != shown[0])
                    || (vis == rows.len() - 1 && rows[vis].heading != shown.last())))
            }
        }),
{
    let shown = revealed(hs, current, reveal, hs.len() as int);
    lemma_revealed(hs, current, reveal, hs.len() as int);
    lemma_sel_in(shown, current);
    let sel = sel_in(shown, current);
    lemma_follow_window_shape(hs, shown, sel, max_rows, avail_half);
    let w = follow_window(hs, shown, sel, max_rows, avail_half);
    let rows = spec_outline_plan(hs, folds, current, reveal, max_rows, avail_half)->0;
    assert forall|vis: int| 0 <= vis < rows.len() implies {
        &&& (#[trigger] rows[vis]).current == (current == Some(rows[vis].heading))
        &&& rows[vis].faded == (!rows[vis].current && (
            (vis == 0 && rows[vis].heading != shown[0])
            || (vis == rows.len() - 1 && rows[vis].heading != shown.last())))
    } by {
        assert(rows[vis] == plan_row(hs, folds, shown, current, w.0, w.1, vis));
        assert(rows[vis].heading == shown[w.0 + vis]);
        if vis == 0 {
            if w.0 > 0 {
                assert(shown[0] < shown[w.0]);
            }
        }
        if vis == rows.len() - 1 {
            if w.0 + w.1 < shown.len() {
                assert(shown[w.0 + vis] < shown[shown.len() - 1]);
            }
        }
    }
}

} // verus!
