//! Candidate-row windows: which slice of a list a fixed-height card shows.
use vstd::prelude::*;
use crate::text::{byte_offset, byte_offset_of, chars_of, string_of, text_len_fits};

verus! {

/// The window `(top, count)` that `scroll_window` returns for a list of `len`
/// items with `sel` selected, a previous top `hint` and room for `max` rows.
pub open spec fn spec_scroll_window(len: int, sel: int, hint: int, max: int) -> (int, int) {
    let count = if len < max { len } else { max };
    if count == 0 {
        (0, 0)
    } else {
        let top0 = if sel < hint { sel } else if sel >= hint + count { sel + 1 - count } else { hint };
        let top = if top0 < len - count { top0 } else { len - count };
        (top, count)
    }
}

/// Slide a `max`-row window over `len` items the minimum distance needed to keep
/// `sel` visible, starting from the previous top `scroll_hint`, and clamp it so
/// it never runs past the end. Returns `(top, count)`.
pub fn scroll_window(len: usize, sel: usize, scroll_hint: usize, max: usize) -> (r: (usize, usize))
    ensures
        r.0 as int == spec_scroll_window(len as int, sel as int, scroll_hint as int, max as int).0,
        r.1 as int == spec_scroll_window(len as int, sel as int, scroll_hint as int, max as int).1,
        r.1 as int == if len < max { len as int } else { max as int },
        r.0 + r.1 <= len,
        sel < len && max > 0 ==> r.0 <= sel < r.0 + r.1,
{
    let count = if len < max { len } else { max };
    if count == 0 {
        return (0, 0);
    }
    let mut top = scroll_hint;
    if sel < top {
        top = sel;
    } else if sel - top >= count {
        top = sel - (count - 1);
    }
    if top > len - count {
        top = len - count;
    }
    (top, count)
}

} // verus!

verus! {

/// The byte offset of the caret at char index `caret_char` in `text`: the UTF-8
/// length of the chars before it, or `text.len()` when the caret is past the end.
pub fn field_caret_byte(text: &str, caret_char: usize) -> (b: usize)
    ensures
        b as int == byte_offset(text@, caret_char as int),
{
    if caret_char == 0 {
        assert(text@.take(0) =~= Seq::<char>::empty());
        return 0;
    }
    text_len_fits(text);
    let chars = chars_of(text);
    byte_offset_of(&chars, caret_char)
}

/// `n` spaces.
pub open spec fn spaces(n: nat) -> Seq<char> {
    Seq::new(n, |i: int| ' ')
}

/// The char index the fixed-width field's view starts at: `0` while the caret
/// (clamped to the text) has not passed `cap`, else `cap` chars before it.
pub open spec fn view_start(len: int, caret: int, cap: int) -> int {
    let c = if caret < len { caret } else { len };
    if c > cap { c - cap } else { 0 }
}

/// The `(view, view_caret)` pair `field_view_window` returns.
pub open spec fn spec_field_view(text: Seq<char>, caret: int, cap: int) -> (Seq<char>, int) {
    let len = text.len() as int;
    let c = if caret < len { caret } else { len };
    if cap == 0 {
        (Seq::empty(), 0)
    } else if len <= cap {
        (text + spaces((cap - len) as nat), c)
    } else {
        let start = view_start(len, caret, cap);
        (text.subrange(start, start + cap), c - start)
    }
}

/// The one fixed-width field rule: a window of exactly `cap` chars of `text`
/// that always holds the caret. A text shorter than `cap` is right-padded with
/// spaces; a longer one scrolls to the `cap` chars ending at the caret once the
/// caret has passed `cap`. The caret is first clamped to the text's length.
pub fn field_view_window(text: &str, caret_char: usize, cap: usize) -> (r: (String, usize))
    ensures
        r.0@ == spec_field_view(text@, caret_char as int, cap as int).0,
        r.1 as int == spec_field_view(text@, caret_char as int, cap as int).1,
        r.0@.len() == cap,
        r.1 <= cap,
{
    if cap == 0 {
        return (String::new(), 0);
    }
    let chars = chars_of(text);
    let len = chars.len();
    let caret = if caret_char < len { caret_char } else { len };
    if len <= cap {
        let mut view = string_of(&chars);
        let mut k: usize = 0;
        while k < cap - len
            invariant
                len <= cap,
                k <= cap - len,
                view@ == text@ + spaces(k as nat),
            decreases cap - len - k,
        {
            view.push(' ');
            assert(text@ + spaces((k + 1) as nat) =~= (text@ + spaces(k as nat)).push(' '));
            k = k + 1;
        }
        return (view, caret);
    }
    let start = if caret > cap { caret - cap } else { 0 };
    let mut view = String::new();
    let mut i: usize = start;
    while i < start + cap
        invariant
            start + cap <= len,
            len == text@.len(),
            chars@ == text@,
            start <= i <= start + cap,
            view@ == text@.subrange(start as int, i as int),
        decreases start + cap - i,
    {
        view.push(chars[i]);
        assert(text@.subrange(start as int, i + 1) =~= text@.subrange(start as int, i as int).push(text@[i as int]));
        i = i + 1;
    }
    (view, caret - start)
}

} // verus!

verus! {

/// How many items a window `[top, top + visible)` over `n_items` hides ABOVE
/// itself (`None` when none) and BELOW itself (`None` when none) — the
/// per-edge content of the count cue.
pub open spec fn spec_edge_counts(top: int, visible: int, n_items: int) -> (Option<usize>, Option<usize>) {
    (
        if top > 0 { Some(top as usize) } else { None },
        if top + visible < n_items { Some((n_items - top - visible) as usize) } else { None },
    )
}

/// The hidden-item counts above and below the window `[top, top + visible)`.
pub fn window_edge_counts(top: usize, visible: usize, n_items: usize) -> (r: (Option<usize>, Option<usize>))
    ensures
        r == spec_edge_counts(top as int, visible as int, n_items as int),
{
    let above = if top > 0 { Some(top) } else { None };
    let below = if top < n_items && visible < n_items - top { Some(n_items - top - visible) } else { None };
    (above, below)
}

/// The outcome `resolve_window_and_cue` settles on, given the naive window
/// `r0` (no rows reserved for the cue) and the reserved window `r2` (two rows
/// reserved): `(top, visible, cue_above, cue_below, reserved)`.
pub open spec fn spec_cue_outcome(n_items: int, r0: (usize, usize), r2: (usize, usize)) -> (usize, usize, Option<usize>, Option<usize>, usize) {
    if r0.1 >= n_items {
        (r0.0, r0.1, None, None, 0)
    } else if r2.1 == 0 {
        (r0.0, r0.1, None, None, 0)
    } else {
        let e = spec_edge_counts(r2.0 as int, r2.1 as int, n_items);
        (r2.0, r2.1, e.0, e.1, 2)
    }
}

/// The count cue's budget fixed point. `resolve(extra)` maps how many EXTRA
/// overhead rows to reserve for the cue to a `(top, visible)` window. When the
/// naive window already shows every item nothing is reserved; otherwise both
/// edges' rows are reserved unconditionally, unless that would empty the
/// window, in which case the naive window is kept with no cue at all.
pub fn resolve_window_and_cue(n_items: usize, resolve: impl Fn(usize) -> (usize, usize)) -> (r: (usize, usize, Option<usize>, Option<usize>, usize))
    requires
        call_requires(resolve, (0usize,)),
        call_requires(resolve, (2usize,)),
    ensures
        exists|r0: (usize, usize), r2: (usize, usize)|
            #![trigger spec_cue_outcome(n_items as int, r0, r2)]
            call_ensures(resolve, (0usize,), r0)
            && (r0.1 < n_items ==> call_ensures(resolve, (2usize,), r2))
            && r == spec_cue_outcome(n_items as int, r0, r2),
{
    let (top0, visible0) = resolve(0);
    if visible0 >= n_items {
        let r = (top0, visible0, None, None, 0);
        assert(r == spec_cue_outcome(n_items as int, (top0, visible0), (0usize, 0usize)));
        return r;
    }
    let (top, visible) = resolve(2);
    if visible == 0 {
        let r = (top0, visible0, None, None, 0);
        assert(r == spec_cue_outcome(n_items as int, (top0, visible0), (top, visible)));
        return r;
    }
    let (above, below) = window_edge_counts(top, visible, n_items);
    let r = (top, visible, above, below, 2);
    assert(r == spec_cue_outcome(n_items as int, (top0, visible0), (top, visible)));
    r
}

/// A corpus that fits without help never reserves a row for the cue, shows no
/// edge cue and shows every item the naive window shows.
pub proof fn law_cue_never_reserves_when_the_corpus_fits(n_items: usize, r0: (usize, usize), r2: (usize, usize))
    requires
        r0.1 >= n_items,
    ensures
        spec_cue_outcome(n_items as int, r0, r2) == (r0.0, r0.1, None::<usize>, None::<usize>, 0usize),
{
}

/// The cue is never what empties the window: whenever the naive window shows
/// at least one item, so does the settled one, and the reservation is always
/// either nothing or both edges' two rows.
pub proof fn law_cue_never_empties_the_window(n_items: usize, r0: (usize, usize), r2: (usize, usize))
    requires
        r0.1 > 0,
    ensures
        spec_cue_outcome(n_items as int, r0, r2).1 > 0,
        spec_cue_outcome(n_items as int, r0, r2).4 == 0 || spec_cue_outcome(n_items as int, r0, r2).4 == 2,
{
}

} // verus!

verus! {

/// One display line of a grouped candidate list: a location line, a section
/// header, or the candidate item at an index.
#[derive(Debug)]
pub enum PlanLine {
    Location(String),
    Header(String),
    Item(usize),
}

impl PlanLine {
    /// An identical copy of the line.
    pub fn copy(&self) -> (r: PlanLine)
        ensures
            r == *self,
    {
        match self {
            PlanLine::Location(s) => PlanLine::Location(s.clone()),
            PlanLine::Header(s) => PlanLine::Header(s.clone()),
            PlanLine::Item(i) => PlanLine::Item(*i),
        }
    }
}

/// The window of `lines` on the item range `[lo, hi)`, with `pending` the most
/// recent location/header line not yet placed: each in-window item is kept,
/// preceded by the pending header when there is one.
pub open spec fn plan_window_from(lines: Seq<PlanLine>, lo: int, hi: int, pending: Option<PlanLine>) -> Seq<PlanLine>
    decreases lines.len(),
{
    if lines.len() == 0 {
        Seq::empty()
    } else {
        let rest = lines.drop_first();
        match lines[0] {
            PlanLine::Item(i) => {
                if lo <= i && i < hi {
                    let head = match pending {
                        Some(h) => seq![h],
                        None => Seq::empty(),
                    };
                    head + seq![lines[0]] + plan_window_from(rest, lo, hi, None)
                } else {
                    plan_window_from(rest, lo, hi, pending)
                }
            },
            _ => plan_window_from(rest, lo, hi, Some(lines[0])),
        }
    }
}

/// Slice a full display plan to the item window `[lo, hi)`: keep every
/// `Item(i)` with `lo <= i < hi`, and re-hang the most recent header (or
/// location) line above the first surviving item after it. A header whose
/// whole section fell outside the window is dropped.
pub fn window_plan(full: &[PlanLine], lo: usize, hi: usize) -> (out: Vec<PlanLine>)
    ensures
        out@ == plan_window_from(full@, lo as int, hi as int, None),
{
    let mut out: Vec<PlanLine> = Vec::new();
    let mut pending: Option<PlanLine> = None;
    let mut k: usize = 0;
    assert(full@.skip(0) =~= full@);
    assert(out@ + plan_window_from(full@, lo as int, hi as int, None) =~= plan_window_from(full@, lo as int, hi as int, None));
    while k < full.len()
        invariant
            k <= full@.len(),
            out@ + plan_window_from(full@.skip(k as int), lo as int, hi as int, pending)
                == plan_window_from(full@, lo as int, hi as int, None),
        decreases full.len() - k,
    {
        let line = &full[k];
        let ghost rest = full@.skip(k + 1);
        assert(full@.skip(k as int).drop_first() =~= rest);
        assert(full@.skip(k as int)[0] == full@[k as int]);
        match line {
            PlanLine::Item(i) => {
                if *i >= lo && *i < hi {
                    match pending.take() {
                        Some(h) => {
                            out.push(h);
                        },
                        None => {},
                    }
                    out.push(line.copy());
                }
            },
            _ => {
                pending = Some(line.copy());
            },
        }
        k = k + 1;
    }
    assert(full@.skip(k as int) =~= Seq::<PlanLine>::empty());
    assert(out@ + Seq::<PlanLine>::empty() =~= out@);
    out
}

} // verus!

verus! {

/// The item lines of `s` whose index lies in `[lo, hi)`, in order.
pub open spec fn window_items(s: Seq<PlanLine>, lo: int, hi: int) -> Seq<PlanLine>
    decreases s.len(),
{
    if s.len() == 0 {
        Seq::empty()
    } else {
        let head = match s[0] {
            PlanLine::Item(i) => if lo <= i && i < hi { seq![s[0]] } else { Seq::empty() },
            _ => Seq::empty(),
        };
        head + window_items(s.drop_first(), lo, hi)
    }
}

/// The item lines of `s`, in order.
pub open spec fn item_lines(s: Seq<PlanLine>) -> Seq<PlanLine>
    decreases s.len(),
{
    if s.len() == 0 {
        Seq::empty()
    } else {
        let head = if s[0] is Item { seq![s[0]] } else { Seq::empty() };
        head + item_lines(s.drop_first())
    }
}

proof fn lemma_item_lines_concat(a: Seq<PlanLine>, b: Seq<PlanLine>)
    ensures
        item_lines(a + b) == item_lines(a) + item_lines(b),
    decreases a.len(),
{
    if a.len() == 0 {
        assert(a + b =~= b);
        assert(item_lines(a) + item_lines(b) =~= item_lines(b));
    } else {
        assert((a + b).drop_first() =~= a.drop_first() + b);
        assert((a + b)[0] == a[0]);
        lemma_item_lines_concat(a.drop_first(), b);
        let head = if a[0] is Item { seq![a[0]] } else { Seq::<PlanLine>::empty() };
        assert(item_lines(a + b) =~= head + item_lines(a.drop_first() + b));
        assert(head + (item_lines(a.drop_first()) + item_lines(b)) =~= (head + item_lines(a.drop_first())) + item_lines(b));
    }
}

/// Windowing a plan keeps exactly the plan's items whose index lies in the
/// window, in list order — headers only ever ride along with them.
pub proof fn law_window_plan_keeps_exactly_the_windowed_items(full: Seq<PlanLine>, lo: int, hi: int, pending: Option<PlanLine>)
    requires
        pending is None || !(pending->0 is Item),
    ensures
        item_lines(plan_window_from(full, lo, hi, pending)) == window_items(full, lo, hi),
    decreases full.len(),
{
    if full.len() == 0 {
        assert(item_lines(Seq::<PlanLine>::empty()) =~= Seq::<PlanLine>::empty());
    } else {
        let rest = full.drop_first();
        match full[0] {
            PlanLine::Item(i) => {
                if lo <= i && i < hi {
                    let head = match pending {
                        Some(h) => seq![h],
                        None => Seq::<PlanLine>::empty(),
                    };
                    law_window_plan_keeps_exactly_the_windowed_items(rest, lo, hi, None);
                    lemma_item_lines_concat(head + seq![full[0]], plan_window_from(rest, lo, hi, None));
                    lemma_item_lines_concat(head, seq![full[0]]);
                    assert(item_lines(head) =~= Seq::<PlanLine>::empty()) by {
                        if head.len() > 0 {
                            assert(head.drop_first() =~= Seq::<PlanLine>::empty());
                            assert(item_lines(head.drop_first()) =~= Seq::<PlanLine>::empty());
                        }
                    }
                    assert(seq![full[0]].drop_first() =~= Seq::<PlanLine>::empty());
                    assert(item_lines(seq![full[0]]) =~= seq![full[0]]);
                    assert(window_items(full, lo, hi) =~= seq![full[0]] + window_items(rest, lo, hi));
                } else {
                    law_window_plan_keeps_exactly_the_windowed_items(rest, lo, hi, pending);
                    assert(window_items(full, lo, hi) =~= window_items(rest, lo, hi));
                }
            },
            _ => {
                law_window_plan_keeps_exactly_the_windowed_items(rest, lo, hi, Some(full[0]));
                assert(window_items(full, lo, hi) =~= window_items(rest, lo, hi));
            },
        }
    }
}

} // verus!

verus! {

/// A line is an item inside the window `[lo, hi)`.
pub open spec fn in_window(l: PlanLine, lo: int, hi: int) -> bool {
    l matches PlanLine::Item(i) && lo <= i && i < hi
}

/// The line waiting to be re-hung after `prefix`, starting from `pending`:
/// `prefix`'s last location/header line, or `pending` when it has none.
pub open spec fn pending_after(prefix: Seq<PlanLine>, pending: Option<PlanLine>) -> Option<PlanLine>
    decreases prefix.len(),
{
    if prefix.len() == 0 {
        pending
    } else if prefix[0] is Item {
        pending_after(prefix.drop_first(), pending)
    } else {
        pending_after(prefix.drop_first(), Some(prefix[0]))
    }
}

/// `pending_after` is indeed the last location/header line of the prefix,
/// or the pending line when the prefix holds none.
proof fn lemma_pending_after_is_the_last_header(prefix: Seq<PlanLine>, pending: Option<PlanLine>)
    ensures
        (forall|j: int| 0 <= j < prefix.len() ==> (#[trigger] prefix[j]) is Item) ==> pending_after(prefix, pending) == pending,
        (exists|j: int| 0 <= j < prefix.len() && !((#[trigger] prefix[j]) is Item)) ==> exists|j: int|
            0 <= j < prefix.len() && !((#[trigger] prefix[j]) is Item) && pending_after(prefix, pending) == Some(prefix[j])
                && forall|m: int| j < m < prefix.len() ==> (#[trigger] prefix[m]) is Item,
    decreases prefix.len(),
{
    if prefix.len() > 0 {
        let r = prefix.drop_first();
        let next = if prefix[0] is Item { pending } else { Some(prefix[0]) };
        lemma_pending_after_is_the_last_header(r, next);
        if exists|j: int| 0 <= j < r.len() && !((#[trigger] r[j]) is Item) {
            let j = choose|j: int| 0 <= j < r.len() && !((#[trigger] r[j]) is Item) && pending_after(r, next) == Some(r[j])
                && forall|m: int| j < m < r.len() ==> (#[trigger] r[m]) is Item;
            assert(prefix[j + 1] == r[j]);
            assert forall|m: int| j + 1 < m < prefix.len() implies (#[trigger] prefix[m]) is Item by {
                assert(prefix[m] == r[m - 1]);
            }
        } else {
            assert forall|m: int| 0 <= m < r.len() implies (#[trigger] r[m]) is Item by {}
            if !(prefix[0] is Item) {
                assert forall|m: int| 0 < m < prefix.len() implies (#[trigger] prefix[m]) is Item by {
                    assert(prefix[m] == r[m - 1]);
                }
            } else {
                assert forall|m: int| 0 <= m < prefix.len() implies (#[trigger] prefix[m]) is Item by {
                    if m > 0 {
                        assert(prefix[m] == r[m - 1]);
                    }
                }
            }
        }
    }
}

/// Windowing re-hangs exactly one header per surviving item: before an
/// in-window item that no earlier in-window item precedes, the window holds
/// the last location/header line before it (or the pending one, when there
/// is none), then the item, then the window of what follows, starting fresh.
/// The re-hung line is the prefix's last location/header line: everything
/// after it in the prefix is an item.
pub proof fn law_window_plan_rehangs_the_last_header(
    prefix: Seq<PlanLine>,
    i: usize,
    rest: Seq<PlanLine>,
    lo: int,
    hi: int,
    pending: Option<PlanLine>,
)
    requires
        forall|j: int| 0 <= j < prefix.len() ==> !in_window(#[trigger] prefix[j], lo, hi),
        lo <= i < hi,
    ensures
        plan_window_from(prefix + seq![PlanLine::Item(i)] + rest, lo, hi, pending)
            == (match pending_after(prefix, pending) {
                Some(h) => seq![h],
                None => Seq::<PlanLine>::empty(),
            }) + seq![PlanLine::Item(i)] + plan_window_from(rest, lo, hi, None),
        (forall|j: int| 0 <= j < prefix.len() ==> (#[trigger] prefix[j]) is Item) ==> pending_after(prefix, pending) == pending,
        (exists|j: int| 0 <= j < prefix.len() && !((#[trigger] prefix[j]) is Item)) ==> exists|j: int|
            0 <= j < prefix.len() && !((#[trigger] prefix[j]) is Item) && pending_after(prefix, pending) == Some(prefix[j])
                && forall|m: int| j < m < prefix.len() ==> (#[trigger] prefix[m]) is Item,
    decreases prefix.len(),
{
    lemma_pending_after_is_the_last_header(prefix, pending);
    let whole = prefix + seq![PlanLine::Item(i)] + rest;
    if prefix.len() == 0 {
        assert(whole.drop_first() =~= rest);
        assert(whole[0] == PlanLine::Item(i));
    } else {
        let r = prefix.drop_first();
        assert(whole.drop_first() =~= r + seq![PlanLine::Item(i)] + rest);
        assert(whole[0] == prefix[0]);
        assert forall|j: int| 0 <= j < r.len() implies !in_window(#[trigger] r[j], lo, hi) by {
            assert(r[j] == prefix[j + 1]);
        }
        assert(!in_window(prefix[0], lo, hi));
        let next = if prefix[0] is Item { pending } else { Some(prefix[0]) };
        law_window_plan_rehangs_the_last_header(r, i, rest, lo, hi, next);
    }
}

/// No orphan headers: in a windowed plan every location/header line is
/// immediately followed by an item line, so a header whose section fell out
/// of the window never survives and no two headers stack up.
pub proof fn law_window_plan_leaves_no_orphan_header(full: Seq<PlanLine>, lo: int, hi: int, pending: Option<PlanLine>)
    requires
        pending is None || !(pending->0 is Item),
    ensures
        forall|k: int| 0 <= k < plan_window_from(full, lo, hi, pending).len()
            && !((#[trigger] plan_window_from(full, lo, hi, pending)[k]) is Item)
            ==> k + 1 < plan_window_from(full, lo, hi, pending).len() && plan_window_from(full, lo, hi, pending)[k + 1] is Item,
    decreases full.len(),
{
    if full.len() > 0 {
        let rest = full.drop_first();
        match full[0] {
            PlanLine::Item(i) => {
                if lo <= i && i < hi {
                    law_window_plan_leaves_no_orphan_header(rest, lo, hi, None);
                    let head = match pending {
                        Some(h) => seq![h],
                        None => Seq::<PlanLine>::empty(),
                    };
                    let tail = plan_window_from(rest, lo, hi, None);
                    let out = plan_window_from(full, lo, hi, pending);
                    assert(out == head + seq![full[0]] + tail);
                    let n = head.len() + 1;
                    assert forall|k: int| 0 <= k < out.len() && !((#[trigger] out[k]) is Item)
                        implies k + 1 < out.len() && out[k + 1] is Item by {
                        if k < head.len() {
                            assert(out[k + 1] == full[0]);
                        } else if k == head.len() {
                            assert(out[k] == full[0]);
                        } else {
                            assert(out[k] == tail[k - n]);
                            assert(out[k + 1] == tail[k + 1 - n]);
                        }
                    }
                } else {
                    law_window_plan_leaves_no_orphan_header(rest, lo, hi, pending);
                }
            },
            _ => {
                law_window_plan_leaves_no_orphan_header(rest, lo, hi, Some(full[0]));
            },
        }
    }
}

} // verus!

verus! {

/// The window moves the minimum distance: no other window of the same size
/// that stays inside the list and shows the selection sits closer to the
/// previous top than the one `scroll_window` returns.
pub proof fn law_scroll_window_slides_the_minimum(len: int, sel: int, hint: int, max: int, t: int)
    requires
        0 <= sel < len,
        0 <= hint,
        max > 0,
        0 <= t,
        t + spec_scroll_window(len, sel, hint, max).1 <= len,
        t <= sel < t + spec_scroll_window(len, sel, hint, max).1,
    ensures
        ({
            let top = spec_scroll_window(len, sel, hint, max).0;
            let d = if top < hint { hint - top } else { top - hint };
            let dt = if t < hint { hint - t } else { t - hint };
            d <= dt
        }),
{
}

/// A selection the previous window already shows never moves the window.
pub proof fn law_scroll_window_keeps_a_shown_selection_in_place(len: int, sel: int, hint: int, max: int)
    requires
        max > 0,
        0 <= hint <= sel,
        sel < hint + (if len < max { len } else { max }),
        hint + (if len < max { len } else { max }) <= len,
    ensures
        spec_scroll_window(len, sel, hint, max).0 == hint,
{
}

/// The fixed field always shows the char under the caret at the caret.
pub proof fn law_field_view_keeps_the_caret_char(text: Seq<char>, caret: int, cap: int)
    requires
        cap > 0,
        0 <= caret < text.len(),
    ensures
        ({
            let (view, vc) = spec_field_view(text, caret, cap);
            0 <= vc < view.len() ==> view[vc] == text[caret]
        }),
{
}

/// Typing past the cap at the end slides the view by exactly one char: the
/// next view is this one without its first char, plus the char typed.
pub proof fn law_field_view_scrolls_one_char_per_char(text: Seq<char>, caret: int, cap: int)
    requires
        0 < cap <= caret,
        caret < text.len(),
    ensures
        spec_field_view(text, caret + 1, cap).0 == spec_field_view(text, caret, cap).0.drop_first().push(text[caret]),
        spec_field_view(text, caret + 1, cap).1 == cap,
{
    let start = view_start(text.len() as int, caret, cap);
    assert(spec_field_view(text, caret + 1, cap).0 =~= spec_field_view(text, caret, cap).0.drop_first().push(text[caret]));
}

} // verus!

verus! {

/// The count cue reads each edge on its own: the above count is the window's
/// top exactly when the window starts past the first item, and the below
/// count is how many items lie past the window's end exactly when it stops
/// short of the last — wherever the other edge sits.
pub proof fn law_edge_counts_read_each_edge_on_its_own(top: usize, visible: usize, n_items: usize)
    ensures
        top > 0 ==> spec_edge_counts(top as int, visible as int, n_items as int).0 == Some(top),
        top == 0 ==> spec_edge_counts(top as int, visible as int, n_items as int).0 is None,
        top + visible < n_items ==> spec_edge_counts(top as int, visible as int, n_items as int).1
            == Some((n_items - top - visible) as usize),
        top + visible >= n_items ==> spec_edge_counts(top as int, visible as int, n_items as int).1 is None,
        forall|b: usize| spec_edge_counts(top as int, visible as int, n_items as int).1 == Some(b)
            ==> top + visible + b == n_items,
{
}

} // verus!
