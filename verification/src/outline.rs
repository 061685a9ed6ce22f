//! The persistent margin outline's structural rules: which headings are
//! top-level, a heading's ancestor chain, the group gaps, the depth reveal,
//! and the collapsed-fold marker.
use vstd::prelude::*;
use crate::text::{decimal, push_decimal};

verus! {

/// The deepest heading level that still counts as TOP-LEVEL (H1 and H2).
pub const OUTLINE_TOP_LEVEL_MAX: u8 = 2;

/// A markdown heading: its level (1 for `#`), its text, and its 0-based
/// document line.
#[derive(Debug)]
pub struct Heading {
    pub level: u8,
    pub text: String,
    pub line: usize,
}

/// A top-level heading is an H1 or H2 (level at most two).
pub open spec fn spec_is_top_level(level: u8) -> bool {
    level <= OUTLINE_TOP_LEVEL_MAX
}

/// Is a heading at `level` top-level?
pub fn is_top_level(level: u8) -> (b: bool)
    ensures
        b == spec_is_top_level(level),
{
    level <= OUTLINE_TOP_LEVEL_MAX
}

/// The two ink rungs an outline row wears.
#[derive(Clone, Copy, PartialEq, Eq, Debug, Structural)]
pub enum OutlineRung {
    Faint,
    Content,
}

/// The current heading reads as content; every other row is faint.
pub fn row_rung(is_current: bool) -> (r: OutlineRung)
    ensures
        r == (if is_current { OutlineRung::Content } else { OutlineRung::Faint }),
{
    if is_current {
        OutlineRung::Content
    } else {
        OutlineRung::Faint
    }
}

/// The smallest heading level among `hs[i + 1 ..= idx]` — the deepest level an
/// ancestor at `i` must still be shallower than.
pub open spec fn need_above(hs: Seq<Heading>, i: int, idx: int) -> int
    decreases idx - i,
{
    if i + 1 >= idx {
        hs[idx].level as int
    } else {
        let rest = need_above(hs, i + 1, idx);
        if (hs[i + 1].level as int) < rest { hs[i + 1].level as int } else { rest }
    }
}

/// `i` is an ancestor of the heading at `idx`: it precedes it, and it is
/// strictly shallower than every heading between them and than `idx` itself
/// (the nearest preceding heading at each strictly-shallower level). Nothing
/// is shallower than an H1, so no ancestor is sought past one.
pub open spec fn is_ancestor(hs: Seq<Heading>, i: int, idx: int) -> bool {
    0 <= i < idx < hs.len() && need_above(hs, i, idx) > 1 && (hs[i].level as int) < need_above(hs, i, idx)
}

/// The ancestor chain of the heading at `idx`, nearest first: one heading per
/// strictly-shallower level actually crossed walking up the document. Empty
/// for an H1, for a heading with nothing shallower before it, and for an
/// index past the list.
pub fn ancestor_chain(headings: &[Heading], idx: usize) -> (out: Vec<usize>)
    ensures
        forall|k: int| 0 <= k < out@.len() ==> is_ancestor(headings@, out@[k] as int, idx as int),
        forall|k: int, m: int| 0 <= k < m < out@.len() ==> out@[k] > out@[m],
        forall|i: int| is_ancestor(headings@, i, idx as int) ==> out@.contains(i as usize),
        idx >= headings@.len() ==> out@.len() == 0,
{
    let mut out: Vec<usize> = Vec::new();
    if idx >= headings.len() {
        return out;
    }
    let mut need: u8 = headings[idx].level;
    let mut i: usize = idx;
    while i > 0
        invariant_except_break
            i <= idx < headings@.len(),
            i >= 1 ==> need as int == need_above(headings@, i as int - 1, idx as int),
            forall|k: int| 0 <= k < out@.len() ==> is_ancestor(headings@, out@[k] as int, idx as int),
            forall|k: int| 0 <= k < out@.len() ==> out@[k] >= i,
            forall|k: int, m: int| 0 <= k < m < out@.len() ==> out@[k] > out@[m],
            forall|j: int| i <= j < idx && is_ancestor(headings@, j, idx as int) ==> out@.contains(j as usize),
        ensures
            forall|k: int| 0 <= k < out@.len() ==> is_ancestor(headings@, out@[k] as int, idx as int),
            forall|k: int, m: int| 0 <= k < m < out@.len() ==> out@[k] > out@[m],
            forall|j: int| is_ancestor(headings@, j, idx as int) ==> out@.contains(j as usize),
        decreases i,
    {
        if need <= 1 {
            proof {
                assert forall|j: int| 0 <= j < i && is_ancestor(headings@, j, idx as int) implies false by {
                    lemma_need_above_monotone(headings@, j, i as int - 1, idx as int);
                }
            }
            break;
        }
        i = i - 1;
        let lvl = headings[i].level;
        let ghost old_need = need;
        let ghost old_out = out@;
        if lvl < need {
            out.push(i);
            need = lvl;
        }
        proof {
            if i >= 1 {
                lemma_need_above_step(headings@, i as int - 1, idx as int);
            }
            assert forall|j: int| i <= j < idx && is_ancestor(headings@, j, idx as int) implies out@.contains(j as usize) by {
                if j == i {
                    assert(out@[out@.len() - 1] == i);
                } else {
                    assert(old_out.contains(j as usize));
                    let w = choose|w: int| 0 <= w < old_out.len() && old_out[w] == j as usize;
                    assert(out@[w] == j as usize);
                }
            }
        }
    }
    out
}

proof fn lemma_need_above_step(hs: Seq<Heading>, i: int, idx: int)
    requires
        0 <= i < idx,
    ensures
        i + 1 < idx ==> need_above(hs, i, idx) == (if (hs[i + 1].level as int) < need_above(hs, i + 1, idx) { hs[i + 1].level as int } else { need_above(hs, i + 1, idx) }),
        i + 1 == idx ==> need_above(hs, i, idx) == hs[idx].level as int,
{
}

/// The smallest level above a point never grows as the point moves up.
proof fn lemma_need_above_monotone(hs: Seq<Heading>, j: int, i: int, idx: int)
    requires
        0 <= j <= i < idx,
    ensures
        need_above(hs, j, idx) <= need_above(hs, i, idx),
    decreases i - j,
{
    if j < i {
        lemma_need_above_monotone(hs, j + 1, i, idx);
    }
}

} // verus!

verus! {

/// The index of the first top-level heading, if any.
pub fn first_top_level(headings: &[Heading]) -> (r: Option<usize>)
    ensures
        r is None ==> forall|j: int| 0 <= j < headings@.len() ==> !spec_is_top_level(#[trigger] headings@[j].level),
        r matches Some(f) ==> f < headings@.len() && spec_is_top_level(headings@[f as int].level)
            && forall|j: int| 0 <= j < f ==> !spec_is_top_level(#[trigger] headings@[j].level),
{
    let mut i: usize = 0;
    while i < headings.len()
        invariant
            i <= headings@.len(),
            forall|j: int| 0 <= j < i ==> !spec_is_top_level(#[trigger] headings@[j].level),
        decreases headings.len() - i,
    {
        if is_top_level(headings[i].level) {
            return Some(i);
        }
        i = i + 1;
    }
    None
}

/// A half-row GROUP GAP opens above heading `i` exactly when it is top-level
/// and comes after the first top-level heading `first_top`.
pub fn group_gap_before(headings: &[Heading], first_top: Option<usize>, i: usize) -> (b: bool)
    requires
        i < headings@.len(),
    ensures
        b == (spec_is_top_level(headings@[i as int].level) && (first_top matches Some(f) && i > f)),
{
    is_top_level(headings[i].level) && match first_top {
        Some(f) => i > f,
        None => false,
    }
}

/// The top-level section heading `i` belongs to: the nearest top-level
/// heading at or before it, if any.
pub open spec fn section_of(hs: Seq<Heading>, i: int) -> Option<int>
    decreases i + 1,
{
    if i < 0 {
        None
    } else if spec_is_top_level(hs[i].level) {
        Some(i)
    } else {
        section_of(hs, i - 1)
    }
}

/// Is heading `i` shown by the depth reveal? With the reveal off, every
/// heading is; with it on, the top-level headings and the deeper headings of
/// the section the current heading sits in.
pub open spec fn reveal_shows(hs: Seq<Heading>, current: Option<usize>, reveal: bool, i: int) -> bool {
    !reveal || spec_is_top_level(hs[i].level) || section_of(hs, i) == (match current {
        Some(c) => section_of(hs, c as int),
        None => None,
    })
}

/// The indices among the first `n` headings that the outline shows, in
/// document order.
pub open spec fn revealed(hs: Seq<Heading>, current: Option<usize>, reveal: bool, n: int) -> Seq<usize>
    decreases n,
{
    if n <= 0 {
        Seq::empty()
    } else if reveal_shows(hs, current, reveal, n - 1) {
        revealed(hs, current, reveal, n - 1).push((n - 1) as usize)
    } else {
        revealed(hs, current, reveal, n - 1)
    }
}

/// The indices the outline shows, in document order.
pub fn reveal_shown_with(headings: &[Heading], current: Option<usize>, reveal: bool) -> (out: Vec<usize>)
    requires
        reveal ==> (current matches Some(c) ==> c < headings@.len()),
    ensures
        forall|k: int, m: int| 0 <= k < m < out@.len() ==> out@[k] < out@[m],
        forall|k: int| 0 <= k < out@.len() ==> out@[k] < headings@.len()
            && reveal_shows(headings@, current, reveal, out@[k] as int),
        forall|i: int| 0 <= i < headings@.len() && reveal_shows(headings@, current, reveal, i)
            ==> out@.contains(i as usize),
        out@ == revealed(headings@, current, reveal, headings@.len() as int),
{
    let mut out: Vec<usize> = Vec::new();
    let cur_section: Option<usize> = if !reveal {
        None
    } else {
        match current {
            Some(c) => section_at(headings, c),
            None => None,
        }
    };
    let ghost cur_spec: Option<int> = match current {
        Some(c) => section_of(headings@, c as int),
        None => None,
    };
    let mut section: Option<usize> = None;
    let mut i: usize = 0;
    while i < headings.len()
        invariant
            i <= headings@.len(),
            cur_spec == (match current {
                Some(c) => section_of(headings@, c as int),
                None => None,
            }),
            reveal ==> (cur_section matches Some(s) ==> cur_spec == Some(s as int)),
            reveal ==> (cur_section is None ==> cur_spec is None),
            i > 0 ==> (section matches Some(s) ==> section_of(headings@, i - 1) == Some(s as int)),
            i > 0 ==> (section is None ==> section_of(headings@, i - 1) is None),
            i == 0 ==> section is None,
            forall|k: int, m: int| 0 <= k < m < out@.len() ==> out@[k] < out@[m],
            forall|k: int| 0 <= k < out@.len() ==> out@[k] < i
                && reveal_shows(headings@, current, reveal, out@[k] as int),
            forall|j: int| 0 <= j < i && reveal_shows(headings@, current, reveal, j)
                ==> out@.contains(j as usize),
            out@ == revealed(headings@, current, reveal, i as int),
        decreases headings.len() - i,
    {
        let top = is_top_level(headings[i].level);
        if top {
            section = Some(i);
        }
        proof {
            assert(section_of(headings@, i as int) == (if top { Some(i as int) } else { section_of(headings@, i - 1) }));
            assert(section matches Some(s) ==> section_of(headings@, i as int) == Some(s as int));
            assert(section is None ==> section_of(headings@, i as int) is None);
        }
        let same = match (section, cur_section) {
            (Some(a), Some(b)) => a == b,
            (None, None) => true,
            _ => false,
        };
        proof {
            if reveal {
                if same {
                    assert(section_of(headings@, i as int) == cur_spec);
                } else {
                    assert(section_of(headings@, i as int) != cur_spec);
                }
            }
            assert(top == spec_is_top_level(headings@[i as int].level));
            assert(cur_spec == (match current {
                Some(c) => section_of(headings@, c as int),
                None => None,
            }));
            assert(reveal_shows(headings@, current, reveal, i as int) == (!reveal || top || same));
        }
        let ghost old_out = out@;
        if !reveal || top || same {
            out.push(i);
        }
        proof {
            assert forall|j: int| 0 <= j < i + 1 && reveal_shows(headings@, current, reveal, j) implies out@.contains(j as usize) by {
                if j == i {
                    assert(out@[out@.len() - 1] == i);
                } else {
                    let w = choose|w: int| 0 <= w < old_out.len() && old_out[w] == j as usize;
                    assert(out@[w] == j as usize);
                }
            }
        }
        i = i + 1;
    }
    out
}

/// The section heading `i` belongs to (see `section_of`).
fn section_at(headings: &[Heading], i: usize) -> (r: Option<usize>)
    requires
        i < headings@.len(),
    ensures
        r matches Some(s) ==> section_of(headings@, i as int) == Some(s as int),
        r is None ==> section_of(headings@, i as int) is None,
{
    let mut j: usize = i;
    loop
        invariant
            j <= i,
            i < headings@.len(),
            section_of(headings@, i as int) == section_of(headings@, j as int),
        decreases j,
    {
        if is_top_level(headings[j].level) {
            return Some(j);
        }
        if j == 0 {
            assert(section_of(headings@, 0) == section_of(headings@, -1));
            return None;
        }
        j = j - 1;
    }
}

/// The marker a collapsed heading's row carries: ` (N)` with `N` the number of
/// lines the fold hides.
pub fn outline_collapsed_marker(hidden: usize) -> (s: String)
    ensures
        s@ == seq![' ', '('] + decimal(hidden as nat) + seq![')'],
{
    let mut s = String::new();
    s.push(' ');
    s.push('(');
    push_decimal(&mut s, hidden as u64);
    s.push(')');
    assert(s@ =~= seq![' ', '('] + decimal(hidden as nat) + seq![')']);
    s
}

} // verus!

verus! {

/// `need_above(i, idx)` is at most the level of every heading in `(i, idx]`.
proof fn lemma_need_above_le(hs: Seq<Heading>, i: int, k: int, idx: int)
    requires
        0 <= i < k <= idx,
    ensures
        need_above(hs, i, idx) <= hs[k].level as int,
    decreases k - i,
{
    if i + 1 < k {
        lemma_need_above_le(hs, i + 1, k, idx);
    } else if i + 1 < idx {
        // k == i + 1: the minimum includes hs[i + 1] itself.
    }
}

/// Every ancestor is strictly shallower than the heading it heads, and an
/// ancestor further up is strictly shallower than any nearer one: walking
/// the chain only ever climbs toward H1.
pub proof fn law_ancestors_climb_strictly(hs: Seq<Heading>, j: int, i: int, idx: int)
    requires
        is_ancestor(hs, i, idx),
        is_ancestor(hs, j, idx),
        j < i,
    ensures
        hs[j].level < hs[i].level,
        hs[i].level < hs[idx].level,
{
    lemma_need_above_le(hs, j, i, idx);
    lemma_need_above_le(hs, i, idx, idx);
}

/// With the depth reveal off every heading is shown; with it on, every
/// top-level heading still is.
pub proof fn law_reveal_never_hides_a_top_level_heading(hs: Seq<Heading>, current: Option<usize>, reveal: bool, i: int)
    requires
        0 <= i < hs.len(),
        !reveal || spec_is_top_level(hs[i].level),
    ensures
        reveal_shows(hs, current, reveal, i),
{
}

/// `need_above(i, idx)` is at least any bound every heading in `(i, idx]`
/// meets.
proof fn lemma_need_above_ge(hs: Seq<Heading>, i: int, idx: int, bound: int)
    requires
        0 <= i < idx,
        forall|m: int| i < m <= idx ==> (#[trigger] hs[m].level) as int >= bound,
    ensures
        need_above(hs, i, idx) >= bound,
    decreases idx - i,
{
    if i + 1 < idx {
        lemma_need_above_ge(hs, i + 1, idx, bound);
    }
}

/// Below `p` and above `lo`, a heading shallower than `p` has a last such
/// heading: one with nothing shallower than `p` between it and `p`.
proof fn lemma_last_shallower(hs: Seq<Heading>, lo: int, p: int, j: int) -> (last: int)
    requires
        lo < j < p,
        hs[j].level < hs[p].level,
    ensures
        lo < last < p,
        hs[last].level < hs[p].level,
        forall|m: int| last < m < p ==> (#[trigger] hs[m].level) >= hs[p].level,
    decreases p - j,
{
    if exists|m: int| j < m < p && (#[trigger] hs[m].level) < hs[p].level {
        let m = choose|m: int| j < m < p && (#[trigger] hs[m].level) < hs[p].level;
        lemma_last_shallower(hs, lo, p, m)
    } else {
        j
    }
}

/// A heading below `p` shallower than `p`, with nothing shallower than `p`
/// between them, is an ancestor of `idx` whenever `p` is `idx` or one of its
/// ancestors.
proof fn lemma_shallower_is_ancestor(hs: Seq<Heading>, j: int, p: int, idx: int)
    requires
        0 <= j < p <= idx < hs.len(),
        p == idx || is_ancestor(hs, p, idx),
        hs[j].level < hs[p].level,
        hs[j].level >= 1,
        forall|m: int| j < m < p ==> (#[trigger] hs[m].level) >= hs[p].level,
    ensures
        is_ancestor(hs, j, idx),
{
    assert forall|m: int| j < m <= idx implies (#[trigger] hs[m].level) as int >= hs[p].level as int by {
        if m > p {
            lemma_need_above_le(hs, p, m, idx);
        }
    }
    lemma_need_above_ge(hs, j, idx, hs[p].level as int);
}

/// The chain is the nearest shallower heading, step by step: starting from
/// the heading at `idx`, each ancestor is the last heading before the
/// previous link that is strictly shallower than it, and the chain ends
/// exactly when no heading before its last link is shallower. Stated of any
/// list that holds exactly the ancestors in decreasing order, which is what
/// `ancestor_chain` returns.
pub proof fn law_ancestors_are_the_nearest_shallower_headings(hs: Seq<Heading>, idx: int, r: Seq<usize>)
    requires
        0 <= idx < hs.len() <= usize::MAX,
        forall|m: int| 0 <= m < hs.len() ==> (#[trigger] hs[m].level) >= 1,
        forall|k: int| 0 <= k < r.len() ==> is_ancestor(hs, #[trigger] r[k] as int, idx),
        forall|k: int, m: int| 0 <= k < m < r.len() ==> r[k] > r[m],
        forall|i: int| is_ancestor(hs, i, idx) ==> r.contains(i as usize),
    ensures
        forall|k: int| 0 <= k < r.len() ==> {
            let p = if k == 0 { idx } else { r[k - 1] as int };
            &&& (#[trigger] r[k]) < p
            &&& hs[r[k] as int].level < hs[p].level
            &&& forall|j: int| r[k] < j < p ==> hs[j].level >= hs[p].level
        },
        ({
            let p = if r.len() == 0 { idx } else { r.last() as int };
            forall|j: int| 0 <= j < p ==> hs[j].level >= hs[p].level
        }),
{
    assert forall|k: int| 0 <= k < r.len() implies {
        let p = if k == 0 { idx } else { r[k - 1] as int };
        &&& (#[trigger] r[k]) < p
        &&& hs[r[k] as int].level < hs[p].level
        &&& forall|j: int| r[k] < j < p ==> hs[j].level >= hs[p].level
    } by {
        let p = if k == 0 { idx } else { r[k - 1] as int };
        let q = r[k] as int;
        if k > 0 {
            assert(r[k - 1] > r[k]);
            assert(is_ancestor(hs, p, idx));
            law_ancestors_climb_strictly(hs, q, p, idx);
        } else {
            lemma_need_above_le(hs, q, idx, idx);
        }
        if exists|j: int| q < j < p && hs[j].level < hs[p].level {
            let j = choose|j: int| q < j < p && hs[j].level < hs[p].level;
            let last = lemma_last_shallower(hs, q, p, j);
            lemma_shallower_is_ancestor(hs, last, p, idx);
            assert(r.contains(last as usize));
            let m = choose|m: int| 0 <= m < r.len() && r[m] == last as usize;
            assert(r[m] as int == last);
            if m < k {
                if m < k - 1 {
                    assert(r[m] > r[k - 1]);
                }
                assert(r[m] as int >= p);
            } else if m > k {
                assert(r[k] > r[m]);
            }
            assert(false);
        }
    }
    let p = if r.len() == 0 { idx } else { r.last() as int };
    if r.len() > 0 {
        assert(is_ancestor(hs, r[r.len() - 1] as int, idx));
    }
    if exists|j: int| 0 <= j < p && hs[j].level < hs[p].level {
        let j = choose|j: int| 0 <= j < p && hs[j].level < hs[p].level;
        let last = lemma_last_shallower(hs, -1, p, j);
        lemma_shallower_is_ancestor(hs, last, p, idx);
        assert(r.contains(last as usize));
        let m = choose|m: int| 0 <= m < r.len() && r[m] == last as usize;
        assert(r[m] as int == last);
        if m < r.len() - 1 {
            assert(r[m] > r[r.len() - 1]);
        }
        assert(false);
    }
}

} // verus!
