//! Which shaped line of an open list carries its foot hint, found by the
//! line's text rather than by counting rows.
use vstd::prelude::*;
use crate::text::chars_of;

verus! {

/// `s` ends with `t`.
pub open spec fn ends_with(s: Seq<char>, t: Seq<char>) -> bool {
    t.len() <= s.len() && s.subrange(s.len() - t.len(), s.len() as int) == t
}

/// A shaped line shows the hint: the whole hint, or a nonempty tail of it
/// that starts right after a separator (where the shaper wrapped it).
pub open spec fn shows_hint(drawn: Seq<char>, hint: Seq<char>, sep: Seq<char>) -> bool {
    drawn == hint || (drawn.len() > 0 && ends_with(hint, drawn) && ends_with(hint.subrange(0, hint.len() - drawn.len()), sep))
}

/// The first line at or after `k` that shows the hint.
pub open spec fn first_hint_line(lines: Seq<Seq<char>>, hint: Seq<char>, sep: Seq<char>, k: int) -> Option<int>
    decreases lines.len() - k,
{
    if k < 0 || k >= lines.len() {
        None
    } else if shows_hint(lines[k], hint, sep) {
        Some(k)
    } else {
        first_hint_line(lines, hint, sep, k + 1)
    }
}

/// The texts of some lines.
pub open spec fn line_texts(lines: Seq<String>) -> Seq<Seq<char>> {
    Seq::new(lines.len(), |i: int| lines[i]@)
}

/// Do the first `end` chars of `s` end with `t`?
fn ends_with_at(s: &Vec<char>, end: usize, t: &Vec<char>) -> (b: bool)
    requires
        end <= s@.len(),
    ensures
        b == ends_with(s@.subrange(0, end as int), t@),
{
    if t.len() > end {
        return false;
    }
    let start = end - t.len();
    let mut i: usize = 0;
    while i < t.len()
        invariant
            start + t@.len() == end,
            end <= s@.len(),
            i <= t@.len(),
            forall|j: int| 0 <= j < i ==> s@[start + j] == t@[j],
        decreases t.len() - i,
    {
        if s[start + i] != t[i] {
            proof {
                assert(s@.subrange(0, end as int).subrange(start as int, end as int)[i as int] != t@[i as int]);
            }
            return false;
        }
        i = i + 1;
    }
    proof {
        assert(s@.subrange(0, end as int).subrange(start as int, end as int) =~= t@);
    }
    true
}

/// Are two char sequences equal?
fn same_chars(a: &Vec<char>, b: &Vec<char>) -> (r: bool)
    ensures
        r == (a@ == b@),
{
    if a.len() != b.len() {
        return false;
    }
    let mut i: usize = 0;
    while i < a.len()
        invariant
            a@.len() == b@.len(),
            i <= a@.len(),
            forall|j: int| 0 <= j < i ==> a@[j] == b@[j],
        decreases a.len() - i,
    {
        if a[i] != b[i] {
            return false;
        }
        i = i + 1;
    }
    proof {
        assert(a@ =~= b@);
    }
    true
}

/// Which of the list's shaped `lines` carries the foot `hint` (whole, or as
/// the tail the shaper wrapped after the separator `sep`): the first such
/// line, or `None` when there is no hint or no line shows it.
pub fn overlay_hint_line(hint: &str, lines: &[String], sep: &str) -> (r: Option<usize>)
    ensures
        hint@.len() == 0 ==> r is None,
        hint@.len() > 0 ==> match first_hint_line(line_texts(lines@), hint@, sep@, 0) {
            Some(k) => r == Some(k as usize),
            None => r is None,
        },
{
    let h = chars_of(hint);
    if h.len() == 0 {
        return None;
    }
    let s = chars_of(sep);
    let mut k: usize = 0;
    while k < lines.len()
        invariant
            k <= lines@.len(),
            h@ == hint@,
            hint@.len() > 0,
            s@ == sep@,
            first_hint_line(line_texts(lines@), hint@, sep@, 0) == first_hint_line(line_texts(lines@), hint@, sep@, k as int),
        decreases lines.len() - k,
    {
        let d = chars_of(lines[k].as_str());
        proof {
            assert(line_texts(lines@)[k as int] == d@);
        }
        let whole = same_chars(&d, &h);
        let shown = whole || (d.len() > 0 && d.len() <= h.len() && ends_with_at(&h, h.len(), &d)
            && ends_with_at(&h, h.len() - d.len(), &s));
        proof {
            assert(h@.subrange(0, h@.len() as int) =~= h@);
            assert(shown == shows_hint(d@, h@, s@));
        }
        if shown {
            return Some(k);
        }
        k = k + 1;
    }
    None
}

} // verus!

verus! {

/// `drawn` is the hint, or a nonempty tail of it that starts right after a
/// separator: the hint is some text, the separator, then `drawn`.
pub open spec fn is_hint_piece(drawn: Seq<char>, hint: Seq<char>, sep: Seq<char>) -> bool {
    drawn == hint || (drawn.len() > 0 && exists|p: Seq<char>| #[trigger] (p + sep + drawn) == hint)
}

/// A shaped line shows the hint exactly when it is the whole hint or a
/// nonempty tail following a separator, whatever that tail itself holds.
pub proof fn law_a_line_shows_the_hint_when_it_is_a_tail_after_a_separator(drawn: Seq<char>, hint: Seq<char>, sep: Seq<char>)
    ensures
        shows_hint(drawn, hint, sep) == is_hint_piece(drawn, hint, sep),
{
    if drawn != hint && drawn.len() > 0 {
        if ends_with(hint, drawn) && ends_with(hint.subrange(0, hint.len() - drawn.len()), sep) {
            let pre = hint.subrange(0, hint.len() - drawn.len());
            let p = pre.subrange(0, pre.len() - sep.len());
            assert(p + sep + drawn =~= hint);
        }
        if exists|p: Seq<char>| #[trigger] (p + sep + drawn) == hint {
            let p = choose|p: Seq<char>| #[trigger] (p + sep + drawn) == hint;
            assert(hint.subrange(hint.len() - drawn.len(), hint.len() as int) =~= drawn);
            let pre = hint.subrange(0, hint.len() - drawn.len());
            assert(pre =~= p + sep);
            assert(pre.subrange(pre.len() - sep.len(), pre.len() as int) =~= sep);
        }
    }
}

/// The hint's line is the first line that is the whole hint or a nonempty
/// tail of it following a separator; no line before it is either, and when
/// none is, there is no hint line.
pub proof fn law_the_hint_line_is_the_first_piece_of_the_hint(lines: Seq<Seq<char>>, hint: Seq<char>, sep: Seq<char>)
    ensures
        first_hint_line(lines, hint, sep, 0) matches Some(k) ==> 0 <= k < lines.len()
            && is_hint_piece(lines[k], hint, sep)
            && forall|j: int| 0 <= j < k ==> !is_hint_piece(#[trigger] lines[j], hint, sep),
        first_hint_line(lines, hint, sep, 0) is None ==> forall|j: int| 0 <= j < lines.len()
            ==> !is_hint_piece(#[trigger] lines[j], hint, sep),
{
    lemma_first_hint_line_from(lines, hint, sep, 0);
}

proof fn lemma_first_hint_line_from(lines: Seq<Seq<char>>, hint: Seq<char>, sep: Seq<char>, from: int)
    requires
        0 <= from <= lines.len(),
    ensures
        first_hint_line(lines, hint, sep, from) matches Some(k) ==> from <= k < lines.len()
            && is_hint_piece(lines[k], hint, sep)
            && forall|j: int| from <= j < k ==> !is_hint_piece(#[trigger] lines[j], hint, sep),
        first_hint_line(lines, hint, sep, from) is None ==> forall|j: int| from <= j < lines.len()
            ==> !is_hint_piece(#[trigger] lines[j], hint, sep),
    decreases lines.len() - from,
{
    if from < lines.len() {
        law_a_line_shows_the_hint_when_it_is_a_tail_after_a_separator(lines[from], hint, sep);
        if !shows_hint(lines[from], hint, sep) {
            lemma_first_hint_line_from(lines, hint, sep, from + 1);
        }
    }
}

} // verus!
