//! A menu-bar dropdown's text: its labels and key chords as two newline-joined
//! columns, which byte ranges of each are disabled, which rows are separators,
//! and the widest label and chord; and the ink spans a column splits into.
use vstd::prelude::*;
use vstd::string::{StrSliceExecFns, StringExecFns};
use vstd::utf8::encode_utf8;
use crate::pipeline::join_lines;

verus! {

/// One dropdown item as the menu roster resolves it: its label, its key chord
/// (empty when it has none), whether it is a separator (which draws neither),
/// and whether it is enabled.
#[derive(Debug)]
pub struct DropEntry {
    pub label: String,
    pub chord: String,
    pub separator: bool,
    pub enabled: bool,
}

/// The dropdown's decided text.
#[derive(Debug)]
pub struct DropText {
    pub labels: String,
    pub chords: String,
    /// Byte ranges `(start, end)` of the disabled items' labels in `labels`.
    pub disabled_labels: Vec<(usize, usize)>,
    /// Byte ranges `(start, end)` of the disabled items' chords in `chords`.
    pub disabled_chords: Vec<(usize, usize)>,
    pub separators: Vec<bool>,
    pub widest_label: usize,
    pub widest_chord: usize,
}

/// The label an item draws: none for a separator.
pub open spec fn label_seg(e: DropEntry) -> Seq<char> {
    if e.separator { Seq::empty() } else { e.label@ }
}

/// The chord an item draws: none for a separator.
pub open spec fn chord_seg(e: DropEntry) -> Seq<char> {
    if e.separator { Seq::empty() } else { e.chord@ }
}

/// Every item's label, in order.
pub open spec fn label_segs(es: Seq<DropEntry>) -> Seq<Seq<char>> {
    Seq::new(es.len(), |k: int| label_seg(es[k]))
}

/// Every item's chord, in order.
pub open spec fn chord_segs(es: Seq<DropEntry>) -> Seq<Seq<char>> {
    Seq::new(es.len(), |k: int| chord_seg(es[k]))
}

/// The column text before item `k` begins: the first `k` items joined, and
/// the newline that opens row `k`.
pub open spec fn before(segs: Seq<Seq<char>>, k: int) -> Seq<char> {
    if k <= 0 { Seq::empty() } else { join_lines(segs.take(k)) + seq!['\n'] }
}

/// The byte ranges of the disabled items among the first `k`, in order.
pub open spec fn disabled_upto(es: Seq<DropEntry>, segs: Seq<Seq<char>>, k: int) -> Seq<(usize, usize)>
    decreases k,
{
    if k <= 0 {
        Seq::empty()
    } else if !es[k - 1].enabled {
        disabled_upto(es, segs, k - 1).push((
            encode_utf8(before(segs, k - 1)).len() as usize,
            encode_utf8(before(segs, k - 1) + segs[k - 1]).len() as usize,
        ))
    } else {
        disabled_upto(es, segs, k - 1)
    }
}

/// The most chars among the first `k` segments.
pub open spec fn widest_upto(segs: Seq<Seq<char>>, k: int) -> int
    decreases k,
{
    if k <= 0 {
        0
    } else {
        let w = widest_upto(segs, k - 1);
        if segs[k - 1].len() > w { segs[k - 1].len() as int } else { w }
    }
}

/// Joining one more segment after the text before it.
proof fn lemma_join_step(segs: Seq<Seq<char>>, k: int)
    requires
        0 <= k < segs.len(),
    ensures
        join_lines(segs.take(k + 1)) == before(segs, k) + segs[k],
{
    let t = segs.take(k + 1);
    if k == 0 {
        assert(t.len() == 1);
        assert(before(segs, 0) + segs[0] =~= segs[0]);
    } else {
        assert(t.drop_last() =~= segs.take(k));
        assert(t.last() == segs[k]);
    }
}

/// Lay a dropdown's items out as two newline-joined columns, recording which
/// byte ranges of each column belong to disabled items, which rows are
/// separators, and the widest label and chord in chars.
pub fn drop_text(items: &[DropEntry]) -> (out: DropText)
    ensures
        out.labels@ == join_lines(label_segs(items@)),
        out.chords@ == join_lines(chord_segs(items@)),
        out.disabled_labels@ == disabled_upto(items@, label_segs(items@), items@.len() as int),
        out.disabled_chords@ == disabled_upto(items@, chord_segs(items@), items@.len() as int),
        out.separators@ == Seq::new(items@.len(), |k: int| items@[k].separator),
        out.widest_label as int == widest_upto(label_segs(items@), items@.len() as int),
        out.widest_chord as int == widest_upto(chord_segs(items@), items@.len() as int),
{
    let ghost ls = label_segs(items@);
    let ghost cs = chord_segs(items@);
    let mut labels = String::new();
    let mut chords = String::new();
    let mut disabled_labels: Vec<(usize, usize)> = Vec::new();
    let mut disabled_chords: Vec<(usize, usize)> = Vec::new();
    let mut separators: Vec<bool> = Vec::new();
    let mut widest_label: usize = 0;
    let mut widest_chord: usize = 0;
    let mut k: usize = 0;
    while k < items.len()
        invariant
            k <= items@.len(),
            ls == label_segs(items@),
            cs == chord_segs(items@),
            k == 0 ==> labels@.len() == 0 && chords@.len() == 0,
            k > 0 ==> labels@ == join_lines(ls.take(k as int)) && chords@ == join_lines(cs.take(k as int)),
            disabled_labels@ == disabled_upto(items@, ls, k as int),
            disabled_chords@ == disabled_upto(items@, cs, k as int),
            separators@ == Seq::new(k as nat, |j: int| items@[j].separator),
            widest_label as int == widest_upto(ls, k as int),
            widest_chord as int == widest_upto(cs, k as int),
        decreases items.len() - k,
    {
        if k > 0 {
            labels.push('\n');
            chords.push('\n');
        }
        proof {
            assert(labels@ =~= before(ls, k as int));
            assert(chords@ =~= before(cs, k as int));
        }
        let label_start = labels.as_str().len();
        let chord_start = chords.as_str().len();
        let item = &items[k];
        if !item.separator {
            labels.append(item.label.as_str());
            chords.append(item.chord.as_str());
            let lw = item.label.as_str().unicode_len();
            let cw = item.chord.as_str().unicode_len();
            if lw > widest_label {
                widest_label = lw;
            }
            if cw > widest_chord {
                widest_chord = cw;
            }
        }
        proof {
            assert(ls[k as int] == label_seg(items@[k as int]));
            assert(cs[k as int] == chord_seg(items@[k as int]));
            assert(labels@ =~= before(ls, k as int) + ls[k as int]);
            assert(chords@ =~= before(cs, k as int) + cs[k as int]);
            lemma_join_step(ls, k as int);
            lemma_join_step(cs, k as int);
        }
        if !item.enabled {
            disabled_labels.push((label_start, labels.as_str().len()));
            disabled_chords.push((chord_start, chords.as_str().len()));
        }
        separators.push(item.separator);
        proof {
            assert(separators@ =~= Seq::new((k + 1) as nat, |j: int| items@[j].separator));
        }
        k = k + 1;
    }
    proof {
        assert(ls.take(items@.len() as int) =~= ls);
        assert(cs.take(items@.len() as int) =~= cs);
        if items@.len() == 0 {
            assert(labels@ =~= join_lines(ls));
            assert(chords@ =~= join_lines(cs));
        }
    }
    DropText { labels, chords, disabled_labels, disabled_chords, separators, widest_label, widest_chord }
}

/// The spans and the cursor after splitting around the first `k` disabled
/// ranges: an enabled span for any gap before a range, then the range itself.
pub open spec fn span_state(disabled: Seq<(usize, usize)>, k: int) -> (Seq<(usize, usize, bool)>, int)
    decreases k,
{
    if k <= 0 {
        (Seq::empty(), 0)
    } else {
        let (spans, cursor) = span_state(disabled, k - 1);
        let r = disabled[k - 1];
        let gap: Seq<(usize, usize, bool)> = if cursor < r.0 { spans.push((cursor as usize, r.0, false)) } else { spans };
        (gap.push((r.0, r.1, true)), r.1 as int)
    }
}

/// The ink spans `(start, end, disabled)` a column of `len` bytes splits into
/// around its disabled ranges: the disabled ranges in order, the enabled text
/// between them, and the enabled tail (always at least one span).
pub open spec fn spec_column_spans(len: int, disabled: Seq<(usize, usize)>) -> Seq<(usize, usize, bool)> {
    let (spans, cursor) = span_state(disabled, disabled.len() as int);
    if cursor < len || spans.len() == 0 { spans.push((cursor as usize, len as usize, false)) } else { spans }
}

/// Split a column of `len` bytes into ink spans around its disabled ranges
/// (see `spec_column_spans`). Each range lies inside the column.
pub fn column_spans(len: usize, disabled: &[(usize, usize)]) -> (out: Vec<(usize, usize, bool)>)
    requires
        forall|k: int| 0 <= k < disabled@.len() ==> (#[trigger] disabled@[k]).0 <= disabled@[k].1 <= len,
    ensures
        out@ == spec_column_spans(len as int, disabled@),
{
    let mut spans: Vec<(usize, usize, bool)> = Vec::new();
    let mut cursor: usize = 0;
    let mut k: usize = 0;
    while k < disabled.len()
        invariant
            k <= disabled@.len(),
            forall|j: int| 0 <= j < disabled@.len() ==> (#[trigger] disabled@[j]).0 <= disabled@[j].1 <= len,
            cursor <= len,
            (spans@, cursor as int) == span_state(disabled@, k as int),
        decreases disabled.len() - k,
    {
        let (start, end) = disabled[k];
        if cursor < start {
            spans.push((cursor, start, false));
        }
        spans.push((start, end, true));
        cursor = end;
        k = k + 1;
    }
    if cursor < len || spans.len() == 0 {
        spans.push((cursor, len, false));
    }
    spans
}

} // verus!

verus! {

/// Encoding a concatenation encodes each part in turn.
proof fn lemma_encode_concat(a: Seq<char>, b: Seq<char>)
    ensures
        encode_utf8(a + b) == encode_utf8(a) + encode_utf8(b),
    decreases a.len(),
{
    if a.len() == 0 {
        assert(a + b =~= b);
        assert(encode_utf8(a) =~= Seq::<u8>::empty());
        assert(encode_utf8(a) + encode_utf8(b) =~= encode_utf8(b));
    } else {
        assert((a + b).drop_first() =~= a.drop_first() + b);
        assert((a + b)[0] == a[0]);
        lemma_encode_concat(a.drop_first(), b);
        assert(encode_utf8(a + b) =~= encode_utf8(a) + encode_utf8(b));
    }
}

/// The first `m` segments joined are a prefix of all of them joined.
proof fn lemma_join_prefix(segs: Seq<Seq<char>>, m: int)
    requires
        1 <= m <= segs.len(),
    ensures
        join_lines(segs.take(m)).len() <= join_lines(segs).len(),
        join_lines(segs) == join_lines(segs.take(m)) + join_lines(segs).skip(join_lines(segs.take(m)).len() as int),
    decreases segs.len(),
{
    let whole = join_lines(segs);
    if m == segs.len() {
        assert(segs.take(m) =~= segs);
        assert(whole.skip(whole.len() as int) =~= Seq::<char>::empty());
        assert(whole =~= whole + Seq::<char>::empty());
    } else {
        let init = segs.drop_last();
        assert(segs.len() >= 2);
        assert(whole == join_lines(init) + seq!['\n'] + segs.last());
        lemma_join_prefix(init, m);
        assert(init.take(m) =~= segs.take(m));
        let p = join_lines(segs.take(m));
        assert(whole =~= p + whole.skip(p.len() as int));
    }
}

/// A dropdown column is laid where its ranges say: the bytes from where item
/// `k` begins to where it ends encode exactly that item's text, so the disabled
/// ranges mark the disabled items' own text and nothing else.
pub proof fn law_each_item_sits_at_its_range(segs: Seq<Seq<char>>, k: int)
    requires
        0 <= k < segs.len(),
    ensures
        encode_utf8(before(segs, k)).len() <= encode_utf8(before(segs, k) + segs[k]).len() <= encode_utf8(join_lines(segs)).len(),
        encode_utf8(join_lines(segs)).subrange(
            encode_utf8(before(segs, k)).len() as int,
            encode_utf8(before(segs, k) + segs[k]).len() as int,
        ) == encode_utf8(segs[k]),
{
    lemma_join_step(segs, k);
    lemma_join_prefix(segs, k + 1);
    let pre = before(segs, k);
    let p = join_lines(segs.take(k + 1));
    let whole = join_lines(segs);
    let rest = whole.skip(p.len() as int);
    assert(whole == pre + segs[k] + rest);
    lemma_encode_concat(pre, segs[k]);
    lemma_encode_concat(pre + segs[k], rest);
    let e_pre = encode_utf8(pre);
    let e_seg = encode_utf8(segs[k]);
    assert(encode_utf8(whole) == e_pre + e_seg + encode_utf8(rest));
    assert(encode_utf8(whole).subrange(e_pre.len() as int, (e_pre.len() + e_seg.len()) as int) =~= e_seg);
}

/// The disabled ranges are in order and each is well formed: every range
/// starts no earlier than the previous one ends.
pub open spec fn ranges_ordered(d: Seq<(usize, usize)>, len: int) -> bool {
    &&& forall|k: int| 0 <= k < d.len() ==> (#[trigger] d[k]).0 <= d[k].1 <= len
    &&& forall|k: int| 0 < k < d.len() ==> (#[trigger] d[k - 1]).1 <= d[k].0
}

/// The spans tile `[from, to)`: contiguous, each well formed.
pub open spec fn tiles(s: Seq<(usize, usize, bool)>, from: int, to: int) -> bool {
    if s.len() == 0 {
        from == to
    } else {
        &&& s[0].0 == from
        &&& s.last().1 == to
        &&& forall|i: int| 0 <= i < s.len() ==> (#[trigger] s[i]).0 <= s[i].1
        &&& forall|i: int| 0 < i < s.len() ==> (#[trigger] s[i - 1]).1 == s[i].0
    }
}

proof fn lemma_span_state(d: Seq<(usize, usize)>, len: int, k: int)
    requires
        0 <= k <= d.len(),
        ranges_ordered(d, len),
        0 <= len,
    ensures
        tiles(span_state(d, k).0, 0, span_state(d, k).1),
        span_state(d, k).1 == if k == 0 { 0 } else { d[k - 1].1 as int },
        0 <= span_state(d, k).1 <= len,
        forall|i: int| 0 <= i < span_state(d, k).0.len() && (#[trigger] span_state(d, k).0[i]).2
            ==> exists|j: int| 0 <= j < k && span_state(d, k).0[i] == (d[j].0, d[j].1, true),
        forall|j: int| 0 <= j < k ==> span_state(d, k).0.contains((#[trigger] d[j].0, d[j].1, true)),
    decreases k,
{
    if k > 0 {
        lemma_span_state(d, len, k - 1);
        let (s, c) = span_state(d, k - 1);
        let r = d[k - 1];
        if k - 1 > 0 {
            assert(d[k - 2].1 <= d[k - 1].0);
        }
        let gap: Seq<(usize, usize, bool)> = if c < r.0 { s.push((c as usize, r.0, false)) } else { s };
        let s2 = gap.push((r.0, r.1, true));
        assert(s2 == span_state(d, k).0);
        assert(c <= r.0);
        if c < r.0 {
            assert(tiles(gap, 0, r.0 as int));
        } else {
            assert(tiles(gap, 0, r.0 as int));
        }
        assert(tiles(s2, 0, r.1 as int));
        assert forall|i: int| 0 <= i < s2.len() && (#[trigger] s2[i]).2 implies exists|j: int| 0 <= j < k && s2[i] == (d[j].0, d[j].1, true) by {
            if i == s2.len() - 1 {
                assert(s2[i] == (d[k - 1].0, d[k - 1].1, true));
            } else if i < s.len() {
                assert(s2[i] == s[i]);
                let j = choose|j: int| 0 <= j < k - 1 && s[i] == (d[j].0, d[j].1, true);
                assert(s2[i] == (d[j].0, d[j].1, true));
            } else {
                assert(!s2[i].2);
            }
        }
        assert forall|j: int| 0 <= j < k implies s2.contains((#[trigger] d[j].0, d[j].1, true)) by {
            if j == k - 1 {
                assert(s2[s2.len() - 1] == (d[j].0, d[j].1, true));
            } else {
                assert(s.contains((d[j].0, d[j].1, true)));
                let i = choose|i: int| 0 <= i < s.len() && s[i] == (d[j].0, d[j].1, true);
                assert(s2[i] == s[i]);
            }
        }
    }
}

/// Splitting a column around ordered disabled ranges tiles the whole column:
/// the spans run contiguously from its start to its end, every disabled range
/// is one of them, and every span marked disabled is one of the ranges.
pub proof fn law_column_spans_tile_the_column(len: int, d: Seq<(usize, usize)>)
    requires
        0 <= len <= usize::MAX,
        ranges_ordered(d, len),
    ensures
        tiles(spec_column_spans(len, d), 0, len),
        forall|j: int| 0 <= j < d.len() ==> spec_column_spans(len, d).contains((#[trigger] d[j].0, d[j].1, true)),
        forall|i: int| 0 <= i < spec_column_spans(len, d).len() && (#[trigger] spec_column_spans(len, d)[i]).2
            ==> exists|j: int| 0 <= j < d.len() && spec_column_spans(len, d)[i] == (d[j].0, d[j].1, true),
{
    let n = d.len() as int;
    lemma_span_state(d, len, n);
    let (s, c) = span_state(d, n);
    let out = spec_column_spans(len, d);
    if c < len || s.len() == 0 {
        assert(out == s.push((c as usize, len as usize, false)));
        assert(tiles(out, 0, len));
        assert forall|j: int| 0 <= j < d.len() implies out.contains((#[trigger] d[j].0, d[j].1, true)) by {
            let i = choose|i: int| 0 <= i < s.len() && s[i] == (d[j].0, d[j].1, true);
            assert(out[i] == s[i]);
        }
        assert forall|i: int| 0 <= i < out.len() && (#[trigger] out[i]).2
            implies exists|j: int| 0 <= j < d.len() && out[i] == (d[j].0, d[j].1, true) by {
            assert(i < s.len());
            assert(out[i] == s[i]);
        }
    } else {
        assert(out == s);
    }
}

} // verus!

verus! {

/// The widest of the first `n` segments is at least each of them, and is
/// one of them (or nothing, with no segments).
proof fn lemma_widest(segs: Seq<Seq<char>>, n: int)
    requires
        0 <= n <= segs.len(),
    ensures
        forall|k: int| 0 <= k < n ==> widest_upto(segs, n) >= (#[trigger] segs[k]).len(),
        widest_upto(segs, n) == 0 || exists|k: int| 0 <= k < n && widest_upto(segs, n) == (#[trigger] segs[k]).len(),
    decreases n,
{
    if n > 0 {
        lemma_widest(segs, n - 1);
    }
}

/// The widest label is the longest label of any item that draws one,
/// counted in chars, and the widest chord likewise: at least every drawn
/// label (chord), and equal to one of them, or `0` when none is drawn.
pub proof fn law_widest_is_the_longest_drawn_text(items: Seq<DropEntry>)
    ensures
        forall|k: int| 0 <= k < items.len() && !(#[trigger] items[k]).separator
            ==> widest_upto(label_segs(items), items.len() as int) >= items[k].label@.len()
                && widest_upto(chord_segs(items), items.len() as int) >= items[k].chord@.len(),
        widest_upto(label_segs(items), items.len() as int) == 0 || exists|k: int| 0 <= k < items.len()
            && !(#[trigger] items[k]).separator && widest_upto(label_segs(items), items.len() as int) == items[k].label@.len(),
        widest_upto(chord_segs(items), items.len() as int) == 0 || exists|k: int| 0 <= k < items.len()
            && !(#[trigger] items[k]).separator && widest_upto(chord_segs(items), items.len() as int) == items[k].chord@.len(),
{
    let n = items.len() as int;
    let ls = label_segs(items);
    let cs = chord_segs(items);
    lemma_widest(ls, n);
    lemma_widest(cs, n);
    assert forall|k: int| 0 <= k < items.len() && !(#[trigger] items[k]).separator
        implies widest_upto(ls, n) >= items[k].label@.len() && widest_upto(cs, n) >= items[k].chord@.len() by {
        assert(ls[k] == items[k].label@);
        assert(cs[k] == items[k].chord@);
    }
    if widest_upto(ls, n) != 0 {
        let k = choose|k: int| 0 <= k < n && widest_upto(ls, n) == (#[trigger] ls[k]).len();
        assert(ls[k] == label_seg(items[k]));
        assert(!items[k].separator);
    }
    if widest_upto(cs, n) != 0 {
        let k = choose|k: int| 0 <= k < n && widest_upto(cs, n) == (#[trigger] cs[k]).len();
        assert(cs[k] == chord_seg(items[k]));
        assert(!items[k].separator);
    }
}

} // verus!
