//! Character-level helpers over `str`/`String`: collecting a text's chars,
//! UTF-8 byte offsets, and building strings char by char.
use vstd::prelude::*;
use vstd::utf8::*;

verus! {

broadcast use vstd::string::group_string_axioms;

/// Every char of `text`, in order.
pub fn chars_of(text: &str) -> (v: Vec<char>)
    ensures
        v@ == text@,
{
    let mut v: Vec<char> = Vec::new();
    for c in it: text.chars()
        invariant
            it.seq() == text@,
            v@ == it.seq().take(it.index()),
    {
        v.push(c);
    }
    v
}

} // verus!

verus! {

/// The number of bytes `c` occupies in UTF-8.
pub fn utf8_width(c: char) -> (w: usize)
    ensures
        w as int == encode_scalar(c as u32).len(),
        1 <= w <= 4,
{
    proof {
        char_is_scalar(c);
    }
    let v = c as u32;
    if v < 0x80 {
        1
    } else if v < 0x800 {
        2
    } else if v < 0x10000 {
        3
    } else {
        4
    }
}

/// UTF-8 encoding distributes over appending one char.
pub proof fn lemma_encode_utf8_push(s: Seq<char>, c: char)
    ensures
        encode_utf8(s.push(c)) == encode_utf8(s) + encode_scalar(c as u32),
    decreases s.len(),
{
    if s.len() == 0 {
        assert(s.push(c).drop_first() =~= Seq::<char>::empty());
        assert(encode_utf8(Seq::<char>::empty()) =~= Seq::<u8>::empty());
        assert(encode_utf8(s) =~= Seq::<u8>::empty());
        assert(encode_utf8(s.push(c)) =~= encode_scalar(c as u32) + Seq::<u8>::empty());
    } else {
        assert(s.push(c).drop_first() =~= s.drop_first().push(c));
        lemma_encode_utf8_push(s.drop_first(), c);
        assert(encode_utf8(s.push(c)) =~= encode_scalar(s[0] as u32) + encode_utf8(s.drop_first().push(c)));
        assert(encode_utf8(s.push(c)) =~= encode_utf8(s) + encode_scalar(c as u32));
    }
}

/// The byte offset of char index `n` in `text`: the UTF-8 length of its first
/// `n` chars, or the whole text's length when `n` is past its end.
pub open spec fn byte_offset(text: Seq<char>, n: int) -> int {
    encode_utf8(text.take(if n < text.len() { n } else { text.len() as int })).len() as int
}

/// The byte offset of char index `n` in `chars`, the chars of some `str`.
pub fn byte_offset_of(chars: &Vec<char>, n: usize) -> (b: usize)
    requires
        encode_utf8(chars@).len() <= usize::MAX,
    ensures
        b as int == byte_offset(chars@, n as int),
{
    let end = if n < chars.len() { n } else { chars.len() };
    let mut b: usize = 0;
    let mut i: usize = 0;
    while i < end
        invariant
            end <= chars.len(),
            i <= end,
            encode_utf8(chars@).len() <= usize::MAX,
            b as int == encode_utf8(chars@.take(i as int)).len(),
        decreases end - i,
    {
        proof {
            assert(chars@.take(i + 1) =~= chars@.take(i as int).push(chars@[i as int]));
            lemma_encode_utf8_push(chars@.take(i as int), chars@[i as int]);
            lemma_encode_utf8_prefix_le(chars@, i + 1);
        }
        b = b + utf8_width(chars[i]);
        i = i + 1;
    }
    b
}

/// A prefix never encodes to more bytes than the whole.
pub proof fn lemma_encode_utf8_prefix_le(s: Seq<char>, k: int)
    requires
        0 <= k <= s.len(),
    ensures
        encode_utf8(s.take(k)).len() <= encode_utf8(s).len(),
    decreases s.len() - k,
{
    if k < s.len() {
        assert(s.take(k + 1) =~= s.take(k).push(s[k]));
        lemma_encode_utf8_push(s.take(k), s[k]);
        lemma_encode_utf8_prefix_le(s, k + 1);
    } else {
        assert(s.take(k) =~= s);
    }
}

} // verus!

verus! {

/// Any text's UTF-8 encoding fits in memory.
pub fn text_len_fits(text: &str)
    ensures
        encode_utf8(text@).len() <= usize::MAX,
{
    let bytes = text.as_bytes();
    let n = bytes.len();
    assert(bytes@.len() <= usize::MAX);
}

} // verus!

verus! {

/// `String::push`, which std documents as appending the given char to the end
/// of the string.
pub assume_specification[ String::push ](s: &mut String, ch: char)
    ensures
        final(s)@ == old(s)@.push(ch),
;

/// A string made of exactly the chars of `v`.
pub fn string_of(v: &Vec<char>) -> (s: String)
    ensures
        s@ == v@,
{
    let mut s = String::new();
    for i in 0..v.len()
        invariant
            s@ == v@.take(i as int),
    {
        s.push(v[i]);
        assert(v@.take(i + 1) =~= v@.take(i as int).push(v@[i as int]));
    }
    assert(v@.take(v.len() as int) =~= v@);
    s
}

} // verus!

verus! {

/// The decimal digit char for `d < 10`.
pub open spec fn digit_char(d: int) -> char {
    (('0' as u32) + d) as char
}

/// The decimal representation of `n`, most significant digit first, no
/// leading zeros (`"0"` for zero).
pub open spec fn decimal(n: nat) -> Seq<char>
    decreases n,
{
    if n < 10 {
        seq![digit_char(n as int)]
    } else {
        decimal(n / 10).push(digit_char((n % 10) as int))
    }
}

/// The decimal digit char for `d < 10`.
pub fn digit(d: u64) -> (c: char)
    requires
        d < 10,
    ensures
        c == digit_char(d as int),
{
    match d {
        0 => '0',
        1 => '1',
        2 => '2',
        3 => '3',
        4 => '4',
        5 => '5',
        6 => '6',
        7 => '7',
        8 => '8',
        _ => '9',
    }
}

/// Append the decimal representation of `n` to `s`.
pub fn push_decimal(s: &mut String, n: u64)
    ensures
        final(s)@ == old(s)@ + decimal(n as nat),
    decreases n,
{
    if n >= 10 {
        push_decimal(s, n / 10);
    }
    s.push(digit(n % 10));
    proof {
        if n >= 10 {
            assert(old(s)@ + decimal(n as nat) =~= (old(s)@ + decimal((n / 10) as nat)).push(digit_char((n % 10) as int)));
        } else {
            assert(old(s)@ + decimal(n as nat) =~= old(s)@.push(digit_char(n as int)));
        }
    }
}

} // verus!
