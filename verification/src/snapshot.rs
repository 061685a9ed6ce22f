//! Pixel witnesses over read-back RGBA frames: how many pixels two
//! snapshots disagree on.
use vstd::prelude::*;

verus! {

/// A read-back RGBA frame: its size in pixels and its channel samples,
/// row-major, four per pixel.
#[derive(Debug)]
pub struct RgbaFrame {
    pub width: u32,
    pub height: u32,
    pub samples: Vec<u8>,
}

impl RgbaFrame {
    /// The pixel count the frame's size names.
    pub open spec fn pixel_count(&self) -> int {
        (self.width as int) * (self.height as int)
    }

    /// The sample buffer holds every pixel the size names.
    pub open spec fn wf(&self) -> bool {
        self.samples@.len() >= 4 * self.pixel_count()
    }
}

/// Pixel `k` of a sample buffer equals pixel `k` of another.
pub open spec fn same_pixel(a: Seq<u8>, b: Seq<u8>, k: int) -> bool {
    a[4 * k] == b[4 * k] && a[4 * k + 1] == b[4 * k + 1] && a[4 * k + 2] == b[4 * k + 2] && a[4 * k + 3] == b[4 * k + 3]
}

/// How many of the first `n` pixels of two sample buffers differ.
pub open spec fn count_differing(a: Seq<u8>, b: Seq<u8>, n: int) -> int
    decreases n,
{
    if n <= 0 {
        0
    } else {
        count_differing(a, b, n - 1) + if same_pixel(a, b, n - 1) { 0int } else { 1int }
    }
}

/// Count the pixels two snapshots differ on, pairing their pixels in order
/// until the smaller frame's pixels run out.
pub fn differing_pixels(a: &RgbaFrame, b: &RgbaFrame) -> (n: u64)
    requires
        a.wf(),
        b.wf(),
    ensures
        n as int == count_differing(a.samples@, b.samples@,
            if a.pixel_count() < b.pixel_count() { a.pixel_count() } else { b.pixel_count() }),
{
    let la = a.samples.len();
    let lb = b.samples.len();
    let wa = a.width as usize;
    let ha = a.height as usize;
    let wb = b.width as usize;
    let hb = b.height as usize;
    proof {
        assert((wa as int) * (ha as int) <= 4 * ((wa as int) * (ha as int))) by (nonlinear_arith);
        assert((wb as int) * (hb as int) <= 4 * ((wb as int) * (hb as int))) by (nonlinear_arith);
    }
    let pa: usize = wa * ha;
    let pb: usize = wb * hb;
    let n: usize = if pa < pb { pa } else { pb };
    let mut count: u64 = 0;
    let mut k: usize = 0;
    while k < n
        invariant
            n as int == (if a.pixel_count() < b.pixel_count() { a.pixel_count() } else { b.pixel_count() }),
            la == a.samples@.len(),
            lb == b.samples@.len(),
            4 * n <= a.samples@.len(),
            4 * n <= b.samples@.len(),
            k <= n,
            count as int == count_differing(a.samples@, b.samples@, k as int),
            count <= k,
        decreases n - k,
    {
        let i = 4 * k;
        let same = a.samples[i] == b.samples[i] && a.samples[i + 1] == b.samples[i + 1]
            && a.samples[i + 2] == b.samples[i + 2] && a.samples[i + 3] == b.samples[i + 3];
        if !same {
            count = count + 1;
        }
        k = k + 1;
    }
    count
}

} // verus!

verus! {

/// A frame differs from itself nowhere, and two frames never differ on more
/// pixels than they pair up.
pub proof fn law_differing_pixels_is_a_bounded_distance(a: Seq<u8>, b: Seq<u8>, n: int)
    requires
        n >= 0,
    ensures
        count_differing(a, a, n) == 0,
        0 <= count_differing(a, b, n) <= n,
        count_differing(a, b, n) == count_differing(b, a, n),
    decreases n,
{
    if n > 0 {
        law_differing_pixels_is_a_bounded_distance(a, b, n - 1);
    }
}

} // verus!

verus! {

/// Two frames differ on a pixel exactly when any of its four samples differ:
/// counting one more pixel adds one precisely when that pixel's RGBA samples
/// are not all equal, and nothing is counted before the first pixel.
pub proof fn law_a_pixel_differs_when_any_channel_does(a: Seq<u8>, b: Seq<u8>, n: int)
    requires
        0 <= n,
        4 * n <= a.len(),
        4 * n <= b.len(),
    ensures
        count_differing(a, b, 0) == 0,
        forall|k: int| 0 <= k < n ==> #[trigger] count_differing(a, b, k + 1) == count_differing(a, b, k)
            + if a.subrange(4 * k, 4 * k + 4) == b.subrange(4 * k, 4 * k + 4) { 0int } else { 1int },
        (exists|k: int| 0 <= k < n && #[trigger] a.subrange(4 * k, 4 * k + 4) != b.subrange(4 * k, 4 * k + 4))
            ==> count_differing(a, b, n) >= 1,
    decreases n,
{
    assert forall|k: int| 0 <= k < n implies #[trigger] count_differing(a, b, k + 1) == count_differing(a, b, k)
        + if a.subrange(4 * k, 4 * k + 4) == b.subrange(4 * k, 4 * k + 4) { 0int } else { 1int } by {
        let sa = a.subrange(4 * k, 4 * k + 4);
        let sb = b.subrange(4 * k, 4 * k + 4);
        if same_pixel(a, b, k) {
            assert(sa =~= sb);
        } else {
            if sa == sb {
                assert(sa[0] == sb[0] && sa[1] == sb[1] && sa[2] == sb[2] && sa[3] == sb[3]);
            }
        }
    }
    if exists|k: int| 0 <= k < n && #[trigger] a.subrange(4 * k, 4 * k + 4) != b.subrange(4 * k, 4 * k + 4) {
        let k = choose|k: int| 0 <= k < n && #[trigger] a.subrange(4 * k, 4 * k + 4) != b.subrange(4 * k, 4 * k + 4);
        lemma_count_differing_grows(a, b, k + 1, n);
        law_differing_pixels_is_a_bounded_distance(a, b, k);
    }
}

/// The count never shrinks as more pixels are paired.
proof fn lemma_count_differing_grows(a: Seq<u8>, b: Seq<u8>, m: int, n: int)
    requires
        0 <= m <= n,
    ensures
        count_differing(a, b, m) <= count_differing(a, b, n),
    decreases n - m,
{
    if m < n {
        lemma_count_differing_grows(a, b, m, n - 1);
    }
}

} // verus!
