//! The frost's extent policy that is integer arithmetic and a roster
//! question: which list compositions frost their own footprint, and how large
//! the document capture the blur reads is allowed to be.
use vstd::prelude::*;

verus! {

/// Downsample factor of the blur at 1x: the blur runs at 1/N resolution on
/// each axis.
pub const DOWNSAMPLE: u32 = 4;

/// Cap for the document-capture texture's LARGEST dimension, in physical px.
pub const DOC_CAPTURE_MAX: u32 = 3200;

/// How a list composition backs its candidate rows.
#[derive(Clone, Copy, PartialEq, Eq, Debug, Structural)]
pub enum ListBacking {
    /// A filled surface covers the rows: the card's panel, or an opaque plate
    /// under each row.
    Card,
    /// Nothing is drawn under the rows; the document shows between them.
    Bare,
}

/// A world's list composition for the summoned pickers.
#[derive(Clone, Copy, PartialEq, Eq, Debug, Structural)]
pub enum ListStyle {
    /// One filled panel behind the whole list.
    Pane,
    /// An opaque plate under each row.
    Bars,
    /// Rows separated by rules, on the bare ground.
    Ruled,
    /// Rows hung on a diagonal spine, on the bare ground.
    Diagonal,
}

/// What backs a composition's rows (see [`ListStyle::list_backing`]).
pub open spec fn backing_of(style: ListStyle, spell: bool) -> ListBacking {
    if spell || style == ListStyle::Pane || style == ListStyle::Bars {
        ListBacking::Card
    } else {
        ListBacking::Bare
    }
}

impl ListStyle {
    /// Does this composition plate its own rows?
    pub fn draws_row_plates(self) -> (b: bool)
        ensures
            b == (self == ListStyle::Bars),
    {
        match self {
            ListStyle::Bars => true,
            _ => false,
        }
    }

    /// What backs the rows. The contextual spell popup (`spell`) is always a
    /// small card of its own.
    pub fn list_backing(self, spell: bool) -> (b: ListBacking)
        ensures
            b == backing_of(self, spell),
    {
        if spell {
            return ListBacking::Card;
        }
        match self {
            ListStyle::Pane | ListStyle::Bars => ListBacking::Card,
            ListStyle::Ruled | ListStyle::Diagonal => ListBacking::Bare,
        }
    }
}

/// Does a CRISP picker over this list composition need its own footprint
/// frosted? Exactly when the composition puts no card surface under its rows
/// — asked of the roster's own backing owner, never of a named world.
pub fn footprint_frost_applies(style: ListStyle) -> (b: bool)
    ensures
        b == (backing_of(style, false) != ListBacking::Card),
        b == (style == ListStyle::Ruled || style == ListStyle::Diagonal),
{
    match style.list_backing(false) {
        ListBacking::Card => false,
        ListBacking::Bare => true,
    }
}

/// `x * num / den` rounded to the nearest integer, halves away from zero.
pub open spec fn scaled_round(x: int, num: int, den: int) -> int {
    (2 * x * num + den) / (2 * den)
}

/// The doc-capture texture size `capped_doc_size` returns.
pub open spec fn spec_capped_doc_size(w: int, h: int, ds: int) -> (int, int) {
    let maxd = if w < h { h } else { w };
    if maxd <= DOC_CAPTURE_MAX || maxd == 0 {
        (w, h)
    } else {
        let d = if ds < 1 { 1 } else { ds };
        let cw0 = scaled_round(w, DOC_CAPTURE_MAX as int, maxd);
        let ch0 = scaled_round(h, DOC_CAPTURE_MAX as int, maxd);
        let cw1 = if cw0 < w / d { w / d } else { cw0 };
        let ch1 = if ch0 < h / d { h / d } else { ch0 };
        (if cw1 < 1 { 1 } else { cw1 }, if ch1 < 1 { 1 } else { ch1 })
    }
}

/// The doc-capture texture size for a `width`x`height` surface blurred at
/// downsample `ds`: unchanged at or below [`DOC_CAPTURE_MAX`]; above it, both
/// sides scaled by the same factor so the longest side becomes the cap
/// (rounded to the nearest px), never below the quarter-res working size
/// `side / ds`, and never zero.
pub fn capped_doc_size(width: u32, height: u32, ds: u32) -> (r: (u32, u32))
    ensures
        r.0 as int == spec_capped_doc_size(width as int, height as int, ds as int).0,
        r.1 as int == spec_capped_doc_size(width as int, height as int, ds as int).1,
{
    let maxd = if width < height { height } else { width };
    if maxd <= DOC_CAPTURE_MAX || maxd == 0 {
        return (width, height);
    }
    let d = if ds < 1 { 1 } else { ds };
    let cw = scale_side(width, maxd, d);
    let ch = scale_side(height, maxd, d);
    (cw, ch)
}

/// One side of the capped capture.
fn scale_side(side: u32, maxd: u32, d: u32) -> (r: u32)
    requires
        maxd > DOC_CAPTURE_MAX,
        side <= maxd,
        d >= 1,
    ensures
        r as int == ({
            let c0 = scaled_round(side as int, DOC_CAPTURE_MAX as int, maxd as int);
            let c1 = if c0 < side / d { (side / d) as int } else { c0 };
            if c1 < 1 { 1int } else { c1 }
        }),
{
    proof {
        assert(2 * (side as u64) * (DOC_CAPTURE_MAX as u64) <= 2 * 0xffff_ffffu64 * 3200) by (nonlinear_arith)
            requires
                side <= 0xffff_ffffu32;
    }
    let num: u64 = 2 * (side as u64) * (DOC_CAPTURE_MAX as u64) + (maxd as u64);
    let den: u64 = 2 * (maxd as u64);
    let c0: u64 = num / den;
    proof {
        assert(num <= 2 * (maxd as u64) * (DOC_CAPTURE_MAX as u64) + (maxd as u64)) by (nonlinear_arith)
            requires
                side <= maxd,
                num == 2 * (side as u64) * (DOC_CAPTURE_MAX as u64) + (maxd as u64);
        assert(c0 <= DOC_CAPTURE_MAX as u64 + 1) by (nonlinear_arith)
            requires
                c0 == num / den,
                den == 2 * (maxd as u64),
                maxd > 0,
                num <= 2 * (maxd as u64) * (DOC_CAPTURE_MAX as u64) + (maxd as u64);
    }
    let lo = side / d;
    let c1: u64 = if c0 < lo as u64 { lo as u64 } else { c0 };
    let c = if c1 < 1 { 1 } else { c1 };
    c as u32
}

} // verus!

verus! {

/// At or below the cap the capture is the surface itself.
pub proof fn law_capture_is_the_surface_at_or_below_the_cap(w: u32, h: u32, ds: u32)
    requires
        w <= DOC_CAPTURE_MAX,
        h <= DOC_CAPTURE_MAX,
    ensures
        spec_capped_doc_size(w as int, h as int, ds as int) == (w as int, h as int),
{
}

/// The capture is never empty on a non-empty surface and never smaller than
/// the blur's downsampled working size, so the downsample stays a downsample.
pub proof fn law_capture_never_drops_below_the_working_size(w: u32, h: u32, ds: u32)
    requires
        w > 0,
        h > 0,
        ds >= 1,
    ensures
        spec_capped_doc_size(w as int, h as int, ds as int).0 >= 1,
        spec_capped_doc_size(w as int, h as int, ds as int).1 >= 1,
        spec_capped_doc_size(w as int, h as int, ds as int).0 >= w / ds,
        spec_capped_doc_size(w as int, h as int, ds as int).1 >= h / ds,
{
    assert(w / ds <= w) by (nonlinear_arith)
        requires
            ds >= 1;
    assert(h / ds <= h) by (nonlinear_arith)
        requires
            ds >= 1;
}

/// Above the cap, with a downsample deep enough that the working size fits
/// under the cap, the longest side lands exactly on the cap, whichever side
/// of the surface is the longer.
pub proof fn law_capture_longest_side_is_the_cap(w: u32, h: u32, ds: u32)
    requires
        (if w >= h { w } else { h }) > DOC_CAPTURE_MAX,
        ds >= 1,
        (if w >= h { w } else { h }) / ds <= DOC_CAPTURE_MAX,
    ensures
        w >= h ==> spec_capped_doc_size(w as int, h as int, ds as int).0 == DOC_CAPTURE_MAX,
        h >= w ==> spec_capped_doc_size(w as int, h as int, ds as int).1 == DOC_CAPTURE_MAX,
{
    if w >= h {
        assert(scaled_round(w as int, DOC_CAPTURE_MAX as int, w as int) == DOC_CAPTURE_MAX) by (nonlinear_arith)
            requires
                w > 0;
    }
    if h >= w {
        assert(scaled_round(h as int, DOC_CAPTURE_MAX as int, h as int) == DOC_CAPTURE_MAX) by (nonlinear_arith)
            requires
                h > 0;
    }
}

} // verus!
