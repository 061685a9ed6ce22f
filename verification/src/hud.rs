//! The live-only figures the summoned cards show, as the running app last
//! pushed them into the pipeline, and the reports the pipeline gives back.
use vstd::prelude::*;

verus! {

/// The lifetime odometer's counters.
#[derive(Clone, Copy, PartialEq, Eq, Debug, Structural)]
pub struct HudStats {
    pub chars: u64,
    pub writing_secs: u64,
    pub files: u64,
    pub caret_travel: u64,
}

/// When the document was last saved, as the HUD reports it.
#[derive(Clone, Copy, PartialEq, Eq, Debug, Structural)]
pub struct HudSaved {
    pub dirty: bool,
    pub secs_ago: u64,
}

/// The outcome of the last update check.
#[derive(Clone, Copy, PartialEq, Eq, Debug, Structural)]
pub enum UpdateChecked {
    Current,
    Available,
}

/// The document's line ending.
#[derive(Clone, Copy, PartialEq, Eq, Debug, Structural)]
pub enum Eol {
    Lf,
    Crlf,
}

/// A document's declared language.
#[derive(Debug)]
pub struct Lang {
    pub tag: String,
}

/// Which page of the streaks card is showing.
#[derive(Clone, Copy, PartialEq, Eq, Debug, Structural)]
pub enum CardView {
    Heatmap,
    Cumulative,
}

impl CardView {
    /// The page's name, as the report carries it.
    pub fn label(self) -> (s: &'static str)
        ensures
            s@ == (if self == CardView::Heatmap { "heatmap"@ } else { "cumulative"@ }),
    {
        match self {
            CardView::Heatmap => "heatmap",
            CardView::Cumulative => "cumulative",
        }
    }
}

/// The writing streaks: the current streak, today's words, the cumulative
/// word count per day (oldest first) and the heatmap's cells.
#[derive(Debug)]
pub struct StreaksView {
    pub streak: u64,
    pub today_words: u64,
    pub cumulative: Vec<u64>,
    pub cells: Vec<u8>,
}

impl StreaksView {
    /// The two views carry the same figures.
    pub open spec fn same_as(self, other: StreaksView) -> bool {
        &&& self.streak == other.streak
        &&& self.today_words == other.today_words
        &&& self.cumulative@ == other.cumulative@
        &&& self.cells@ == other.cells@
    }
}

impl Clone for StreaksView {
    fn clone(&self) -> (r: Self)
        ensures
            r.same_as(*self),
    {
        let r = StreaksView {
            streak: self.streak,
            today_words: self.today_words,
            cumulative: self.cumulative.clone(),
            cells: self.cells.clone(),
        };
        assert(r.cumulative@ =~= self.cumulative@);
        assert(r.cells@ =~= self.cells@);
        r
    }
}

/// One row of the hold-to-peek card: a chord and what it does.
#[derive(Debug)]
pub struct PeekRow {
    pub keys: String,
    pub action: String,
}

impl Clone for PeekRow {
    fn clone(&self) -> (r: Self)
        ensures
            r == *self,
    {
        PeekRow { keys: self.keys.clone(), action: self.action.clone() }
    }
}

/// An identical copy of a list of peek rows.
pub fn copy_rows(rows: &Vec<PeekRow>) -> (r: Vec<PeekRow>)
    ensures
        r@ == rows@,
{
    let r = rows.clone();
    assert(r@ =~= rows@);
    r
}

/// The live-only card figures as they were last pushed in.
#[derive(Debug)]
pub struct CardLive {
    pub stats: Option<HudStats>,
    pub streaks: Option<StreaksView>,
    pub saved: Option<HudSaved>,
    pub peek_rows: Vec<PeekRow>,
    pub update_checked: Option<UpdateChecked>,
    pub pending_crash: bool,
}

/// Everything a summoned card can say this frame.
#[derive(Debug)]
pub struct CardInputs {
    pub hud_held: bool,
    pub peek_shown: bool,
    pub stats: Option<HudStats>,
    pub streaks: Option<StreaksView>,
    pub streaks_page: CardView,
    pub saved: Option<HudSaved>,
    pub words: String,
    pub lang: Option<Lang>,
    pub percent: u32,
    pub eol: Eol,
    pub peek_rows: Vec<PeekRow>,
    pub update_checked: Option<UpdateChecked>,
    pub pending_crash: bool,
}

/// The held HUD's report.
#[derive(Debug)]
pub struct HudReport {
    pub held: bool,
    pub words: Option<(usize, usize)>,
    pub percent: u32,
    pub lang: Option<Lang>,
    pub eol: Eol,
    pub saved: String,
}

/// The lifetime card's report: each odometer value as drawn.
#[derive(Debug)]
pub struct LifetimeReport {
    pub open: bool,
    pub chars: String,
    pub writing: String,
    pub files: String,
    pub caret_travel: String,
    pub world: String,
}

/// The hold-to-peek card's report.
#[derive(Debug)]
pub struct PeekReport {
    pub open: bool,
    pub rows: Vec<PeekRow>,
}

/// The streaks card's report.
#[derive(Debug)]
pub struct StreaksReport {
    pub open: bool,
    pub view: &'static str,
    pub streak: u64,
    pub today_words: u64,
    pub total_words: u64,
    pub cells: Vec<u8>,
}

} // verus!

verus! {

impl StreaksView {
    /// The view a card shows before any streak history was pushed: no streak,
    /// no words, no days.
    pub fn placeholder() -> (v: StreaksView)
        ensures
            v.streak == 0,
            v.today_words == 0,
            v.cumulative@.len() == 0,
            v.cells@.len() == 0,
    {
        StreaksView { streak: 0, today_words: 0, cumulative: Vec::new(), cells: Vec::new() }
    }
}

} // verus!
