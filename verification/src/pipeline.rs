//! The renderer's state that its chrome decisions read — the document's
//! lines and caret, the summoned overlay's flags, the margin outline's
//! headings, the identity block's hover, and the live card figures the app
//! pushes in — and the decisions themselves.
use vstd::prelude::*;
use vstd::string::{StrSliceExecFns, StringExecFns};
use crate::gutter::GutterStackHit;
use crate::hud::{copy_rows, CardInputs, CardLive, CardView, Eol, HudReport, HudSaved, HudStats, Lang, PeekReport, PeekRow, StreaksReport, StreaksView, UpdateChecked};
use crate::outline::{ancestor_chain, is_ancestor, is_top_level, spec_is_top_level, Heading};
use crate::outline_plan::{plan_outline_rows, spec_outline_plan, FoldTail, OutlinePlanRow};
use crate::window::{scroll_window, spec_scroll_window};

verus! {

/// Where the search panel's pointer landed.
#[derive(Clone, Copy, PartialEq, Eq, Debug, Structural)]
pub enum PanelHit {
    CaseToggle,
    Find,
    Replace,
    Elsewhere,
}

/// How an open overlay is seated.
#[derive(Clone, Copy, PartialEq, Eq, Debug, Structural)]
pub enum OverlaySeat {
    /// A summoned card over the whole canvas.
    Card,
    /// A menu anchored at the pointer.
    Pointer,
    /// The contextual spell popup at a word.
    Word,
}

/// The user's own document as recorded past a fold or a history preview
/// that substituted what is shaped: its text, caret and selection.
#[derive(Debug)]
pub struct DocSource {
    pub text: String,
    pub cursor_line: usize,
    pub cursor_col: usize,
    pub selection: Option<((usize, usize), (usize, usize))>,
}

/// The renderer's chrome state.
pub struct TextPipeline {
    /// The shaped document's lines, without their terminators.
    pub lines: Vec<String>,
    pub cursor_line: usize,
    pub cursor_col: usize,
    pub selection: Option<((usize, usize), (usize, usize))>,
    /// The user's own document when something else is shaped in its place.
    pub doc_source: Option<DocSource>,
    pub eol: Eol,
    /// The document's headings, in document order.
    pub outline_headings: Vec<Heading>,
    /// The buffer is markdown (the outline shows only for markdown).
    pub md_enabled: bool,
    /// The folded sections' tails.
    pub fold_tails: Vec<FoldTail>,
    /// The calm notice's sentence.
    pub notice: String,
    pub overlay_active: bool,
    /// The open overlay keeps the backdrop crisp (the theme and caret pickers).
    pub overlay_crisp: bool,
    pub overlay_seat: OverlaySeat,
    /// The open workspace carries read-only comparison prose.
    pub overlay_comparison: bool,
    /// The open workspace puts its own rows in the primary column.
    pub overlay_rows_primary: bool,
    /// The open overlay is a summoned workspace.
    pub overlay_workspace: bool,
    pub overlay_window_rows: usize,
    pub overlay_selected: usize,
    pub overlay_scroll: usize,
    /// The working-set row under the live pointer.
    pub gutter_stack_hover: Option<GutterStackHit>,
    /// Whether the peek card is open.
    pub peek_open: bool,
    /// The rows the peek card shows before any were pushed.
    pub peek_starter_rows: Vec<PeekRow>,
    /// Whether the streaks card is open, and which page it shows.
    pub streaks_open: bool,
    pub streaks_page: CardView,
    /// The live card figures the app last pushed.
    pub hud_stats: Option<HudStats>,
    pub streaks_view: Option<StreaksView>,
    pub hud_saved: Option<HudSaved>,
    pub hud_update_checked: Option<UpdateChecked>,
    pub hud_pending_crash: bool,
    pub peek_rows: Vec<PeekRow>,
    pub keybindings_tips: Vec<String>,
    /// The open list's right-aligned columns: key bindings, times, git states.
    pub overlay_bindings: Vec<String>,
    pub overlay_times: Vec<String>,
    pub overlay_git: Vec<String>,
}

impl TextPipeline {
    /// No live card figures have been pushed yet.
    pub open spec fn live_unset(&self) -> bool {
        &&& self.hud_stats is None
        &&& self.streaks_view is None
        &&& self.hud_saved is None
        &&& self.hud_update_checked is None
        &&& !self.hud_pending_crash
        &&& self.peek_rows@.len() == 0
        &&& self.keybindings_tips@.len() == 0
    }

    /// An empty document with no overlay, no outline and nothing pushed.
    pub fn new() -> (p: TextPipeline)
        ensures
            p.lines@.len() == 0,
            p.cursor_line == 0,
            p.cursor_col == 0,
            p.selection is None,
            p.doc_source is None,
            p.outline_headings@.len() == 0,
            p.eol == Eol::Lf,
            !p.md_enabled,
            p.fold_tails@.len() == 0,
            p.notice@.len() == 0,
            !p.overlay_active,
            !p.overlay_crisp,
            p.overlay_seat == OverlaySeat::Card,
            !p.overlay_comparison,
            !p.overlay_rows_primary,
            !p.overlay_workspace,
            p.overlay_window_rows == 0,
            p.overlay_selected == 0,
            p.overlay_scroll == 0,
            p.gutter_stack_hover is None,
            !p.peek_open,
            p.peek_starter_rows@.len() == 0,
            !p.streaks_open,
            p.streaks_page == CardView::Heatmap,
            p.live_unset(),
            p.overlay_bindings@.len() == 0,
            p.overlay_times@.len() == 0,
            p.overlay_git@.len() == 0,
    {
        TextPipeline {
            lines: Vec::new(),
            cursor_line: 0,
            cursor_col: 0,
            selection: None,
            doc_source: None,
            eol: Eol::Lf,
            outline_headings: Vec::new(),
            md_enabled: false,
            fold_tails: Vec::new(),
            notice: String::new(),
            overlay_active: false,
            overlay_crisp: false,
            overlay_seat: OverlaySeat::Card,
            overlay_comparison: false,
            overlay_rows_primary: false,
            overlay_workspace: false,
            overlay_window_rows: 0,
            overlay_selected: 0,
            overlay_scroll: 0,
            gutter_stack_hover: None,
            peek_open: false,
            peek_starter_rows: Vec::new(),
            streaks_open: false,
            streaks_page: CardView::Heatmap,
            hud_stats: None,
            streaks_view: None,
            hud_saved: None,
            hud_update_checked: None,
            hud_pending_crash: false,
            peek_rows: Vec::new(),
            keybindings_tips: Vec::new(),
            overlay_bindings: Vec::new(),
            overlay_times: Vec::new(),
            overlay_git: Vec::new(),
        }
    }

    /// Record the lifetime odometer's counters.
    pub fn set_hud_stats(&mut self, stats: Option<HudStats>)
        ensures
            *final(self) == (TextPipeline { hud_stats: stats, ..*old(self) }),
    {
        self.hud_stats = stats;
    }

    /// Record the writing streaks.
    pub fn set_streaks(&mut self, view: Option<StreaksView>)
        ensures
            *final(self) == (TextPipeline { streaks_view: view, ..*old(self) }),
    {
        self.streaks_view = view;
    }

    /// Record the save state.
    pub fn set_hud_saved(&mut self, state: Option<HudSaved>)
        ensures
            *final(self) == (TextPipeline { hud_saved: state, ..*old(self) }),
    {
        self.hud_saved = state;
    }

    /// Record the last update check's outcome.
    pub fn set_update_checked(&mut self, state: Option<UpdateChecked>)
        ensures
            *final(self) == (TextPipeline { hud_update_checked: state, ..*old(self) }),
    {
        self.hud_update_checked = state;
    }

    /// The last update check's outcome, as last recorded.
    pub fn hud_update_checked(&self) -> (r: Option<UpdateChecked>)
        ensures
            r == self.hud_update_checked,
    {
        self.hud_update_checked
    }

    /// Record whether a crash report is waiting.
    pub fn set_pending_crash(&mut self, pending: bool)
        ensures
            *final(self) == (TextPipeline { hud_pending_crash: pending, ..*old(self) }),
    {
        self.hud_pending_crash = pending;
    }

    /// Whether a crash report is waiting, as last recorded.
    pub fn hud_pending_crash(&self) -> (b: bool)
        ensures
            b == self.hud_pending_crash,
    {
        self.hud_pending_crash
    }

    /// Record the peek card's rows.
    pub fn set_peek_rows(&mut self, rows: Vec<PeekRow>)
        ensures
            *final(self) == (TextPipeline { peek_rows: rows, ..*old(self) }),
    {
        self.peek_rows = rows;
    }

    /// Record the keybindings overlay's footer tips.
    pub fn set_keybindings_tips(&mut self, tips: Vec<String>)
        ensures
            *final(self) == (TextPipeline { keybindings_tips: tips, ..*old(self) }),
    {
        self.keybindings_tips = tips;
    }
}


/// `lines` joined by `\n`.
pub open spec fn join_lines(lines: Seq<Seq<char>>) -> Seq<char>
    decreases lines.len(),
{
    if lines.len() == 0 {
        Seq::empty()
    } else if lines.len() == 1 {
        lines[0]
    } else {
        join_lines(lines.drop_last()) + seq!['\n'] + lines.last()
    }
}

/// The views of a list of strings.
pub open spec fn views(v: Seq<String>) -> Seq<Seq<char>> {
    Seq::new(v.len(), |i: int| v[i]@)
}

/// The index of the heading the caret at `line` sits under: the last heading
/// that starts at or above it.
pub open spec fn spec_outline_current(hs: Seq<Heading>, line: int) -> Option<int>
    decreases hs.len(),
{
    if hs.len() == 0 {
        None
    } else if hs.last().line <= line {
        Some(hs.len() - 1)
    } else {
        spec_outline_current(hs.drop_last(), line)
    }
}

/// The total char count of `lines`.
pub open spec fn chars_total(lines: Seq<Seq<char>>) -> int
    decreases lines.len(),
{
    if lines.len() == 0 {
        0
    } else {
        chars_total(lines.drop_last()) + lines.last().len()
    }
}

/// The caret's char offset into the joined text: every line before
/// `cursor_line` with its newline, then `cursor_col`.
pub open spec fn caret_offset(lines: Seq<Seq<char>>, cursor_line: int, cursor_col: int) -> int {
    let before = if cursor_line < lines.len() { cursor_line } else { lines.len() as int };
    chars_total(lines.take(before)) + before + cursor_col
}

/// How far through the document the caret sits, in percent rounded to the
/// nearest integer (halves up): the caret's char offset (capped at the end)
/// over the document's chars plus its inter-line newlines; `0` for an empty
/// document.
pub open spec fn spec_hud_percent(lines: Seq<Seq<char>>, cursor_line: int, cursor_col: int) -> int {
    let denom = chars_total(lines) + if lines.len() > 1 { lines.len() - 1 } else { 0 };
    if denom == 0 {
        0
    } else {
        let off = caret_offset(lines, cursor_line, cursor_col);
        let m = if off < denom { off } else { denom };
        (200 * m + denom) / (2 * denom)
    }
}

impl TextPipeline {
    /// Clear the live close-mark reveal when the pointer leaves the window;
    /// returns whether there was one to clear.
    pub fn clear_gutter_stack_hover(&mut self) -> (changed: bool)
        ensures
            changed == (old(self).gutter_stack_hover is Some),
            *final(self) == (TextPipeline { gutter_stack_hover: None, ..*old(self) }),
    {
        let was = self.gutter_stack_hover.is_some();
        self.gutter_stack_hover = None;
        was
    }

    /// The index of the heading the caret sits under, if any.
    pub fn outline_current(&self) -> (r: Option<usize>)
        ensures
            r matches Some(c) ==> spec_outline_current(self.outline_headings@, self.cursor_line as int) == Some(c as int)
                && c < self.outline_headings@.len(),
            r is None ==> spec_outline_current(self.outline_headings@, self.cursor_line as int) is None,
    {
        let hs = &self.outline_headings;
        let mut k: usize = hs.len();
        assert(hs@.take(k as int) =~= hs@);
        while k > 0
            invariant
                k <= hs@.len(),
                hs@ == self.outline_headings@,
                spec_outline_current(hs@, self.cursor_line as int) == spec_outline_current(hs@.take(k as int), self.cursor_line as int),
            decreases k,
        {
            let ghost t = hs@.take(k as int);
            assert(t.drop_last() =~= hs@.take(k - 1));
            assert(t.last() == hs@[k - 1]);
            assert(t.len() == k);
            if hs[k - 1].line <= self.cursor_line {
                assert(t.last().line <= self.cursor_line);
                assert(spec_outline_current(t, self.cursor_line as int) == Some(t.len() - 1));
                return Some(k - 1);
            }
            k = k - 1;
        }
        None
    }

    /// The current heading's ancestor chain, nearest first: the headings the
    /// caret is nested inside. Empty when the caret sits above the first
    /// heading or the current heading is top-level (an H1 or H2).
    pub fn outline_ancestors(&self) -> (out: Vec<usize>)
        ensures
            spec_outline_current(self.outline_headings@, self.cursor_line as int) is None ==> out@.len() == 0,
            spec_outline_current(self.outline_headings@, self.cursor_line as int) matches Some(c)
                ==> (spec_is_top_level(self.outline_headings@[c].level) ==> out@.len() == 0),
            spec_outline_current(self.outline_headings@, self.cursor_line as int) matches Some(c)
                ==> !spec_is_top_level(self.outline_headings@[c].level) ==> {
                &&& forall|k: int| 0 <= k < out@.len() ==> is_ancestor(self.outline_headings@, out@[k] as int, c)
                &&& forall|k: int, m: int| 0 <= k < m < out@.len() ==> out@[k] > out@[m]
                &&& forall|i: int| is_ancestor(self.outline_headings@, i, c) ==> out@.contains(i as usize)
            },
    {
        match self.outline_current() {
            Some(c) => {
                if is_top_level(self.outline_headings[c].level) {
                    Vec::new()
                } else {
                    ancestor_chain(self.outline_headings.as_slice(), c)
                }
            },
            None => Vec::new(),
        }
    }

    /// Whether the margin outline draws this frame (see `outline_rows`).
    pub fn outline_visible(&self, reveal: bool, max_rows: usize, avail_half_rows: usize) -> (b: bool)
        ensures
            b == (!self.overlay_active && self.md_enabled && spec_outline_plan(
                self.outline_headings@,
                self.fold_tails@,
                current_heading(self.outline_headings@, self.cursor_line as int),
                reveal,
                max_rows as int,
                avail_half_rows as int,
            ) is Some),
    {
        self.outline_rows(reveal, max_rows, avail_half_rows).is_some()
    }

    /// The margin outline's rows for this frame, given the label rows
    /// (`max_rows`) and half rows (`avail_half_rows`) the band holds. `None`
    /// while an overlay is open (summoned overlays own the margins), for a
    /// buffer that is not markdown, and whenever the outline shows nothing.
    pub fn outline_rows(&self, reveal: bool, max_rows: usize, avail_half_rows: usize) -> (r: Option<Vec<OutlinePlanRow>>)
        ensures
            self.overlay_active || !self.md_enabled ==> r is None,
            !self.overlay_active && self.md_enabled ==> match spec_outline_plan(
                self.outline_headings@,
                self.fold_tails@,
                current_heading(self.outline_headings@, self.cursor_line as int),
                reveal,
                max_rows as int,
                avail_half_rows as int,
            ) {
                None => r is None,
                Some(rows) => r matches Some(v) && v@ == rows,
            },
    {
        if self.overlay_active || !self.md_enabled {
            return None;
        }
        let current = self.outline_current();
        proof {
            assert(current == current_heading(self.outline_headings@, self.cursor_line as int));
        }
        plan_outline_rows(self.outline_headings.as_slice(), current, reveal, max_rows, avail_half_rows, self.fold_tails.as_slice())
    }
}


/// The current heading as an index: `spec_outline_current`, cast.
pub open spec fn current_heading(hs: Seq<Heading>, cursor_line: int) -> Option<usize> {
    match spec_outline_current(hs, cursor_line) {
        Some(c) => Some(c as usize),
        None => None,
    }
}

impl TextPipeline {
    /// The shaped document: its lines joined by `\n`.
    pub fn doc_text(&self) -> (out: String)
        ensures
            out@ == join_lines(views(self.lines@)),
    {
        let mut out = String::new();
        let mut i: usize = 0;
        while i < self.lines.len()
            invariant
                i <= self.lines@.len(),
                out@ == join_lines(views(self.lines@).take(i as int)),
            decreases self.lines.len() - i,
        {
            let ghost vs = views(self.lines@);
            proof {
                assert(vs.take(i + 1).drop_last() =~= vs.take(i as int));
                assert(vs.take(i + 1).last() == self.lines@[i as int]@);
            }
            if i > 0 {
                out.push('\n');
            } else {
                assert(vs.take(0) =~= Seq::<Seq<char>>::empty());
            }
            out.append(self.lines[i].as_str());
            proof {
                if i == 0 {
                    assert(out@ =~= vs.take(1)[0]);
                } else {
                    assert(out@ =~= join_lines(vs.take(i as int)) + seq!['\n'] + vs.take(i + 1).last());
                }
            }
            i = i + 1;
        }
        assert(views(self.lines@).take(i as int) =~= views(self.lines@));
        out
    }

    /// THE text the document figures are derived from, and the caret's place
    /// in it: the recorded document when something else is shaped in its
    /// place, else the shaped document itself.
    pub fn figure_source(&self) -> (r: (String, usize, usize, Option<((usize, usize), (usize, usize))>))
        ensures
            self.doc_source matches Some(d) ==> r.0@ == d.text@ && r.1 == d.cursor_line && r.2 == d.cursor_col
                && r.3 == d.selection,
            self.doc_source is None ==> r.0@ == join_lines(views(self.lines@)) && r.1 == self.cursor_line
                && r.2 == self.cursor_col && r.3 == self.selection,
    {
        match &self.doc_source {
            Some(doc) => (doc.text.clone(), doc.cursor_line, doc.cursor_col, doc.selection),
            None => (self.doc_text(), self.cursor_line, self.cursor_col, self.selection),
        }
    }

    /// The live-only card figures as they were last pushed in.
    pub fn card_live(&self) -> (c: CardLive)
        ensures
            c.stats == self.hud_stats,
            c.streaks is None <==> self.streaks_view is None,
            c.streaks matches Some(v) ==> v.same_as(self.streaks_view->0),
            c.saved == self.hud_saved,
            c.peek_rows@ == self.peek_rows@,
            c.update_checked == self.hud_update_checked,
            c.pending_crash == self.hud_pending_crash,
    {
        let streaks = match &self.streaks_view {
            Some(v) => Some(v.clone()),
            None => None,
        };
        CardLive {
            stats: self.hud_stats,
            streaks,
            saved: self.hud_saved,
            peek_rows: copy_rows(&self.peek_rows),
            update_checked: self.hud_update_checked,
            pending_crash: self.hud_pending_crash,
        }
    }

    /// The footer band's lines and the display rows it occupies: none when
    /// there are no tips, else the tips plus one separator row.
    pub fn overlay_footer_lines(&self) -> (r: (Vec<String>, usize))
        requires
            self.keybindings_tips@.len() < usize::MAX,
        ensures
            r.0@ == self.keybindings_tips@,
            r.1 == (if self.keybindings_tips@.len() == 0 { 0 } else { self.keybindings_tips@.len() + 1 }),
    {
        let footer = copy_strings(&self.keybindings_tips);
        let footer_rows = if footer.len() == 0 { 0 } else { footer.len() + 1 };
        (footer, footer_rows)
    }

    /// The labels the open list right-aligns beside its rows: the key
    /// bindings when there are any, else the times when there are any, else
    /// the git states.
    pub fn overlay_right_labels(&self) -> (r: &Vec<String>)
        ensures
            r@ == (if self.overlay_bindings@.len() > 0 {
                self.overlay_bindings@
            } else if self.overlay_times@.len() > 0 {
                self.overlay_times@
            } else {
                self.overlay_git@
            }),
    {
        if self.overlay_bindings.len() > 0 {
            &self.overlay_bindings
        } else if self.overlay_times.len() > 0 {
            &self.overlay_times
        } else {
            &self.overlay_git
        }
    }

    /// A workspace's candidate window: at most the kind's row count (at least
    /// one) and the geometry's `item_cap`, slid to keep the selection visible.
    pub fn overlay_workspace_window(&self, n_items: usize, item_cap: usize) -> (r: (usize, usize))
        ensures
            ({
                let rows = if self.overlay_window_rows < 1 { 1 } else { self.overlay_window_rows as int };
                let cap = if rows < item_cap { rows } else { item_cap as int };
                r.0 as int == spec_scroll_window(n_items as int, self.overlay_selected as int, self.overlay_scroll as int, cap).0
                    && r.1 as int == spec_scroll_window(n_items as int, self.overlay_selected as int, self.overlay_scroll as int, cap).1
            }),
    {
        let rows = if self.overlay_window_rows < 1 { 1 } else { self.overlay_window_rows };
        let cap = if rows < item_cap { rows } else { item_cap };
        scroll_window(n_items, self.overlay_selected, self.overlay_scroll, cap)
    }

    /// Is the shaped text a comparison transcript rather than the user's
    /// document? Exactly while a workspace with its rows in the primary column
    /// carries comparison prose.
    pub fn document_is_a_transcript(&self) -> (b: bool)
        ensures
            b == (self.overlay_active && self.overlay_comparison && self.overlay_rows_primary && self.overlay_workspace),
    {
        self.overlay_active && self.overlay_comparison && self.overlay_rows_primary && self.overlay_workspace
    }

    /// Does a margin-orientation surface (outline, gutter, corner readouts)
    /// yield this frame? Exactly while the document layer is a transcript.
    pub fn margin_orientation_yields(&self) -> (b: bool)
        ensures
            b == (self.overlay_active && self.overlay_comparison && self.overlay_rows_primary && self.overlay_workspace),
    {
        self.document_is_a_transcript()
    }

    /// What the calm notice says this frame: nothing while the margin yields,
    /// else the notice.
    pub fn notice_readout_text(&self) -> (s: String)
        ensures
            s@ == (if self.overlay_active && self.overlay_comparison && self.overlay_rows_primary && self.overlay_workspace {
                Seq::<char>::empty()
            } else {
                self.notice@
            }),
    {
        if self.margin_orientation_yields() {
            String::new()
        } else {
            self.notice.clone()
        }
    }

    /// Does the document recede behind a full-takeover overlay? True only for
    /// a card over the whole canvas that does not keep the backdrop crisp —
    /// never with no overlay, for the crisp pickers, for the pointer-anchored
    /// menu or for the spell popup.
    pub fn dims_doc(&self) -> (b: bool)
        ensures
            b == (self.overlay_active && !self.overlay_crisp && self.overlay_seat == OverlaySeat::Card),
    {
        self.overlay_active && !self.overlay_crisp && match self.overlay_seat {
            OverlaySeat::Card => true,
            _ => false,
        }
    }

    /// The peek card's rows: the pushed rows, or the starter rows while none
    /// have been pushed.
    pub fn peek_effective_rows(&self) -> (rows: Vec<PeekRow>)
        ensures
            rows@ == (if self.peek_rows@.len() == 0 { self.peek_starter_rows@ } else { self.peek_rows@ }),
    {
        if self.peek_rows.len() == 0 {
            copy_rows(&self.peek_starter_rows)
        } else {
            copy_rows(&self.peek_rows)
        }
    }

    /// The peek card's report.
    pub fn peek_report(&self) -> (r: PeekReport)
        ensures
            r.open == self.peek_open,
            r.rows@ == (if self.peek_rows@.len() == 0 { self.peek_starter_rows@ } else { self.peek_rows@ }),
    {
        PeekReport { open: self.peek_open, rows: self.peek_effective_rows() }
    }

    /// The streaks the card shows: the pushed view, or the placeholder.
    pub fn streaks_effective_view(&self) -> (v: StreaksView)
        ensures
            self.streaks_view matches Some(s) ==> v.same_as(s),
            self.streaks_view is None ==> v.streak == 0 && v.today_words == 0 && v.cumulative@.len() == 0
                && v.cells@.len() == 0,
    {
        match &self.streaks_view {
            Some(v) => v.clone(),
            None => StreaksView::placeholder(),
        }
    }

    /// The streaks card's report: the card's state, the effective view's
    /// figures, and the total words (the last cumulative day, or `0`).
    pub fn streaks_report(&self) -> (r: StreaksReport)
        ensures
            r.open == self.streaks_open,
            r.view@ == (if self.streaks_page == CardView::Heatmap { "heatmap"@ } else { "cumulative"@ }),
            self.streaks_view matches Some(s) ==> {
                &&& r.streak == s.streak
                &&& r.today_words == s.today_words
                &&& r.total_words == (if s.cumulative@.len() == 0 { 0 } else { s.cumulative@.last() })
                &&& r.cells@ == s.cells@
            },
            self.streaks_view is None ==> r.streak == 0 && r.today_words == 0 && r.total_words == 0
                && r.cells@.len() == 0,
    {
        let view = self.streaks_effective_view();
        let total_words = if view.cumulative.len() == 0 { 0 } else { view.cumulative[view.cumulative.len() - 1] };
        StreaksReport {
            open: self.streaks_open,
            view: self.streaks_page.label(),
            streak: view.streak,
            today_words: view.today_words,
            total_words,
            cells: view.cells,
        }
    }
}

/// An identical copy of a list of strings.
pub fn copy_strings(v: &Vec<String>) -> (r: Vec<String>)
    ensures
        r@ == v@,
{
    let r = v.clone();
    assert(r@ =~= v@);
    r
}


impl TextPipeline {
    /// How far through the document the caret sits, in percent (see
    /// `spec_hud_percent`).
    pub fn hud_percent(&self) -> (p: u32)
        requires
            chars_total(views(self.lines@)) + self.lines@.len() <= usize::MAX,
        ensures
            p as int == spec_hud_percent(views(self.lines@), self.cursor_line as int, self.cursor_col as int),
            p <= 100,
    {
        let ghost vs = views(self.lines@);
        let n = self.lines.len();
        let before = if self.cursor_line < n { self.cursor_line } else { n };
        let mut total: usize = 0;
        let mut prefix: usize = 0;
        let mut i: usize = 0;
        while i < n
            invariant
                n == self.lines@.len(),
                vs == views(self.lines@),
                before <= n,
                i <= n,
                chars_total(vs) + n <= usize::MAX,
                total as int == chars_total(vs.take(i as int)),
                prefix as int == (if i <= before { chars_total(vs.take(i as int)) } else { chars_total(vs.take(before as int)) }),
            decreases n - i,
        {
            proof {
                assert(vs.take(i + 1).drop_last() =~= vs.take(i as int));
                assert(vs.take(i + 1).last() == vs[i as int]);
                lemma_chars_total_prefix_le(vs, i + 1);
            }
            let c = self.lines[i].as_str().unicode_len();
            total = total + c;
            if i < before {
                prefix = prefix + c;
            }
            i = i + 1;
        }
        proof {
            assert(vs.take(n as int) =~= vs);
            lemma_chars_total_prefix_le(vs, before as int);
        }
        let denom: usize = total + if n > 1 { n - 1 } else { 0 };
        if denom == 0 {
            return 0;
        }
        let start: usize = prefix + before;
        let m: usize = if start >= denom {
            denom
        } else if self.cursor_col >= denom - start {
            denom
        } else {
            start + self.cursor_col
        };
        let p: u128 = (200 * (m as u128) + (denom as u128)) / (2 * (denom as u128));
        proof {
            assert(p <= 100) by (nonlinear_arith)
                requires
                    p == (200 * (m as u128) + (denom as u128)) / (2 * (denom as u128)),
                    m <= denom,
                    denom > 0;
        }
        p as u32
    }
}

/// A prefix of lines never holds more chars than the whole.
proof fn lemma_chars_total_prefix_le(lines: Seq<Seq<char>>, k: int)
    requires
        0 <= k <= lines.len(),
    ensures
        chars_total(lines.take(k)) <= chars_total(lines),
    decreases lines.len() - k,
{
    if k < lines.len() {
        assert(lines.take(k + 1).drop_last() =~= lines.take(k));
        lemma_chars_total_prefix_le(lines, k + 1);
    } else {
        assert(lines.take(k) =~= lines);
    }
}


impl TextPipeline {
    /// Everything a summoned card can say this frame, gathered in one place.
    /// What other owners decide comes in: whether the HUD is `hud_held` and
    /// the peek card `peek_shown`, the streaks card's page, the corner
    /// readout's `words` and the document's declared `lang`; the pipeline adds
    /// its pushed figures, the effective streaks view and peek rows, the
    /// caret's through-document percent and the line ending.
    pub fn card_inputs(&self, hud_held: bool, peek_shown: bool, streaks_page: CardView, words: String, lang: Option<Lang>) -> (c: CardInputs)
        requires
            chars_total(views(self.lines@)) + self.lines@.len() <= usize::MAX,
        ensures
            c.hud_held == hud_held,
            c.peek_shown == peek_shown,
            c.stats == self.hud_stats,
            c.streaks matches Some(v) && (self.streaks_view matches Some(s) ==> v.same_as(s))
                && (self.streaks_view is None ==> v.streak == 0 && v.today_words == 0 && v.cumulative@.len() == 0
                    && v.cells@.len() == 0),
            c.streaks_page == streaks_page,
            c.saved == self.hud_saved,
            c.words == words,
            c.lang == lang,
            c.percent as int == spec_hud_percent(views(self.lines@), self.cursor_line as int, self.cursor_col as int),
            c.eol == self.eol,
            c.peek_rows@ == (if self.peek_rows@.len() == 0 { self.peek_starter_rows@ } else { self.peek_rows@ }),
            c.update_checked == self.hud_update_checked,
            c.pending_crash == self.hud_pending_crash,
    {
        CardInputs {
            hud_held,
            peek_shown,
            stats: self.hud_stats,
            streaks: Some(self.streaks_effective_view()),
            streaks_page,
            saved: self.hud_saved,
            words,
            lang,
            percent: self.hud_percent(),
            eol: self.eol,
            peek_rows: self.peek_effective_rows(),
            update_checked: self.hud_update_checked,
            pending_crash: self.hud_pending_crash,
        }
    }

    /// The held HUD's report. What other owners decide this frame comes in:
    /// whether the HUD key is `held`, the corner readout's `words`, the
    /// document's declared `lang` and the save-state readout `saved`; the
    /// pipeline adds the caret's through-document percent and the line ending.
    pub fn hud_report(&self, held: bool, words: Option<(usize, usize)>, lang: Option<Lang>, saved: String) -> (r: HudReport)
        requires
            chars_total(views(self.lines@)) + self.lines@.len() <= usize::MAX,
        ensures
            r.held == held,
            r.words == words,
            r.percent as int == spec_hud_percent(views(self.lines@), self.cursor_line as int, self.cursor_col as int),
            r.lang == lang,
            r.eol == self.eol,
            r.saved == saved,
    {
        HudReport { held, words, percent: self.hud_percent(), lang, eol: self.eol, saved }
    }
}


/// `k` is the index of the last newline in `s`.
pub open spec fn is_last_newline(s: Seq<char>, k: int) -> bool {
    0 <= k < s.len() && s[k] == '\n' && forall|j: int| k < j < s.len() ==> s[j] != '\n'
}

/// `s` split on `\n`: the text between consecutive newlines, in order.
pub open spec fn split_lines(s: Seq<char>) -> Seq<Seq<char>>
    decreases s.len(),
{
    if exists|k: int| is_last_newline(s, k) {
        let k = choose|k: int| is_last_newline(s, k);
        split_lines(s.take(k)).push(s.skip(k + 1))
    } else {
        seq![s]
    }
}

/// No line holds a newline of its own.
pub open spec fn newline_free(lines: Seq<Seq<char>>) -> bool {
    forall|i: int, j: int| 0 <= i < lines.len() && 0 <= j < lines[i].len() ==> lines[i][j] != '\n'
}

/// Joining the shaped lines and splitting the result on its newlines gives
/// the lines back: the document text is exactly the lines, rejoined.
pub proof fn law_doc_text_splits_back_into_its_lines(lines: Seq<Seq<char>>)
    requires
        lines.len() >= 1,
        newline_free(lines),
    ensures
        split_lines(join_lines(lines)) == lines,
    decreases lines.len(),
{
    if lines.len() == 1 {
        let s = join_lines(lines);
        assert(s == lines[0]);
        assert(!exists|k: int| is_last_newline(s, k));
        assert(split_lines(s) =~= lines);
    } else {
        let init = lines.drop_last();
        let head = join_lines(init);
        let last = lines.last();
        let s = join_lines(lines);
        assert(s == head + seq!['\n'] + last);
        let k = head.len() as int;
        assert(is_last_newline(s, k)) by {
            assert forall|j: int| k < j < s.len() implies s[j] != '\n' by {
                assert(s[j] == last[j - k - 1]);
            }
        }
        assert forall|k2: int| is_last_newline(s, k2) implies k2 == k by {
            if k2 < k {
                assert(s[k] == '\n');
            } else if k2 > k {
                assert(s[k2] == last[k2 - k - 1]);
            }
        }
        let kk = choose|k2: int| is_last_newline(s, k2);
        assert(kk == k);
        assert(s.take(k) =~= head);
        assert(s.skip(k + 1) =~= last);
        assert(newline_free(init)) by {
            assert forall|i: int, j: int| 0 <= i < init.len() && 0 <= j < init[i].len() implies init[i][j] != '\n' by {
                assert(init[i] == lines[i]);
            }
        }
        law_doc_text_splits_back_into_its_lines(init);
        assert(split_lines(s) =~= lines);
    }
}

} // verus!

verus! {

proof fn lemma_chars_total_nonneg(lines: Seq<Seq<char>>)
    ensures
        chars_total(lines) >= 0,
    decreases lines.len(),
{
    if lines.len() > 0 {
        lemma_chars_total_nonneg(lines.drop_last());
    }
}

/// The HUD's percent reads where the caret sits: it is always between 0 and
/// 100, an empty document (a single empty line) reads 0, and a caret at the
/// very end of any other document reads 100.
pub proof fn law_hud_percent_reads_the_caret_place(lines: Seq<Seq<char>>, cursor_line: int, cursor_col: int)
    requires
        cursor_line >= 0,
        cursor_col >= 0,
    ensures
        0 <= spec_hud_percent(lines, cursor_line, cursor_col) <= 100,
        lines.len() == 1 && lines[0].len() == 0 ==> spec_hud_percent(lines, cursor_line, cursor_col) == 0,
        ({
            let denom = chars_total(lines) + if lines.len() > 1 { lines.len() - 1 } else { 0 };
            lines.len() >= 1 && denom > 0 && cursor_line == lines.len() - 1 && cursor_col == lines.last().len()
                ==> spec_hud_percent(lines, cursor_line, cursor_col) == 100
        }),
{
    lemma_chars_total_nonneg(lines);
    let denom = chars_total(lines) + if lines.len() > 1 { lines.len() - 1 } else { 0 };
    let before = if cursor_line < lines.len() { cursor_line } else { lines.len() as int };
    lemma_chars_total_nonneg(lines.take(before));
    if lines.len() == 1 && lines[0].len() == 0 {
        assert(lines.drop_last() =~= Seq::<Seq<char>>::empty());
        assert(chars_total(lines) == chars_total(lines.drop_last()) + lines.last().len());
    }
    if denom > 0 {
        let off = caret_offset(lines, cursor_line, cursor_col);
        let m = if off < denom { off } else { denom };
        assert(0 <= m <= denom);
        assert(0 <= (200 * m + denom) / (2 * denom) <= 100) by (nonlinear_arith)
            requires
                0 <= m <= denom,
                denom > 0;
        if lines.len() >= 1 && cursor_line == lines.len() - 1 && cursor_col == lines.last().len() {
            assert(lines.take(cursor_line) =~= lines.drop_last());
            assert(off == denom);
            assert((200 * denom + denom) / (2 * denom) == 100) by (nonlinear_arith)
                requires
                    denom > 0;
        }
    }
}

} // verus!
