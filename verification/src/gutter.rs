//! The bottom-left identity block's rows: which lines the block stacks, which
//! line the active file's plate marks, what a pointer over a row is aiming at,
//! and where a row drag's insertion hairline sits.
use vstd::prelude::*;
use vstd::string::StrSliceExecFns;

verus! {

/// The close mark every working-set row shapes before its label: the `×`
/// followed by a single breath.
pub const CLOSE_MARK_TEXT: &'static str = "× ";

/// How many chars the close mark occupies on a row.
pub const CLOSE_MARK_CHARS: usize = 2;

/// What a pointer over a row is aiming at: the row's small close zone, or the
/// rest of the band, which switches to that row's file.
#[derive(Clone, Copy, PartialEq, Eq, Debug, Structural)]
pub enum RowIntent {
    Switch,
    Close,
}

/// The kind of a working-set row.
#[derive(Clone, Copy, PartialEq, Eq, Debug, Structural)]
pub enum StackRowKind {
    /// An open file.
    File,
    /// A project heading; its close mark closes its whole group.
    Group,
    /// A passive scroll-position cue.
    Overflow,
    /// A "more" row that never carries a close mark.
    More,
}

/// WHICH working-set row the pointer is over, that row's kind, and what it is
/// aiming at within it.
#[derive(Clone, Copy, PartialEq, Eq, Debug, Structural)]
pub struct GutterStackHit {
    pub row: usize,
    pub kind: StackRowKind,
    pub intent: RowIntent,
}

impl GutterStackHit {
    /// Did the pointer land on the row's close zone rather than its switch half?
    pub fn is_close(&self) -> (b: bool)
        ensures
            b == (self.intent == RowIntent::Close),
    {
        match self.intent {
            RowIntent::Close => true,
            RowIntent::Switch => false,
        }
    }
}

/// Which of the block's stacked lines a row is.
#[derive(Clone, Copy, PartialEq, Eq, Debug, Structural)]
pub enum GutterLine {
    /// The "changed elsewhere" affordance.
    Changed,
    /// The lone filename of a single-file margin.
    Name,
    /// One member of the working set, by its slot in the drawn stack.
    File(usize),
    /// The project heading.
    Project,
}

/// What a context click on a line of the block targets.
#[derive(Clone, Copy, PartialEq, Eq, Debug, Structural)]
pub enum ContextTarget {
    /// The active document's own name.
    Filename,
    /// The project folder.
    Folder,
}

/// One fitted working-set row: the text drawn, where its quieter location
/// half ends, whether it is the active file, and its kind.
#[derive(Debug)]
pub struct StackLine {
    pub text: String,
    pub parent_byte: usize,
    pub active: bool,
    pub kind: StackRowKind,
}

/// The block's decided text: the filename, the project line (empty without a
/// project), the affordance (empty without a conflict) and the working set's
/// rows (empty with one file open).
#[derive(Debug)]
pub struct GutterLayout {
    pub name: String,
    pub project: String,
    pub changed: String,
    pub files: Vec<StackLine>,
}

/// A line of the block that names a file: the working-set row it resolves to,
/// that row's kind, and how many chars of ink the line shapes (its text and
/// the close mark before it).
#[derive(Clone, Copy, PartialEq, Eq, Debug, Structural)]
pub struct StackRowRef {
    pub row: usize,
    pub kind: StackRowKind,
    pub ink_chars: usize,
}

/// Where a row drag's insertion hairline sits: on the top edge of the block's
/// line `line`, or on its bottom edge when `below`.
#[derive(Clone, Copy, PartialEq, Eq, Debug, Structural)]
pub struct DragAnchor {
    pub line: usize,
    pub below: bool,
}

/// The chars of ink a line of `n` chars shapes: the text and the close mark
/// before it (saturating at the machine's limit).
pub open spec fn ink_of(n: int) -> int {
    if n + CLOSE_MARK_CHARS <= usize::MAX {
        n + CLOSE_MARK_CHARS
    } else {
        usize::MAX as int
    }
}

/// The block's lines, top to bottom: the affordance when there is one; the
/// project heading when there is a project and no drawn group heading already
/// names it; then either the lone filename or every working-set row.
pub open spec fn spec_gutter_lines(
    changed: Seq<char>,
    name: Seq<char>,
    project: Seq<char>,
    files: Seq<Seq<char>>,
    heading_drawn: bool,
) -> Seq<(Seq<char>, GutterLine)> {
    let head: Seq<(Seq<char>, GutterLine)> = if changed.len() > 0 { seq![(changed, GutterLine::Changed)] } else { Seq::empty() };
    let proj: Seq<(Seq<char>, GutterLine)> = if project.len() > 0 && !heading_drawn {
        seq![(project, GutterLine::Project)]
    } else {
        Seq::empty()
    };
    let ident: Seq<(Seq<char>, GutterLine)> = if files.len() == 0 {
        seq![(name, GutterLine::Name)]
    } else {
        Seq::new(files.len(), |at: int| (files[at], GutterLine::File(at as usize)))
    };
    head + proj + ident
}

impl GutterLayout {
    /// The texts of the working-set rows.
    pub open spec fn file_texts(&self) -> Seq<Seq<char>> {
        Seq::new(self.files@.len(), |at: int| self.files@[at].text@)
    }

    /// The working set draws a project heading of its own.
    pub open spec fn heading_drawn(&self) -> bool {
        exists|at: int| 0 <= at < self.files@.len() && (#[trigger] self.files@[at]).kind == StackRowKind::Group
    }

    /// The block's lines (see `spec_gutter_lines`).
    pub open spec fn block(&self) -> Seq<(Seq<char>, GutterLine)> {
        spec_gutter_lines(self.changed@, self.name@, self.project@, self.file_texts(), self.heading_drawn())
    }

    /// The row a line names, if it names one: a working-set row, or the lone
    /// filename, which is the only slot its group holds.
    pub open spec fn row_at(&self, line: int) -> Option<StackRowRef> {
        if 0 <= line < self.block().len() {
            match self.block()[line].1 {
                GutterLine::File(at) => Some(StackRowRef {
                    row: at,
                    kind: self.files@[at as int].kind,
                    ink_chars: ink_of(self.files@[at as int].text@.len() as int) as usize,
                }),
                GutterLine::Name => Some(StackRowRef {
                    row: 0,
                    kind: StackRowKind::File,
                    ink_chars: ink_of(self.name@.len() as int) as usize,
                }),
                _ => None,
            }
        } else {
            None
        }
    }

    /// Line `line` carries the active file's plate: a working-set row that is
    /// the active file, or the lone filename, which always is.
    pub open spec fn line_plated(&self, line: int) -> bool {
        match self.block()[line].1 {
            GutterLine::File(at) => self.files@[at as int].active && self.files@[at as int].kind == StackRowKind::File,
            GutterLine::Name => true,
            _ => false,
        }
    }

    /// The plated lines among the first `n`, in block order, each with the
    /// chars of ink its plate spans.
    pub open spec fn plates_upto(&self, n: int) -> Seq<(usize, usize)>
        decreases n,
    {
        if n <= 0 {
            Seq::empty()
        } else if self.line_plated(n - 1) {
            self.plates_upto(n - 1).push(((n - 1) as usize, ink_of(self.block()[n - 1].0.len() as int) as usize))
        } else {
            self.plates_upto(n - 1)
        }
    }

    /// Every plated line of the block.
    pub open spec fn plates(&self) -> Seq<(usize, usize)> {
        self.plates_upto(self.block().len() as int)
    }

    /// Where the insertion hairline for `file_row` sits: above the first file
    /// row for `0`, else below file row `file_row - 1` (the last row for any
    /// larger index). `None` without a working set.
    pub open spec fn drag_anchor_at(&self, file_row: int) -> Option<DragAnchor> {
        let offset = self.block().len() - self.files@.len();
        if self.files@.len() == 0 {
            None
        } else if file_row == 0 {
            Some(DragAnchor { line: offset as usize, below: false })
        } else {
            let back = if file_row - 1 < self.files@.len() - 1 { file_row - 1 } else { self.files@.len() - 1 };
            Some(DragAnchor { line: (offset + back) as usize, below: true })
        }
    }

    /// What a context click on line `line` targets: the filename names the
    /// active document, the active working-set row does too, the project
    /// heading names its folder; an inactive row and the affordance target
    /// nothing.
    pub open spec fn context_at(&self, line: int) -> Option<ContextTarget> {
        if 0 <= line < self.block().len() {
            match self.block()[line].1 {
                GutterLine::Name => Some(ContextTarget::Filename),
                GutterLine::File(at) => if self.files@[at as int].active { Some(ContextTarget::Filename) } else { None },
                GutterLine::Project => Some(ContextTarget::Folder),
                GutterLine::Changed => None,
            }
        } else {
            None
        }
    }

    /// Does the working set draw a project heading of its own?
    pub fn draws_heading(&self) -> (b: bool)
        ensures
            b == self.heading_drawn(),
    {
        let mut at: usize = 0;
        while at < self.files.len()
            invariant
                at <= self.files@.len(),
                forall|j: int| 0 <= j < at ==> (#[trigger] self.files@[j]).kind != StackRowKind::Group,
            decreases self.files.len() - at,
        {
            match self.files[at].kind {
                StackRowKind::Group => {
                    return true;
                },
                _ => {},
            }
            at = at + 1;
        }
        false
    }

    /// The block's lines, top to bottom, absent ones omitted — the one owner
    /// of the block's shape.
    pub fn lines(&self) -> (out: Vec<(&str, GutterLine)>)
        ensures
            out@.len() == self.block().len(),
            forall|k: int| 0 <= k < out@.len() ==> (#[trigger] out@[k]).0@ == self.block()[k].0
                && out@[k].1 == self.block()[k].1,
    {
        let ghost want = self.block();
        let mut out: Vec<(&str, GutterLine)> = Vec::new();
        let ghost head: Seq<(Seq<char>, GutterLine)> = if self.changed@.len() > 0 { seq![(self.changed@, GutterLine::Changed)] } else { Seq::empty() };
        let ghost proj: Seq<(Seq<char>, GutterLine)> = if self.project@.len() > 0 && !self.heading_drawn() {
            seq![(self.project@, GutterLine::Project)]
        } else {
            Seq::empty()
        };
        if !self.changed.as_str().is_empty() {
            out.push((self.changed.as_str(), GutterLine::Changed));
        }
        if !self.project.as_str().is_empty() && !self.draws_heading() {
            out.push((self.project.as_str(), GutterLine::Project));
        }
        let base = out.len();
        assert(out@.len() == (head + proj).len());
        if self.files.len() == 0 {
            out.push((self.name.as_str(), GutterLine::Name));
            assert(want =~= head + proj + seq![(self.name@, GutterLine::Name)]);
        } else {
            let mut at: usize = 0;
            while at < self.files.len()
                invariant
                    base == (head + proj).len(),
                    out@.len() == base + at,
                    at <= self.files@.len(),
                    forall|k: int| 0 <= k < base ==> (#[trigger] out@[k]).0@ == (head + proj)[k].0 && out@[k].1 == (head + proj)[k].1,
                    forall|k: int| base <= k < base + at ==> (#[trigger] out@[k]).0@ == self.files@[k - base].text@
                        && out@[k].1 == GutterLine::File((k - base) as usize),
                decreases self.files.len() - at,
            {
                out.push((self.files[at].text.as_str(), GutterLine::File(at)));
                at = at + 1;
            }
        }
        out
    }

    /// The row line `line` names, with its kind and ink width; `None` for the
    /// affordance, the project heading, and past the block's end.
    pub fn stack_row_at(&self, line: usize) -> (r: Option<StackRowRef>)
        ensures
            r == self.row_at(line as int),
    {
        let lines = self.lines();
        let nfiles = self.files.len();
        if line >= lines.len() {
            return None;
        }
        match lines[line].1 {
            GutterLine::File(at) => {
                proof {
                    assert(nfiles as int == self.files@.len());
                    assert(self.block()[line as int].1 == GutterLine::File(at));
                    lemma_file_line_in_range(self, line as int);
                }
                let ink = self.files[at].text.as_str().unicode_len().saturating_add(CLOSE_MARK_CHARS);
                Some(StackRowRef { row: at, kind: self.files[at].kind, ink_chars: ink })
            },
            GutterLine::Name => {
                let ink = self.name.as_str().unicode_len().saturating_add(CLOSE_MARK_CHARS);
                Some(StackRowRef { row: 0, kind: StackRowKind::File, ink_chars: ink })
            },
            _ => None,
        }
    }

    /// Resolve a pointer over the block: `line` is the block line the
    /// planner hit (none off the block), and `classify` splits that line's
    /// band by the chars of ink the row shapes into its close zone and its
    /// switch half. `None` off the block and over the affordance or the
    /// project heading; otherwise the row's enrolment (see `enrols`) at the
    /// intent `classify` gave.
    pub fn stack_hit_at(&self, line: Option<usize>, classify: impl Fn(usize) -> RowIntent) -> (r: Option<GutterStackHit>)
        requires
            forall|n: usize| call_requires(classify, (n,)),
        ensures
            line is None ==> r is None,
            line matches Some(l) ==> (self.row_at(l as int) is None ==> r is None),
            line matches Some(l) ==> (self.row_at(l as int) matches Some(row) ==> exists|intent: RowIntent|
                call_ensures(classify, (row.ink_chars,), intent) && r == enrols(row, intent)),
    {
        match line {
            None => None,
            Some(l) => match self.stack_row_at(l) {
                None => None,
                Some(row) => {
                    let intent = classify(row.ink_chars);
                    stack_hit_for(row, intent)
                },
            },
        }
    }

    /// The lines the active file's plate marks, in block order, each with the
    /// chars of ink the plate spans (the label and the close mark before it).
    pub fn plated_lines(&self) -> (out: Vec<(usize, usize)>)
        ensures
            out@ == self.plates(),
    {
        let lines = self.lines();
        let nfiles = self.files.len();
        let mut out: Vec<(usize, usize)> = Vec::new();
        let mut k: usize = 0;
        while k < lines.len()
            invariant
                k <= lines@.len(),
                nfiles as int == self.files@.len(),
                lines@.len() == self.block().len(),
                forall|j: int| 0 <= j < lines@.len() ==> (#[trigger] lines@[j]).0@ == self.block()[j].0
                    && lines@[j].1 == self.block()[j].1,
                out@ == self.plates_upto(k as int),
            decreases lines.len() - k,
        {
            let plated = match lines[k].1 {
                GutterLine::File(at) => {
                    proof {
                        lemma_file_line_in_range(self, k as int);
                    }
                    self.files[at].active && match self.files[at].kind {
                        StackRowKind::File => true,
                        _ => false,
                    }
                },
                GutterLine::Name => true,
                _ => false,
            };
            if plated {
                let ink = lines[k].0.unicode_len().saturating_add(CLOSE_MARK_CHARS);
                out.push((k, ink));
            }
            k = k + 1;
        }
        out
    }

    /// Where a row drag's insertion hairline for `file_row` sits (see
    /// `drag_anchor_at`).
    pub fn drag_anchor(&self, file_row: usize) -> (r: Option<DragAnchor>)
        ensures
            r == self.drag_anchor_at(file_row as int),
    {
        if self.files.len() == 0 {
            return None;
        }
        let lines = self.lines();
        proof {
            lemma_block_len(self);
        }
        let offset = lines.len() - self.files.len();
        if file_row == 0 {
            return Some(DragAnchor { line: offset, below: false });
        }
        let last = self.files.len() - 1;
        let back = if file_row - 1 < last { file_row - 1 } else { last };
        Some(DragAnchor { line: offset + back, below: true })
    }

    /// What a context click on line `line` targets (see `context_at`).
    pub fn context_target_at(&self, line: usize) -> (r: Option<ContextTarget>)
        ensures
            r == self.context_at(line as int),
    {
        let lines = self.lines();
        let nfiles = self.files.len();
        if line >= lines.len() {
            return None;
        }
        match lines[line].1 {
            GutterLine::Name => Some(ContextTarget::Filename),
            GutterLine::File(at) => {
                proof {
                    assert(nfiles as int == self.files@.len());
                    lemma_file_line_in_range(self, line as int);
                }
                if self.files[at].active {
                    Some(ContextTarget::Filename)
                } else {
                    None
                }
            },
            GutterLine::Project => Some(ContextTarget::Folder),
            GutterLine::Changed => None,
        }
    }
}

/// A working-set line names a row that exists.
proof fn lemma_file_line_in_range(layout: &GutterLayout, line: int)
    requires
        0 <= line < layout.block().len(),
        layout.files@.len() <= usize::MAX,
    ensures
        layout.block()[line].1 matches GutterLine::File(at) ==> at < layout.files@.len()
            && layout.block()[line].0 == layout.files@[at as int].text@,
{
    let head: Seq<(Seq<char>, GutterLine)> = if layout.changed@.len() > 0 { seq![(layout.changed@, GutterLine::Changed)] } else { Seq::empty() };
    let proj: Seq<(Seq<char>, GutterLine)> = if layout.project@.len() > 0 && !layout.heading_drawn() {
        seq![(layout.project@, GutterLine::Project)]
    } else {
        Seq::empty()
    };
    let base = (head + proj).len();
    if line >= base && layout.files@.len() > 0 {
        assert(layout.block()[line] == (layout.file_texts()[line - base], GutterLine::File((line - base) as usize)));
    }
}

/// The block holds every working-set row after its head lines.
proof fn lemma_block_len(layout: &GutterLayout)
    ensures
        layout.block().len() >= layout.files@.len(),
        layout.files@.len() > 0 ==> forall|at: int| 0 <= at < layout.files@.len()
            ==> layout.block()[layout.block().len() - layout.files@.len() + at] == (layout.files@[at].text@, GutterLine::File(at as usize)),
{
    let head: Seq<(Seq<char>, GutterLine)> = if layout.changed@.len() > 0 { seq![(layout.changed@, GutterLine::Changed)] } else { Seq::empty() };
    let proj: Seq<(Seq<char>, GutterLine)> = if layout.project@.len() > 0 && !layout.heading_drawn() {
        seq![(layout.project@, GutterLine::Project)]
    } else {
        Seq::empty()
    };
    let base = (head + proj).len();
    if layout.files@.len() > 0 {
        assert(layout.block().len() == base + layout.files@.len());
        assert forall|at: int| 0 <= at < layout.files@.len()
            implies layout.block()[layout.block().len() - layout.files@.len() + at] == (layout.files@[at].text@, GutterLine::File(at as usize)) by {
            assert(layout.block()[base + at] == (layout.file_texts()[at], GutterLine::File(at as usize)));
        }
    }
}

/// What the gutter reports for a decided block: its filename, its project line,
/// and whether the "changed elsewhere" affordance is raised. `None` while the
/// block is hidden.
pub fn gutter_report(layout: Option<GutterLayout>) -> (r: Option<(String, String, bool)>)
    ensures
        match layout {
            None => r is None,
            Some(g) => r matches Some(t) && t.0@ == g.name@ && t.1@ == g.project@ && t.2 == (g.changed@.len() > 0),
        },
{
    match layout {
        None => None,
        Some(g) => {
            let changed = !g.changed.as_str().is_empty();
            Some((g.name, g.project, changed))
        },
    }
}

/// What a pointer aiming at `intent` over the row `r` resolves to, if it
/// enrols in the working set's click and hover geometry: a project heading only through its close
/// zone (its switch half is click-away), a scroll cue never, every other row
/// in both halves.
pub open spec fn enrols(r: StackRowRef, intent: RowIntent) -> Option<GutterStackHit> {
    match r.kind {
        StackRowKind::Group => if intent == RowIntent::Close {
            Some(GutterStackHit { row: r.row, kind: r.kind, intent })
        } else {
            None
        },
        StackRowKind::Overflow => None,
        _ => Some(GutterStackHit { row: r.row, kind: r.kind, intent }),
    }
}

/// Resolve a pointer aiming at `intent` over the row `r` (see `enrols`).
pub fn stack_hit_for(r: StackRowRef, intent: RowIntent) -> (hit: Option<GutterStackHit>)
    ensures
        hit == enrols(r, intent),
{
    match r.kind {
        StackRowKind::Group => match intent {
            RowIntent::Close => Some(GutterStackHit { row: r.row, kind: r.kind, intent }),
            RowIntent::Switch => None,
        },
        StackRowKind::Overflow => None,
        _ => Some(GutterStackHit { row: r.row, kind: r.kind, intent }),
    }
}

} // verus!

verus! {

/// The head lines every block opens with: the affordance, then the project
/// heading unless a drawn group heading names the project already.
pub open spec fn head_lines(layout: &GutterLayout) -> Seq<(Seq<char>, GutterLine)> {
    let head: Seq<(Seq<char>, GutterLine)> = if layout.changed@.len() > 0 { seq![(layout.changed@, GutterLine::Changed)] } else { Seq::empty() };
    let proj: Seq<(Seq<char>, GutterLine)> = if layout.project@.len() > 0 && !layout.heading_drawn() {
        seq![(layout.project@, GutterLine::Project)]
    } else {
        Seq::empty()
    };
    head + proj
}

/// The block is its head lines followed by the identity: the lone filename,
/// or the working-set rows in slot order.
proof fn lemma_block_shape(layout: &GutterLayout)
    ensures
        layout.files@.len() == 0 ==> layout.block() == head_lines(layout) + seq![(layout.name@, GutterLine::Name)],
        layout.block().len() == head_lines(layout).len() + if layout.files@.len() == 0 { 1int } else { layout.files@.len() as int },
        forall|k: int| 0 <= k < head_lines(layout).len() ==> layout.block()[k] == head_lines(layout)[k],
        forall|at: int| 0 <= at < layout.files@.len()
            ==> layout.block()[head_lines(layout).len() + at] == (layout.files@[at].text@, GutterLine::File(at as usize)),
{
    let base = head_lines(layout).len() as int;
    if layout.files@.len() > 0 {
        assert forall|at: int| 0 <= at < layout.files@.len()
            implies layout.block()[base + at] == (layout.files@[at].text@, GutterLine::File(at as usize)) by {
            assert(layout.block()[base + at] == (layout.file_texts()[at], GutterLine::File(at as usize)));
        }
    }
}

/// The block names the reader's file once: the lone filename appears exactly
/// when no working set is drawn, and each working-set row appears as its
/// own line.
pub proof fn law_the_block_names_its_file_once(layout: &GutterLayout)
    ensures
        layout.files@.len() == 0 <==> exists|k: int| 0 <= k < layout.block().len()
            && (#[trigger] layout.block()[k]).1 == GutterLine::Name,
        forall|at: int| #![trigger layout.files@[at]] 0 <= at < layout.files@.len() ==> exists|k: int| 0 <= k < layout.block().len()
            && (#[trigger] layout.block()[k]) == (layout.files@[at].text@, GutterLine::File(at as usize)),
{
    lemma_block_shape(layout);
    let base = head_lines(layout).len() as int;
    if layout.files@.len() == 0 {
        assert(layout.block()[base].1 == GutterLine::Name);
    } else {
        assert forall|k: int| 0 <= k < layout.block().len() implies layout.block()[k].1 != GutterLine::Name by {
            if k >= base {
                assert(layout.block()[base + (k - base)].1 == GutterLine::File((k - base) as usize));
            }
        }
        assert forall|at: int| #![trigger layout.files@[at]] 0 <= at < layout.files@.len() implies exists|k: int| 0 <= k < layout.block().len()
            && (#[trigger] layout.block()[k]) == (layout.files@[at].text@, GutterLine::File(at as usize)) by {
            assert(layout.block()[base + at] == (layout.files@[at].text@, GutterLine::File(at as usize)));
        }
    }
}

/// The folder heads the block: the project line is drawn exactly when there
/// is a project and no drawn group heading already names it, and it always
/// sits above the identity, in the one-file block as in the working set.
pub proof fn law_the_folder_heads_the_block(layout: &GutterLayout)
    ensures
        (exists|k: int| 0 <= k < layout.block().len() && (#[trigger] layout.block()[k]).1 == GutterLine::Project)
            <==> layout.project@.len() > 0 && !layout.heading_drawn(),
        forall|p: int, k: int| 0 <= p < layout.block().len() && 0 <= k < layout.block().len()
            && (#[trigger] layout.block()[p]).1 == GutterLine::Project
            && ((#[trigger] layout.block()[k]).1 == GutterLine::Name || layout.block()[k].1 is File) ==> p < k,
{
    lemma_block_shape(layout);
    let base = head_lines(layout).len() as int;
    let c: int = if layout.changed@.len() > 0 { 1 } else { 0 };
    assert forall|k: int| 0 <= k < layout.block().len() && layout.block()[k].1 == GutterLine::Project
        implies layout.project@.len() > 0 && !layout.heading_drawn() && k == c by {
        if k >= base {
            if layout.files@.len() == 0 {
                assert(layout.block()[k].1 == GutterLine::Name);
            } else {
                assert(layout.block()[base + (k - base)].1 == GutterLine::File((k - base) as usize));
            }
        }
    }
    if layout.project@.len() > 0 && !layout.heading_drawn() {
        assert(layout.block()[c].1 == GutterLine::Project);
    }
    assert forall|k: int| 0 <= k < layout.block().len()
        && (layout.block()[k].1 == GutterLine::Name || layout.block()[k].1 is File) implies k >= base by {
        if k < base {
            assert(layout.block()[k] == head_lines(layout)[k]);
        }
    }
}

/// Plates are listed in block order, each on a plated line.
proof fn lemma_plates_upto(layout: &GutterLayout, n: int)
    requires
        0 <= n <= layout.block().len(),
        layout.block().len() <= usize::MAX,
    ensures
        forall|k: int| 0 <= k < layout.plates_upto(n).len() ==> (layout.plates_upto(n)[k].0 as int) < n
            && layout.line_plated(layout.plates_upto(n)[k].0 as int)
            && layout.plates_upto(n)[k].1 as int == ink_of(layout.block()[layout.plates_upto(n)[k].0 as int].0.len() as int),
        forall|k: int, m: int| 0 <= k < m < layout.plates_upto(n).len() ==> layout.plates_upto(n)[k].0 < layout.plates_upto(n)[m].0,
        forall|line: int| 0 <= line < n && layout.line_plated(line) ==> exists|k: int| 0 <= k < layout.plates_upto(n).len()
            && (#[trigger] layout.plates_upto(n)[k]).0 == line,
    decreases n,
{
    if n > 0 {
        lemma_plates_upto(layout, n - 1);
        let prev = layout.plates_upto(n - 1);
        let cur = layout.plates_upto(n);
        if layout.line_plated(n - 1) {
            assert forall|line: int| 0 <= line < n && layout.line_plated(line) implies exists|k: int| 0 <= k < cur.len()
                && (#[trigger] cur[k]).0 == line by {
                if line < n - 1 {
                    let k = choose|k: int| 0 <= k < prev.len() && (#[trigger] prev[k]).0 == line;
                    assert(cur[k] == prev[k]);
                } else {
                    assert(cur[cur.len() - 1].0 == line);
                }
            }
            assert forall|k: int, m: int| 0 <= k < m < cur.len() implies cur[k].0 < cur[m].0 by {
                if m < cur.len() - 1 {
                    assert(cur[k] == prev[k] && cur[m] == prev[m]);
                } else {
                    assert(cur[k] == prev[k]);
                }
            }
            assert forall|k: int| 0 <= k < cur.len() implies (cur[k].0 as int) < n
                && layout.line_plated(cur[k].0 as int)
                && cur[k].1 as int == ink_of(layout.block()[cur[k].0 as int].0.len() as int) by {
                if k < cur.len() - 1 {
                    assert(cur[k] == prev[k]);
                } else {
                    assert(cur[k].0 as int == n - 1);
                    assert(0 <= ink_of(layout.block()[n - 1].0.len() as int) <= usize::MAX);
                }
            }
        }
    }
}

/// The plate means the active file and nothing else: every plate sits on the
/// lone filename or on a working-set row that is the active file (never a
/// group heading, the project line or the affordance); at most one plate is
/// drawn when at most one row is active; and the active file is always
/// plated, whether it is the lone filename or an active file row.
pub proof fn law_the_plate_marks_the_active_file_alone(layout: &GutterLayout)
    requires
        layout.block().len() <= usize::MAX,
    ensures
        forall|k: int| 0 <= k < layout.plates().len() ==> {
            let line = layout.block()[(#[trigger] layout.plates()[k]).0 as int].1;
            line == GutterLine::Name || (line matches GutterLine::File(at) && layout.files@[at as int].active
                && layout.files@[at as int].kind == StackRowKind::File)
        },
        (forall|a: int, b: int| 0 <= a < layout.files@.len() && 0 <= b < layout.files@.len()
            && (#[trigger] layout.files@[a]).active && (#[trigger] layout.files@[b]).active ==> a == b)
            ==> layout.plates().len() <= 1,
        (layout.files@.len() == 0 || exists|at: int| 0 <= at < layout.files@.len() && (#[trigger] layout.files@[at]).active
            && layout.files@[at].kind == StackRowKind::File) ==> layout.plates().len() >= 1,
{
    let n = layout.block().len() as int;
    lemma_plates_upto(layout, n);
    lemma_block_shape(layout);
    let base = head_lines(layout).len() as int;
    let plates = layout.plates();
    assert forall|k: int| 0 <= k < plates.len() implies {
        let line = layout.block()[(#[trigger] plates[k]).0 as int].1;
        line == GutterLine::Name || (line matches GutterLine::File(at) && layout.files@[at as int].active
            && layout.files@[at as int].kind == StackRowKind::File)
    } by {
        assert(layout.line_plated(plates[k].0 as int));
    }
    if forall|a: int, b: int| 0 <= a < layout.files@.len() && 0 <= b < layout.files@.len()
        && (#[trigger] layout.files@[a]).active && (#[trigger] layout.files@[b]).active ==> a == b {
        if plates.len() >= 2 {
            let l0 = plates[0].0 as int;
            let l1 = plates[1].0 as int;
            assert(l0 < l1);
            assert(layout.line_plated(l0) && layout.line_plated(l1));
            if layout.files@.len() == 0 {
                assert(l0 >= base && l1 >= base);
            } else {
                assert(l0 >= base) by {
                    if l0 < base {
                        assert(layout.block()[l0] == head_lines(layout)[l0]);
                    }
                }
                assert(l1 >= base) by {
                    if l1 < base {
                        assert(layout.block()[l1] == head_lines(layout)[l1]);
                    }
                }
                assert(layout.block()[base + (l0 - base)].1 == GutterLine::File((l0 - base) as usize));
                assert(layout.block()[base + (l1 - base)].1 == GutterLine::File((l1 - base) as usize));
                assert(layout.files@[l0 - base].active && layout.files@[l1 - base].active);
            }
        }
    }
    if layout.files@.len() == 0 {
        assert(layout.line_plated(base as int));
    } else if exists|at: int| 0 <= at < layout.files@.len() && (#[trigger] layout.files@[at]).active
        && layout.files@[at].kind == StackRowKind::File {
        let at = choose|at: int| 0 <= at < layout.files@.len() && (#[trigger] layout.files@[at]).active
            && layout.files@[at].kind == StackRowKind::File;
        assert(layout.block()[base + at].1 == GutterLine::File(at as usize));
        assert(layout.line_plated(base + at));
    }
}

/// The lone filename plates exactly as the same name would as a one-row
/// stack: one plate each, spanning the same chars of ink.
pub proof fn law_the_identity_line_plates_like_a_stack_row(one: &GutterLayout, stack: &GutterLayout)
    requires
        one.files@.len() == 0,
        stack.files@.len() == 1,
        stack.files@[0].text@ == one.name@,
        stack.files@[0].active,
        stack.files@[0].kind == StackRowKind::File,
        one.block().len() <= usize::MAX,
        stack.block().len() <= usize::MAX,
    ensures
        one.plates().len() == 1,
        stack.plates().len() == 1,
        one.plates()[0].1 == stack.plates()[0].1,
{
    law_the_plate_marks_the_active_file_alone(one);
    law_the_plate_marks_the_active_file_alone(stack);
    lemma_plates_upto(one, one.block().len() as int);
    lemma_plates_upto(stack, stack.block().len() as int);
    lemma_block_shape(one);
    lemma_block_shape(stack);
    let l1 = one.plates()[0].0 as int;
    let l2 = stack.plates()[0].0 as int;
    assert(l1 >= head_lines(one).len()) by {
        if l1 < head_lines(one).len() {
            assert(one.block()[l1] == head_lines(one)[l1]);
        }
    }
    assert(l2 >= head_lines(stack).len()) by {
        if l2 < head_lines(stack).len() {
            assert(stack.block()[l2] == head_lines(stack)[l2]);
        }
    }
    assert(one.block()[l1].0 == one.name@);
    assert(stack.block()[l2] == (stack.files@[0].text@, GutterLine::File(0)));
}

/// The hit a pointer over line `line` aiming at `intent` resolves to.
pub open spec fn hit_at(layout: &GutterLayout, line: int, intent: RowIntent) -> Option<GutterStackHit> {
    match layout.row_at(line) {
        Some(r) => enrols(r, intent),
        None => None,
    }
}

/// Only a line that names a file enrols a pointer: the affordance and the
/// project heading never resolve to a row, a scroll cue never enrols, a group
/// heading enrols only through its close zone, and the lone filename resolves
/// to the group's one slot, a file row.
pub proof fn law_only_rows_that_name_a_file_enrol(layout: &GutterLayout, line: int, intent: RowIntent)
    requires
        hit_at(layout, line, intent) is Some,
    ensures
        ({
            let hit = hit_at(layout, line, intent)->0;
            &&& layout.block()[line].1 == GutterLine::Name || layout.block()[line].1 is File
            &&& hit.kind != StackRowKind::Overflow
            &&& hit.kind == StackRowKind::Group ==> intent == RowIntent::Close
            &&& hit.intent == intent
            &&& layout.block()[line].1 == GutterLine::Name ==> hit.row == 0 && hit.kind == StackRowKind::File
            &&& layout.block()[line].1 matches GutterLine::File(at) ==> hit.row == at
        }),
{
}

/// A row drag's hairline straddles the boundary above the named file row: on
/// the top edge of the first file row for `0`, else on the bottom edge of the
/// row before it (the last row for any index past the end). Off a working set
/// there is no hairline.
pub proof fn law_the_drag_hairline_sits_above_the_named_row(layout: &GutterLayout, file_row: int)
    requires
        0 <= file_row,
        layout.block().len() <= usize::MAX,
    ensures
        layout.files@.len() == 0 <==> layout.drag_anchor_at(file_row) is None,
        layout.drag_anchor_at(file_row) matches Some(a) ==> {
            let want: int = if file_row == 0 {
                0
            } else if file_row - 1 < layout.files@.len() - 1 {
                file_row - 1
            } else {
                layout.files@.len() - 1
            };
            &&& (a.line as int) < layout.block().len()
            &&& layout.block()[a.line as int].1 == GutterLine::File(want as usize)
            &&& a.below == (file_row > 0)
        },
{
    lemma_block_shape(layout);
    let base = head_lines(layout).len() as int;
    if layout.files@.len() > 0 {
        let want: int = if file_row == 0 {
            0
        } else if file_row - 1 < layout.files@.len() - 1 {
            file_row - 1
        } else {
            layout.files@.len() - 1
        };
        assert(layout.block()[base + want].1 == GutterLine::File(want as usize));
        assert(layout.drag_anchor_at(file_row)->0.line as int == base + want);
    }
}

/// The plate and the close zone measure one ink: every plated line names a
/// row, and the plate spans exactly the chars of ink that row's close zone is
/// anchored on.
pub proof fn law_the_plate_and_the_close_zone_measure_one_ink(layout: &GutterLayout)
    requires
        layout.block().len() <= usize::MAX,
    ensures
        forall|k: int| 0 <= k < layout.plates().len() ==> {
            let line = (#[trigger] layout.plates()[k]).0 as int;
            &&& layout.row_at(line) is Some
            &&& layout.row_at(line)->0.ink_chars == layout.plates()[k].1
        },
{
    let n = layout.block().len() as int;
    lemma_plates_upto(layout, n);
    lemma_block_shape(layout);
    let base = head_lines(layout).len() as int;
    let plates = layout.plates();
    assert forall|k: int| 0 <= k < plates.len() implies {
        let line = (#[trigger] plates[k]).0 as int;
        &&& layout.row_at(line) is Some
        &&& layout.row_at(line)->0.ink_chars == plates[k].1
    } by {
        let line = plates[k].0 as int;
        assert(layout.line_plated(line));
        assert(line >= base) by {
            if line < base {
                assert(layout.block()[line] == head_lines(layout)[line]);
            }
        }
        if layout.files@.len() == 0 {
            assert(line == base);
            assert(layout.block()[line] == (layout.name@, GutterLine::Name));
        } else {
            assert(layout.block()[base + (line - base)] == (layout.files@[line - base].text@, GutterLine::File((line - base) as usize)));
        }
    }
}

} // verus!
