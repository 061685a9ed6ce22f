//! The live-typing benchmark's work counters: what each keystroke's spell
//! refresh and frame preparation did, summed over the run, and the checks the
//! run must pass for its timings to mean anything.
use vstd::prelude::*;
use vstd::string::StringExecFns;
use crate::text::{decimal, push_decimal};

verus! {

/// Keystrokes one live-typing run types.
pub const TYPING_KEYS: u64 = 30;

/// The spell projection's work in one refresh.
#[derive(Clone, Copy, PartialEq, Eq, Debug, Structural)]
pub struct SpellRefreshWork {
    pub line_keys_scanned: u64,
    pub lines_tokenized: u64,
    pub bytes_tokenized: u64,
    pub full_scans: u64,
}

/// One prepared frame's work counters: the row-geometry patching, and each
/// frame-preparation owner's scan. `squiggle_scan_timed` says the squiggle
/// scan took measurable time.
#[derive(Clone, Copy, PartialEq, Eq, Debug, Structural)]
pub struct FrameWork {
    pub geometry_patch_hits: u64,
    pub geometry_lines_patched: u64,
    pub geometry_rows_patched: u64,
    pub geometry_index_probes: u64,
    pub nit_scan_lines: u64,
    pub ornament_scan_lines: u64,
    pub ornament_scan_spans: u64,
    pub destination_join_calls: u64,
    pub destination_join_bytes: u64,
    pub squiggle_scan_misspellings: u64,
    pub squiggle_scan_timed: bool,
    pub squiggle_lines_rebuilt: u64,
    pub evidence_scan_lines: u64,
    pub spans_scan_bytes: u64,
    pub spans_scan_lines: u64,
}

/// The run's counters. Line, call and patch counts are sums over every key;
/// a `_misses` count is the number of keys on which that owner rescanned;
/// `ornament_scan_spans`, `destination_join_bytes` and the `spans_scan_`
/// sizes are the largest any key saw.
#[derive(Clone, Copy, PartialEq, Eq, Debug, Structural)]
pub struct TypingCounters {
    pub spell_work: SpellRefreshWork,
    pub geometry_patch_hits: u64,
    pub geometry_lines_patched: u64,
    pub geometry_rows_patched: u64,
    pub geometry_index_probes: u64,
    pub nit_scan_lines: u64,
    pub nit_scan_misses: u64,
    pub ornament_scan_lines: u64,
    pub ornament_scan_spans: u64,
    pub ornament_scan_misses: u64,
    pub destination_join_calls: u64,
    pub destination_join_bytes: u64,
    pub squiggle_scan_misspellings: u64,
    pub squiggle_scan_misses: u64,
    pub squiggle_lines_rebuilt: u64,
    pub evidence_scan_lines: u64,
    pub spans_scan_bytes: u64,
    pub spans_scan_lines: u64,
}

/// Why a live-typing run's counters refuse its timings.
#[derive(Clone, Copy, PartialEq, Eq, Debug, Structural)]
pub enum TypingViolation {
    /// The document did not reshape exactly once per keystroke.
    Reshapes { got: u64 },
    /// The typed characters did not change the rendered frame.
    Unchanged,
    /// Ordinary prose took a full spell scan.
    FullSpellScan,
    /// Ordinary prose did not tokenize exactly one edited line per key.
    TokenizedLines { got: u64 },
    /// Prose did not retain its row geometry once per key.
    PatchHits { got: u64 },
    /// Prose did not patch exactly one logical line per key.
    PatchedLines { got: u64 },
    /// The row lookup did not stay logarithmic.
    IndexProbes { got: u64 },
    /// The novel's edits did not replace one visual row per key.
    PatchedRows { got: u64 },
    /// The squiggle geometry was rebuilt outside the edited line.
    SquiggleRebuilt { got: u64 },
}

/// The larger of two counts.
pub open spec fn larger(a: u64, b: u64) -> u64 {
    if a >= b { a } else { b }
}

/// `1` when a key counts as a miss, else `0`.
pub open spec fn miss(b: bool) -> int {
    if b { 1 } else { 0 }
}

/// Adding one refresh's work keeps every sum in range.
pub open spec fn spell_fits(c: TypingCounters, w: SpellRefreshWork) -> bool {
    &&& c.spell_work.line_keys_scanned + w.line_keys_scanned <= u64::MAX
    &&& c.spell_work.lines_tokenized + w.lines_tokenized <= u64::MAX
    &&& c.spell_work.bytes_tokenized + w.bytes_tokenized <= u64::MAX
    &&& c.spell_work.full_scans + w.full_scans <= u64::MAX
}

/// Adding one frame's work keeps every sum in range.
pub open spec fn frame_fits(c: TypingCounters, f: FrameWork) -> bool {
    &&& c.geometry_patch_hits + f.geometry_patch_hits <= u64::MAX
    &&& c.geometry_lines_patched + f.geometry_lines_patched <= u64::MAX
    &&& c.geometry_rows_patched + f.geometry_rows_patched <= u64::MAX
    &&& c.geometry_index_probes + f.geometry_index_probes <= u64::MAX
    &&& c.nit_scan_lines + f.nit_scan_lines <= u64::MAX
    &&& c.nit_scan_misses + 1 <= u64::MAX
    &&& c.ornament_scan_lines + f.ornament_scan_lines <= u64::MAX
    &&& c.ornament_scan_misses + 1 <= u64::MAX
    &&& c.destination_join_calls + f.destination_join_calls <= u64::MAX
    &&& c.squiggle_scan_misspellings + f.squiggle_scan_misspellings <= u64::MAX
    &&& c.squiggle_scan_misses + 1 <= u64::MAX
    &&& c.squiggle_lines_rebuilt + f.squiggle_lines_rebuilt <= u64::MAX
    &&& c.evidence_scan_lines + f.evidence_scan_lines <= u64::MAX
}

/// The counters after one more frame.
pub open spec fn with_frame(c: TypingCounters, f: FrameWork) -> TypingCounters {
    TypingCounters {
        spell_work: c.spell_work,
        geometry_patch_hits: (c.geometry_patch_hits + f.geometry_patch_hits) as u64,
        geometry_lines_patched: (c.geometry_lines_patched + f.geometry_lines_patched) as u64,
        geometry_rows_patched: (c.geometry_rows_patched + f.geometry_rows_patched) as u64,
        geometry_index_probes: (c.geometry_index_probes + f.geometry_index_probes) as u64,
        nit_scan_lines: (c.nit_scan_lines + f.nit_scan_lines) as u64,
        nit_scan_misses: (c.nit_scan_misses + miss(f.nit_scan_lines > 0)) as u64,
        ornament_scan_lines: (c.ornament_scan_lines + f.ornament_scan_lines) as u64,
        ornament_scan_spans: larger(c.ornament_scan_spans, f.ornament_scan_spans),
        ornament_scan_misses: (c.ornament_scan_misses + miss(f.ornament_scan_lines > 0)) as u64,
        destination_join_calls: (c.destination_join_calls + f.destination_join_calls) as u64,
        destination_join_bytes: larger(c.destination_join_bytes, f.destination_join_bytes),
        squiggle_scan_misspellings: (c.squiggle_scan_misspellings + f.squiggle_scan_misspellings) as u64,
        squiggle_scan_misses: (c.squiggle_scan_misses + miss(f.squiggle_scan_misspellings > 0 || f.squiggle_scan_timed)) as u64,
        squiggle_lines_rebuilt: (c.squiggle_lines_rebuilt + f.squiggle_lines_rebuilt) as u64,
        evidence_scan_lines: (c.evidence_scan_lines + f.evidence_scan_lines) as u64,
        spans_scan_bytes: larger(c.spans_scan_bytes, f.spans_scan_bytes),
        spans_scan_lines: larger(c.spans_scan_lines, f.spans_scan_lines),
    }
}

/// The first check a run's counters fail, in the order the run checks them,
/// or `None` when they pass. `prose` is a document with no syntax language;
/// `novel` is the long prose fixture.
pub open spec fn spec_violation(c: TypingCounters, reshapes: u64, changed: u64, prose: bool, novel: bool) -> Option<TypingViolation> {
    if reshapes != TYPING_KEYS {
        Some(TypingViolation::Reshapes { got: reshapes })
    } else if changed == 0 {
        Some(TypingViolation::Unchanged)
    } else if prose && c.spell_work.full_scans != 0 {
        Some(TypingViolation::FullSpellScan)
    } else if prose && c.spell_work.lines_tokenized != TYPING_KEYS {
        Some(TypingViolation::TokenizedLines { got: c.spell_work.lines_tokenized })
    } else if novel && c.geometry_patch_hits != TYPING_KEYS {
        Some(TypingViolation::PatchHits { got: c.geometry_patch_hits })
    } else if novel && c.geometry_lines_patched != TYPING_KEYS {
        Some(TypingViolation::PatchedLines { got: c.geometry_lines_patched })
    } else if novel && c.geometry_index_probes > TYPING_KEYS * 64 {
        Some(TypingViolation::IndexProbes { got: c.geometry_index_probes })
    } else if novel && c.geometry_rows_patched != TYPING_KEYS {
        Some(TypingViolation::PatchedRows { got: c.geometry_rows_patched })
    } else if novel && c.squiggle_lines_rebuilt > TYPING_KEYS {
        Some(TypingViolation::SquiggleRebuilt { got: c.squiggle_lines_rebuilt })
    } else {
        None
    }
}

/// The run's named witnesses, in report order: the run's own reshapes,
/// changed pixels, words and corpus fingerprint, then every counter.
pub open spec fn witness_list(c: TypingCounters, reshapes: u64, changed: u64, words: u64, corpus_fnv: u64) -> Seq<(Seq<char>, u64)> {
    seq![
        ("reshapes"@, reshapes),
        ("pixels_changed"@, changed),
        ("words"@, words),
        ("corpus_fnv"@, corpus_fnv),
        ("spell_line_keys"@, c.spell_work.line_keys_scanned),
        ("spell_lines_tokenized"@, c.spell_work.lines_tokenized),
        ("spell_bytes_tokenized"@, c.spell_work.bytes_tokenized),
        ("spell_full_scans"@, c.spell_work.full_scans),
        ("geometry_patch_hits"@, c.geometry_patch_hits),
        ("geometry_lines_patched"@, c.geometry_lines_patched),
        ("geometry_rows_patched"@, c.geometry_rows_patched),
        ("geometry_index_probes"@, c.geometry_index_probes),
        ("nit_scan_lines"@, c.nit_scan_lines),
        ("nit_scan_misses"@, c.nit_scan_misses),
        ("ornament_scan_lines"@, c.ornament_scan_lines),
        ("ornament_scan_spans"@, c.ornament_scan_spans),
        ("ornament_scan_misses"@, c.ornament_scan_misses),
        ("destination_join_calls"@, c.destination_join_calls),
        ("destination_join_bytes"@, c.destination_join_bytes),
        ("squiggle_scan_misspellings"@, c.squiggle_scan_misspellings),
        ("squiggle_scan_misses"@, c.squiggle_scan_misses),
        ("squiggle_lines_rebuilt"@, c.squiggle_lines_rebuilt),
        ("evidence_scan_lines_total"@, c.evidence_scan_lines),
        ("spans_scan_bytes"@, c.spans_scan_bytes),
        ("spans_scan_lines"@, c.spans_scan_lines),
    ]
}

/// The larger of two counts.
fn max_u64(a: u64, b: u64) -> (m: u64)
    ensures
        m == larger(a, b),
{
    if a >= b {
        a
    } else {
        b
    }
}

impl TypingCounters {
    /// A run before its first key: every counter zero.
    pub fn new() -> (c: TypingCounters)
        ensures
            c == (TypingCounters {
                spell_work: SpellRefreshWork { line_keys_scanned: 0, lines_tokenized: 0, bytes_tokenized: 0, full_scans: 0 },
                geometry_patch_hits: 0,
                geometry_lines_patched: 0,
                geometry_rows_patched: 0,
                geometry_index_probes: 0,
                nit_scan_lines: 0,
                nit_scan_misses: 0,
                ornament_scan_lines: 0,
                ornament_scan_spans: 0,
                ornament_scan_misses: 0,
                destination_join_calls: 0,
                destination_join_bytes: 0,
                squiggle_scan_misspellings: 0,
                squiggle_scan_misses: 0,
                squiggle_lines_rebuilt: 0,
                evidence_scan_lines: 0,
                spans_scan_bytes: 0,
                spans_scan_lines: 0,
            }),
    {
        TypingCounters {
            spell_work: SpellRefreshWork { line_keys_scanned: 0, lines_tokenized: 0, bytes_tokenized: 0, full_scans: 0 },
            geometry_patch_hits: 0,
            geometry_lines_patched: 0,
            geometry_rows_patched: 0,
            geometry_index_probes: 0,
            nit_scan_lines: 0,
            nit_scan_misses: 0,
            ornament_scan_lines: 0,
            ornament_scan_spans: 0,
            ornament_scan_misses: 0,
            destination_join_calls: 0,
            destination_join_bytes: 0,
            squiggle_scan_misspellings: 0,
            squiggle_scan_misses: 0,
            squiggle_lines_rebuilt: 0,
            evidence_scan_lines: 0,
            spans_scan_bytes: 0,
            spans_scan_lines: 0,
        }
    }

    /// Add one key's spell-refresh work.
    pub fn add_spell(&mut self, work: SpellRefreshWork)
        requires
            spell_fits(*old(self), work),
        ensures
            *final(self) == (TypingCounters {
                spell_work: SpellRefreshWork {
                    line_keys_scanned: (old(self).spell_work.line_keys_scanned + work.line_keys_scanned) as u64,
                    lines_tokenized: (old(self).spell_work.lines_tokenized + work.lines_tokenized) as u64,
                    bytes_tokenized: (old(self).spell_work.bytes_tokenized + work.bytes_tokenized) as u64,
                    full_scans: (old(self).spell_work.full_scans + work.full_scans) as u64,
                },
                ..*old(self)
            }),
    {
        self.spell_work.line_keys_scanned = self.spell_work.line_keys_scanned + work.line_keys_scanned;
        self.spell_work.lines_tokenized = self.spell_work.lines_tokenized + work.lines_tokenized;
        self.spell_work.bytes_tokenized = self.spell_work.bytes_tokenized + work.bytes_tokenized;
        self.spell_work.full_scans = self.spell_work.full_scans + work.full_scans;
    }

    /// Add one key's frame work (see `with_frame`).
    pub fn add_frame(&mut self, frame: FrameWork)
        requires
            frame_fits(*old(self), frame),
        ensures
            *final(self) == with_frame(*old(self), frame),
    {
        self.geometry_patch_hits = self.geometry_patch_hits + frame.geometry_patch_hits;
        self.geometry_lines_patched = self.geometry_lines_patched + frame.geometry_lines_patched;
        self.geometry_rows_patched = self.geometry_rows_patched + frame.geometry_rows_patched;
        self.geometry_index_probes = self.geometry_index_probes + frame.geometry_index_probes;
        self.nit_scan_lines = self.nit_scan_lines + frame.nit_scan_lines;
        if frame.nit_scan_lines > 0 {
            self.nit_scan_misses = self.nit_scan_misses + 1;
        }
        self.ornament_scan_lines = self.ornament_scan_lines + frame.ornament_scan_lines;
        self.ornament_scan_spans = max_u64(self.ornament_scan_spans, frame.ornament_scan_spans);
        if frame.ornament_scan_lines > 0 {
            self.ornament_scan_misses = self.ornament_scan_misses + 1;
        }
        self.destination_join_calls = self.destination_join_calls + frame.destination_join_calls;
        self.destination_join_bytes = max_u64(self.destination_join_bytes, frame.destination_join_bytes);
        self.squiggle_scan_misspellings = self.squiggle_scan_misspellings + frame.squiggle_scan_misspellings;
        if frame.squiggle_scan_misspellings > 0 || frame.squiggle_scan_timed {
            self.squiggle_scan_misses = self.squiggle_scan_misses + 1;
        }
        self.squiggle_lines_rebuilt = self.squiggle_lines_rebuilt + frame.squiggle_lines_rebuilt;
        self.evidence_scan_lines = self.evidence_scan_lines + frame.evidence_scan_lines;
        self.spans_scan_bytes = max_u64(self.spans_scan_bytes, frame.spans_scan_bytes);
        self.spans_scan_lines = max_u64(self.spans_scan_lines, frame.spans_scan_lines);
    }

    /// Check the run: `reshapes` reshapes and `changed` changed pixels over
    /// the run, on a `prose` document (no syntax language), the `novel`
    /// fixture among them. The first failing check, or `Ok`.
    pub fn validate(&self, reshapes: u64, changed: u64, prose: bool, novel: bool) -> (r: Result<(), TypingViolation>)
        ensures
            match spec_violation(*self, reshapes, changed, prose, novel) {
                Some(v) => r == Err::<(), TypingViolation>(v),
                None => r is Ok,
            },
    {
        if reshapes != TYPING_KEYS {
            return Err(TypingViolation::Reshapes { got: reshapes });
        }
        if changed == 0 {
            return Err(TypingViolation::Unchanged);
        }
        if prose {
            if self.spell_work.full_scans != 0 {
                return Err(TypingViolation::FullSpellScan);
            }
            if self.spell_work.lines_tokenized != TYPING_KEYS {
                return Err(TypingViolation::TokenizedLines { got: self.spell_work.lines_tokenized });
            }
        }
        if novel {
            if self.geometry_patch_hits != TYPING_KEYS {
                return Err(TypingViolation::PatchHits { got: self.geometry_patch_hits });
            }
            if self.geometry_lines_patched != TYPING_KEYS {
                return Err(TypingViolation::PatchedLines { got: self.geometry_lines_patched });
            }
            if self.geometry_index_probes > TYPING_KEYS * 64 {
                return Err(TypingViolation::IndexProbes { got: self.geometry_index_probes });
            }
            if self.geometry_rows_patched != TYPING_KEYS {
                return Err(TypingViolation::PatchedRows { got: self.geometry_rows_patched });
            }
            if self.squiggle_lines_rebuilt > TYPING_KEYS {
                return Err(TypingViolation::SquiggleRebuilt { got: self.squiggle_lines_rebuilt });
            }
        }
        Ok(())
    }

    /// The run's named witnesses (see `witness_list`).
    pub fn witnesses(&self, reshapes: u64, changed: u64, words: u64, corpus_fnv: u64) -> (out: Vec<(&'static str, u64)>)
        ensures
            out@.len() == witness_list(*self, reshapes, changed, words, corpus_fnv).len(),
            forall|k: int| 0 <= k < out@.len() ==> (#[trigger] out@[k]).0@ == witness_list(*self, reshapes, changed, words, corpus_fnv)[k].0
                && out@[k].1 == witness_list(*self, reshapes, changed, words, corpus_fnv)[k].1,
    {
        let c = self;
        let mut out: Vec<(&'static str, u64)> = Vec::new();
        out.push(("reshapes", reshapes));
        out.push(("pixels_changed", changed));
        out.push(("words", words));
        out.push(("corpus_fnv", corpus_fnv));
        out.push(("spell_line_keys", c.spell_work.line_keys_scanned));
        out.push(("spell_lines_tokenized", c.spell_work.lines_tokenized));
        out.push(("spell_bytes_tokenized", c.spell_work.bytes_tokenized));
        out.push(("spell_full_scans", c.spell_work.full_scans));
        out.push(("geometry_patch_hits", c.geometry_patch_hits));
        out.push(("geometry_lines_patched", c.geometry_lines_patched));
        out.push(("geometry_rows_patched", c.geometry_rows_patched));
        out.push(("geometry_index_probes", c.geometry_index_probes));
        out.push(("nit_scan_lines", c.nit_scan_lines));
        out.push(("nit_scan_misses", c.nit_scan_misses));
        out.push(("ornament_scan_lines", c.ornament_scan_lines));
        out.push(("ornament_scan_spans", c.ornament_scan_spans));
        out.push(("ornament_scan_misses", c.ornament_scan_misses));
        out.push(("destination_join_calls", c.destination_join_calls));
        out.push(("destination_join_bytes", c.destination_join_bytes));
        out.push(("squiggle_scan_misspellings", c.squiggle_scan_misspellings));
        out.push(("squiggle_scan_misses", c.squiggle_scan_misses));
        out.push(("squiggle_lines_rebuilt", c.squiggle_lines_rebuilt));
        out.push(("evidence_scan_lines_total", c.evidence_scan_lines));
        out.push(("spans_scan_bytes", c.spans_scan_bytes));
        out.push(("spans_scan_lines", c.spans_scan_lines));
        out
    }
}

} // verus!

verus! {

/// A frame's work only ever accumulates: no sum or largest-seen size goes
/// down, and each miss count grows by at most the one key.
pub proof fn law_frame_work_only_accumulates(c: TypingCounters, f: FrameWork)
    requires
        frame_fits(c, f),
    ensures
        with_frame(c, f).geometry_patch_hits >= c.geometry_patch_hits,
        with_frame(c, f).geometry_lines_patched >= c.geometry_lines_patched,
        with_frame(c, f).geometry_rows_patched >= c.geometry_rows_patched,
        with_frame(c, f).geometry_index_probes >= c.geometry_index_probes,
        with_frame(c, f).nit_scan_lines >= c.nit_scan_lines,
        c.nit_scan_misses <= with_frame(c, f).nit_scan_misses <= c.nit_scan_misses + 1,
        with_frame(c, f).ornament_scan_lines >= c.ornament_scan_lines,
        with_frame(c, f).ornament_scan_spans >= c.ornament_scan_spans,
        with_frame(c, f).ornament_scan_spans >= f.ornament_scan_spans,
        c.ornament_scan_misses <= with_frame(c, f).ornament_scan_misses <= c.ornament_scan_misses + 1,
        with_frame(c, f).destination_join_calls >= c.destination_join_calls,
        with_frame(c, f).destination_join_bytes >= c.destination_join_bytes,
        with_frame(c, f).squiggle_scan_misspellings >= c.squiggle_scan_misspellings,
        c.squiggle_scan_misses <= with_frame(c, f).squiggle_scan_misses <= c.squiggle_scan_misses + 1,
        with_frame(c, f).squiggle_lines_rebuilt >= c.squiggle_lines_rebuilt,
        with_frame(c, f).evidence_scan_lines >= c.evidence_scan_lines,
        with_frame(c, f).spans_scan_bytes >= c.spans_scan_bytes,
        with_frame(c, f).spans_scan_lines >= c.spans_scan_lines,
        with_frame(c, f).spell_work == c.spell_work,
{
}

} // verus!

verus! {

/// The sentence a refused run reports.
pub open spec fn violation_text(v: TypingViolation) -> Seq<char> {
    match v {
        TypingViolation::Reshapes { got } => "typing_live must reshape exactly once per keystroke, got "@
            + decimal(got as nat) + " over "@ + decimal(TYPING_KEYS as nat),
        TypingViolation::Unchanged => "typing_live characters must change the rendered frame"@,
        TypingViolation::FullSpellScan => "typing_live ordinary prose must not take a full spell scan"@,
        TypingViolation::TokenizedLines { .. } => "typing_live must tokenize exactly one edited line per key"@,
        TypingViolation::PatchHits { got } => "typing_live prose must retain row geometry once per key, got "@
            + decimal(got as nat),
        TypingViolation::PatchedLines { .. } => "typing_live prose must patch exactly one logical line per key"@,
        TypingViolation::IndexProbes { got } => "typing_live row lookup must remain logarithmic, got "@
            + decimal(got as nat) + " probes"@,
        TypingViolation::PatchedRows { .. } => "typing_live novel edits must replace one visual row per key"@,
        TypingViolation::SquiggleRebuilt { got } => "typing_live prose must retain squiggle geometry outside the edited line, got "@ + decimal(got as nat)
            + " lines rebuilt over "@ + decimal(TYPING_KEYS as nat) + " keys — the retained SquiggleProjection did not engage (a full-document reseed would report far more)"@,
    }
}

impl TypingViolation {
    /// The sentence a refused run reports (see `violation_text`).
    pub fn message(&self) -> (s: String)
        ensures
            s@ == violation_text(*self),
    {
        match *self {
            TypingViolation::Reshapes { got } => {
                let mut s = String::from_str("typing_live must reshape exactly once per keystroke, got ");
                push_decimal(&mut s, got);
                s.append(" over ");
                push_decimal(&mut s, TYPING_KEYS);
                s
            },
            TypingViolation::Unchanged => String::from_str("typing_live characters must change the rendered frame"),
            TypingViolation::FullSpellScan => String::from_str("typing_live ordinary prose must not take a full spell scan"),
            TypingViolation::TokenizedLines { .. } => String::from_str("typing_live must tokenize exactly one edited line per key"),
            TypingViolation::PatchHits { got } => {
                let mut s = String::from_str("typing_live prose must retain row geometry once per key, got ");
                push_decimal(&mut s, got);
                s
            },
            TypingViolation::PatchedLines { .. } => String::from_str("typing_live prose must patch exactly one logical line per key"),
            TypingViolation::IndexProbes { got } => {
                let mut s = String::from_str("typing_live row lookup must remain logarithmic, got ");
                push_decimal(&mut s, got);
                s.append(" probes");
                s
            },
            TypingViolation::PatchedRows { .. } => String::from_str("typing_live novel edits must replace one visual row per key"),
            TypingViolation::SquiggleRebuilt { got } => {
                let mut s = String::from_str("typing_live prose must retain squiggle geometry outside the edited line, got ");
                push_decimal(&mut s, got);
                s.append(" lines rebuilt over ");
                push_decimal(&mut s, TYPING_KEYS);
                s.append(" keys — the retained SquiggleProjection did not engage (a full-document reseed would report far more)");
                s
            },
        }
    }
}

} // verus!
