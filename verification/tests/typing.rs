use awl::typing::{FrameWork, SpellRefreshWork, TypingCounters, TypingViolation, TYPING_KEYS};

fn quiet_frame() -> FrameWork {
    FrameWork {
        geometry_patch_hits: 1,
        geometry_lines_patched: 1,
        geometry_rows_patched: 1,
        geometry_index_probes: 12,
        nit_scan_lines: 0,
        ornament_scan_lines: 0,
        ornament_scan_spans: 3,
        destination_join_calls: 2,
        destination_join_bytes: 400,
        squiggle_scan_misspellings: 0,
        squiggle_scan_timed: false,
        squiggle_lines_rebuilt: 1,
        evidence_scan_lines: 1,
        spans_scan_bytes: 900,
        spans_scan_lines: 40,
    }
}

fn one_line_spell() -> SpellRefreshWork {
    SpellRefreshWork { line_keys_scanned: 5, lines_tokenized: 1, bytes_tokenized: 60, full_scans: 0 }
}

/// A clean run: every key retained its geometry and spell state.
fn clean_run() -> TypingCounters {
    let mut c = TypingCounters::new();
    for _ in 0..TYPING_KEYS {
        c.add_spell(one_line_spell());
        c.add_frame(quiet_frame());
    }
    c
}

#[test]
fn a_fresh_run_counts_nothing() {
    let c = TypingCounters::new();
    assert_eq!(c.spell_work.lines_tokenized, 0);
    assert_eq!(c.geometry_patch_hits, 0);
    assert_eq!(c.spans_scan_lines, 0);
}

#[test]
fn frames_sum_their_counts_keep_the_largest_sizes_and_count_misses() {
    let mut c = TypingCounters::new();
    c.add_frame(quiet_frame());
    let mut busy = quiet_frame();
    busy.nit_scan_lines = 7;
    busy.ornament_scan_lines = 2;
    busy.ornament_scan_spans = 1;
    busy.destination_join_bytes = 100;
    busy.squiggle_scan_timed = true;
    busy.spans_scan_bytes = 1200;
    c.add_frame(busy);
    assert_eq!(c.geometry_patch_hits, 2);
    assert_eq!(c.geometry_index_probes, 24);
    assert_eq!(c.nit_scan_lines, 7);
    assert_eq!(c.nit_scan_misses, 1);
    assert_eq!(c.ornament_scan_misses, 1);
    assert_eq!(c.ornament_scan_spans, 3, "the largest, not the last");
    assert_eq!(c.destination_join_calls, 4);
    assert_eq!(c.destination_join_bytes, 400);
    assert_eq!(c.squiggle_scan_misses, 1, "a timed squiggle scan is a miss");
    assert_eq!(c.spans_scan_bytes, 1200);
    assert_eq!(c.spans_scan_lines, 40);
    assert_eq!(c.evidence_scan_lines, 2);
}

#[test]
fn spell_work_sums_every_counter() {
    let mut c = TypingCounters::new();
    c.add_spell(one_line_spell());
    c.add_spell(SpellRefreshWork { line_keys_scanned: 1, lines_tokenized: 2, bytes_tokenized: 3, full_scans: 1 });
    assert_eq!(
        c.spell_work,
        SpellRefreshWork { line_keys_scanned: 6, lines_tokenized: 3, bytes_tokenized: 63, full_scans: 1 }
    );
}

#[test]
fn a_clean_run_passes_every_check() {
    let c = clean_run();
    assert_eq!(c.validate(TYPING_KEYS, 5, true, true), Ok(()));
    assert_eq!(c.validate(TYPING_KEYS, 5, false, false), Ok(()));
}

#[test]
fn each_broken_promise_names_its_own_check() {
    let c = clean_run();
    assert_eq!(c.validate(29, 5, true, true), Err(TypingViolation::Reshapes { got: 29 }));
    assert_eq!(c.validate(TYPING_KEYS, 0, true, true), Err(TypingViolation::Unchanged));

    let mut full = clean_run();
    full.add_spell(SpellRefreshWork { line_keys_scanned: 0, lines_tokenized: 0, bytes_tokenized: 0, full_scans: 1 });
    assert_eq!(full.validate(TYPING_KEYS, 5, true, false), Err(TypingViolation::FullSpellScan));
    assert_eq!(full.validate(TYPING_KEYS, 5, false, false), Ok(()), "code may take a full scan");

    let mut extra = clean_run();
    extra.add_spell(one_line_spell());
    assert_eq!(extra.validate(TYPING_KEYS, 5, true, false), Err(TypingViolation::TokenizedLines { got: 31 }));

    let mut geo = clean_run();
    geo.add_frame(FrameWork { geometry_lines_patched: 0, geometry_rows_patched: 0, geometry_index_probes: 0, ..quiet_frame() });
    assert_eq!(geo.validate(TYPING_KEYS, 5, true, true), Err(TypingViolation::PatchHits { got: 31 }));
    assert_eq!(geo.validate(TYPING_KEYS, 5, true, false), Ok(()), "only the novel pins its geometry");

    let mut lines = clean_run();
    lines.add_frame(FrameWork { geometry_patch_hits: 0, geometry_rows_patched: 0, geometry_index_probes: 0, ..quiet_frame() });
    assert_eq!(lines.validate(TYPING_KEYS, 5, true, true), Err(TypingViolation::PatchedLines { got: 31 }));

    let mut probes = clean_run();
    probes.add_frame(FrameWork {
        geometry_patch_hits: 0,
        geometry_lines_patched: 0,
        geometry_rows_patched: 0,
        geometry_index_probes: 1561,
        ..quiet_frame()
    });
    assert_eq!(probes.validate(TYPING_KEYS, 5, true, true), Err(TypingViolation::IndexProbes { got: 1921 }));

    let mut rows = clean_run();
    rows.add_frame(FrameWork { geometry_patch_hits: 0, geometry_lines_patched: 0, geometry_index_probes: 0, ..quiet_frame() });
    assert_eq!(rows.validate(TYPING_KEYS, 5, true, true), Err(TypingViolation::PatchedRows { got: 31 }));

    let mut squiggles = clean_run();
    squiggles.add_frame(FrameWork {
        geometry_patch_hits: 0,
        geometry_lines_patched: 0,
        geometry_rows_patched: 0,
        geometry_index_probes: 0,
        squiggle_lines_rebuilt: 4,
        ..quiet_frame()
    });
    assert_eq!(squiggles.validate(TYPING_KEYS, 5, true, true), Err(TypingViolation::SquiggleRebuilt { got: 34 }));
}

#[test]
fn the_witnesses_name_every_counter_in_report_order() {
    let c = clean_run();
    let w = c.witnesses(30, 7, 1000, 0xfeed);
    assert_eq!(w.len(), 25);
    assert_eq!(&w[..4], &[("reshapes", 30), ("pixels_changed", 7), ("words", 1000), ("corpus_fnv", 0xfeed)]);
    assert_eq!(w[5], ("spell_lines_tokenized", 30));
    assert_eq!(w[8], ("geometry_patch_hits", 30));
    assert_eq!(w[11], ("geometry_index_probes", 360));
    assert_eq!(w[18], ("destination_join_bytes", 400));
    assert_eq!(w[22], ("evidence_scan_lines_total", 30));
    assert_eq!(w[24], ("spans_scan_lines", 40));
}

#[test]
fn a_refused_run_says_which_promise_it_broke() {
    assert_eq!(
        TypingViolation::Reshapes { got: 29 }.message(),
        "typing_live must reshape exactly once per keystroke, got 29 over 30"
    );
    assert_eq!(TypingViolation::Unchanged.message(), "typing_live characters must change the rendered frame");
    assert_eq!(
        TypingViolation::IndexProbes { got: 1921 }.message(),
        "typing_live row lookup must remain logarithmic, got 1921 probes"
    );
    assert_eq!(
        TypingViolation::PatchHits { got: 0 }.message(),
        "typing_live prose must retain row geometry once per key, got 0"
    );
    assert_eq!(
        TypingViolation::SquiggleRebuilt { got: 34 }.message(),
        "typing_live prose must retain squiggle geometry outside the edited line, got 34 lines rebuilt over 30 keys — \
         the retained SquiggleProjection did not engage (a full-document reseed would report far more)"
    );
}
