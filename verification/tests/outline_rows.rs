use awl::outline::{Heading, OutlineRung};
use awl::outline_plan::{plan_outline_rows, FoldTail, OutlinePlanRow};
use awl::pipeline::TextPipeline;

fn hl(level: u8, text: &str, line: usize) -> Heading {
    Heading { level, text: text.into(), line }
}

/// `# A`, `## B`, `### c`, `## D`.
fn doc_heads() -> Vec<Heading> {
    vec![hl(1, "A", 0), hl(2, "B", 3), hl(3, "c", 5), hl(2, "D", 9)]
}

fn headings_of(rows: &[OutlinePlanRow]) -> Vec<usize> {
    rows.iter().map(|r| r.heading).collect()
}

#[test]
fn a_short_outline_shows_every_heading_from_the_top_with_its_gaps() {
    let rows = plan_outline_rows(&doc_heads(), Some(2), false, 10, 20, &[]).expect("rows");
    assert_eq!(headings_of(&rows), vec![0, 1, 2, 3]);
    assert_eq!(
        rows.iter().map(|r| r.gap_before).collect::<Vec<_>>(),
        vec![false, true, false, true],
        "a gap opens above each top-level heading after the first"
    );
    assert_eq!(rows.iter().map(|r| r.line).collect::<Vec<_>>(), vec![0, 3, 5, 9]);
    assert!(rows.iter().all(|r| !r.faded && !r.collapsed && r.hidden == 0));
    assert!(rows[2].current && rows[2].rung == OutlineRung::Content);
    for r in [&rows[0], &rows[1], &rows[3]] {
        assert!(!r.current);
        assert_eq!(r.rung, OutlineRung::Faint);
    }
}

#[test]
fn the_row_budget_shrinks_until_rows_and_gaps_fit_the_band() {
    // Four rows and two gaps need ten half rows; nine hold three rows and the
    // one gap between them.
    let rows = plan_outline_rows(&doc_heads(), Some(2), false, 10, 9, &[]).expect("rows");
    assert_eq!(headings_of(&rows), vec![0, 1, 2]);
    assert!(!rows[2].faded, "the clipped bottom edge is the current row, which never fades");
    assert!(rows.iter().all(|r| !r.faded));
}

#[test]
fn the_window_follows_the_current_heading_and_fades_clipped_edges() {
    let rows = plan_outline_rows(&doc_heads(), Some(3), false, 10, 9, &[]).expect("rows");
    assert_eq!(headings_of(&rows), vec![1, 2, 3]);
    assert!(rows[0].faded, "the top row is clipped and not current");
    assert!(!rows[0].gap_before, "no gap above the first visible row");
    assert!(!rows[1].faded);
    assert!(rows[2].current && !rows[2].faded && rows[2].gap_before);
}

#[test]
fn a_single_row_budget_still_shows_the_current_heading() {
    let rows = plan_outline_rows(&doc_heads(), Some(2), false, 1, 0, &[]).expect("rows");
    assert_eq!(headings_of(&rows), vec![2]);
    assert!(rows[0].current);
    let rows = plan_outline_rows(&doc_heads(), Some(1), false, 10, 0, &[]).expect("rows");
    assert_eq!(headings_of(&rows), vec![1], "the band shrinks the window to one row");
    assert!(!rows[0].faded && !rows[0].gap_before);
}

#[test]
fn a_folded_heading_carries_its_hidden_line_count() {
    let folds = [FoldTail { line: 3, hidden: 5 }, FoldTail { line: 3, hidden: 7 }];
    let rows = plan_outline_rows(&doc_heads(), None, false, 10, 20, &folds).expect("rows");
    assert!(rows[1].collapsed);
    assert_eq!(rows[1].hidden, 5, "the first fold on the line counts");
    assert!(rows.iter().enumerate().all(|(i, r)| i == 1 || (!r.collapsed && r.hidden == 0)));
    assert!(rows.iter().all(|r| !r.current));
}

#[test]
fn the_depth_reveal_hides_other_sections_deep_headings() {
    let mut hs = doc_heads();
    hs.push(hl(3, "e", 11));
    let rows = plan_outline_rows(&hs, Some(2), true, 10, 20, &[]).expect("rows");
    assert_eq!(headings_of(&rows), vec![0, 1, 2, 3]);
    let rows = plan_outline_rows(&hs, Some(4), true, 10, 20, &[]).expect("rows");
    assert_eq!(headings_of(&rows), vec![0, 1, 3, 4]);
    assert!(rows[3].current);
}

#[test]
fn no_headings_or_no_room_shows_no_outline() {
    assert_eq!(plan_outline_rows(&[], None, false, 10, 20, &[]), None);
    assert_eq!(plan_outline_rows(&doc_heads(), Some(0), false, 0, 20, &[]), None);
}

#[test]
fn an_open_overlay_or_a_plain_buffer_hides_the_outline() {
    let mut p = TextPipeline::new();
    p.outline_headings = doc_heads();
    p.cursor_line = 6;
    assert_eq!(p.outline_rows(false, 10, 20), None, "not markdown");
    p.md_enabled = true;
    let rows = p.outline_rows(false, 10, 20).expect("rows");
    assert_eq!(headings_of(&rows), vec![0, 1, 2, 3]);
    assert!(rows[2].current, "line 6 sits under the heading on line 5");
    p.overlay_active = true;
    assert_eq!(p.outline_rows(false, 10, 20), None, "summoned overlays own the margins");
}
