use awl::gutter::{GutterStackHit, RowIntent, StackRowKind};
use awl::hud::{CardView, Eol, HudSaved, HudStats, Lang, PeekRow, StreaksView, UpdateChecked};
use awl::outline::Heading;
use awl::pipeline::{OverlaySeat, TextPipeline, DocSource};

fn doc(lines: &[&str]) -> TextPipeline {
    let mut p = TextPipeline::new();
    p.lines = lines.iter().map(|l| l.to_string()).collect();
    p
}

fn row(keys: &str, action: &str) -> PeekRow {
    PeekRow { keys: keys.into(), action: action.into() }
}

fn heading(level: u8, line: usize) -> Heading {
    Heading { level, text: format!("h{line}"), line }
}

#[test]
fn a_pushed_update_check_reads_back_until_replaced() {
    let mut p = TextPipeline::new();
    assert_eq!(p.hud_update_checked(), None);
    p.set_update_checked(Some(UpdateChecked::Available));
    assert_eq!(p.hud_update_checked(), Some(UpdateChecked::Available));
    p.set_update_checked(Some(UpdateChecked::Current));
    assert_eq!(p.hud_update_checked(), Some(UpdateChecked::Current));
    p.set_update_checked(None);
    assert_eq!(p.hud_update_checked(), None);
}

#[test]
fn a_pending_crash_flag_reads_back() {
    let mut p = TextPipeline::new();
    assert!(!p.hud_pending_crash());
    p.set_pending_crash(true);
    assert!(p.hud_pending_crash());
    p.set_pending_crash(false);
    assert!(!p.hud_pending_crash());
}

#[test]
fn card_live_reads_back_every_pushed_figure() {
    let mut p = TextPipeline::new();
    let live = p.card_live();
    assert!(live.stats.is_none() && live.streaks.is_none() && live.saved.is_none());
    assert!(live.peek_rows.is_empty() && live.update_checked.is_none() && !live.pending_crash);

    let stats = HudStats { chars: 120, writing_secs: 3600, files: 4, caret_travel: 9000 };
    p.set_hud_stats(Some(stats));
    p.set_streaks(Some(StreaksView { streak: 3, today_words: 250, cumulative: vec![10, 40, 90], cells: vec![0, 1, 2] }));
    p.set_hud_saved(Some(HudSaved { dirty: false, secs_ago: 12 }));
    p.set_peek_rows(vec![row("C-s", "save")]);
    p.set_update_checked(Some(UpdateChecked::Current));
    p.set_pending_crash(true);
    p.set_keybindings_tips(vec!["tip".to_string()]);
    let live = p.card_live();
    assert_eq!(live.stats, Some(stats));
    let streaks = live.streaks.unwrap();
    assert_eq!((streaks.streak, streaks.today_words), (3, 250));
    assert_eq!(streaks.cumulative, vec![10, 40, 90]);
    assert_eq!(streaks.cells, vec![0, 1, 2]);
    assert_eq!(live.saved, Some(HudSaved { dirty: false, secs_ago: 12 }));
    assert_eq!(live.peek_rows.len(), 1);
    assert_eq!(live.peek_rows[0].keys, "C-s");
    assert_eq!(live.update_checked, Some(UpdateChecked::Current));
    assert!(live.pending_crash);
}

#[test]
fn clearing_the_hover_reports_a_change_only_once() {
    let mut p = TextPipeline::new();
    assert!(!p.clear_gutter_stack_hover(), "nothing to clear");
    p.gutter_stack_hover = Some(GutterStackHit { row: 2, kind: StackRowKind::File, intent: RowIntent::Close });
    assert!(p.clear_gutter_stack_hover());
    assert_eq!(p.gutter_stack_hover, None);
    assert!(!p.clear_gutter_stack_hover(), "a second clear changes nothing");
}

#[test]
fn the_close_predicate_reads_the_hit_intent() {
    let close = GutterStackHit { row: 0, kind: StackRowKind::File, intent: RowIntent::Close };
    let switch = GutterStackHit { row: 0, kind: StackRowKind::Group, intent: RowIntent::Switch };
    assert!(close.is_close());
    assert!(!switch.is_close());
}

#[test]
fn doc_text_rejoins_the_lines_with_newlines() {
    assert_eq!(doc(&[]).doc_text(), "");
    assert_eq!(doc(&["one"]).doc_text(), "one");
    assert_eq!(doc(&["one", "", "three"]).doc_text(), "one\n\nthree");
    let text = "a\nbb\n\nccc";
    let p = doc(&text.split('\n').collect::<Vec<_>>());
    assert_eq!(p.doc_text(), text, "splitting on newlines and rejoining is the identity");
}

#[test]
fn figures_read_the_recorded_document_when_one_stands_in() {
    let mut p = doc(&["shaped", "text"]);
    p.cursor_line = 1;
    p.cursor_col = 2;
    assert_eq!(p.figure_source(), ("shaped\ntext".to_string(), 1, 2, None));
    p.doc_source = Some(DocSource {
        text: "the real\ndocument\nhere".into(),
        cursor_line: 2,
        cursor_col: 4,
        selection: Some(((0, 1), (1, 3))),
    });
    assert_eq!(
        p.figure_source(),
        ("the real\ndocument\nhere".to_string(), 2, 4, Some(((0, 1), (1, 3))))
    );
}

#[test]
fn the_hud_percent_is_the_rounded_caret_offset_over_the_document() {
    let mut p = doc(&["abcd", "efgh"]);
    // 4 + 4 chars + 1 newline = 9.
    p.cursor_line = 0;
    p.cursor_col = 0;
    assert_eq!(p.hud_percent(), 0);
    p.cursor_line = 1;
    p.cursor_col = 0;
    assert_eq!(p.hud_percent(), 56, "5 / 9 = 55.6%");
    p.cursor_col = 4;
    assert_eq!(p.hud_percent(), 100);
    p.cursor_col = 400;
    assert_eq!(p.hud_percent(), 100, "an offset past the end is capped");
    let mut q = doc(&["ab", "cd", "ef", "gh"]);
    // 8 chars + 3 newlines = 11; caret at 1 + ... offset 3 on line 1 col 0.
    q.cursor_line = 1;
    q.cursor_col = 0;
    assert_eq!(q.hud_percent(), 27, "3 / 11 = 27.3%");
    assert_eq!(doc(&[]).hud_percent(), 0);
    assert_eq!(doc(&[""]).hud_percent(), 0);
    let mut r = doc(&["é日本"]);
    r.cursor_col = 1;
    assert_eq!(r.hud_percent(), 33, "chars, not bytes: 1 / 3");
    let mut half = doc(&["abcdefgh"]);
    half.cursor_col = 4;
    assert_eq!(half.hud_percent(), 50);
    let mut eighth = doc(&["abcdefgh"]);
    eighth.cursor_col = 1;
    assert_eq!(eighth.hud_percent(), 13, "12.5% rounds half up");
}

#[test]
fn the_hud_report_carries_the_percent_and_line_ending() {
    let mut p = doc(&["abcd", "efgh"]);
    p.cursor_line = 1;
    p.eol = Eol::Crlf;
    let r = p.hud_report(true, Some((8, 1)), Some(Lang { tag: "en".into() }), "saved".into());
    assert!(r.held);
    assert_eq!(r.words, Some((8, 1)));
    assert_eq!(r.percent, 56);
    assert_eq!(r.lang.unwrap().tag, "en");
    assert_eq!(r.eol, Eol::Crlf);
    assert_eq!(r.saved, "saved");
}

#[test]
fn the_footer_takes_one_separator_row_only_when_it_has_tips() {
    let mut p = TextPipeline::new();
    assert_eq!(p.overlay_footer_lines(), (Vec::new(), 0));
    p.set_keybindings_tips(vec!["a".into(), "b".into()]);
    assert_eq!(p.overlay_footer_lines(), (vec!["a".to_string(), "b".to_string()], 3));
}

#[test]
fn the_workspace_window_honours_both_caps_and_the_selection() {
    let mut p = TextPipeline::new();
    p.overlay_window_rows = 8;
    p.overlay_selected = 20;
    p.overlay_scroll = 0;
    assert_eq!(p.overlay_workspace_window(40, 12), (13, 8));
    assert_eq!(p.overlay_workspace_window(40, 5), (16, 5));
    p.overlay_window_rows = 0;
    assert_eq!(p.overlay_workspace_window(40, 5), (20, 1), "a zero kind cap still shows one row");
    assert_eq!(p.overlay_workspace_window(40, 0), (0, 0), "the geometry may leave no room at all");
}

#[test]
fn a_transcript_is_a_primary_row_workspace_with_comparison_prose() {
    let mut p = TextPipeline::new();
    p.notice = "saved elsewhere".into();
    assert!(!p.document_is_a_transcript());
    p.overlay_active = true;
    p.overlay_workspace = true;
    p.overlay_rows_primary = true;
    assert!(!p.document_is_a_transcript(), "no comparison payload, no transcript");
    assert_eq!(p.notice_readout_text(), "saved elsewhere");
    p.overlay_comparison = true;
    assert!(p.document_is_a_transcript());
    assert!(p.margin_orientation_yields());
    assert_eq!(p.notice_readout_text(), "", "the notice yields with the margin");
    p.overlay_active = false;
    assert!(!p.margin_orientation_yields());
    assert_eq!(p.notice_readout_text(), "saved elsewhere");
}

#[test]
fn only_a_full_card_takeover_dims_the_document() {
    let mut p = TextPipeline::new();
    assert!(!p.dims_doc(), "no overlay, no dim");
    p.overlay_active = true;
    p.overlay_seat = OverlaySeat::Card;
    assert!(p.dims_doc());
    p.overlay_crisp = true;
    assert!(!p.dims_doc(), "the crisp pickers keep the page live");
    p.overlay_crisp = false;
    p.overlay_seat = OverlaySeat::Pointer;
    assert!(!p.dims_doc(), "the pointer menu recedes nothing");
    p.overlay_seat = OverlaySeat::Word;
    assert!(!p.dims_doc(), "the spell popup recedes nothing");
}

#[test]
fn the_peek_card_shows_the_starter_rows_until_rows_are_pushed() {
    let mut p = TextPipeline::new();
    p.peek_starter_rows = vec![row("?", "starter")];
    p.peek_open = true;
    let r = p.peek_report();
    assert!(r.open);
    assert_eq!(r.rows.len(), 1);
    assert_eq!(r.rows[0].action, "starter");
    p.set_peek_rows(vec![row("C-o", "open"), row("C-w", "close")]);
    let r = p.peek_report();
    assert_eq!(r.rows.iter().map(|r| r.action.as_str()).collect::<Vec<_>>(), vec!["open", "close"]);
}

#[test]
fn the_streaks_report_totals_the_last_cumulative_day() {
    let mut p = TextPipeline::new();
    let empty = p.streaks_report();
    assert!(!empty.open);
    assert_eq!(empty.view, "heatmap");
    assert_eq!((empty.streak, empty.today_words, empty.total_words), (0, 0, 0));
    assert!(empty.cells.is_empty());
    p.streaks_open = true;
    p.streaks_page = CardView::Cumulative;
    p.set_streaks(Some(StreaksView { streak: 5, today_words: 300, cumulative: vec![100, 700, 1500], cells: vec![3, 0, 1] }));
    let r = p.streaks_report();
    assert!(r.open);
    assert_eq!(r.view, "cumulative");
    assert_eq!((r.streak, r.today_words, r.total_words), (5, 300, 1500));
    assert_eq!(r.cells, vec![3, 0, 1]);
}

#[test]
fn the_outline_follows_the_caret_into_its_heading_chain() {
    let mut p = TextPipeline::new();
    p.outline_headings = vec![heading(1, 0), heading(2, 4), heading(2, 10), heading(3, 14), heading(4, 20)];
    p.cursor_line = 2;
    assert_eq!(p.outline_current(), Some(0));
    p.cursor_line = 5;
    assert_eq!(p.outline_current(), Some(1));
    assert_eq!(p.outline_ancestors(), Vec::<usize>::new(), "an H2 is top-level: no chain");
    p.cursor_line = 16;
    assert_eq!(p.outline_current(), Some(3));
    assert_eq!(p.outline_ancestors(), vec![2, 0]);
    p.cursor_line = 99;
    assert_eq!(p.outline_ancestors(), vec![3, 2, 0]);
    p.cursor_line = 0;
    assert_eq!(p.outline_ancestors(), Vec::<usize>::new(), "the H1 has no ancestors");
    p.outline_headings = vec![heading(2, 3)];
    assert_eq!(p.outline_current(), None, "above the first heading");
    assert_eq!(p.outline_ancestors(), Vec::<usize>::new());
}

#[test]
fn the_right_column_prefers_bindings_then_times_then_git() {
    let mut p = TextPipeline::new();
    p.overlay_git = vec!["M".into(), "A".into()];
    assert_eq!(p.overlay_right_labels(), &vec!["M".to_string(), "A".to_string()]);
    p.overlay_times = vec!["2m".into()];
    assert_eq!(p.overlay_right_labels(), &vec!["2m".to_string()]);
    p.overlay_bindings = vec!["Ctrl+O".into()];
    assert_eq!(p.overlay_right_labels(), &vec!["Ctrl+O".to_string()]);
}

#[test]
fn the_outline_is_visible_exactly_when_it_has_rows() {
    let mut p = TextPipeline::new();
    p.md_enabled = true;
    assert!(!p.outline_visible(false, 10, 20), "no headings");
    p.outline_headings = vec![heading(1, 0), heading(2, 4)];
    assert!(p.outline_visible(false, 10, 20));
    assert!(!p.outline_visible(false, 0, 20), "no room for a row");
    p.overlay_active = true;
    assert!(!p.outline_visible(false, 10, 20));
}

#[test]
fn a_card_gathers_the_pushed_figures_with_the_effective_views() {
    let mut p = doc(&["abcd", "efgh"]);
    p.cursor_line = 1;
    p.peek_starter_rows = vec![row("Ctrl+K", "palette")];
    p.set_hud_stats(Some(HudStats { chars: 10, writing_secs: 60, files: 2, caret_travel: 5 }));
    let c = p.card_inputs(true, false, CardView::Cumulative, "8 words".into(), None);
    assert!(c.hud_held && !c.peek_shown);
    assert_eq!(c.stats.map(|s| s.files), Some(2));
    let v = c.streaks.expect("a card always has a streaks view");
    assert_eq!((v.streak, v.today_words, v.cumulative.len(), v.cells.len()), (0, 0, 0, 0), "the placeholder");
    assert_eq!(c.streaks_page, CardView::Cumulative);
    assert_eq!(c.words, "8 words");
    assert_eq!(c.percent, 56);
    assert_eq!(c.peek_rows.len(), 1, "the starter rows while none were pushed");
    assert_eq!(c.peek_rows[0].keys, "Ctrl+K");
    assert!(!c.pending_crash);
}
