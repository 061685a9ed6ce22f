use awl::window::{field_caret_byte, field_view_window, resolve_window_and_cue, scroll_window, window_plan, PlanLine};

#[test]
fn caps_the_window_at_max_and_shows_all_when_it_fits() {
    assert_eq!(scroll_window(5, 0, 0, 12), (0, 5));
    assert_eq!(scroll_window(12, 3, 0, 12), (0, 12));
    assert_eq!(scroll_window(100, 0, 0, 12), (0, 12));
    assert_eq!(scroll_window(100, 5, 5, 12).1, 12);
}

#[test]
fn slides_the_minimum_to_keep_the_selection_visible() {
    assert_eq!(scroll_window(100, 2, 20, 12), (2, 12));
    assert_eq!(scroll_window(100, 40, 0, 12), (40 + 1 - 12, 12));
    assert_eq!(scroll_window(100, 25, 20, 12), (20, 12));
}

#[test]
fn selection_is_always_within_the_returned_window() {
    for len in [1usize, 3, 12, 13, 50, 200] {
        for sel in [0usize, 1, len / 2, len.saturating_sub(1)] {
            if sel >= len {
                continue;
            }
            for hint in [0usize, sel, len, len / 3, sel.saturating_sub(3)] {
                let (top, count) = scroll_window(len, sel, hint, 12);
                assert!(count <= 12 && count <= len, "count bounded (len {len})");
                assert!(
                    sel >= top && sel < top + count,
                    "sel {sel} in [{top}, {}), len {len} hint {hint}",
                    top + count
                );
                assert!(top + count <= len, "window in range (len {len})");
            }
        }
    }
}

#[test]
fn matches_the_prior_inline_flat_math_when_the_hint_already_keeps_sel_visible() {
    for n in [0usize, 4, 12, 30] {
        for max in [8usize, 12] {
            let visible = n.min(max);
            for sel in 0..n {
                let hint = sel.saturating_sub(max - 1).min(n.saturating_sub(visible));
                let expected = (hint.min(n.saturating_sub(visible)), visible);
                assert_eq!(
                    scroll_window(n, sel, hint, max),
                    expected,
                    "n {n} max {max} sel {sel}"
                );
            }
        }
    }
}

#[test]
fn empty_list_yields_an_empty_window() {
    assert_eq!(scroll_window(0, 0, 0, 12), (0, 0));
}

#[test]
fn a_zero_row_budget_shows_nothing_even_with_a_selection() {
    assert_eq!(scroll_window(10, 4, 2, 0), (0, 0));
}

#[test]
fn a_hint_past_the_end_is_clamped_back_inside_the_list() {
    assert_eq!(scroll_window(20, 19, 30, 5), (15, 5));
    assert_eq!(scroll_window(20, 3, 18, 5), (3, 5));
}

#[test]
fn short_text_is_right_padded_to_the_full_cap() {
    let (view, caret) = field_view_window("cat", 3, 8);
    assert_eq!(view, "cat     ");
    assert_eq!(view.chars().count(), 8);
    assert_eq!(caret, 3);
}

#[test]
fn empty_text_is_all_padding_caret_at_zero() {
    let (view, caret) = field_view_window("", 0, 5);
    assert_eq!(view, "     ");
    assert_eq!(caret, 0);
}

#[test]
fn caret_past_the_text_end_is_clamped_before_windowing() {
    let (view, caret) = field_view_window("ab", 99, 5);
    assert_eq!(view, "ab   ");
    assert_eq!(caret, 2, "clamped to the text's own length");
}

#[test]
fn text_exactly_at_the_cap_needs_no_padding_or_scroll() {
    let (view, caret) = field_view_window("abcdefgh", 8, 8);
    assert_eq!(view, "abcdefgh");
    assert_eq!(caret, 8, "one past the last char — a valid landing cell");
}

#[test]
fn long_text_caret_at_the_end_scrolls_to_the_trailing_cap_chars() {
    let text = "abcdefghijklmnopqrstuvwxyz01";
    let (view, caret) = field_view_window(text, 28, 8);
    assert_eq!(view, "uvwxyz01", "the last 8 chars");
    assert_eq!(caret, 8, "pinned at the window's own trailing edge");
}

#[test]
fn long_text_caret_at_the_start_shows_the_leading_cap_chars_unscrolled() {
    let text = "abcdefghijklmnopqrstuvwxyz01";
    let (view, caret) = field_view_window(text, 0, 8);
    assert_eq!(view, "abcdefgh");
    assert_eq!(caret, 0);
}

#[test]
fn scrolling_by_one_char_slides_the_window_by_one_char() {
    let text = "0123456789";
    assert_eq!(field_view_window(text, 4, 4), ("0123".to_string(), 4));
    assert_eq!(field_view_window(text, 5, 4), ("1234".to_string(), 4));
    assert_eq!(field_view_window(text, 6, 4), ("2345".to_string(), 4));
    assert_eq!(field_view_window(text, 10, 4), ("6789".to_string(), 4));
}

#[test]
fn multibyte_text_windows_by_char_not_byte() {
    let text = "日本語のテキスト検索ですよ";
    let (view, caret) = field_view_window(text, 13, 6);
    assert_eq!(view.chars().count(), 6);
    assert_eq!(caret, 6);
    assert_eq!(
        view, "ト検索ですよ",
        "the trailing 6 chars, caret at the end"
    );
}

#[test]
fn the_view_is_always_exactly_cap_chars_and_the_caret_is_always_inside_it() {
    let texts: Vec<String> = vec![
        String::new(),
        "a".to_string(),
        "a".repeat(7),
        "a".repeat(8),
        "a".repeat(9),
        "a".repeat(50),
    ];
    for text in &texts {
        let len = text.chars().count();
        for caret in [0, len / 2, len, len + 5] {
            for cap in [1usize, 4, 8, 16] {
                let (view, view_caret) = field_view_window(text, caret, cap);
                assert_eq!(
                    view.chars().count(),
                    cap,
                    "len {len} caret {caret} cap {cap}: view must be exactly cap chars"
                );
                assert!(
                    view_caret <= cap,
                    "len {len} caret {caret} cap {cap}: caret {view_caret} must be inside [0, cap]"
                );
            }
        }
    }
}

#[test]
fn cap_zero_is_an_inert_empty_field() {
    assert_eq!(field_view_window("anything", 3, 0), (String::new(), 0));
}

/// The text fields of the editor's panels and pickers.
#[derive(Clone, Copy, Debug)]
enum TextField {
    FindQuery,
    ReplaceText,
    PickerQuery,
    Rename,
    InsertLink,
    KeepVersion,
    SettingsValue,
}

impl TextField {
    const ALL: [TextField; 7] = [
        TextField::FindQuery,
        TextField::ReplaceText,
        TextField::PickerQuery,
        TextField::Rename,
        TextField::InsertLink,
        TextField::KeepVersion,
        TextField::SettingsValue,
    ];
}

#[test]
fn every_fixed_geometry_textfield_routes_through_the_one_clipping_rule() {
    for f in TextField::ALL {
        let promises_fixed_geometry = match f {
            TextField::FindQuery => true,
            TextField::ReplaceText => true,
            TextField::PickerQuery => false,
            TextField::Rename => false,
            TextField::InsertLink => false,
            TextField::KeepVersion => false,
            TextField::SettingsValue => false,
        };
        if !promises_fixed_geometry {
            continue;
        }
        for cap in [1usize, 8, 28] {
            for (text, caret) in [
                ("", 0usize),
                ("hi", 2),
                (
                    "a very long value that overflows any realistic field width by a lot",
                    71,
                ),
                ("mid caret text", 4),
            ] {
                let (view, view_caret) = field_view_window(text, caret, cap);
                assert_eq!(
                    view.chars().count(),
                    cap,
                    "{f:?} cap {cap} text {text:?}: the fixed field must always be exactly `cap` chars"
                );
                assert!(
                    view_caret <= cap,
                    "{f:?} cap {cap} text {text:?}: the caret must always land inside the fixed field"
                );
            }
        }
    }
}

#[test]
fn caret_byte_counts_utf8_bytes_before_the_caret() {
    assert_eq!(field_caret_byte("héllo", 0), 0);
    assert_eq!(field_caret_byte("héllo", 1), 1);
    assert_eq!(field_caret_byte("héllo", 2), 3);
    assert_eq!(field_caret_byte("日本語", 2), 6);
    assert_eq!(field_caret_byte("日本語", 3), 9);
    assert_eq!(field_caret_byte("日本語", 40), 9, "past the end is the text's byte length");
    assert_eq!(field_caret_byte("a🙂b", 2), 5);
}

#[test]
fn reservation_never_fires_when_the_corpus_fits_at_or_under_the_cap() {
    for cap0 in [1usize, 2, 3, 5, 8, 20, 41] {
        for n_items in cap0.saturating_sub(2)..=(cap0 + 2) {
            let resolve = |extra: usize| {
                let item_cap = cap0.saturating_sub(extra).max(1);
                (0, n_items.min(item_cap))
            };
            let (top, visible, above, below, reserved) = resolve_window_and_cue(n_items, resolve);
            if n_items <= cap0 {
                assert_eq!(
                    reserved, 0,
                    "cap0={cap0} n_items={n_items}: the corpus fits without any \
                     help from the reservation, so no row may be reserved for it \
                     (got top={top} visible={visible} above={above:?} below={below:?})"
                );
                assert_eq!(
                    (above, below),
                    (None, None),
                    "cap0={cap0} n_items={n_items}: a corpus that fits shows no edge cue"
                );
                assert_eq!(
                    visible, n_items,
                    "cap0={cap0} n_items={n_items}: a corpus that fits shows every item"
                );
            }
        }
    }
}

#[test]
fn a_windowed_corpus_reserves_both_edges_and_counts_what_each_hides() {
    let resolve = |extra: usize| (10usize, 12usize.saturating_sub(extra));
    assert_eq!(resolve_window_and_cue(40, resolve), (10, 10, Some(10), Some(20), 2));
}

#[test]
fn the_cue_never_empties_a_window_that_showed_an_item() {
    let resolve = |extra: usize| (3usize, 1usize.saturating_sub(extra));
    assert_eq!(resolve_window_and_cue(9, resolve), (3, 1, None, None, 0));
}

fn sample_plan() -> Vec<PlanLine> {
    vec![
        PlanLine::Header("A".into()),
        PlanLine::Item(0),
        PlanLine::Item(1),
        PlanLine::Item(2),
        PlanLine::Header("B".into()),
        PlanLine::Item(3),
        PlanLine::Item(4),
    ]
}

fn shape(plan: &[PlanLine]) -> Vec<String> {
    plan.iter()
        .map(|l| match l {
            PlanLine::Location(l) => format!("@{l}"),
            PlanLine::Header(h) => format!("#{h}"),
            PlanLine::Item(i) => format!("i{i}"),
        })
        .collect()
}

#[test]
fn window_plan_returns_the_full_plan_when_it_fits() {
    assert_eq!(
        shape(&window_plan(&sample_plan(), 0, 5)),
        shape(&sample_plan())
    );
}

#[test]
fn window_plan_keeps_only_touched_sections_headers() {
    assert_eq!(
        shape(&window_plan(&sample_plan(), 2, 4)),
        vec!["#A", "i2", "#B", "i3"]
    );
    assert_eq!(
        shape(&window_plan(&sample_plan(), 3, 5)),
        vec!["#B", "i3", "i4"]
    );
}

#[test]
fn window_plan_header_at_window_top_and_no_duplicates() {
    assert_eq!(
        shape(&window_plan(&sample_plan(), 1, 3)),
        vec!["#A", "i1", "i2"]
    );
}

#[test]
fn window_plan_empty_range_is_empty() {
    assert!(window_plan(&sample_plan(), 9, 9).is_empty());
    assert!(window_plan(&sample_plan(), 5, 5).is_empty());
}

#[test]
fn a_location_line_rides_above_its_first_windowed_item() {
    let plan = vec![
        PlanLine::Location("notes".into()),
        PlanLine::Item(0),
        PlanLine::Header("B".into()),
        PlanLine::Item(1),
    ];
    assert_eq!(shape(&window_plan(&plan, 0, 1)), vec!["@notes", "i0"]);
}
