use awl::dropdown::{column_spans, drop_text, DropEntry};

fn item(label: &str, chord: &str, enabled: bool) -> DropEntry {
    DropEntry { label: label.into(), chord: chord.into(), separator: false, enabled }
}

fn separator() -> DropEntry {
    DropEntry { label: String::new(), chord: String::new(), separator: true, enabled: true }
}

fn file_menu() -> Vec<DropEntry> {
    vec![item("New", "Ctrl+N", true), separator(), item("Save", "Ctrl+S", false), item("Export…", "", false)]
}

#[test]
fn a_dropdown_joins_its_labels_and_chords_one_row_each() {
    let t = drop_text(&file_menu());
    assert_eq!(t.labels, "New\n\nSave\nExport…");
    assert_eq!(t.chords, "Ctrl+N\n\nCtrl+S\n");
    assert_eq!(t.separators, vec![false, true, false, false]);
    assert_eq!(t.widest_label, 7, "chars, not bytes");
    assert_eq!(t.widest_chord, 6);
}

#[test]
fn disabled_items_are_marked_by_their_own_byte_ranges() {
    let t = drop_text(&file_menu());
    assert_eq!(t.disabled_labels, vec![(5, 9), (10, 19)]);
    assert_eq!(&t.labels[5..9], "Save");
    assert_eq!(&t.labels[10..19], "Export…");
    assert_eq!(t.disabled_chords, vec![(8, 14), (15, 15)]);
    assert_eq!(&t.chords[8..14], "Ctrl+S");
}

#[test]
fn an_empty_dropdown_has_no_text() {
    let t = drop_text(&[]);
    assert_eq!(t.labels, "");
    assert_eq!(t.chords, "");
    assert!(t.disabled_labels.is_empty() && t.separators.is_empty());
    assert_eq!((t.widest_label, t.widest_chord), (0, 0));
}

#[test]
fn a_column_splits_into_enabled_and_disabled_spans_that_tile_it() {
    assert_eq!(
        column_spans(19, &[(5, 9), (10, 19)]),
        vec![(0, 5, false), (5, 9, true), (9, 10, false), (10, 19, true)]
    );
    assert_eq!(
        column_spans(15, &[(8, 14), (15, 15)]),
        vec![(0, 8, false), (8, 14, true), (14, 15, false), (15, 15, true)]
    );
}

#[test]
fn a_column_with_nothing_disabled_is_one_enabled_span() {
    assert_eq!(column_spans(5, &[]), vec![(0, 5, false)]);
    assert_eq!(column_spans(0, &[]), vec![(0, 0, false)], "even an empty column draws one span");
}
