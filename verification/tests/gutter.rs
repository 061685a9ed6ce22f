use awl::gutter::{
    gutter_report, stack_hit_for, ContextTarget, DragAnchor, GutterLayout, GutterLine, GutterStackHit, RowIntent,
    StackLine, StackRowKind, StackRowRef, CLOSE_MARK_CHARS, CLOSE_MARK_TEXT,
};

fn row(leaf: &str, parent: &str, active: bool) -> StackLine {
    StackLine {
        text: format!("{parent}{leaf}"),
        parent_byte: parent.len(),
        active,
        kind: StackRowKind::File,
    }
}

fn group_row(leaf: &str, active: bool) -> StackLine {
    StackLine { text: leaf.to_string(), parent_byte: 0, active, kind: StackRowKind::Group }
}

/// The three-file set the block-shape sweeps draw, `active` naming the
/// reader's current file.
fn rows(active: usize) -> Vec<StackLine> {
    ["opening.md", "field-notes.md", "ledger.md"]
        .into_iter()
        .zip(["", "journal/", ""])
        .enumerate()
        .map(|(at, (leaf, parent))| row(leaf, parent, at == active))
        .collect()
}

fn layout_of(files: Vec<StackLine>, changed: bool, project: bool) -> GutterLayout {
    GutterLayout {
        name: "opening.md".to_string(),
        project: if project { "notes".to_string() } else { String::new() },
        changed: if changed { "changed elsewhere".to_string() } else { String::new() },
        files,
    }
}

fn kinds(layout: &GutterLayout) -> Vec<GutterLine> {
    layout.lines().iter().map(|(_, k)| *k).collect()
}

#[test]
fn the_close_mark_is_a_cross_and_one_breath() {
    assert_eq!(CLOSE_MARK_TEXT, "× ");
    assert_eq!(CLOSE_MARK_TEXT.chars().count(), CLOSE_MARK_CHARS);
}

#[test]
fn a_single_file_block_heads_with_its_project() {
    let layout = GutterLayout {
        name: "draft.md".into(),
        project: "novel".into(),
        changed: String::new(),
        files: Vec::new(),
    };
    assert_eq!(layout.lines(), vec![("novel", GutterLine::Project), ("draft.md", GutterLine::Name)]);
    let bare = GutterLayout {
        name: "draft.md".into(),
        project: String::new(),
        changed: String::new(),
        files: Vec::new(),
    };
    assert_eq!(bare.lines(), vec![("draft.md", GutterLine::Name)]);
}

#[test]
fn a_working_set_replaces_the_name_under_its_project_heading() {
    let layout = GutterLayout {
        name: "draft.md".into(),
        project: "novel".into(),
        changed: "changed elsewhere".into(),
        files: vec![row("a.md", "", false), row("draft.md", "", true)],
    };
    assert_eq!(
        layout.lines(),
        vec![
            ("changed elsewhere", GutterLine::Changed),
            ("novel", GutterLine::Project),
            ("a.md", GutterLine::File(0)),
            ("draft.md", GutterLine::File(1)),
        ]
    );
}

#[test]
fn project_heads_only_the_multi_file_hierarchy() {
    let one = layout_of(Vec::new(), false, true);
    assert_eq!(
        kinds(&one),
        vec![GutterLine::Project, GutterLine::Name],
        "the one-file block must head with the folder, exactly like the stack does"
    );

    let many = layout_of(rows(0), false, true);
    let above = many.lines();
    assert!(matches!(above.first().unwrap().1, GutterLine::Project));
    assert_eq!(above.iter().filter(|(_, k)| matches!(k, GutterLine::File(_))).count(), 3);

    for changed in [false, true] {
        for project in [false, true] {
            for files in [Vec::new(), rows(0)] {
                let empty = files.is_empty();
                let layout = layout_of(files, changed, project);
                let kinds = kinds(&layout);
                if let Some(at) = kinds.iter().position(|k| matches!(k, GutterLine::Project)) {
                    let identity_at = kinds
                        .iter()
                        .position(|k| matches!(k, GutterLine::Name | GutterLine::File(_)))
                        .unwrap_or(usize::MAX);
                    assert!(
                        at < identity_at,
                        "changed={changed} project={project} files_empty={empty}: project \
                         at {at} does not precede identity at {identity_at}: {kinds:?}"
                    );
                }
            }
        }
    }
}

#[test]
fn the_folder_line_and_a_drawn_group_heading_never_both_own_the_project_name() {
    let shapes: [(&str, fn() -> Vec<StackLine>); 2] = [
        ("resting (no heading)", || rows(0)),
        ("expanded (heading drawn)", || vec![group_row("notes/", true), row("welcome.md", "", true)]),
    ];
    for (shape, files) in shapes {
        for project in [true, false] {
            let layout = layout_of(files(), false, project);
            let project_lines = kinds(&layout).iter().filter(|k| matches!(k, GutterLine::Project)).count();
            let has_heading = shape.contains("heading drawn");
            let expected = usize::from(project && !has_heading);
            assert_eq!(
                project_lines, expected,
                "shape={shape} project={project}: expected {expected} folder line(s)"
            );
        }
    }
}

#[test]
fn the_lone_identity_row_resolves_the_same_close_zone_a_stack_row_would() {
    for changed in [false, true] {
        let layout = layout_of(Vec::new(), changed, true);
        let name_line = kinds(&layout)
            .iter()
            .position(|k| matches!(k, GutterLine::Name))
            .expect("the one-file block always draws a Name line");
        let lone = layout.stack_row_at(name_line).expect("the identity line names a row");
        assert_eq!(lone.row, 0, "changed={changed}: the lone open file is always row 0");
        assert_eq!(lone.kind, StackRowKind::File);
        assert_eq!(lone.ink_chars, "opening.md".chars().count() + CLOSE_MARK_CHARS);

        let as_stack = layout_of(vec![row("opening.md", "", true)], changed, true);
        let stack_line = kinds(&as_stack)
            .iter()
            .position(|k| matches!(k, GutterLine::File(0)))
            .expect("the one-row stack draws its row");
        let stacked = as_stack.stack_row_at(stack_line).expect("a stack row names a row");
        assert_eq!(stacked, lone, "the same row, kind and ink as a stack row of the same name");

        let switch = stack_hit_for(lone, RowIntent::Switch).expect("switch enrols");
        let close = stack_hit_for(lone, RowIntent::Close).expect("close enrols");
        assert_eq!(switch.row, 0);
        assert!(!switch.is_close());
        assert_eq!(close.row, 0);
        assert!(close.is_close());
    }
}

#[test]
fn only_the_identity_line_enrols_the_lone_margin_in_row_click_geometry() {
    let layout = layout_of(Vec::new(), true, true);
    let lines = kinds(&layout);
    let heading_line = lines.iter().position(|k| matches!(k, GutterLine::Project)).expect("a project line");
    assert_eq!(layout.stack_row_at(heading_line), None, "the project heading must not resolve to a row");
    let changed_line = lines.iter().position(|k| matches!(k, GutterLine::Changed)).expect("an affordance");
    assert_eq!(layout.stack_row_at(changed_line), None, "the affordance is a label, not a row");
    assert_eq!(layout.stack_row_at(lines.len()), None, "nothing past the block's end");
}

#[test]
fn a_group_headings_switch_half_stays_inert_and_only_its_close_zone_enrols() {
    let layout = layout_of(vec![group_row("notes/", true), row("welcome.md", "", true)], false, true);
    let (heading_line, heading_row) = layout
        .lines()
        .iter()
        .enumerate()
        .find_map(|(line, (_, kind))| match kind {
            GutterLine::File(r) if layout.files[*r].kind == StackRowKind::Group => Some((line, *r)),
            _ => None,
        })
        .expect("the fixture draws exactly one heading");
    let heading = layout.stack_row_at(heading_line).expect("a heading is a row");
    assert_eq!(heading.ink_chars, "notes/".chars().count() + CLOSE_MARK_CHARS);
    assert_eq!(stack_hit_for(heading, RowIntent::Switch), None, "a heading's switch half stays inert");
    let close = stack_hit_for(heading, RowIntent::Close).expect("a heading's own close zone enrols");
    assert_eq!(close.row, heading_row, "the close hit must name the heading's own row");
    assert!(close.is_close());
    assert_eq!(close.kind, StackRowKind::Group);
}

#[test]
fn a_scroll_cue_never_enrols_and_other_rows_enrol_in_both_halves() {
    let cue = StackRowRef { row: 4, kind: StackRowKind::Overflow, ink_chars: 5 };
    assert_eq!(stack_hit_for(cue, RowIntent::Switch), None);
    assert_eq!(stack_hit_for(cue, RowIntent::Close), None);
    let more = StackRowRef { row: 5, kind: StackRowKind::More, ink_chars: 9 };
    assert_eq!(
        stack_hit_for(more, RowIntent::Switch),
        Some(GutterStackHit { row: 5, kind: StackRowKind::More, intent: RowIntent::Switch })
    );
}

#[test]
fn a_plate_marks_the_active_row_in_every_block_shape() {
    for changed in [false, true] {
        for project in [false, true] {
            for active in 0..3 {
                let layout = layout_of(rows(active), changed, project);
                let lines = layout.lines();
                let plates = layout.plated_lines();
                let shape = format!("changed={changed} project={project} active={active}");
                assert_eq!(plates.len(), 1, "{shape}: expected exactly one plate");
                let at = lines
                    .iter()
                    .position(|(_, kind)| matches!(kind, GutterLine::File(i) if *i == active))
                    .unwrap_or_else(|| panic!("{shape}: the active row is not in the block"));
                assert_eq!(plates[0].0, at, "{shape}: the plate sits on the active row's own line");
                let occupied = lines[at].0.chars().count() + CLOSE_MARK_TEXT.chars().count();
                assert_eq!(plates[0].1, occupied, "{shape}: the plate spans the label and the close mark");
            }
        }
    }
}

#[test]
fn a_single_file_block_plates_its_own_identity_line() {
    for changed in [false, true] {
        for project in [false, true] {
            let layout = layout_of(Vec::new(), changed, project);
            let shape = format!("changed={changed} project={project}");
            let plates = layout.plated_lines();
            assert_eq!(plates.len(), 1, "{shape}: the lone open file is the active file and must be plated");
            let at = kinds(&layout)
                .iter()
                .position(|k| matches!(k, GutterLine::Name))
                .unwrap_or_else(|| panic!("{shape}: no identity line in the block"));
            assert_eq!(plates[0].0, at, "{shape}: the plate sits on the identity line");
            let as_row = layout_of(vec![row(&layout.name, "", true)], changed, project);
            let row_plates = as_row.plated_lines();
            assert_eq!(row_plates.len(), 1, "{shape}: the one-row stack fixture must plate exactly once");
            assert_eq!(plates[0].1, row_plates[0].1, "{shape}: one plate mechanism, not two");
            let mut expect = Vec::new();
            if changed {
                expect.push(GutterLine::Changed);
            }
            if project {
                expect.push(GutterLine::Project);
            }
            expect.push(GutterLine::Name);
            assert_eq!(kinds(&layout), expect, "{shape}: the block's own line order moved");
        }
    }
}

#[test]
fn only_the_active_file_line_plates_across_the_whole_line_roster() {
    let layout = layout_of(vec![row("opening.md", "", false), row("ledger.md", "", true)], true, true);
    let lines = kinds(&layout);
    for kind in [GutterLine::Changed, GutterLine::Project] {
        assert!(lines.contains(&kind), "the fixture never drew {kind:?}");
    }
    let plates = layout.plated_lines();
    assert_eq!(plates.len(), 1, "exactly one plate: {plates:?}");
    for (at, kind) in lines.iter().enumerate() {
        let covered = plates[0].0 == at;
        let should = matches!(kind, GutterLine::File(i) if layout.files[*i].active);
        assert_eq!(covered, should, "line {at} ({kind:?})");
    }
}

#[test]
fn an_active_group_heading_never_plates_only_its_active_file_does() {
    let layout = layout_of(
        vec![group_row("notes/", true), row("welcome.md", "", true), row("draft.md", "", false)],
        false,
        false,
    );
    let plates = layout.plated_lines();
    assert_eq!(plates.len(), 1, "only the active FILE may plate, never its group heading too: {plates:?}");
    assert_eq!(kinds(&layout)[plates[0].0], GutterLine::File(1));
}

#[test]
fn only_the_active_file_ever_plates_never_any_group_heading() {
    let layout = layout_of(
        vec![
            group_row("archive/", false),
            row("old.md", "", false),
            group_row("notes/", true),
            row("welcome.md", "", true),
        ],
        false,
        false,
    );
    let plates = layout.plated_lines();
    assert_eq!(plates.len(), 1, "only the active file may plate: {plates:?}");
    assert_eq!(kinds(&layout)[plates[0].0], GutterLine::File(3));
}

#[test]
fn drag_indicator_centers_on_the_boundary_above_the_named_file_row() {
    for changed in [false, true] {
        for project in [false, true] {
            let layout = layout_of(rows(1), changed, project);
            let lines = layout.lines();
            let shape = format!("changed={changed} project={project}");
            let offset = lines.len() - layout.files.len();
            for file_row in 0..=layout.files.len() {
                let anchor = layout
                    .drag_anchor(file_row)
                    .unwrap_or_else(|| panic!("{shape} file_row={file_row}: must resolve"));
                let want = if file_row == 0 {
                    DragAnchor { line: offset, below: false }
                } else {
                    DragAnchor { line: offset + file_row - 1, below: true }
                };
                assert_eq!(anchor, want, "{shape} file_row={file_row}");
            }
            assert_eq!(
                layout.drag_anchor(layout.files.len() + 5),
                Some(DragAnchor { line: lines.len() - 1, below: true }),
                "{shape}: past the end sits below the last row"
            );
        }
    }
}

#[test]
fn drag_indicator_is_absent_off_a_working_set() {
    let layout = layout_of(Vec::new(), false, true);
    assert_eq!(layout.drag_anchor(0), None);
}

#[test]
fn a_context_click_names_the_active_document_or_the_folder() {
    let one = layout_of(Vec::new(), true, true);
    assert_eq!(one.context_target_at(0), None, "the affordance is a label");
    assert_eq!(one.context_target_at(1), Some(ContextTarget::Folder));
    assert_eq!(one.context_target_at(2), Some(ContextTarget::Filename));
    assert_eq!(one.context_target_at(3), None);
    let many = layout_of(rows(1), false, true);
    assert_eq!(many.context_target_at(0), Some(ContextTarget::Folder));
    assert_eq!(many.context_target_at(1), None, "an inactive row names another buffer");
    assert_eq!(many.context_target_at(2), Some(ContextTarget::Filename));
    assert_eq!(many.context_target_at(3), None);
}

#[test]
fn the_gutter_reports_its_name_project_and_conflict() {
    assert_eq!(gutter_report(None), None, "a hidden block reports nothing");
    assert_eq!(
        gutter_report(Some(layout_of(rows(0), true, true))),
        Some(("opening.md".to_string(), "notes".to_string(), true))
    );
    assert_eq!(
        gutter_report(Some(layout_of(Vec::new(), false, false))),
        Some(("opening.md".to_string(), String::new(), false))
    );
}

#[test]
fn the_plate_spans_the_same_ink_the_close_zone_anchors_on() {
    for files in [Vec::new(), rows(2)] {
        let layout = layout_of(files, true, true);
        for (line, ink) in layout.plated_lines() {
            let row = layout.stack_row_at(line).expect("a plated line names a row");
            assert_eq!(row.ink_chars, ink);
        }
    }
}

#[test]
fn a_pointer_over_the_block_resolves_through_the_line_the_planner_hit() {
    let layout = layout_of(vec![group_row("notes/", true), row("welcome.md", "", true)], true, false);
    // Lines: changed, File(0) heading, File(1).
    let close = |_: usize| RowIntent::Close;
    let switch = |_: usize| RowIntent::Switch;
    assert_eq!(layout.stack_hit_at(None, close), None, "off the block");
    assert_eq!(layout.stack_hit_at(Some(0), close), None, "the affordance is a label");
    assert_eq!(layout.stack_hit_at(Some(1), switch), None, "a heading's switch half is inert");
    assert_eq!(
        layout.stack_hit_at(Some(1), close),
        Some(GutterStackHit { row: 0, kind: StackRowKind::Group, intent: RowIntent::Close })
    );
    let seen = std::cell::Cell::new(0);
    let hit = layout.stack_hit_at(Some(2), |ink| {
        seen.set(ink);
        RowIntent::Switch
    });
    assert_eq!(hit, Some(GutterStackHit { row: 1, kind: StackRowKind::File, intent: RowIntent::Switch }));
    assert_eq!(seen.get(), "welcome.md".chars().count() + CLOSE_MARK_CHARS, "classified by the row's own ink");
    assert_eq!(layout.stack_hit_at(Some(3), close), None, "past the block");
}
