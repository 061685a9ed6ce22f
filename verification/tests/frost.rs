use awl::frost::{capped_doc_size, footprint_frost_applies, ListBacking, ListStyle, DOC_CAPTURE_MAX, DOWNSAMPLE};

#[test]
fn doc_capture_cap_is_a_noop_at_or_below_the_cap() {
    assert_eq!(capped_doc_size(1200, 800, DOWNSAMPLE), (1200, 800));
    // The downsample a 2x surface blurs at.
    let ds_2x = ((DOWNSAMPLE as f32) * 2.0).round() as u32;
    assert_eq!(capped_doc_size(2400, 1600, ds_2x), (2400, 1600));
    assert_eq!(
        capped_doc_size(DOC_CAPTURE_MAX, 1000, DOWNSAMPLE),
        (DOC_CAPTURE_MAX, 1000)
    );
    assert_eq!(
        capped_doc_size(1000, DOC_CAPTURE_MAX, DOWNSAMPLE),
        (1000, DOC_CAPTURE_MAX)
    );
}

#[test]
fn doc_capture_cap_scales_a_genuinely_large_surface_and_preserves_aspect() {
    let (cw, ch) = capped_doc_size(5120, 2880, DOWNSAMPLE);
    assert_eq!(cw, DOC_CAPTURE_MAX);
    let scale = DOC_CAPTURE_MAX as f32 / 5120.0;
    assert_eq!(ch, (2880.0 * scale).round() as u32);
    assert!(cw >= 5120 / DOWNSAMPLE && ch >= 2880 / DOWNSAMPLE);
    let (pw, ph) = capped_doc_size(2880, 5120, DOWNSAMPLE);
    assert_eq!(ph, DOC_CAPTURE_MAX);
    assert_eq!(pw, (2880.0 * scale).round() as u32);
}

#[test]
fn the_capture_never_shrinks_below_the_blur_working_size_or_zero() {
    // A 1-px-tall strip: the short side would round to zero.
    assert_eq!(capped_doc_size(6400, 1, 4), (3200, 1));
    // A shallow downsample keeps more than the cap on the long side.
    assert_eq!(capped_doc_size(8000, 100, 2), (4000, 50));
    // A zero downsample is treated as one.
    assert_eq!(capped_doc_size(6400, 3200, 0), (6400, 3200));
    // Rounding is to the nearest pixel.
    assert_eq!(capped_doc_size(6400, 3, 4), (3200, 2));
}

#[test]
fn only_the_bare_compositions_frost_their_own_footprint() {
    assert!(footprint_frost_applies(ListStyle::Ruled));
    assert!(footprint_frost_applies(ListStyle::Diagonal));
    assert!(
        !footprint_frost_applies(ListStyle::Bars),
        "Bars plates its rows: the plate is the frost's job already"
    );
    assert!(
        !footprint_frost_applies(ListStyle::Pane),
        "Pane's panel covers its whole footprint"
    );
    for style in [ListStyle::Pane, ListStyle::Bars, ListStyle::Ruled, ListStyle::Diagonal] {
        assert_eq!(
            footprint_frost_applies(style),
            style.list_backing(false) != ListBacking::Card
        );
        assert_eq!(style.list_backing(true), ListBacking::Card, "the spell popup is a card");
    }
    assert!(ListStyle::Bars.draws_row_plates());
    assert!(!ListStyle::Pane.draws_row_plates());
}

#[test]
fn footprint_enrolment_follows_the_rosters_own_backing_owners() {
    let roster = [
        ("pane", ListStyle::Pane),
        ("bars", ListStyle::Bars),
        ("ruled", ListStyle::Ruled),
        ("diagonal", ListStyle::Diagonal),
    ];
    let mut enrolled: Vec<&str> = Vec::new();
    let mut excluded: Vec<&str> = Vec::new();
    for (name, style) in roster {
        if footprint_frost_applies(style) {
            enrolled.push(name);
            assert!(style.list_backing(false) != ListBacking::Card, "{name}: enrolled but its card is a filled panel");
            assert!(!style.draws_row_plates(), "{name}: enrolled but it plates its own rows");
        } else {
            excluded.push(name);
            assert!(
                style.list_backing(false) == ListBacking::Card || style.draws_row_plates(),
                "{name}: excluded while drawing neither a panel nor plates"
            );
        }
    }
    assert!(!enrolled.is_empty(), "no style enrols (enrolled={enrolled:?})");
    assert!(!excluded.is_empty(), "every style enrols (excluded={excluded:?})");
    assert!(footprint_frost_applies(ListStyle::Ruled));
    assert!(footprint_frost_applies(ListStyle::Diagonal));
    assert!(!footprint_frost_applies(ListStyle::Bars), "Bars plates its rows: the plate is the frost's job already");
    assert!(!footprint_frost_applies(ListStyle::Pane), "Pane's panel covers its whole footprint");
}
