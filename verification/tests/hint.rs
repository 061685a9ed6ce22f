use awl::hint::overlay_hint_line;

fn lines(v: &[&str]) -> Vec<String> {
    v.iter().map(|s| s.to_string()).collect()
}

#[test]
fn the_hint_is_found_by_its_whole_text() {
    let shaped = lines(&["open file", "recent", "", "enter open · esc close"]);
    assert_eq!(overlay_hint_line("enter open · esc close", &shaped, " · "), Some(3));
}

#[test]
fn a_wrapped_hint_is_found_by_the_tail_after_a_separator() {
    let shaped = lines(&["open file", "enter open", "esc close"]);
    assert_eq!(overlay_hint_line("enter open · esc close", &shaped, " · "), Some(2));
}

#[test]
fn a_tail_that_does_not_start_after_a_separator_is_not_the_hint() {
    let shaped = lines(&["open file", "close"]);
    assert_eq!(overlay_hint_line("enter open · esc close", &shaped, " · "), None);
    let empty_line = lines(&[""]);
    assert_eq!(overlay_hint_line("enter · esc", &empty_line, " · "), None, "an empty line is no tail");
}

#[test]
fn no_hint_means_no_hint_line() {
    let shaped = lines(&["", "open file"]);
    assert_eq!(overlay_hint_line("", &shaped, " · "), None);
}

#[test]
fn the_first_line_showing_the_hint_wins() {
    let shaped = lines(&["esc", "a · esc", "esc"]);
    assert_eq!(overlay_hint_line("a · esc", &shaped, " · "), Some(0));
}
