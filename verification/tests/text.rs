use noteworthy::note_name::free_note_name;
use noteworthy::subtitle::{subtitle, try_subtitle};
use noteworthy::time_label::{format_time, playback_position_label, recording_duration_label};

#[test]
fn subtitle_cuts_after_three_line_breaks() {
    assert_eq!(subtitle("first\nsecond\nthird\nfourth\nfifth"), "first\nsecond\nthird");
}

#[test]
fn subtitle_drops_trailing_white_space() {
    assert_eq!(subtitle("hello world   \n\n"), "hello world");
    assert_eq!(subtitle("x"), "x");
    assert_eq!(subtitle(" "), " ");
    assert_eq!(subtitle(""), "\u{0}");
}

#[test]
fn subtitle_stops_near_a_hundred_bytes() {
    let long = "a".repeat(150);
    assert_eq!(subtitle(&long), "a".repeat(100));
    let wide = "é".repeat(80);
    assert_eq!(subtitle(&wide), "é".repeat(50));
}

#[test]
fn time_labels() {
    assert_eq!(format_time(3, 7), "03\u{2236}07");
    assert_eq!(playback_position_label(3725), "02\u{2236}05");
    assert_eq!(recording_duration_label(3725), "62\u{2236}05");
    assert_eq!(recording_duration_label(0), "00\u{2236}00");
    assert_eq!(format_time(123, 45), "123\u{2236}45");
}

#[test]
fn preview_that_cannot_be_cut_is_refused() {
    assert_eq!(try_subtitle("é"), None);
    assert_eq!(try_subtitle("é   "), None);
    assert_eq!(try_subtitle("ab  \n"), Some("ab".to_string()));
    assert_eq!(try_subtitle("x"), Some("x".to_string()));
    assert_eq!(try_subtitle(""), Some("\u{0}".to_string()));
}

#[test]
fn new_note_takes_first_free_name() {
    let none: Vec<String> = vec![];
    assert_eq!(free_note_name("Plan", &none), "Plan.md");
    let taken: Vec<String> = vec!["Plan.md".into(), "Plan (1)".into(), "Other.md".into()];
    assert_eq!(free_note_name("Plan", &taken), "Plan (2)");
    let gap: Vec<String> = vec!["Plan.md".into(), "Plan (2)".into()];
    assert_eq!(free_note_name("Plan", &gap), "Plan (1)");
    let many: Vec<String> = (1..12).map(|k| format!("Plan ({})", k)).chain(["Plan.md".to_string()]).collect();
    assert_eq!(free_note_name("Plan", &many), "Plan (12)");
}

#[test]
fn new_note_name_replaces_an_extension_like_set_extension() {
    let none: Vec<String> = vec![];
    assert_eq!(free_note_name("a.b", &none), "a.md");
    assert_eq!(free_note_name("a.", &none), "a.md");
    assert_eq!(free_note_name("a.b.c", &none), "a.b.md");
    assert_eq!(free_note_name(".hidden", &none), ".hidden.md");
    let taken: Vec<String> = vec!["a.md".into()];
    assert_eq!(free_note_name("a.b", &taken), "a.b (1)");
}
