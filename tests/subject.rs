use simse::subject::format_subject_title;

#[test]
fn replaces_title_placeholder() {
    assert_eq!(format_subject_title("Alert: {title}", "Disk Full"), "Alert: Disk Full");
}

#[test]
fn template_without_placeholder_is_unchanged() {
    assert_eq!(format_subject_title("No token here", "X"), "No token here");
}

#[test]
fn only_first_placeholder_is_replaced() {
    assert_eq!(format_subject_title("{title} and {title}", "A"), "A and {title}");
}

#[test]
fn placeholder_in_the_middle() {
    assert_eq!(format_subject_title("[simse] {title} (host)", "Down"), "[simse] Down (host)");
}

#[test]
fn empty_template_and_partial_token() {
    assert_eq!(format_subject_title("", "X"), "");
    assert_eq!(format_subject_title("{titl}", "X"), "{titl}");
    assert_eq!(format_subject_title("{TITLE}", "X"), "{TITLE}");
}

#[test]
fn non_ascii_title_and_template() {
    assert_eq!(format_subject_title("Überwachung: {title} ✓", "Schreibfehler é"), "Überwachung: Schreibfehler é ✓");
}
