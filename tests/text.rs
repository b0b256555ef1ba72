use procman::text_equals;

#[test]
fn compares_text() {
    assert!(text_equals("pipe", "pipe"));
    assert!(!text_equals("pipe", "pipes"));
    assert!(!text_equals("pipe", "Pipe"));
    assert!(text_equals("", ""));
    assert!(text_equals("é", "é"));
}
