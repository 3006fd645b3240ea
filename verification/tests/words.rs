use android_bluetooth_serial::reader::mentions_closed;
use android_bluetooth_serial::text::contains;

#[test]
fn a_word_is_found_wherever_it_stands() {
    assert!(contains("closed", "closed"));
    assert!(contains("closed socket", "closed"));
    assert!(contains("socket closed", "closed"));
    assert!(contains("a clclosed b", "closed"));
    assert!(contains("abc", ""));
    assert!(contains("", ""));
}

#[test]
fn a_word_that_is_not_there_is_not_found() {
    assert!(!contains("", "closed"));
    assert!(!contains("close", "closed"));
    assert!(!contains("c l o s e d", "closed"));
    assert!(!contains("Closed", "closed"));
}

#[test]
fn a_word_is_found_among_characters_of_several_bytes() {
    assert!(contains("\u{5957}\u{63a5}\u{5b57} closed \u{1f600}", "closed"));
    assert!(contains("\u{5957}\u{63a5}", "\u{63a5}"));
    assert!(!contains("\u{5957}\u{63a5}", "\u{5b57}"));
}

#[test]
fn closing_is_recognised_in_any_letter_case() {
    assert!(mentions_closed("bt socket closed, read return: -1"));
    assert!(mentions_closed("Socket is CLOSED"));
    assert!(mentions_closed("ClOsEd"));
    assert!(!mentions_closed("Broken pipe"));
    assert!(!mentions_closed("close"));
    assert!(!mentions_closed(""));
}

#[test]
fn lower_case_is_taken_beyond_ascii() {
    // The Kelvin sign becomes the letter k, and the letter after it is still found.
    assert!(mentions_closed("\u{212a}CLOSED"));
    assert!(mentions_closed("\u{c4}CLOSED\u{d6}"));
}
