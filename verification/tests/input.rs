use string_repeater::input::{classify_line, InputOutcome};

fn payload_of(bytes_read: usize, line: &str) -> Option<String> {
    match classify_line(bytes_read, line) {
        InputOutcome::Payload(payload) => Some(payload),
        _ => None,
    }
}

#[test]
fn end_of_input_at_the_prompt() {
    assert!(matches!(classify_line(0, ""), InputOutcome::EndOfInput));
}

#[test]
fn empty_line_repeats_the_prompt() {
    assert!(matches!(classify_line(1, "\n"), InputOutcome::Blank));
    assert!(matches!(classify_line(2, "\r\n"), InputOutcome::Blank));
}

#[test]
fn white_space_only_repeats_the_prompt() {
    assert!(matches!(classify_line(4, "   \n"), InputOutcome::Blank));
    assert!(matches!(classify_line(5, " \t \t\n"), InputOutcome::Blank));
    assert!(matches!(
        classify_line(6, "\u{a0}\u{3000}\n"),
        InputOutcome::Blank
    ));
}

#[test]
fn last_line_without_a_line_break_is_taken() {
    assert_eq!(payload_of(3, "abc"), Some(String::from("abc")));
}

#[test]
fn payload_is_the_line_without_white_space_at_either_end() {
    assert_eq!(payload_of(6, "hello\n"), Some(String::from("hello")));
    assert_eq!(payload_of(10, "  hello \t\r\n"), Some(String::from("hello")));
    assert_eq!(payload_of(2, "x\n"), Some(String::from("x")));
    assert_eq!(payload_of(3, " x"), Some(String::from("x")));
}

#[test]
fn white_space_inside_the_payload_stays() {
    assert_eq!(
        payload_of(16, " hello   world \n"),
        Some(String::from("hello   world"))
    );
    assert_eq!(payload_of(5, "a\tb\n"), Some(String::from("a\tb")));
}

#[test]
fn payload_may_hold_any_characters() {
    assert_eq!(
        payload_of(12, " \u{8d8a}\u{e9} z\u{1f980} \n"),
        Some(String::from("\u{8d8a}\u{e9} z\u{1f980}"))
    );
    assert_eq!(
        payload_of(8, "\u{3000}\u{8d8a}\u{a0}\n"),
        Some(String::from("\u{8d8a}"))
    );
}

#[test]
fn payload_is_what_trim_leaves() {
    let lines = [
        "plain\n",
        "   left",
        "right   ",
        "\t both \t",
        "a",
        " a b  c ",
        "\u{2003}wide\u{2003}",
        "\u{200b}zero width is no white space\u{200b}",
        "_\n",
    ];
    for line in lines {
        assert_eq!(payload_of(line.len(), line), Some(String::from(line.trim())));
    }
}

#[test]
fn payload_is_never_empty() {
    let lines = ["", " ", "\n", "a\n", " a ", "\t\t", "ab"];
    for line in lines {
        match classify_line(line.len().max(1), line) {
            InputOutcome::Payload(payload) => assert!(!payload.is_empty()),
            InputOutcome::Blank => assert!(line.trim().is_empty()),
            InputOutcome::EndOfInput => panic!("something was read"),
        }
    }
}
