use markov_bot::text::{chars_of, is_blank, is_space, lines_to_learn, trim_bounds};

#[test]
fn space_agrees_with_unicode_white_space() {
    let mut c = 0u32;
    while c <= 0x10FFFF {
        if let Some(ch) = char::from_u32(c) {
            assert_eq!(is_space(ch), ch.is_whitespace(), "U+{:04X}", c);
        }
        c += 1;
    }
}

#[test]
fn blank_texts() {
    assert!(is_blank(""));
    assert!(is_blank(" "));
    assert!(is_blank(" \t\r\n\u{3000}\u{a0}"));
    assert!(!is_blank(" a "));
    assert!(!is_blank("\u{200b}"));
}

#[test]
fn chars_are_kept_in_order() {
    assert_eq!(chars_of("héllo"), vec!['h', 'é', 'l', 'l', 'o']);
    assert_eq!(chars_of(""), Vec::<char>::new());
}

#[test]
fn trim_bounds_of_a_padded_word() {
    let chars = chars_of("  ab c \t");
    assert_eq!(trim_bounds(&chars, 0, chars.len()), (2, 6));
    assert_eq!(trim_bounds(&chars, 3, 5), (3, 4));
    let blank = chars_of("   ");
    let (lo, hi) = trim_bounds(&blank, 0, 3);
    assert_eq!(lo, hi);
}

#[test]
fn a_message_is_learned_line_by_line() {
    assert_eq!(lines_to_learn("hello world"), vec!["hello world".to_string()]);
    assert_eq!(
        lines_to_learn("  first line \n\n\t second\r\nthird  "),
        vec!["first line".to_string(), "second".to_string(), "third".to_string()]
    );
}

#[test]
fn blank_messages_teach_nothing() {
    assert!(lines_to_learn("").is_empty());
    assert!(lines_to_learn("\n").is_empty());
    assert!(lines_to_learn("  \n \r\n\t\n").is_empty());
}

#[test]
fn inner_space_and_lone_carriage_returns_stay() {
    assert_eq!(lines_to_learn("a  b\rc\n"), vec!["a  b\rc".to_string()]);
    assert_eq!(lines_to_learn("é ü\n\u{3000}ß\u{a0}"), vec!["é ü".to_string(), "ß".to_string()]);
}

#[test]
fn lines_agree_with_the_standard_library() {
    let samples = [
        "",
        "one",
        "one\ntwo",
        "one\r\ntwo\r\n",
        "\n\n one \n\n",
        " a \r b \n\r\n c\r",
        "tail\n",
        "\r",
        "x\ny\nz",
        " \u{2003}wide\u{2003} \n\u{feff}bom",
    ];
    for sample in samples.iter() {
        let expected: Vec<String> = sample
            .lines()
            .map(|line| line.trim())
            .filter(|line| !line.is_empty())
            .map(|line| line.to_string())
            .collect();
        assert_eq!(lines_to_learn(sample), expected, "{:?}", sample);
    }
}
