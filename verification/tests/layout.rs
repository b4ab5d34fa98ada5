use agent_may::layout::{
    current_input_width, inner_input_width, inner_message_width, wrap_message_lines,
};
use agent_may::number::{decimal_text, hex8};
use agent_may::text::{
    is_white_space, join, lines, split_on, starts_with, strip_prefix, trim, trim_end,
    trim_start_matches, words,
};
use agent_may::wrap::{push_long_word, wrap_text, wrap_text_preserving_lines};

fn owned(parts: &[&str]) -> Vec<String> {
    parts.iter().map(|p| p.to_string()).collect()
}

#[test]
fn white_space_is_what_char_says() {
    for c in '\0'..=char::MAX {
        assert_eq!(is_white_space(c), c.is_whitespace(), "{:?}", c);
    }
}

#[test]
fn text_functions_agree_with_str() {
    let samples = [
        "", " ", "\n", "\r\n", "a", " a ", "a\nb", "a\r\nb\r\n", "a\r", "\n\n", "a\n\r\nb\r", "a b  c",
        "\u{3000}x\u{85}", "data: data: x", "data:", "é\u{2028}ü\n",
    ];
    for s in samples {
        assert_eq!(trim(s), s.trim());
        assert_eq!(trim_end(s), s.trim_end());
        assert_eq!(lines(s), s.lines().map(|l| l.to_string()).collect::<Vec<_>>());
        assert_eq!(words(s), s.split_whitespace().map(|w| w.to_string()).collect::<Vec<_>>());
        assert_eq!(split_on(s, 'a'), s.split('a').map(|p| p.to_string()).collect::<Vec<_>>());
        assert_eq!(trim_start_matches(s, "data: "), s.trim_start_matches("data: "));
        assert_eq!(starts_with(s, "a"), s.starts_with("a"));
        assert_eq!(strip_prefix(s, "a"), s.strip_prefix("a"));
    }
}

#[test]
fn joining_puts_separators_between() {
    assert_eq!(join(&owned(&["a", "", "b"]), "--"), "a----b");
    assert_eq!(join(&Vec::new(), "--"), "");
}

#[test]
fn numbers_as_text() {
    assert_eq!(decimal_text(0), "0");
    assert_eq!(decimal_text(1455), "1455");
    assert_eq!(hex8(0), "00000000");
    assert_eq!(hex8(0xdead_beef), "deadbeef");
}

#[test]
fn words_fill_lines() {
    assert_eq!(wrap_text("the quick  brown fox", 9), owned(&["the quick", "brown fox"]));
}

#[test]
fn long_words_are_cut() {
    assert_eq!(wrap_text("ab abcdefgh c", 3), owned(&["ab", "abc", "def", "gh", "c"]));
}

#[test]
fn nothing_to_wrap_is_one_empty_line() {
    assert_eq!(wrap_text("   ", 5), owned(&[""]));
    assert_eq!(wrap_text("", 5), owned(&[""]));
}

#[test]
fn without_width_the_text_stays() {
    assert_eq!(wrap_text("a  b", 0), owned(&["a  b"]));
}

#[test]
fn long_word_goes_out_in_chunks() {
    let mut wrapped = owned(&["before"]);
    push_long_word("äöüß", 2, &mut wrapped);
    assert_eq!(wrapped, owned(&["before", "äö", "üß"]));
    push_long_word("xy", 0, &mut wrapped);
    assert_eq!(wrapped, owned(&["before", "äö", "üß", "x", "y"]));
}

#[test]
fn lines_are_wrapped_on_their_own() {
    assert_eq!(
        wrap_text_preserving_lines("one two\n\nthree", 4),
        owned(&["one", "two", "", "thre", "e"])
    );
    assert_eq!(wrap_text_preserving_lines("", 4), owned(&[""]));
}

#[test]
fn wrapped_lines_fit_and_keep_the_ink() {
    let text = "Lorem ipsum dolor sit amet, consectetur adipiscing elit\nsed do eiusmod";
    for width in 1..30 {
        let wrapped = wrap_text_preserving_lines(text, width);
        assert!(wrapped.iter().all(|l| l.chars().count() <= width));
        let ink = |s: &str| s.chars().filter(|c| !c.is_whitespace()).collect::<String>();
        assert_eq!(ink(&wrapped.concat()), ink(text));
    }
}

#[test]
fn widths_leave_room_for_borders() {
    assert_eq!(inner_message_width(80), 74);
    assert_eq!(inner_message_width(3), 8);
    assert_eq!(inner_input_width(80), 77);
    assert_eq!(inner_input_width(0), 8);
    assert_eq!(current_input_width(Some((40, 10))), 37);
    assert_eq!(current_input_width(None), 77);
}

#[test]
fn message_rows_are_labelled_and_indented() {
    let rows = wrap_message_lines("USER", "hello there\n\nyou", 11);
    let got: Vec<(String, String)> =
        rows.iter().map(|r| (r.label.clone(), r.text.clone())).collect();
    let expected: Vec<(String, String)> = vec![
        ("USER: ".to_string(), "hello".to_string()),
        ("      ".to_string(), "there".to_string()),
        ("      ".to_string(), "".to_string()),
        ("      ".to_string(), "you".to_string()),
    ];
    assert_eq!(got, expected);
}

#[test]
fn blank_message_is_one_row() {
    let rows = wrap_message_lines("A", " \n ", 20);
    assert_eq!(rows.len(), 1);
    assert_eq!(rows[0].label, "A: ");
    assert_eq!(rows[0].text, "");
}
