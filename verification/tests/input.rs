use agent_may::layout::{input_box_height, input_cursor_position, max_input_scroll};
use agent_may::offsets::{count_before, is_boundary, length_in_bytes};
use agent_may::paste::{
    is_tidy, make_paste_preview, render_input_preview, shift_pasted_segments, trim_pasted_segments,
    PastedSegment,
};
use agent_may::storage::StoredChat;
use agent_may::time::Timestamp;
use agent_may::ui::{backspace_input, ChatState};

fn segment(start: usize, end: usize, preview: &str) -> PastedSegment {
    PastedSegment { start, end, preview: preview.to_string() }
}

fn test_chat_state(input: &str, pasted_segments: Vec<PastedSegment>) -> ChatState {
    ChatState {
        chat: StoredChat {
            id: "test".to_string(),
            title: "test".to_string(),
            created_at: Timestamp::now(),
            updated_at: Timestamp::now(),
            model: "gpt-5.4".to_string(),
            turns: Vec::new(),
        },
        messages: Vec::new(),
        input: input.to_string(),
        pasted_segments,
        input_scroll: 0,
        selected: 0,
        status: String::new(),
        pending: false,
    }
}

#[test]
fn paste_preview_keeps_first_and_last_words() {
    let preview = make_paste_preview("this text is pasted into the chat");
    assert_eq!(preview, "[this <pasted text 33 chars> chat]");
}

#[test]
fn input_preview_replaces_pasted_segment_visually_only() {
    let input = "start this text is pasted into the chat end";
    let preview = render_input_preview(
        input,
        &vec![PastedSegment {
            start: 6,
            end: 39,
            preview: "[this <pasted text 33 chars> chat]".to_string(),
        }],
    );

    assert_eq!(preview, "start [this <pasted text 33 chars> chat] end");
}

#[test]
fn input_scroll_only_appears_after_visible_limit() {
    let preview = "one two three four five six seven eight nine ten eleven twelve";
    assert_eq!(max_input_scroll(preview, 8), 1);
}

#[test]
fn backspace_removes_whole_pasted_segment_at_end() {
    let mut chat = test_chat_state(
        "before pasted block",
        vec![PastedSegment {
            start: 7,
            end: 19,
            preview: "[pasted]".to_string(),
        }],
    );

    backspace_input(&mut chat);

    assert_eq!(chat.input, "before ");
    assert!(chat.pasted_segments.is_empty());
}

#[test]
fn backspace_keeps_pasted_segment_until_suffix_is_deleted() {
    let mut chat = test_chat_state(
        "before pasted block tail",
        vec![PastedSegment {
            start: 7,
            end: 19,
            preview: "[pasted]".to_string(),
        }],
    );

    backspace_input(&mut chat);

    assert_eq!(chat.input, "before pasted block tai");
    assert_eq!(chat.pasted_segments.len(), 1);
    assert_eq!(chat.pasted_segments[0].start, 7);
    assert_eq!(chat.pasted_segments[0].end, 19);
}

#[test]
fn backspace_on_empty_input_does_nothing() {
    let mut chat = test_chat_state("", Vec::new());
    backspace_input(&mut chat);
    assert_eq!(chat.input, "");
}

#[test]
fn backspace_takes_one_character_not_one_byte() {
    let mut chat = test_chat_state("naïve é", Vec::new());
    backspace_input(&mut chat);
    assert_eq!(chat.input, "naïve ");
}

#[test]
fn backspace_drops_pieces_that_reach_beyond_the_input() {
    let mut chat = test_chat_state("abc", vec![segment(0, 1, "[a]"), segment(1, 9, "[long]")]);
    backspace_input(&mut chat);
    assert_eq!(chat.input, "ab");
    assert_eq!(chat.pasted_segments.len(), 1);
    assert_eq!(chat.pasted_segments[0].preview, "[a]");
}

#[test]
fn paste_preview_of_one_word() {
    assert_eq!(make_paste_preview("word"), "[word <pasted text 4 chars>]");
}

#[test]
fn paste_preview_of_the_same_word_at_both_ends() {
    assert_eq!(make_paste_preview("a b a"), "[a <pasted text 5 chars>]");
}

#[test]
fn paste_preview_of_white_space() {
    assert_eq!(make_paste_preview(" \n\t"), "[<pasted text 3 chars>]");
}

#[test]
fn paste_preview_counts_characters() {
    assert_eq!(make_paste_preview("ä ö"), "[ä <pasted text 3 chars> ö]");
}

#[test]
fn preview_without_pieces_is_the_input() {
    assert_eq!(render_input_preview("plain", &Vec::new()), "plain");
}

#[test]
fn preview_skips_pieces_outside_of_the_input() {
    let segments = vec![segment(9, 12, "[x]"), segment(0, 1, "[a]"), segment(0, 2, "[b]")];
    assert_eq!(render_input_preview("abc", &segments), "[a]bc");
}

#[test]
fn shifting_moves_later_pieces_and_stops_at_zero() {
    let mut segments = vec![segment(0, 4, "a"), segment(5, 9, "b"), segment(2, 12, "c")];
    shift_pasted_segments(&mut segments, 1, 4);
    let ends: Vec<(usize, usize)> = segments.iter().map(|s| (s.start, s.end)).collect();
    assert_eq!(ends, vec![(0, 4), (1, 5), (0, 8)]);
}

#[test]
fn trimming_keeps_pieces_within_the_input() {
    let mut segments = vec![segment(0, 4, "a"), segment(5, 9, "b"), segment(1, 2, "c")];
    trim_pasted_segments(&mut segments, 4);
    let previews: Vec<String> = segments.iter().map(|s| s.preview.clone()).collect();
    assert_eq!(previews, vec!["a".to_string(), "c".to_string()]);
}

#[test]
fn byte_offsets_of_wide_characters() {
    let text = "aé€😀";
    assert_eq!(length_in_bytes(text), 10);
    assert_eq!(count_before(text, 6), 3);
    let at: Vec<usize> = (0..12).filter(|i| is_boundary(text, *i)).collect();
    assert_eq!(at, vec![0, 1, 3, 6, 10]);
}

#[test]
fn tidy_pieces_do_not_overlap_and_lie_between_characters() {
    assert!(is_tidy("", &Vec::new()));
    assert!(is_tidy("abcd", &vec![segment(0, 2, ""), segment(2, 4, "")]));
    assert!(!is_tidy("abcd", &vec![segment(0, 3, ""), segment(2, 4, "")]));
    assert!(!is_tidy("abcd", &vec![segment(1, 1, "")]));
    assert!(!is_tidy("abcd", &vec![segment(1, 5, "")]));
    assert!(!is_tidy("é", &vec![segment(0, 1, "")]));
}

#[test]
fn box_height_follows_the_lines_up_to_a_limit() {
    assert_eq!(input_box_height(0), 3);
    assert_eq!(input_box_height(1), 3);
    assert_eq!(input_box_height(8), 10);
    assert_eq!(input_box_height(100), 10);
}

#[test]
fn cursor_stands_behind_the_last_visible_line() {
    let lines: Vec<String> = vec!["first".to_string(), "second".to_string(), "3rd".to_string()];
    assert_eq!(input_cursor_position(5, &lines, 0), (3, 2));
    assert_eq!(input_cursor_position(4, &lines, 0), (6, 1));
    assert_eq!(input_cursor_position(4, &lines, 9), (3, 1));
    assert_eq!(input_cursor_position(0, &lines, 1), (6, 0));
    assert_eq!(input_cursor_position(5, &Vec::new(), 0), (0, 0));
}
