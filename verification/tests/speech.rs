use speech_stream::speech::{
    merge_duplicate_segment, process, process_segment, replace_effect_segment_to_space,
    SpeechConfig, TimedText, WhisperPayload,
};

fn piece(text: &str, start: i64) -> TimedText {
    TimedText { text: text.to_string(), start }
}

fn pairs(lines: &[TimedText]) -> Vec<(String, i64)> {
    lines.iter().map(|l| (l.text.clone(), l.start)).collect()
}

#[test]
fn clean_repeated_word() {
    assert_eq!(process_segment("hello hello hello hello"), "hello");
}

#[test]
fn clean_sound_notes() {
    assert_eq!(process_segment("(music) hi (applause) bye"), "hi   bye");
}

#[test]
fn clean_doubled_beginning() {
    // The beginning of five characters is doubled and goes, both copies;
    // what stood behind it is kept as it is.
    assert_eq!(process_segment("hellohello world"), " world");
    assert_eq!(process_segment("  (ah) hellohello world "), " world");
}

#[test]
fn clean_only_the_shortest_long_beginning_is_tried() {
    // "abcde" is not doubled; that "abcdef" is does not count.
    assert_eq!(process_segment("abcdefabcdef"), "abcdefabcdef");
    assert_eq!(process_segment("abcdef abcdef x"), "abcdef abcdef x");
}

#[test]
fn clean_empty_and_blank() {
    assert_eq!(process_segment(""), "");
    assert_eq!(process_segment("   \t\n"), "");
    assert_eq!(process_segment("(noise)"), "");
}

#[test]
fn replace_keeps_text_outside_parentheses() {
    assert_eq!(replace_effect_segment_to_space("a(b)c"), "a c");
    assert_eq!(replace_effect_segment_to_space("no notes"), "no notes");
}

#[test]
fn replace_unmatched_parentheses() {
    assert_eq!(replace_effect_segment_to_space("a (b"), "a ");
    assert_eq!(replace_effect_segment_to_space("a ) b"), "a   b");
    assert_eq!(replace_effect_segment_to_space("((x) y"), "  y");
}

#[test]
fn merge_two_equal_words() {
    assert_eq!(merge_duplicate_segment("go go"), "go");
}

#[test]
fn merge_single_word_is_scanned() {
    assert_eq!(merge_duplicate_segment("word"), "word");
    assert_eq!(merge_duplicate_segment("abcdeabcde"), "");
    assert_eq!(merge_duplicate_segment("abcdeabcdeabcde"), "abcde");
}

#[test]
fn merge_removes_the_doubled_beginning_whole() {
    assert_eq!(merge_duplicate_segment("hellohello world"), " world");
    assert_eq!(merge_duplicate_segment("hellohellohello world"), "hello world");
}

#[test]
fn merge_removes_as_long_as_the_text_begins_doubled() {
    assert_eq!(merge_duplicate_segment("abcdeabcdeabcdeabcde x"), " x");
    // Only the front is looked at.
    assert_eq!(
        merge_duplicate_segment("abcdeabcde x abcdeabcde"),
        " x abcdeabcde"
    );
}

#[test]
fn merge_tries_the_shortest_long_beginning_only() {
    assert_eq!(merge_duplicate_segment("abcdefabcdef"), "abcdefabcdef");
    assert_eq!(merge_duplicate_segment("abcdef abcdef x"), "abcdef abcdef x");
    assert_eq!(merge_duplicate_segment("abcd"), "abcd");
    assert_eq!(merge_duplicate_segment(""), "");
}

#[test]
fn merge_short_prefix_is_kept() {
    assert_eq!(merge_duplicate_segment("abab cd"), "abab cd");
    assert_eq!(merge_duplicate_segment("abcdabcd x"), "abcdabcd x");
}

#[test]
fn merge_words_apart_are_no_doubled_beginning() {
    assert_eq!(
        merge_duplicate_segment("hello hello hello world"),
        "hello hello hello world"
    );
}

#[test]
fn merge_counts_bytes_of_wide_characters() {
    // Two characters of three bytes each are already longer than four bytes.
    assert_eq!(merge_duplicate_segment("你好你好 吗"), " 吗");
    assert_eq!(merge_duplicate_segment("你好吗你好吗"), "你好吗你好吗");
    assert_eq!(merge_duplicate_segment("abab c"), "abab c");
}

#[test]
fn merge_distinct_words_unchanged() {
    assert_eq!(merge_duplicate_segment("one two three"), "one two three");
    assert_eq!(merge_duplicate_segment("a  b"), "a  b");
}

#[test]
fn merge_spaces_only() {
    assert_eq!(merge_duplicate_segment(" "), "");
    assert_eq!(merge_duplicate_segment("  "), "");
}

#[test]
fn clean_twice_changes_nothing_more() {
    for x in ["hello hello", "(a) b (c)", "abcdefabcdef", " x ", "plain text here"] {
        let once = process_segment(x);
        assert_eq!(process_segment(&once), once);
    }
}

#[test]
fn clean_twice_can_differ() {
    // What is left behind a doubled beginning may begin with a space.
    let once = process_segment("hellohello world");
    assert_eq!(once, " world");
    assert_eq!(process_segment(&once), "world");
    // It may itself begin doubled.
    let once = process_segment("abcdeabcdexyzuvxyzuv!");
    assert_eq!(once, "xyzuvxyzuv!");
    assert_eq!(process_segment(&once), "!");
}

#[test]
fn process_cleans_and_keeps_order() {
    let lines = process(&vec![piece(" (music) hi", 0), piece(" there there", 1200)]);
    assert_eq!(
        pairs(&lines),
        vec![("hi".to_string(), 0), ("there".to_string(), 1200)]
    );
}

#[test]
fn process_drops_empty_text() {
    let lines = process(&vec![piece("(music)", 0), piece("  ", 10), piece("ok", 20)]);
    assert_eq!(pairs(&lines), vec![("ok".to_string(), 20)]);
}

#[test]
fn process_drops_text_equal_to_previous_piece() {
    let lines = process(&vec![piece("same", 0), piece("same", 500), piece("other", 900)]);
    assert_eq!(
        pairs(&lines),
        vec![("same".to_string(), 0), ("other".to_string(), 900)]
    );
}

#[test]
fn process_compares_with_previous_text_as_given() {
    // The piece before is remembered as the recogniser gave it, so a
    // cleaned text is compared with the uncleaned one.
    let lines = process(&vec![piece(" same", 0), piece(" same", 500)]);
    assert_eq!(
        pairs(&lines),
        vec![("same".to_string(), 0), ("same".to_string(), 500)]
    );
    let lines = process(&vec![piece("(x)", 0), piece("a", 1), piece("a a", 2)]);
    assert_eq!(pairs(&lines), vec![("a".to_string(), 1)]);
}

#[test]
fn process_nothing() {
    assert!(process(&Vec::new()).is_empty());
}

#[test]
fn config_defaults() {
    let config = SpeechConfig::default();
    assert_eq!(config.threads, 4);
    assert_eq!(config.lang, Some("en"));
    let config = SpeechConfig::new(2, None);
    assert_eq!(config.threads, 2);
    assert_eq!(config.lang, None);
    let audio = vec![1u32, 2, 3];
    let payload = WhisperPayload::new(&audio, SpeechConfig::new(1, Some("ja")));
    assert_eq!(payload.audio_data(), &[1u32, 2, 3][..]);
    assert_eq!(payload.config().threads, 1);
    assert_eq!(payload.config().lang, Some("ja"));
}
