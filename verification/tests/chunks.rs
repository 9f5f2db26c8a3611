use chatbot::chunks::cuts_fit_characters;
use chatbot::split_string_into_chunks;

#[test]
fn ascii_text_is_cut_every_chunk_size_bytes() {
    let chunks = split_string_into_chunks("abcdefg", 3);
    assert_eq!(chunks, vec!["abc".to_string(), "def".to_string(), "g".to_string()]);
}

#[test]
fn exact_multiple_has_no_short_last_piece() {
    let chunks = split_string_into_chunks("abcdef", 3);
    assert_eq!(chunks, vec!["abc".to_string(), "def".to_string()]);
}

#[test]
fn short_text_is_one_piece() {
    let chunks = split_string_into_chunks("hello", 2000);
    assert_eq!(chunks, vec!["hello".to_string()]);
}

#[test]
fn empty_text_has_no_piece() {
    assert!(split_string_into_chunks("", 5).is_empty());
    assert!(split_string_into_chunks("", 0).is_empty());
}

#[test]
fn multibyte_text_cut_on_boundaries() {
    // each of these characters takes three bytes of UTF-8
    let chunks = split_string_into_chunks("あいう", 3);
    assert_eq!(chunks, vec!["あ".to_string(), "い".to_string(), "う".to_string()]);
    let chunks = split_string_into_chunks("あいう", 6);
    assert_eq!(chunks, vec!["あい".to_string(), "う".to_string()]);
}

#[test]
fn pieces_rejoin_into_the_text() {
    let text = "ab€cd€ef";
    // '€' takes three bytes: the text is 12 bytes long, cut at 4 and 8 bytes
    assert!(cuts_fit_characters(text, 4) == (text.is_char_boundary(4) && text.is_char_boundary(8)));
    let text = "abcd€efgh";
    assert!(cuts_fit_characters(text, 7));
    let chunks = split_string_into_chunks(text, 7);
    assert_eq!(chunks.concat(), text);
    assert!(chunks.iter().all(|c| !c.is_empty() && c.len() <= 7));
}

#[test]
fn cut_inside_a_character_is_detected() {
    assert!(!cuts_fit_characters("あい", 2));
    assert!(cuts_fit_characters("あい", 3));
    assert!(cuts_fit_characters("あい", 6));
    assert!(cuts_fit_characters("あい", 100));
}

#[test]
fn zero_chunk_size_fits_only_the_empty_text() {
    assert!(cuts_fit_characters("", 0));
    assert!(!cuts_fit_characters("a", 0));
}
