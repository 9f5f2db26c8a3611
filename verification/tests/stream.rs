use chatbot::stream::LlamaStream;

#[test]
fn first_frame_opens_the_reply() {
    let s = LlamaStream::start("Hel");
    assert_eq!(s.text(), "Hel");
}

#[test]
fn frames_gather_and_edit_every_third_after_the_first_three() {
    let mut s = LlamaStream::start("a");
    let mut edits = Vec::new();
    for k in 1..=10 {
        if s.push_text(&k.to_string()) {
            edits.push(k);
        }
    }
    assert_eq!(edits, vec![4, 7, 10]);
    assert_eq!(s.text(), "a12345678910");
}
