use chatbot::handler::{
    ready, reply_messages, reply_text_of, ChannelStep, MentionStep, Notice, Opening, ThreadKind,
    THREAD_ARCHIVE_MINUTES,
};
use chatbot::{
    ChatGPTMessage, ChatGPTResponse, Choice, Config, Handler, IncomingMessage, LlamaMessage,
    Usage,
};

fn config() -> Config {
    Config {
        token: "SECRET-REDACTED".to_string(),
        application_id: 42,
        llama_url: "ws://localhost:18080/".to_string(),
        openai_key: "key".to_string(),
        chatgpt_allows: vec![1],
        chatgpt_forums: vec![500],
    }
}

fn msg(author: u64, channel: u64, content: &str) -> IncomingMessage {
    IncomingMessage {
        author_id: author,
        author_is_bot: false,
        channel_id: channel,
        in_guild: true,
        content: content.to_string(),
    }
}

fn response(content: &str, total: usize) -> ChatGPTResponse {
    ChatGPTResponse {
        id: "id".to_string(),
        object: "chat.completion".to_string(),
        created: 0,
        model: "gpt-3.5-turbo".to_string(),
        choices: vec![Choice {
            index: 0,
            finish_reason: Some("stop".to_string()),
            message: ChatGPTMessage { role: "assistant".to_string(), content: content.to_string() },
        }],
        usage: Usage { prompt_tokens: 1, completion_tokens: 2, total_tokens: total },
    }
}

fn user(content: &str) -> ChatGPTMessage {
    ChatGPTMessage { role: "user".to_string(), content: content.to_string() }
}

fn assistant(content: &str) -> ChatGPTMessage {
    ChatGPTMessage { role: "assistant".to_string(), content: content.to_string() }
}

#[test]
fn notices_have_their_texts() {
    assert_eq!(Notice::Skipped.text(), "スキップしました。");
    assert_eq!(Notice::HistoryReset.text(), "会話履歴をリセットしました。");
    assert_eq!(Notice::NoPermission.text(), "権限がありません。");
}

#[test]
fn bots_and_direct_messages_are_ignored() {
    let mut h = Handler::new(config());
    h.open_thread(ThreadKind::Llama, 10);
    let mut m = msg(1, 10, "hi");
    m.author_is_bot = true;
    assert_eq!(h.open_message(&m), Opening::Ignore);
    let mut m = msg(1, 10, "hi");
    m.in_guild = false;
    assert_eq!(h.open_message(&m), Opening::Ignore);
    assert_eq!(h.llama_session(10).unwrap().history, vec![]);
}

#[test]
fn semicolon_messages_are_skipped() {
    let mut h = Handler::new(config());
    h.open_thread(ThreadKind::Llama, 10);
    assert_eq!(h.open_message(&msg(1, 10, ";note")), Opening::Reply(Notice::Skipped));
    assert_eq!(h.llama_session(10).unwrap().history, vec![]);
}

#[test]
fn llama_thread_collects_the_conversation() {
    let mut h = Handler::new(config());
    assert_eq!(h.open_message(&msg(1, 10, "hi")), Opening::Continue);
    h.open_thread(ThreadKind::Llama, 10);
    let expected = vec![LlamaMessage { role: "user".to_string(), content: "hi".to_string() }];
    match h.open_message(&msg(1, 10, "hi")) {
        Opening::Llama(req) => assert_eq!(req.messages, expected),
        other => panic!("unexpected {:?}", other),
    }
    let s = h.llama_session(10).unwrap();
    assert_eq!(s.channel, 10);
    assert_eq!(s.history, expected);
    match h.open_message(&msg(2, 10, "more")) {
        Opening::Llama(req) => assert_eq!(req.messages.len(), 2),
        other => panic!("unexpected {:?}", other),
    }
}

#[test]
fn llama_reset_accepts_surrounding_white_space() {
    let mut h = Handler::new(config());
    h.open_thread(ThreadKind::Llama, 10);
    h.open_message(&msg(1, 10, "hi"));
    assert_eq!(h.open_message(&msg(1, 10, "  reset\n")), Opening::Reply(Notice::HistoryReset));
    assert_eq!(h.llama_session(10).unwrap().history, vec![]);
}

#[test]
fn forum_post_opens_a_chatgpt_conversation() {
    let mut h = Handler::new(config());
    assert_eq!(h.continue_in_channel(&msg(3, 20, "hello"), Some(501)), ChannelStep::Continue);
    assert!(h.channel_session(20).is_none());
    match h.continue_in_channel(&msg(3, 20, "hello"), Some(500)) {
        ChannelStep::Ask(req) => {
            assert_eq!(req.model, "gpt-3.5-turbo");
            assert_eq!(req.messages, vec![user("hello")]);
        }
        other => panic!("unexpected {:?}", other),
    }
    assert_eq!(h.channel_session(20).unwrap().history, vec![]);
}

#[test]
fn channel_chat_exchange_is_stored_and_posted() {
    let mut h = Handler::new(config());
    h.open_thread(ThreadKind::ChatGPT, 20);
    let m = msg(3, 20, "question");
    assert!(matches!(h.continue_in_channel(&m, None), ChannelStep::Ask(_)));
    let replies = h.finish_channel_chat(&m, &response("answer", 15)).unwrap();
    assert_eq!(replies, vec!["answer\ntokens: 15/4096".to_string()]);
    assert_eq!(h.channel_session(20).unwrap().history, vec![user("question"), assistant("answer")]);
    match h.continue_in_channel(&msg(3, 20, "next"), None) {
        ChannelStep::Ask(req) => {
            assert_eq!(req.messages, vec![user("question"), assistant("answer"), user("next")])
        }
        other => panic!("unexpected {:?}", other),
    }
}

#[test]
fn channel_reset_is_exact() {
    let mut h = Handler::new(config());
    h.open_thread(ThreadKind::ChatGPT, 20);
    let m = msg(3, 20, "question");
    h.continue_in_channel(&m, None);
    h.finish_channel_chat(&m, &response("answer", 1));
    assert!(matches!(h.continue_in_channel(&msg(3, 20, " reset"), None), ChannelStep::Ask(_)));
    assert_eq!(h.continue_in_channel(&msg(3, 20, "reset"), None), ChannelStep::Send(Notice::HistoryReset));
    assert_eq!(h.channel_session(20).unwrap().history, vec![]);
}

#[test]
fn mentions_from_unlisted_users_are_refused() {
    let mut h = Handler::new(config());
    assert_eq!(h.address_bot(&msg(2, 30, "<@42> hello")), MentionStep::Reply(Notice::NoPermission));
    assert!(h.user_session(2).is_none());
    assert_eq!(h.address_bot(&msg(2, 30, "hello <@42>")), MentionStep::Ignore);
}

#[test]
fn mention_conversation() {
    let mut h = Handler::new(config());
    let m = msg(1, 30, "<@42> hello");
    match h.address_bot(&m) {
        MentionStep::Ask(req) => assert_eq!(req.messages, vec![user("<@42> hello")]),
        other => panic!("unexpected {:?}", other),
    }
    assert!(h.user_session(1).is_none());
    let replies = h.finish_mention_chat(&m, &response("hi there", 7)).unwrap();
    assert_eq!(replies, vec!["hi there\ntokens: 7/4096".to_string()]);
    let s = h.user_session(1).unwrap();
    assert_eq!(s.user, 1);
    assert_eq!(s.history, vec![user("<@42> hello"), assistant("hi there")]);
    assert_eq!(h.address_bot(&msg(1, 31, "<@42>  reset ")), MentionStep::Reply(Notice::HistoryReset));
    assert_eq!(h.user_session(1).unwrap().history, vec![]);
}

#[test]
fn long_answers_are_posted_in_pieces_without_fences() {
    let body = format!("```{}```", "x".repeat(2500));
    let r = response(&body, 3);
    let text = reply_text_of(&r);
    assert_eq!(text, format!("{}\ntokens: 3/4096", body));
    let pieces = reply_messages(&text).unwrap();
    assert_eq!(pieces.len(), 2);
    assert_eq!(pieces[0], format!("{}", "x".repeat(1997)));
    assert_eq!(pieces[1], format!("{}\ntokens: 3/4096", "x".repeat(503)));
}

#[test]
fn short_answers_keep_their_fences() {
    let text = "```code```".to_string();
    assert_eq!(reply_messages(&text).unwrap(), vec![text.clone()]);
}

#[test]
fn answer_cut_inside_a_character_is_reported() {
    // 1999 ASCII bytes then a three-byte character: the cut at 2000 falls inside it
    let text = format!("{}あ", "x".repeat(1999));
    assert_eq!(reply_messages(&text), None);
}

#[test]
fn slash_commands() {
    let h = Handler::new(config());
    assert_eq!(h.on_command("llama", 99), Some(ThreadKind::Llama));
    assert_eq!(h.on_command("chatgpt", 1), Some(ThreadKind::ChatGPT));
    assert_eq!(h.on_command("chatgpt", 2), None);
    assert_eq!(h.on_command("other", 1), None);
    assert_eq!(ThreadKind::Llama.announcement(), "LLaMa Chat thread");
    assert_eq!(ThreadKind::Llama.thread_name(), "LLaMa Chat");
    assert_eq!(ThreadKind::ChatGPT.announcement(), "ChatGPT thread");
    assert_eq!(ThreadKind::ChatGPT.thread_name(), "ChatGPT");
    assert_eq!(THREAD_ARCHIVE_MINUTES, 60);
}

#[test]
fn ready_registers_missing_commands() {
    let all = ready(&vec![]);
    assert_eq!(all.len(), 2);
    assert_eq!(all[0].name, "llama");
    assert_eq!(all[0].description, "Start llama chat.");
    assert_eq!(all[1].name, "chatgpt");
    assert_eq!(all[1].description, "Start ChatGPT chat.");
    let some = ready(&vec!["llama".to_string(), "other".to_string()]);
    assert_eq!(some.len(), 1);
    assert_eq!(some[0].name, "chatgpt");
    assert!(ready(&vec!["chatgpt".to_string(), "llama".to_string()]).is_empty());
}
