//! What the bot decides on each event: which conversation a message belongs
//! to, what is sent to the model back ends, what is answered, and how the
//! conversation histories change. Sending and receiving is left to the caller,
//! which hands each outcome back as the next step's input.
use vstd::prelude::*;
use vstd::utf8::*;
use crate::chunks::{byte_chunks, lemma_ascii_cuts_fit, lemma_byte_chunks_sizes, cuts_fit_characters, cuts_on_char_boundaries, split_string_into_chunks};
use crate::config::{mention_of, Config};
use crate::data::{
    chat_lines, copy_llama_history, llama_lines, user_line, ChatGPT, ChatGPTData, ChatGPTMessage,
    ChatGPTRequest, ChatGPTResponse, IndividualChatGPT, IndividualChatGPTData, Line, Llama,
    LlamaData, LlamaMessage, LlamaRequest,
};
use crate::number::{decimal, push_decimal};
use crate::text::{
    has_fence, lemma_without_fences_has_none,
    chars_of, has_prefix, range_equals, remove_fences, starts_with, trimmed, trimmed_tail_equals,
    without_fences,
};

verus! {

broadcast use vstd::string::group_string_axioms;

/// A message posted where the bot can read it.
#[derive(Clone, Debug, PartialEq, Eq)]
pub struct IncomingMessage {
    pub author_id: u64,
    pub author_is_bot: bool,
    pub channel_id: u64,
    /// Whether the message was posted in a guild (not in a direct message).
    pub in_guild: bool,
    pub content: String,
}

/// A fixed answer of the bot.
#[derive(Clone, Copy, Debug, PartialEq, Eq)]
pub enum Notice {
    /// The message was skipped (it starts with `;`).
    Skipped,
    /// The conversation history was cleared.
    HistoryReset,
    /// The user may not talk to ChatGPT.
    NoPermission,
}

/// The text of a fixed answer.
pub open spec fn notice_text(n: Notice) -> Seq<char> {
    match n {
        Notice::Skipped => "スキップしました。"@,
        Notice::HistoryReset => "会話履歴をリセットしました。"@,
        Notice::NoPermission => "権限がありません。"@,
    }
}

impl Notice {
    /// The text of this answer.
    pub fn text(&self) -> (s: String)
        ensures
            s@ == notice_text(*self),
    {
        match self {
            Notice::Skipped => String::from_str("スキップしました。"),
            Notice::HistoryReset => String::from_str("会話履歴をリセットしました。"),
            Notice::NoPermission => String::from_str("権限がありません。"),
        }
    }
}

/// The outcome of the first look at a message.
#[derive(Clone, Debug, PartialEq, Eq)]
pub enum Opening {
    /// Nothing is done with the message.
    Ignore,
    /// The message is answered with this reply, and nothing more is done.
    Reply(Notice),
    /// The llama back end is sent this conversation and streams its answer;
    /// then the message goes on to `continue_in_channel`.
    Llama(LlamaRequest),
    /// The message goes on to `continue_in_channel`.
    Continue,
}

/// The outcome of looking at a message as part of a channel's ChatGPT
/// conversation.
#[derive(Clone, Debug, PartialEq, Eq)]
pub enum ChannelStep {
    /// This text is posted in the channel, and nothing more is done.
    Send(Notice),
    /// ChatGPT is sent this request; its answer goes to `finish_channel_chat`,
    /// then the message goes on to `address_bot`.
    Ask(ChatGPTRequest),
    /// The message goes on to `address_bot`.
    Continue,
}

/// The outcome of looking at a message that may mention the bot.
#[derive(Clone, Debug, PartialEq, Eq)]
pub enum MentionStep {
    /// Nothing more is done with the message.
    Ignore,
    /// The message is answered with this reply, and nothing more is done.
    Reply(Notice),
    /// ChatGPT is sent this request; its answer goes to `finish_mention_chat`.
    Ask(ChatGPTRequest),
}

/// The kind of conversation a slash command opens a thread for.
#[derive(Clone, Copy, Debug, PartialEq, Eq)]
pub enum ThreadKind {
    Llama,
    ChatGPT,
}

/// How long an opened thread stays active without messages, in minutes.
pub const THREAD_ARCHIVE_MINUTES: u16 = 60;

impl ThreadKind {
    /// The message posted in the channel to start the thread.
    pub fn announcement(&self) -> (s: String)
        ensures
            s@ == (match *self {
                ThreadKind::Llama => "LLaMa Chat thread"@,
                ThreadKind::ChatGPT => "ChatGPT thread"@,
            }),
    {
        match self {
            ThreadKind::Llama => String::from_str("LLaMa Chat thread"),
            ThreadKind::ChatGPT => String::from_str("ChatGPT thread"),
        }
    }

    /// The name of the thread.
    pub fn thread_name(&self) -> (s: String)
        ensures
            s@ == (match *self {
                ThreadKind::Llama => "LLaMa Chat"@,
                ThreadKind::ChatGPT => "ChatGPT"@,
            }),
    {
        match self {
            ThreadKind::Llama => String::from_str("LLaMa Chat"),
            ThreadKind::ChatGPT => String::from_str("ChatGPT"),
        }
    }
}

/// A global slash command of the bot.
#[derive(Clone, Debug, PartialEq, Eq)]
pub struct SlashCommand {
    pub name: String,
    pub description: String,
}

/// The ChatGPT model that conversations use.
pub open spec fn model_name() -> Seq<char> {
    "gpt-3.5-turbo"@
}

/// The word that clears a conversation.
pub open spec fn reset_word() -> Seq<char> {
    "reset"@
}

/// The size, in bytes of UTF-8, of the pieces a long answer is posted in.
pub const REPLY_CHUNK_BYTES: usize = 2000;

/// The line of ChatGPT's first completion.
pub open spec fn answer_line(r: ChatGPTResponse) -> Line {
    r.choices@[0].message.line()
}

/// The text posted for ChatGPT's answer: the first completion and the number
/// of tokens used.
pub open spec fn reply_text(r: ChatGPTResponse) -> Seq<char> {
    r.choices@[0].message.content@ + "\ntokens: "@ + decimal(r.usage.total_tokens as nat)
        + "/4096"@
}

/// The pieces that a text is posted in: consecutive runs of 2000 bytes of
/// UTF-8, each without code fences when there is more than one. `None` when a
/// cut falls inside a character.
pub open spec fn reply_pieces(text: Seq<char>) -> Option<Seq<Seq<char>>> {
    let bytes = encode_utf8(text);
    if cuts_on_char_boundaries(bytes, 2000) {
        let parts = byte_chunks(bytes, 2000);
        Some(
            Seq::new(
                parts.len(),
                |j: int|
                    if parts.len() > 1 {
                        without_fences(decode_utf8(parts[j]))
                    } else {
                        decode_utf8(parts[j])
                    },
            ),
        )
    } else {
        None
    }
}

/// Law: a non-empty text of at most 2000 bytes is posted as it is, in one
/// message, code fences included.
pub proof fn lemma_short_reply_unchanged(text: Seq<char>)
    requires
        0 < encode_utf8(text).len() <= 2000,
    ensures
        reply_pieces(text) == Some(seq![text]),
{
    let bytes = encode_utf8(text);
    assert(byte_chunks(bytes, 2000) == seq![bytes]);
    encode_utf8_decode_utf8(text);
    assert(reply_pieces(text)->0 =~= seq![text]);
}

/// Law: an answer of ASCII characters only, of any length, is always posted:
/// in as many pieces as it takes 2000 bytes to cover it.
pub proof fn lemma_ascii_reply_is_posted(text: Seq<char>)
    requires
        is_ascii_chars(text),
        text.len() > 0,
    ensures
        reply_pieces(text) matches Some(p) && p.len() == (text.len() + 1999) / 2000,
{
    let bytes = encode_utf8(text);
    is_ascii_chars_encode_utf8(text);
    lemma_ascii_cuts_fit(text, 2000);
    lemma_byte_chunks_sizes(bytes, 2000, 0);
}

/// Law: when an answer is posted in more than one piece, no piece holds three
/// backticks in a row, whichever piece it is.
pub proof fn lemma_pieces_hold_no_fence(text: Seq<char>)
    ensures
        reply_pieces(text) matches Some(p) ==> (p.len() > 1 ==> forall|j: int, k: int|
            0 <= j < p.len() && 0 <= k && k + 3 <= p[j].len() ==> !(#[trigger] p[j][k] == '`'
                && p[j][k + 1] == '`' && p[j][k + 2] == '`')),
{
    if let Some(p) = reply_pieces(text) {
        if p.len() > 1 {
            let parts = byte_chunks(encode_utf8(text), 2000);
            assert forall|j: int, k: int|
                0 <= j < p.len() && 0 <= k && k + 3 <= p[j].len() implies !(#[trigger] p[j][k]
                == '`' && p[j][k + 1] == '`' && p[j][k + 2] == '`') by {
                let piece = decode_utf8(parts[j]);
                assert(p[j] == without_fences(piece));
                lemma_without_fences_has_none(piece);
                if p[j][k] == '`' && p[j][k + 1] == '`' && p[j][k + 2] == '`' {
                    assert(has_fence(p[j]));
                }
            }
        }
    }
}

/// The conversation stored under `k`, or none yet.
pub open spec fn prior(m: Map<u64, Seq<Line>>, k: u64) -> Seq<Line> {
    if m.contains_key(k) {
        m[k]
    } else {
        seq![]
    }
}

/// The conversation sent to a back end for a new message: the one stored
/// under `k` so far, then the message.
pub open spec fn asked(m: Map<u64, Seq<Line>>, k: u64, c: Seq<char>) -> Seq<Line> {
    prior(m, k).push(user_line(c))
}

/// The conversations once an exchange under `k` is done: the message and the
/// answer join the conversation stored under `k`.
pub open spec fn with_exchange(m: Map<u64, Seq<Line>>, k: u64, c: Seq<char>, answer: Line) -> Map<
    u64,
    Seq<Line>,
> {
    m.insert(k, asked(m, k, c).push(answer))
}

/// Law: once an exchange is done, the conversation holds exactly what was
/// sent and then the answer, two lines more than before; every other
/// conversation is unchanged.
pub proof fn lemma_exchange_extends_request(
    m: Map<u64, Seq<Line>>,
    k: u64,
    c: Seq<char>,
    answer: Line,
)
    ensures
        with_exchange(m, k, c, answer)[k] == asked(m, k, c).push(answer),
        with_exchange(m, k, c, answer)[k].len() == prior(m, k).len() + 2,
        with_exchange(m, k, c, answer)[k].drop_last() == asked(m, k, c),
        forall|other: u64|
            other != k ==> {
                &&& (#[trigger] with_exchange(m, k, c, answer).contains_key(other))
                    == m.contains_key(other)
                &&& m.contains_key(other) ==> with_exchange(m, k, c, answer)[other] == m[other]
            },
{
    assert(asked(m, k, c).push(answer).drop_last() =~= asked(m, k, c));
}

/// Law: a new message is sent with the whole conversation stored for its
/// session, every line of it in order, and then the message written by the
/// user; a session without a conversation sends the message alone. Once the
/// exchange is done, the stored conversation is the old one followed by
/// exactly the message and the answer.
pub proof fn lemma_whole_history_is_sent(
    m: Map<u64, Seq<Line>>,
    k: u64,
    c: Seq<char>,
    answer: Line,
)
    ensures
        m.contains_key(k) ==> {
            &&& asked(m, k, c).len() == m[k].len() + 1
            &&& forall|i: int| 0 <= i < m[k].len() ==> #[trigger] asked(m, k, c)[i] == m[k][i]
            &&& asked(m, k, c)[m[k].len() as int] == ("user"@, c)
            &&& with_exchange(m, k, c, answer)[k] =~= m[k] + seq![("user"@, c), answer]
        },
        !m.contains_key(k) ==> {
            &&& asked(m, k, c) =~= seq![("user"@, c)]
            &&& with_exchange(m, k, c, answer)[k] =~= seq![("user"@, c), answer]
        },
        with_exchange(m, k, c, answer).contains_key(k),
{
}

/// The text posted for ChatGPT's answer (as
/// `format!("{}\ntokens: {}/4096", content, total_tokens)`).
pub fn reply_text_of(response: &ChatGPTResponse) -> (s: String)
    requires
        response.choices@.len() > 0,
    ensures
        s@ == reply_text(*response),
{
    let mut s = response.choices[0].message.content.clone();
    s.append("\ntokens: ");
    push_decimal(&mut s, response.usage.total_tokens as u64);
    s.append("/4096");
    s
}

/// The messages that a text is posted in: pieces of at most 2000 bytes, code
/// fences removed from each when there is more than one. `None` when a cut
/// falls inside a character, where slicing the text panics.
pub fn reply_messages(text: &String) -> (r: Option<Vec<String>>)
    ensures
        match r {
            Some(v) => reply_pieces(text@) matches Some(p) && v@.len() == p.len() && forall|j: int|
                0 <= j < p.len() ==> #[trigger] v@[j]@ == p[j],
            None => reply_pieces(text@) is None,
        },
{
    let s = text.as_str();
    if !cuts_fit_characters(s, REPLY_CHUNK_BYTES) {
        return None;
    }
    let pieces = split_string_into_chunks(s, REPLY_CHUNK_BYTES);
    let ghost parts = byte_chunks(encode_utf8(text@), 2000);
    let l = pieces.len();
    let mut out: Vec<String> = Vec::new();
    for i in 0..l
        invariant
            l == pieces@.len(),
            l == parts.len(),
            parts == byte_chunks(encode_utf8(text@), 2000),
            forall|j: int| 0 <= j < l ==> #[trigger] pieces@[j]@ == decode_utf8(parts[j]),
            out@.len() == i,
            forall|j: int|
                0 <= j < i ==> #[trigger] out@[j]@ == (if l > 1 {
                    without_fences(decode_utf8(parts[j]))
                } else {
                    decode_utf8(parts[j])
                }),
    {
        if l > 1 {
            let cs = chars_of(pieces[i].as_str());
            out.push(remove_fences(&cs));
        } else {
            out.push(pieces[i].clone());
        }
    }
    Some(out)
}

/// The bot's state: its settings and the conversations it holds.
pub struct Handler {
    config: Config,
    llama: LlamaData,
    chatgpt: ChatGPTData,
    individual: IndividualChatGPTData,
}

impl Handler {
    /// Every stored conversation sits under its own id.
    pub closed spec fn wf(&self) -> bool {
        self.llama.wf() && self.chatgpt.wf() && self.individual.wf()
    }

    /// The bot's settings.
    pub closed spec fn settings(&self) -> Config {
        self.config
    }

    /// The bot's settings.
    pub fn config(&self) -> (c: &Config)
        ensures
            *c == self.settings(),
    {
        &self.config
    }

    /// The llama conversations, by thread.
    pub closed spec fn llama_histories(&self) -> Map<u64, Seq<Line>> {
        self.llama.histories()
    }

    /// The ChatGPT conversations of threads and forum posts, by channel.
    pub closed spec fn channel_histories(&self) -> Map<u64, Seq<Line>> {
        self.chatgpt.histories()
    }

    /// The ChatGPT conversations held by mentioning the bot, by user.
    pub closed spec fn user_histories(&self) -> Map<u64, Seq<Line>> {
        self.individual.histories()
    }

    /// A bot with the given settings and no conversation yet.
    pub fn new(config: Config) -> (h: Self)
        ensures
            h.wf(),
            h.settings() == config,
            h.llama_histories() == Map::<u64, Seq<Line>>::empty(),
            h.channel_histories() == Map::<u64, Seq<Line>>::empty(),
            h.user_histories() == Map::<u64, Seq<Line>>::empty(),
    {
        Handler {
            config,
            llama: LlamaData::new(),
            chatgpt: ChatGPTData::new(),
            individual: IndividualChatGPTData::new(),
        }
    }

    /// The llama conversation of a thread.
    pub fn llama_session(&self, channel: u64) -> (r: Option<Llama>)
        requires
            self.wf(),
        ensures
            r is Some <==> self.llama_histories().contains_key(channel),
            r matches Some(s) ==> s.channel == channel && llama_lines(s.history@)
                == self.llama_histories()[channel],
    {
        self.llama.session(channel)
    }

    /// The ChatGPT conversation of a thread or forum post.
    pub fn channel_session(&self, channel: u64) -> (r: Option<ChatGPT>)
        requires
            self.wf(),
        ensures
            r is Some <==> self.channel_histories().contains_key(channel),
            r matches Some(s) ==> s.channel == channel && chat_lines(s.history@)
                == self.channel_histories()[channel],
    {
        self.chatgpt.session(channel)
    }

    /// The ChatGPT conversation a user holds by mentioning the bot.
    pub fn user_session(&self, user: u64) -> (r: Option<IndividualChatGPT>)
        requires
            self.wf(),
        ensures
            r is Some <==> self.user_histories().contains_key(user),
            r matches Some(s) ==> s.user == user && chat_lines(s.history@)
                == self.user_histories()[user],
    {
        self.individual.session(user)
    }

    /// First look at a message: messages of bots and outside guilds are
    /// ignored, messages starting with `;` are answered as skipped, and a
    /// message in a llama thread either clears its conversation (`reset`,
    /// white space around it aside) or joins it and is sent to the llama back
    /// end.
    pub fn open_message(&mut self, msg: &IncomingMessage) -> (o: Opening)
        requires
            old(self).wf(),
        ensures
            final(self).wf(),
            final(self).settings() == old(self).settings(),
            final(self).channel_histories() == old(self).channel_histories(),
            final(self).user_histories() == old(self).user_histories(),
            ({
                let c = msg.content@;
                let ch = msg.channel_id;
                let before = old(self).llama_histories();
                let after = final(self).llama_histories();
                if msg.author_is_bot {
                    o == Opening::Ignore && after == before
                } else if has_prefix(c, ";"@) {
                    o == Opening::Reply(Notice::Skipped) && after == before
                } else if !msg.in_guild {
                    o == Opening::Ignore && after == before
                } else if before.contains_key(ch) {
                    if trimmed(c) == reset_word() {
                        o == Opening::Reply(Notice::HistoryReset) && after == before.insert(
                            ch,
                            seq![],
                        )
                    } else {
                        &&& o matches Opening::Llama(req) && llama_lines(req.messages@)
                            == asked(before, ch, c)
                        &&& after == before.insert(ch, asked(before, ch, c))
                    }
                } else {
                    o == Opening::Continue && after == before
                }
            }),
    {
        if msg.author_is_bot {
            return Opening::Ignore;
        }
        let content = chars_of(msg.content.as_str());
        let semicolon = chars_of(";");
        if starts_with(&content, &semicolon) {
            return Opening::Reply(Notice::Skipped);
        }
        if !msg.in_guild {
            return Opening::Ignore;
        }
        match self.llama.session(msg.channel_id) {
            None => Opening::Continue,
            Some(session) => {
                let reset = chars_of("reset");
                assert(content@.skip(0) =~= content@);
                if trimmed_tail_equals(&content, 0, &reset) {
                    self.llama.store(msg.channel_id, Vec::new());
                    assert(llama_lines(Seq::<LlamaMessage>::empty()) =~= seq![]);
                    Opening::Reply(Notice::HistoryReset)
                } else {
                    let mut history = session.history;
                    let ghost old_history = history@;
                    history.push(LlamaMessage::from_user(&msg.content));
                    assert(llama_lines(history@) =~= llama_lines(old_history).push(
                        user_line(msg.content@),
                    ));
                    let request = LlamaRequest { messages: copy_llama_history(&history) };
                    self.llama.store(msg.channel_id, history);
                    Opening::Llama(request)
                }
            },
        }
    }

    /// Looks at a message as part of a channel's ChatGPT conversation. A post
    /// in a ChatGPT forum (`forum_parent` is the forum of the message's
    /// channel) that has no conversation yet opens an empty one. In a channel
    /// with a conversation, the message `reset` (exactly) clears it; any other
    /// message is sent to ChatGPT with the conversation so far.
    pub fn continue_in_channel(&mut self, msg: &IncomingMessage, forum_parent: Option<u64>) -> (s:
        ChannelStep)
        requires
            old(self).wf(),
        ensures
            final(self).wf(),
            final(self).settings() == old(self).settings(),
            final(self).llama_histories() == old(self).llama_histories(),
            final(self).user_histories() == old(self).user_histories(),
            ({
                let c = msg.content@;
                let ch = msg.channel_id;
                let before = old(self).channel_histories();
                let opened = match forum_parent {
                    Some(p) => !before.contains_key(ch) && old(self).settings().chatgpt_forums@.contains(p as i64),
                    None => false,
                };
                let present = if opened {
                    before.insert(ch, seq![])
                } else {
                    before
                };
                let after = final(self).channel_histories();
                if present.contains_key(ch) {
                    if c == reset_word() {
                        s == ChannelStep::Send(Notice::HistoryReset) && after == present.insert(
                            ch,
                            seq![],
                        )
                    } else {
                        &&& s matches ChannelStep::Ask(req) && req.model@ == model_name()
                            && chat_lines(req.messages@) == asked(present, ch, c)
                        &&& after == present
                    }
                } else {
                    s == ChannelStep::Continue && after == present
                }
            }),
    {
        let ch = msg.channel_id;
        let opened = match forum_parent {
            Some(p) => !self.chatgpt.contains(ch) && self.config.is_chatgpt_forum(p),
            None => false,
        };
        if opened {
            self.chatgpt.store(ch, Vec::new());
            assert(chat_lines(Seq::<ChatGPTMessage>::empty()) =~= seq![]);
        }
        match self.chatgpt.session(ch) {
            None => ChannelStep::Continue,
            Some(session) => {
                let content = chars_of(msg.content.as_str());
                let reset = chars_of("reset");
                assert(content@.subrange(0, content@.len() as int) =~= content@);
                if range_equals(&content, 0, content.len(), &reset) {
                    self.chatgpt.store(ch, Vec::new());
                    assert(chat_lines(Seq::<ChatGPTMessage>::empty()) =~= seq![]);
                    ChannelStep::Send(Notice::HistoryReset)
                } else {
                    let mut history = session.history;
                    let ghost old_history = history@;
                    history.push(ChatGPTMessage::from_user(&msg.content));
                    assert(chat_lines(history@) =~= chat_lines(old_history).push(
                        user_line(msg.content@),
                    ));
                    ChannelStep::Ask(
                        ChatGPTRequest { model: String::from_str("gpt-3.5-turbo"), messages: history },
                    )
                }
            },
        }
    }

    /// Takes ChatGPT's answer to a channel's conversation: the message and the
    /// first completion join the conversation, and the answer is posted in
    /// pieces (`None` when a cut falls inside a character, where slicing
    /// panics; the conversation is updated all the same).
    pub fn finish_channel_chat(&mut self, msg: &IncomingMessage, response: &ChatGPTResponse) -> (r:
        Option<Vec<String>>)
        requires
            old(self).wf(),
            old(self).channel_histories().contains_key(msg.channel_id),
            response.choices@.len() > 0,
        ensures
            final(self).wf(),
            final(self).settings() == old(self).settings(),
            final(self).llama_histories() == old(self).llama_histories(),
            final(self).user_histories() == old(self).user_histories(),
            final(self).channel_histories() == with_exchange(
                old(self).channel_histories(),
                msg.channel_id,
                msg.content@,
                answer_line(*response),
            ),
            match r {
                Some(v) => reply_pieces(reply_text(*response)) matches Some(p) && v@.len()
                    == p.len() && forall|j: int| 0 <= j < p.len() ==> #[trigger] v@[j]@ == p[j],
                None => reply_pieces(reply_text(*response)) is None,
            },
    {
        let ch = msg.channel_id;
        let mut history = match self.chatgpt.session(ch) {
            Some(s) => s.history,
            None => Vec::new(),
        };
        let ghost old_history = history@;
        history.push(ChatGPTMessage::from_user(&msg.content));
        history.push(response.choices[0].message.copied());
        assert(chat_lines(history@) =~= chat_lines(old_history).push(user_line(msg.content@)).push(
            answer_line(*response),
        ));
        self.chatgpt.store(ch, history);
        let text = reply_text_of(response);
        reply_messages(&text)
    }

    /// Looks at a message that may mention the bot. A mention from a user who
    /// may not talk to ChatGPT is refused; `reset` after the mention (white
    /// space around it aside) clears the user's conversation; anything else
    /// is sent to ChatGPT, the whole message with the mention, after the
    /// user's conversation so far.
    pub fn address_bot(&mut self, msg: &IncomingMessage) -> (s: MentionStep)
        requires
            old(self).wf(),
        ensures
            final(self).wf(),
            final(self).settings() == old(self).settings(),
            final(self).llama_histories() == old(self).llama_histories(),
            final(self).channel_histories() == old(self).channel_histories(),
            ({
                let c = msg.content@;
                let mention = mention_of(old(self).settings().application_id);
                let u = msg.author_id;
                let before = old(self).user_histories();
                let after = final(self).user_histories();
                if !has_prefix(c, mention) {
                    s == MentionStep::Ignore && after == before
                } else if !old(self).settings().chatgpt_allows@.contains(u as i64) {
                    s == MentionStep::Reply(Notice::NoPermission) && after == before
                } else if trimmed(c.skip(mention.len() as int)) == reset_word() {
                    s == MentionStep::Reply(Notice::HistoryReset) && after == before.insert(
                        u,
                        seq![],
                    )
                } else {
                    &&& s matches MentionStep::Ask(req) && req.model@ == model_name() && chat_lines(
                        req.messages@,
                    ) == asked(before, u, c)
                    &&& after == before
                }
            }),
    {
        let content = chars_of(msg.content.as_str());
        let mention_text = self.config.mention();
        let mention = chars_of(mention_text.as_str());
        if !starts_with(&content, &mention) {
            return MentionStep::Ignore;
        }
        if !self.config.allows(msg.author_id) {
            return MentionStep::Reply(Notice::NoPermission);
        }
        let reset = chars_of("reset");
        if trimmed_tail_equals(&content, mention.len(), &reset) {
            self.individual.store(msg.author_id, Vec::new());
            assert(chat_lines(Seq::<ChatGPTMessage>::empty()) =~= seq![]);
            return MentionStep::Reply(Notice::HistoryReset);
        }
        let mut history = match self.individual.session(msg.author_id) {
            Some(s) => s.history,
            None => Vec::new(),
        };
        assert(chat_lines(history@) == prior(self.user_histories(), msg.author_id)) by {
            if !self.user_histories().contains_key(msg.author_id) {
                assert(chat_lines(history@) =~= seq![]);
            }
        }
        let ghost old_history = history@;
        history.push(ChatGPTMessage::from_user(&msg.content));
        assert(chat_lines(history@) =~= chat_lines(old_history).push(user_line(msg.content@)));
        MentionStep::Ask(
            ChatGPTRequest { model: String::from_str("gpt-3.5-turbo"), messages: history },
        )
    }

    /// Takes ChatGPT's answer to a user's conversation: the message and the
    /// first completion join the conversation, and the answer is posted in
    /// pieces (`None` when a cut falls inside a character, where slicing
    /// panics; the conversation is updated all the same).
    pub fn finish_mention_chat(&mut self, msg: &IncomingMessage, response: &ChatGPTResponse) -> (r:
        Option<Vec<String>>)
        requires
            old(self).wf(),
            response.choices@.len() > 0,
        ensures
            final(self).wf(),
            final(self).settings() == old(self).settings(),
            final(self).llama_histories() == old(self).llama_histories(),
            final(self).channel_histories() == old(self).channel_histories(),
            final(self).user_histories() == with_exchange(
                old(self).user_histories(),
                msg.author_id,
                msg.content@,
                answer_line(*response),
            ),
            match r {
                Some(v) => reply_pieces(reply_text(*response)) matches Some(p) && v@.len()
                    == p.len() && forall|j: int| 0 <= j < p.len() ==> #[trigger] v@[j]@ == p[j],
                None => reply_pieces(reply_text(*response)) is None,
            },
    {
        let u = msg.author_id;
        let mut history = match self.individual.session(u) {
            Some(s) => s.history,
            None => Vec::new(),
        };
        assert(chat_lines(history@) == prior(self.user_histories(), u)) by {
            if !self.user_histories().contains_key(u) {
                assert(chat_lines(history@) =~= seq![]);
            }
        }
        let ghost old_history = history@;
        history.push(ChatGPTMessage::from_user(&msg.content));
        history.push(response.choices[0].message.copied());
        assert(chat_lines(history@) =~= chat_lines(old_history).push(user_line(msg.content@)).push(
            answer_line(*response),
        ));
        self.individual.store(u, history);
        let text = reply_text_of(response);
        reply_messages(&text)
    }

    /// Which thread a slash command opens: `llama` a llama thread, and
    /// `chatgpt` a ChatGPT thread when the user may talk to ChatGPT.
    pub fn on_command(&self, name: &str, user_id: u64) -> (k: Option<ThreadKind>)
        ensures
            k == (if name@ == "llama"@ {
                Some(ThreadKind::Llama)
            } else if name@ == "chatgpt"@ && self.settings().chatgpt_allows@.contains(user_id as i64) {
                Some(ThreadKind::ChatGPT)
            } else {
                None
            }),
    {
        let n = chars_of(name);
        let llama = chars_of("llama");
        let chatgpt = chars_of("chatgpt");
        assert(n@.subrange(0, n@.len() as int) =~= n@);
        if range_equals(&n, 0, n.len(), &llama) {
            Some(ThreadKind::Llama)
        } else if range_equals(&n, 0, n.len(), &chatgpt) && self.config.allows(user_id) {
            Some(ThreadKind::ChatGPT)
        } else {
            None
        }
    }

    /// Starts an empty conversation of the given kind in the opened thread.
    pub fn open_thread(&mut self, kind: ThreadKind, thread_id: u64)
        requires
            old(self).wf(),
        ensures
            final(self).wf(),
            final(self).settings() == old(self).settings(),
            final(self).user_histories() == old(self).user_histories(),
            kind == ThreadKind::Llama ==> final(self).llama_histories() == old(
                self,
            ).llama_histories().insert(thread_id, seq![]) && final(self).channel_histories()
                == old(self).channel_histories(),
            kind == ThreadKind::ChatGPT ==> final(self).channel_histories() == old(
                self,
            ).channel_histories().insert(thread_id, seq![]) && final(self).llama_histories()
                == old(self).llama_histories(),
    {
        match kind {
            ThreadKind::Llama => {
                self.llama.store(thread_id, Vec::new());
                assert(llama_lines(Seq::<LlamaMessage>::empty()) =~= seq![]);
            },
            ThreadKind::ChatGPT => {
                self.chatgpt.store(thread_id, Vec::new());
                assert(chat_lines(Seq::<ChatGPTMessage>::empty()) =~= seq![]);
            },
        }
    }
}

/// Some command of the list is named `name`.
pub open spec fn has_command(existing: Seq<String>, name: Seq<char>) -> bool {
    exists|i: int| 0 <= i < existing.len() && #[trigger] existing[i]@ == name
}

/// The commands to register when the bot connects: `llama` and `chatgpt`,
/// each unless a command of that name is registered already.
pub fn ready(existing: &Vec<String>) -> (r: Vec<SlashCommand>)
    ensures
        ({
            let wanted = (if has_command(existing@, "llama"@) {
                Seq::<(Seq<char>, Seq<char>)>::empty()
            } else {
                seq![("llama"@, "Start llama chat."@)]
            }) + (if has_command(existing@, "chatgpt"@) {
                Seq::<(Seq<char>, Seq<char>)>::empty()
            } else {
                seq![("chatgpt"@, "Start ChatGPT chat."@)]
            });
            &&& r@.len() == wanted.len()
            &&& forall|j: int|
                0 <= j < wanted.len() ==> (#[trigger] r@[j]).name@ == wanted[j].0
                    && r@[j].description@ == wanted[j].1
        }),
{
    let llama = chars_of("llama");
    let chatgpt = chars_of("chatgpt");
    let mut has_llama = false;
    let mut has_chatgpt = false;
    for i in 0..existing.len()
        invariant
            llama@ == "llama"@,
            chatgpt@ == "chatgpt"@,
            has_llama <==> exists|k: int| 0 <= k < i && #[trigger] existing@[k]@ == "llama"@,
            has_chatgpt <==> exists|k: int| 0 <= k < i && #[trigger] existing@[k]@ == "chatgpt"@,
    {
        let n = chars_of(existing[i].as_str());
        assert(n@.subrange(0, n@.len() as int) =~= n@);
        if range_equals(&n, 0, n.len(), &llama) {
            has_llama = true;
        }
        if range_equals(&n, 0, n.len(), &chatgpt) {
            has_chatgpt = true;
        }
    }
    let mut r: Vec<SlashCommand> = Vec::new();
    if !has_llama {
        r.push(
            SlashCommand {
                name: String::from_str("llama"),
                description: String::from_str("Start llama chat."),
            },
        );
    }
    if !has_chatgpt {
        r.push(
            SlashCommand {
                name: String::from_str("chatgpt"),
                description: String::from_str("Start ChatGPT chat."),
            },
        );
    }
    r
}

} // verus!
