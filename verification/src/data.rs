//! Chat messages, the requests and replies exchanged with the model back ends,
//! and the stores that keep one conversation history per session.
use vstd::prelude::*;
use std::collections::HashMap;

verus! {

broadcast use vstd::std_specs::hash::group_hash_axioms;

/// A message of a conversation as contracts see it: its role and its content.
pub type Line = (Seq<char>, Seq<char>);

/// The line of a message the user wrote.
pub open spec fn user_line(content: Seq<char>) -> Line {
    ("user"@, content)
}

/// A request to translate a text.
#[derive(Clone, Debug, PartialEq, Eq)]
pub struct TranslateRequest {
    pub input: String,
}

/// A message of a conversation with the llama back end.
#[derive(Clone, Debug, PartialEq, Eq)]
pub struct LlamaMessage {
    pub role: String,
    pub content: String,
}

/// What the llama back end is sent: the whole conversation so far.
#[derive(Clone, Debug, PartialEq, Eq)]
pub struct LlamaRequest {
    pub messages: Vec<LlamaMessage>,
}

/// A message of a conversation with ChatGPT.
#[derive(Clone, Debug, PartialEq, Eq)]
pub struct ChatGPTMessage {
    pub role: String,
    pub content: String,
}

/// Token counts that ChatGPT reports for one completion.
#[derive(Clone, Debug, PartialEq, Eq)]
pub struct Usage {
    pub prompt_tokens: usize,
    pub completion_tokens: usize,
    pub total_tokens: usize,
}

/// One completion that ChatGPT offers.
#[derive(Clone, Debug, PartialEq, Eq)]
pub struct Choice {
    pub index: usize,
    pub finish_reason: Option<String>,
    pub message: ChatGPTMessage,
}

/// ChatGPT's answer to a chat completion request.
#[derive(Clone, Debug, PartialEq, Eq)]
pub struct ChatGPTResponse {
    pub id: String,
    pub object: String,
    pub created: usize,
    pub model: String,
    pub choices: Vec<Choice>,
    pub usage: Usage,
}

/// A chat completion request: the model and the whole conversation so far.
#[derive(Clone, Debug, PartialEq, Eq)]
pub struct ChatGPTRequest {
    pub model: String,
    pub messages: Vec<ChatGPTMessage>,
}

/// A conversation with the llama back end in a thread.
#[derive(Clone, Debug, PartialEq, Eq)]
pub struct Llama {
    pub channel: u64,
    pub history: Vec<LlamaMessage>,
}

/// A conversation with ChatGPT in a thread or forum post.
#[derive(Clone, Debug, PartialEq, Eq)]
pub struct ChatGPT {
    pub channel: u64,
    pub history: Vec<ChatGPTMessage>,
}

/// A conversation of one user with ChatGPT, held by mentioning the bot.
#[derive(Clone, Debug, PartialEq, Eq)]
pub struct IndividualChatGPT {
    pub user: u64,
    pub history: Vec<ChatGPTMessage>,
}

impl LlamaMessage {
    pub open spec fn line(&self) -> Line {
        (self.role@, self.content@)
    }

    /// The message a user wrote.
    pub fn from_user(content: &String) -> (m: Self)
        ensures
            m.line() == user_line(content@),
    {
        LlamaMessage { role: String::from_str("user"), content: content.clone() }
    }

    /// A copy of this message.
    pub fn copied(&self) -> (m: Self)
        ensures
            m.line() == self.line(),
    {
        LlamaMessage { role: self.role.clone(), content: self.content.clone() }
    }
}

impl ChatGPTMessage {
    pub open spec fn line(&self) -> Line {
        (self.role@, self.content@)
    }

    /// The message a user wrote.
    pub fn from_user(content: &String) -> (m: Self)
        ensures
            m.line() == user_line(content@),
    {
        ChatGPTMessage { role: String::from_str("user"), content: content.clone() }
    }

    /// A copy of this message.
    pub fn copied(&self) -> (m: Self)
        ensures
            m.line() == self.line(),
    {
        ChatGPTMessage { role: self.role.clone(), content: self.content.clone() }
    }
}

/// The lines of a llama conversation.
pub open spec fn llama_lines(v: Seq<LlamaMessage>) -> Seq<Line> {
    v.map_values(|m: LlamaMessage| m.line())
}

/// The lines of a ChatGPT conversation.
pub open spec fn chat_lines(v: Seq<ChatGPTMessage>) -> Seq<Line> {
    v.map_values(|m: ChatGPTMessage| m.line())
}

/// A copy of a llama conversation.
pub fn copy_llama_history(v: &Vec<LlamaMessage>) -> (r: Vec<LlamaMessage>)
    ensures
        llama_lines(r@) == llama_lines(v@),
{
    let mut r: Vec<LlamaMessage> = Vec::new();
    for i in 0..v.len()
        invariant
            r@.len() == i,
            forall|j: int| 0 <= j < i ==> (#[trigger] r@[j]).line() == v@[j].line(),
    {
        let m = v[i].copied();
        r.push(m);
    }
    assert(llama_lines(r@) =~= llama_lines(v@));
    r
}

/// A copy of a ChatGPT conversation.
pub fn copy_chat_history(v: &Vec<ChatGPTMessage>) -> (r: Vec<ChatGPTMessage>)
    ensures
        chat_lines(r@) == chat_lines(v@),
{
    let mut r: Vec<ChatGPTMessage> = Vec::new();
    for i in 0..v.len()
        invariant
            r@.len() == i,
            forall|j: int| 0 <= j < i ==> (#[trigger] r@[j]).line() == v@[j].line(),
    {
        let m = v[i].copied();
        r.push(m);
    }
    assert(chat_lines(r@) =~= chat_lines(v@));
    r
}

/// The llama conversations, one per thread, keyed by the thread's id.
pub struct LlamaData {
    sessions: HashMap<u64, Llama>,
}

impl LlamaData {
    /// Each conversation is stored under the id of its own thread.
    pub closed spec fn wf(&self) -> bool {
        forall|k: u64| #[trigger]
            self.sessions@.contains_key(k) ==> self.sessions@[k].channel == k
    }

    /// The conversation lines of each thread.
    pub closed spec fn histories(&self) -> Map<u64, Seq<Line>> {
        self.sessions@.map_values(|s: Llama| llama_lines(s.history@))
    }

    /// No conversation yet.
    pub fn new() -> (d: Self)
        ensures
            d.wf(),
            d.histories() == Map::<u64, Seq<Line>>::empty(),
    {
        let d = LlamaData { sessions: HashMap::new() };
        assert(d.histories() =~= Map::<u64, Seq<Line>>::empty());
        d
    }

    /// Whether the thread has a conversation.
    pub fn contains(&self, channel: u64) -> (b: bool)
        ensures
            b == self.histories().contains_key(channel),
    {
        self.sessions.contains_key(&channel)
    }

    /// A copy of the thread's conversation, stored under the thread's id.
    pub fn session(&self, channel: u64) -> (r: Option<Llama>)
        requires
            self.wf(),
        ensures
            r is Some <==> self.histories().contains_key(channel),
            r matches Some(s) ==> s.channel == channel && llama_lines(s.history@)
                == self.histories()[channel],
    {
        match self.sessions.get(&channel) {
            Some(s) => Some(Llama { channel: s.channel, history: copy_llama_history(&s.history) }),
            None => None,
        }
    }

    /// Sets the thread's conversation.
    pub fn store(&mut self, channel: u64, history: Vec<LlamaMessage>)
        requires
            old(self).wf(),
        ensures
            final(self).wf(),
            final(self).histories() == old(self).histories().insert(
                channel,
                llama_lines(history@),
            ),
    {
        let ghost lines = llama_lines(history@);
        self.sessions.insert(channel, Llama { channel, history });
        assert(self.histories() =~= old(self).histories().insert(channel, lines));
    }
}

/// The ChatGPT conversations held in threads and forum posts, keyed by the
/// channel's id.
pub struct ChatGPTData {
    sessions: HashMap<u64, ChatGPT>,
}

impl ChatGPTData {
    /// Each conversation is stored under the id of its own channel.
    pub closed spec fn wf(&self) -> bool {
        forall|k: u64| #[trigger]
            self.sessions@.contains_key(k) ==> self.sessions@[k].channel == k
    }

    /// The conversation lines of each channel.
    pub closed spec fn histories(&self) -> Map<u64, Seq<Line>> {
        self.sessions@.map_values(|s: ChatGPT| chat_lines(s.history@))
    }

    /// No conversation yet.
    pub fn new() -> (d: Self)
        ensures
            d.wf(),
            d.histories() == Map::<u64, Seq<Line>>::empty(),
    {
        let d = ChatGPTData { sessions: HashMap::new() };
        assert(d.histories() =~= Map::<u64, Seq<Line>>::empty());
        d
    }

    /// Whether the channel has a conversation.
    pub fn contains(&self, channel: u64) -> (b: bool)
        ensures
            b == self.histories().contains_key(channel),
    {
        self.sessions.contains_key(&channel)
    }

    /// A copy of the channel's conversation, stored under the channel's id.
    pub fn session(&self, channel: u64) -> (r: Option<ChatGPT>)
        requires
            self.wf(),
        ensures
            r is Some <==> self.histories().contains_key(channel),
            r matches Some(s) ==> s.channel == channel && chat_lines(s.history@)
                == self.histories()[channel],
    {
        match self.sessions.get(&channel) {
            Some(s) => Some(ChatGPT { channel: s.channel, history: copy_chat_history(&s.history) }),
            None => None,
        }
    }

    /// Sets the channel's conversation.
    pub fn store(&mut self, channel: u64, history: Vec<ChatGPTMessage>)
        requires
            old(self).wf(),
        ensures
            final(self).wf(),
            final(self).histories() == old(self).histories().insert(
                channel,
                chat_lines(history@),
            ),
    {
        let ghost lines = chat_lines(history@);
        self.sessions.insert(channel, ChatGPT { channel, history });
        assert(self.histories() =~= old(self).histories().insert(channel, lines));
    }
}

/// The ChatGPT conversations held by mentioning the bot, keyed by the user's
/// id.
pub struct IndividualChatGPTData {
    sessions: HashMap<u64, IndividualChatGPT>,
}

impl IndividualChatGPTData {
    /// Each conversation is stored under the id of its own user.
    pub closed spec fn wf(&self) -> bool {
        forall|k: u64| #[trigger] self.sessions@.contains_key(k) ==> self.sessions@[k].user == k
    }

    /// The conversation lines of each user.
    pub closed spec fn histories(&self) -> Map<u64, Seq<Line>> {
        self.sessions@.map_values(|s: IndividualChatGPT| chat_lines(s.history@))
    }

    /// No conversation yet.
    pub fn new() -> (d: Self)
        ensures
            d.wf(),
            d.histories() == Map::<u64, Seq<Line>>::empty(),
    {
        let d = IndividualChatGPTData { sessions: HashMap::new() };
        assert(d.histories() =~= Map::<u64, Seq<Line>>::empty());
        d
    }

    /// A copy of the user's conversation, stored under the user's id.
    pub fn session(&self, user: u64) -> (r: Option<IndividualChatGPT>)
        requires
            self.wf(),
        ensures
            r is Some <==> self.histories().contains_key(user),
            r matches Some(s) ==> s.user == user && chat_lines(s.history@)
                == self.histories()[user],
    {
        match self.sessions.get(&user) {
            Some(s) => Some(
                IndividualChatGPT { user: s.user, history: copy_chat_history(&s.history) },
            ),
            None => None,
        }
    }

    /// Sets the user's conversation.
    pub fn store(&mut self, user: u64, history: Vec<ChatGPTMessage>)
        requires
            old(self).wf(),
        ensures
            final(self).wf(),
            final(self).histories() == old(self).histories().insert(user, chat_lines(history@)),
    {
        let ghost lines = chat_lines(history@);
        self.sessions.insert(user, IndividualChatGPT { user, history });
        assert(self.histories() =~= old(self).histories().insert(user, lines));
    }
}

} // verus!
