//! The bot's settings: its token and application id, the back-end addresses,
//! and the users and forums that ChatGPT serves.
use vstd::prelude::*;
use crate::number::{
    decimal, lemma_decimal_nonempty, lemma_decimal_round_trip, parse_signed, parse_unsigned,
    push_decimal, signed_value, unsigned_value,
};
use crate::text::{chars_of, push_char};

verus! {

/// The bot's settings.
#[derive(Clone, Debug, PartialEq, Eq)]
pub struct Config {
    pub token: String,
    pub application_id: u64,
    pub llama_url: String,
    pub openai_key: String,
    /// Users who may talk to ChatGPT by mentioning the bot or open ChatGPT threads.
    pub chatgpt_allows: Vec<i64>,
    /// Forums whose posts become ChatGPT conversations.
    pub chatgpt_forums: Vec<i64>,
}

/// Which setting could not be read.
#[derive(Clone, Copy, Debug, PartialEq, Eq)]
pub enum ConfigError {
    /// The list of allowed users holds an entry that is not a decimal `i64`.
    ChatgptAllows,
    /// The list of ChatGPT forums holds an entry that is not a decimal `i64`.
    ChatgptForums,
    /// The application id is not a decimal `u64`.
    ApplicationId,
}

/// The fields of `s` between commas (as `str::split(',')`): one more field
/// than there are commas, empty fields included.
pub open spec fn comma_fields(s: Seq<char>) -> Seq<Seq<char>>
    decreases s.len(),
{
    if s.len() == 0 {
        seq![Seq::<char>::empty()]
    } else {
        let prev = comma_fields(s.drop_last());
        if s.last() == ',' {
            prev.push(Seq::<char>::empty())
        } else {
            prev.update(prev.len() - 1, prev.last().push(s.last()))
        }
    }
}

/// The ids of a comma-separated list when every field is a decimal `i64`.
pub open spec fn id_list(s: Seq<char>) -> Option<Seq<i64>> {
    let f = comma_fields(s);
    if forall|j: int| 0 <= j < f.len() ==> (#[trigger] signed_value(f[j])) is Some {
        Some(Seq::new(f.len(), |j: int| signed_value(f[j])->0))
    } else {
        None
    }
}

/// Reads a comma-separated list of decimal ids (as splitting on `,` and
/// reading each field with `i64::from_str_radix(_, 10)`); `None` when a field
/// is not such a number, the empty field included.
pub fn parse_id_list(text: &str) -> (r: Option<Vec<i64>>)
    ensures
        match r {
            Some(v) => id_list(text@) == Some(v@),
            None => id_list(text@) is None,
        },
{
    let s = chars_of(text);
    let n = s.len();
    let mut vals: Vec<i64> = Vec::new();
    let mut ok = true;
    let mut cur: Vec<char> = Vec::new();
    let mut i: usize = 0;
    assert(s@.take(0) =~= Seq::<char>::empty());
    while i < n
        invariant
            n == s@.len(),
            i <= n,
            vals@.len() + 1 == comma_fields(s@.take(i as int)).len(),
            cur@ == comma_fields(s@.take(i as int)).last(),
            ok <==> forall|j: int|
                0 <= j < vals@.len() ==> (#[trigger] signed_value(
                    comma_fields(s@.take(i as int))[j],
                )) is Some,
            ok ==> forall|j: int|
                0 <= j < vals@.len() ==> signed_value(comma_fields(s@.take(i as int))[j]) == Some(
                    #[trigger] vals@[j],
                ),
        decreases n - i,
    {
        let ghost prev = comma_fields(s@.take(i as int));
        let c = s[i];
        assert(s@.take(i + 1).drop_last() =~= s@.take(i as int));
        assert(s@.take(i + 1).last() == c);
        if c == ',' {
            match parse_signed(&cur) {
                Some(v) => {
                    vals.push(v);
                },
                None => {
                    ok = false;
                    vals.push(0);
                },
            }
            cur = Vec::new();
            proof {
                let next = comma_fields(s@.take(i + 1));
                assert(next == prev.push(Seq::<char>::empty()));
                assert(cur@ =~= next.last());
                assert forall|j: int| 0 <= j < vals@.len() - 1 implies next[j] == prev[j] by {}
                assert(next[vals@.len() - 1] == prev.last());
            }
        } else {
            cur.push(c);
            proof {
                let next = comma_fields(s@.take(i + 1));
                assert(next == prev.update(prev.len() - 1, prev.last().push(c)));
                assert forall|j: int| 0 <= j < vals@.len() implies next[j] == prev[j] by {}
            }
        }
        i = i + 1;
    }
    assert(s@.take(n as int) =~= s@);
    let last = parse_signed(&cur);
    let ghost f = comma_fields(s@);
    match last {
        Some(v) => {
            vals.push(v);
            if ok {
                assert(vals@ =~= Seq::new(f.len(), |j: int| signed_value(f[j])->0));
                Some(vals)
            } else {
                None
            }
        },
        None => {
            assert(!(signed_value(f[f.len() - 1]) is Some));
            None
        },
    }
}

/// The text by which a message mentions the bot: `<@` and its id.
pub open spec fn mention_of(application_id: u64) -> Seq<char> {
    seq!['<', '@'] + decimal(application_id as nat) + seq!['>']
}

/// Law: the mention of the bot is `<`, `@`, a decimal numeral that reads
/// back as the bot's id, and `>`.
pub proof fn lemma_mention_shape(application_id: u64)
    ensures
        mention_of(application_id).len() >= 4,
        mention_of(application_id)[0] == '<',
        mention_of(application_id)[1] == '@',
        mention_of(application_id).last() == '>',
        unsigned_value(
            mention_of(application_id).subrange(2, mention_of(application_id).len() - 1),
        ) == Some(application_id),
{
    let m = mention_of(application_id);
    lemma_decimal_round_trip(application_id);
    lemma_decimal_nonempty(application_id as nat);
    assert(m.subrange(2, m.len() - 1) =~= decimal(application_id as nat));
}

impl Config {
    /// Reads the settings given as text (as from the environment): the id
    /// lists are read first, allowed users then forums, then the application
    /// id; the first one that cannot be read is the error.
    pub fn from_settings(
        token: String,
        application_id: &str,
        llama_url: String,
        openai_key: String,
        chatgpt_allows: &str,
        chatgpt_forums: &str,
    ) -> (r: Result<Config, ConfigError>)
        ensures
            id_list(chatgpt_allows@) is None ==> r == Err::<Config, ConfigError>(
                ConfigError::ChatgptAllows,
            ),
            id_list(chatgpt_allows@) is Some && id_list(chatgpt_forums@) is None ==> r == Err::<
                Config,
                ConfigError,
            >(ConfigError::ChatgptForums),
            id_list(chatgpt_allows@) is Some && id_list(chatgpt_forums@) is Some && unsigned_value(
                application_id@,
            ) is None ==> r == Err::<Config, ConfigError>(ConfigError::ApplicationId),
            r is Ok <==> (id_list(chatgpt_allows@) is Some && id_list(chatgpt_forums@) is Some
                && unsigned_value(application_id@) is Some),
            r matches Ok(c) ==> {
                &&& c.token == token
                &&& c.llama_url == llama_url
                &&& c.openai_key == openai_key
                &&& Some(c.application_id) == unsigned_value(application_id@)
                &&& Some(c.chatgpt_allows@) == id_list(chatgpt_allows@)
                &&& Some(c.chatgpt_forums@) == id_list(chatgpt_forums@)
            },
    {
        let allows = match parse_id_list(chatgpt_allows) {
            Some(v) => v,
            None => {
                return Err(ConfigError::ChatgptAllows);
            },
        };
        let forums = match parse_id_list(chatgpt_forums) {
            Some(v) => v,
            None => {
                return Err(ConfigError::ChatgptForums);
            },
        };
        let id = match parse_unsigned(&chars_of(application_id)) {
            Some(v) => v,
            None => {
                return Err(ConfigError::ApplicationId);
            },
        };
        Ok(
            Config {
                token,
                application_id: id,
                llama_url,
                openai_key,
                chatgpt_allows: allows,
                chatgpt_forums: forums,
            },
        )
    }

    /// Whether the user may talk to ChatGPT (its id, read as `i64`, is listed).
    pub fn allows(&self, user_id: u64) -> (b: bool)
        ensures
            b == self.chatgpt_allows@.contains(user_id as i64),
    {
        contains_id(&self.chatgpt_allows, user_id as i64)
    }

    /// Whether posts in the forum become ChatGPT conversations (its id, read
    /// as `i64`, is listed).
    pub fn is_chatgpt_forum(&self, forum_id: u64) -> (b: bool)
        ensures
            b == self.chatgpt_forums@.contains(forum_id as i64),
    {
        contains_id(&self.chatgpt_forums, forum_id as i64)
    }

    /// The text by which messages mention the bot (as `format!("<@{}>", id)`).
    pub fn mention(&self) -> (s: String)
        ensures
            s@ == mention_of(self.application_id),
    {
        let mut s = String::new();
        push_char(&mut s, '<');
        push_char(&mut s, '@');
        push_decimal(&mut s, self.application_id);
        push_char(&mut s, '>');
        assert(s@ =~= mention_of(self.application_id));
        s
    }
}

/// Whether `id` is in `list`.
pub fn contains_id(list: &Vec<i64>, id: i64) -> (b: bool)
    ensures
        b == list@.contains(id),
{
    for i in 0..list.len()
        invariant
            forall|j: int| 0 <= j < i ==> list@[j] != id,
    {
        if list[i] == id {
            return true;
        }
    }
    false
}

} // verus!
