//! The posting policy: which messages the bot learns from, when it answers,
//! and what it takes from the history of a guild that it joins.

use vstd::prelude::*;
use crate::config::Config;
use crate::state::{config_of, fed_of, touches_only, GuildState, State};

verus! {

/// A message as the policy sees it.
#[derive(Debug, PartialEq, Eq)]
pub struct Message {
    /// The identifier that the platform gave the message.
    pub id: u64,
    /// The guild that the message was posted in; `None` for a direct chat.
    pub guild_id: Option<u64>,
    /// Whether a bot wrote the message.
    pub author_is_bot: bool,
    /// The text of the message.
    pub content: String,
    /// Whether the message mentions this bot.
    pub mentions_me: bool,
}

/// What was fetched of the history of one channel.
pub struct ChannelHistory {
    /// Whether the channel is a text channel of the guild.
    pub is_text: bool,
    /// The messages of the channel; `None` where they could not be fetched.
    pub fetched: Option<Vec<Message>>,
}

/// What the bot does in answer to a message.
#[derive(Debug, PartialEq, Eq)]
pub enum Action {
    /// Nothing goes out.
    Nothing,
    /// The notice for direct chats goes out as a reply.
    Notice(String),
    /// The text goes out as it is.
    Send(String),
    /// The text goes out once its mentions have been removed.
    SendSanitized(String),
}

/// Whether `c` opens a command rather than conversation.
pub open spec fn is_command_prefix(c: char) -> bool {
    c == '/' || c == '!' || c == '?'
}

/// Whether a text is conversation: it does not begin with a command prefix.
pub open spec fn is_convo_text(content: Seq<char>) -> bool {
    content.len() == 0 || !is_command_prefix(content[0])
}

/// Whether the bot learns from a message: a human wrote it and it is
/// conversation.
pub open spec fn is_convo_message_spec(message: Message) -> bool {
    !message.author_is_bot && is_convo_text(message.content@)
}

/// Whether a message is answered: it mentions the bot, or automatic posting
/// is on and the post frequency divides the message's identifier.
pub open spec fn should_reply_spec(config: Config, message: Message) -> bool {
    message.mentions_me || (config.auto_post_enabled && message.id % config.freq == 0)
}

/// The notice that answers a direct chat.
pub open spec fn direct_notice() -> Seq<char> {
    "I don't listen to DMs"@
}

/// How generated text goes out under the given settings.
pub open spec fn outgoing_spec(config: Config, text: String) -> Action {
    if config.pinging_enabled {
        Action::Send(text)
    } else {
        Action::SendSanitized(text)
    }
}

/// The messages of `messages` that the bot learns from, in order.
pub open spec fn convo_only(messages: Seq<Message>) -> Seq<Message>
    decreases messages.len(),
{
    if messages.len() == 0 {
        Seq::empty()
    } else if is_convo_message_spec(messages.last()) {
        convo_only(messages.drop_last()).push(messages.last())
    } else {
        convo_only(messages.drop_last())
    }
}

/// What one channel adds to the history of its guild: the conversation of a
/// text channel whose messages could be fetched, and nothing otherwise.
pub open spec fn channel_messages(channel: ChannelHistory) -> Seq<Message> {
    match channel.fetched {
        Some(messages) => if channel.is_text {
            convo_only(messages@)
        } else {
            Seq::empty()
        },
        None => Seq::empty(),
    }
}

/// The messages that the bot learns from when it joins a guild: those of
/// each channel, channel after channel.
pub open spec fn guild_messages(channels: Seq<ChannelHistory>) -> Seq<Message>
    decreases channels.len(),
{
    if channels.len() == 0 {
        Seq::empty()
    } else {
        guild_messages(channels.drop_last()) + channel_messages(channels.last())
    }
}

/// The texts of `messages`, in order.
pub open spec fn contents(messages: Seq<Message>) -> Seq<Seq<char>> {
    Seq::new(messages.len(), |i: int| messages[i].content@)
}

/// Whether the bot learns from a message.
pub fn is_convo_message(message: &Message) -> (r: bool)
    ensures
        r == is_convo_message_spec(*message),
{
    if message.author_is_bot {
        return false;
    }
    if message.content.as_str().is_empty() {
        return true;
    }
    let first = message.content.as_str().get_char(0);
    !(first == '/' || first == '!' || first == '?')
}

/// Whether a message is answered with generated text.
pub fn should_reply(config: &Config, message: &Message) -> (r: bool)
    requires
        config.wf(),
    ensures
        r == should_reply_spec(*config, *message),
{
    message.mentions_me || (config.auto_post_enabled && message.id % config.freq == 0)
}

/// How generated text goes out: as it is where pinging is on, and through
/// the removal of mentions where it is off.
pub fn outgoing(config: &Config, text: String) -> (r: Action)
    ensures
        r == outgoing_spec(*config, text),
{
    if config.pinging_enabled {
        Action::Send(text)
    } else {
        Action::SendSanitized(text)
    }
}

fn copy_message(message: &Message) -> (r: Message)
    ensures
        r == *message,
{
    Message {
        id: message.id,
        guild_id: message.guild_id,
        author_is_bot: message.author_is_bot,
        content: message.content.clone(),
        mentions_me: message.mentions_me,
    }
}

/// The messages that the bot learns from when it joins a guild. Channels
/// that are no text channels, and channels whose messages could not be
/// fetched, add nothing and stop nothing.
pub fn get_messages_in_guild(channels: &Vec<ChannelHistory>) -> (r: Vec<Message>)
    ensures
        r@ == guild_messages(channels@),
{
    let mut out: Vec<Message> = Vec::new();
    let mut i: usize = 0;
    assert(channels@.subrange(0, 0) =~= Seq::<ChannelHistory>::empty());
    while i < channels.len()
        invariant
            i <= channels.len(),
            out@ == guild_messages(channels@.subrange(0, i as int)),
        decreases channels.len() - i,
    {
        let ghost before = out@;
        let ghost upto = channels@.subrange(0, i + 1);
        assert(upto.drop_last() =~= channels@.subrange(0, i as int));
        assert(upto.last() == channels@[i as int]);
        let channel = &channels[i];
        match &channel.fetched {
            Some(messages) => {
                if channel.is_text {
                    let mut j: usize = 0;
                    assert(messages@.subrange(0, 0) =~= Seq::<Message>::empty());
                    assert(before + Seq::<Message>::empty() =~= before);
                    while j < messages.len()
                        invariant
                            j <= messages.len(),
                            out@ == before + convo_only(messages@.subrange(0, j as int)),
                        decreases messages.len() - j,
                    {
                        let ghost seen = messages@.subrange(0, j + 1);
                        assert(seen.drop_last() =~= messages@.subrange(0, j as int));
                        assert(seen.last() == messages@[j as int]);
                        if is_convo_message(&messages[j]) {
                            let copy = copy_message(&messages[j]);
                            out.push(copy);
                            assert(out@ =~= before + convo_only(seen));
                        }
                        j = j + 1;
                    }
                    assert(messages@.subrange(0, messages.len() as int) =~= messages@);
                } else {
                    assert(before + Seq::<Message>::empty() =~= before);
                }
            },
            None => {
                assert(before + Seq::<Message>::empty() =~= before);
            },
        }
        i = i + 1;
    }
    assert(channels@.subrange(0, channels.len() as int) =~= channels@);
    out
}

/// Handles what comes from the gateway, against the sessions of the guilds.
pub struct Handler;

impl Handler {
    /// The bot has joined guild `guild_id`: the guild gets its session, and
    /// the session learns from the history of the guild's channels.
    pub fn guild_create(&self, state: &mut State, guild_id: u64, channels: &Vec<ChannelHistory>)
        ensures
            touches_only(old(state).guilds@, final(state).guilds@, guild_id),
            final(state).guilds@[guild_id].config == config_of(old(state).guilds@, guild_id),
            final(state).guilds@[guild_id].fed() == fed_of(old(state).guilds@, guild_id) + contents(
                guild_messages(channels@),
            ),
            old(state).wf() ==> final(state).wf(),
    {
        let messages = get_messages_in_guild(channels);
        let session = state.get_or_create(guild_id);
        session.feed_all(&messages);
        assert(final(state).guilds@.dom() =~= old(state).guilds@.dom().insert(guild_id));
    }

    /// What a message does to the registry: nothing unless a human wrote it
    /// in a guild as conversation; then the guild's session, made now where
    /// there was none, has been fed the text of the message.
    pub open spec fn message_spec(
        before: Map<u64, GuildState>,
        after: Map<u64, GuildState>,
        message: Message,
    ) -> bool {
        match message.guild_id {
            Some(guild_id) => if is_convo_message_spec(message) {
                &&& touches_only(before, after, guild_id)
                &&& after[guild_id].config == config_of(before, guild_id)
                &&& after[guild_id].fed() == fed_of(before, guild_id).push(message.content@)
            } else {
                after == before
            },
            None => after == before,
        }
    }

    /// Whether a message is answered with generated text: a human wrote it
    /// in a guild as conversation, and the settings of the guild ask for an
    /// answer.
    pub open spec fn answers(before: Map<u64, GuildState>, message: Message) -> bool {
        match message.guild_id {
            Some(guild_id) => is_convo_message_spec(message) && should_reply_spec(
                config_of(before, guild_id),
                message,
            ),
            None => false,
        }
    }

    /// Whether `action` is a fit answer to a message: nothing for a bot; the
    /// notice for a direct chat; in a guild nothing unless the message is
    /// answered, and then a generated sentence, to go out as it is where
    /// pinging is on and without its mentions where it is off.
    pub open spec fn action_spec(
        before: Map<u64, GuildState>,
        message: Message,
        action: Action,
    ) -> bool {
        if message.author_is_bot {
            action is Nothing
        } else {
            match message.guild_id {
                None => match action {
                    Action::Notice(notice) => notice@ == direct_notice(),
                    _ => false,
                },
                Some(guild_id) => if !Handler::answers(before, message) {
                    action is Nothing
                } else if config_of(before, guild_id).pinging_enabled {
                    action is Send
                } else {
                    action is SendSanitized
                },
            }
        }
    }

    /// Handles a message. Bots are ignored; a direct chat gets the notice;
    /// conversation in a guild is learnt from and, where the settings ask
    /// for it, answered with a generated sentence.
    pub fn message(&self, state: &mut State, message: &Message) -> (r: Action)
        requires
            message.guild_id matches Some(guild_id) ==> config_of(
                old(state).guilds@,
                guild_id,
            ).wf(),
        ensures
            old(state).wf() ==> final(state).wf(),
            Handler::message_spec(old(state).guilds@, final(state).guilds@, *message),
            Handler::action_spec(old(state).guilds@, *message, r),
    {
        if message.author_is_bot {
            return Action::Nothing;
        }
        let guild_id = match message.guild_id {
            Some(guild_id) => guild_id,
            None => {
                return Action::Notice(String::from_str("I don't listen to DMs"));
            },
        };
        if !is_convo_message(message) {
            return Action::Nothing;
        }
        let session = state.get_or_create(guild_id);
        let reply = session.observe(message);
        let action = if reply {
            session.send_nonsense()
        } else {
            Action::Nothing
        };
        assert(final(state).guilds@.dom() =~= old(state).guilds@.dom().insert(guild_id));
        action
    }
}

/// A message that begins with `/`, `!` or `?` is no conversation, whoever
/// wrote it.
pub proof fn lemma_commands_are_no_conversation(message: Message)
    requires
        message.content@.len() > 0,
        message.content@[0] == '/' || message.content@[0] == '!' || message.content@[0] == '?',
    ensures
        !is_convo_message_spec(message),
{
}

/// A message whose identifier the post frequency divides is answered where
/// automatic posting is on; where it is off, it is answered only if it
/// mentions the bot.
pub proof fn lemma_frequency_throttle(config: Config, message: Message)
    requires
        config.wf(),
        message.id % config.freq == 0,
    ensures
        config.auto_post_enabled ==> should_reply_spec(config, message),
        !config.auto_post_enabled ==> should_reply_spec(config, message) == message.mentions_me,
{
}

/// A message that mentions the bot is answered, whatever the settings.
pub proof fn lemma_mention_is_answered(config: Config, message: Message)
    requires
        message.mentions_me,
    ensures
        should_reply_spec(config, message),
{
}

/// Where pinging is on, generated text goes out unchanged; where it is off,
/// it goes out only through the removal of mentions.
pub proof fn lemma_outgoing(config: Config, text: String)
    ensures
        config.pinging_enabled ==> outgoing_spec(config, text) == Action::Send(text),
        !config.pinging_enabled ==> outgoing_spec(config, text) == Action::SendSanitized(text),
{
}

/// The history of a guild is gathered channel by channel: what a run of
/// channels adds is what its first part adds, then what the rest adds.
pub proof fn lemma_guild_messages_concat(first: Seq<ChannelHistory>, rest: Seq<ChannelHistory>)
    ensures
        guild_messages(first + rest) == guild_messages(first) + guild_messages(rest),
    decreases rest.len(),
{
    if rest.len() == 0 {
        assert(first + rest =~= first);
        assert(guild_messages(first) + guild_messages(rest) =~= guild_messages(first));
    } else {
        lemma_guild_messages_concat(first, rest.drop_last());
        assert((first + rest).drop_last() =~= first + rest.drop_last());
        assert((first + rest).last() == rest.last());
        assert(guild_messages(first + rest) =~= guild_messages(first) + guild_messages(rest));
    }
}

/// A channel whose messages could not be fetched takes nothing from the
/// history of the guild: the bot learns from the channels before it and
/// after it as if it were not there.
pub proof fn lemma_failed_channel_is_skipped(
    first: Seq<ChannelHistory>,
    failed: ChannelHistory,
    rest: Seq<ChannelHistory>,
)
    requires
        failed.fetched is None,
    ensures
        guild_messages(first.push(failed) + rest) == guild_messages(first + rest),
{
    lemma_guild_messages_concat(first.push(failed), rest);
    lemma_guild_messages_concat(first, rest);
    assert(first.push(failed).drop_last() =~= first);
    assert(guild_messages(first.push(failed)) =~= guild_messages(first));
}

/// A message that begins with `/`, `!` or `?` is never fed to a model: it
/// leaves every session as it was.
pub proof fn lemma_commands_are_not_fed(
    before: Map<u64, GuildState>,
    after: Map<u64, GuildState>,
    message: Message,
)
    requires
        message.content@.len() > 0,
        message.content@[0] == '/' || message.content@[0] == '!' || message.content@[0] == '?',
        Handler::message_spec(before, after, message),
    ensures
        after == before,
{
}

/// Conversation that a human writes in a guild is answered with a generated
/// sentence if it mentions the bot, or if automatic posting is on and the
/// post frequency divides its identifier; and with nothing otherwise.
pub proof fn lemma_answer(before: Map<u64, GuildState>, message: Message, action: Action)
    requires
        !message.author_is_bot,
        message.guild_id is Some,
        is_convo_message_spec(message),
        Handler::action_spec(before, message, action),
    ensures
        ({
            let config = config_of(before, message.guild_id->0);
            let wanted = message.mentions_me || (config.auto_post_enabled && message.id
                % config.freq == 0);
            &&& wanted && config.pinging_enabled ==> action is Send
            &&& wanted && !config.pinging_enabled ==> action is SendSanitized
            &&& !wanted ==> action is Nothing
        }),
{
}

} // verus!
