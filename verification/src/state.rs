//! The sessions of the guilds: one per guild, made when the guild is first
//! met and kept from then on.

use vstd::prelude::*;
use std::collections::HashMap;
use crate::chain::{feed_model, generate_from_model, model_fed, model_is_empty, new_model, TextModel};
use crate::config::Config;
use crate::handler::{
    contents, is_convo_message, is_convo_message_spec, outgoing, should_reply, should_reply_spec,
    Action, Message,
};

verus! {

broadcast use vstd::std_specs::hash::group_hash_axioms;

/// The session of one guild: its settings and what the bot has learnt there.
pub struct GuildState {
    pub config: Config,
    pub markov_chain: TextModel,
}

/// The sessions of all guilds, by guild identifier.
pub struct State {
    pub guilds: HashMap<u64, GuildState>,
}

/// The settings of guild `guild_id`; those of a new session where the guild
/// has none yet.
pub open spec fn config_of(sessions: Map<u64, GuildState>, guild_id: u64) -> Config {
    if sessions.contains_key(guild_id) {
        sessions[guild_id].config
    } else {
        Config::default_spec()
    }
}

/// The texts that guild `guild_id` has been fed; none where the guild has no
/// session yet.
pub open spec fn fed_of(sessions: Map<u64, GuildState>, guild_id: u64) -> Seq<Seq<char>> {
    if sessions.contains_key(guild_id) {
        sessions[guild_id].fed()
    } else {
        Seq::empty()
    }
}

/// `after` has a session for `guild_id` and is `before` in every other
/// guild.
pub open spec fn touches_only(
    before: Map<u64, GuildState>,
    after: Map<u64, GuildState>,
    guild_id: u64,
) -> bool {
    &&& after.dom() == before.dom().insert(guild_id)
    &&& forall|other: u64|
        other != guild_id && before.contains_key(other) ==> #[trigger] after[other]
            == before[other]
}

/// `after` is `before` with a session for `guild_id`: the one that was
/// there, or a new one with the default settings that has been fed nothing.
/// This is what asking for the session of a guild does to the registry.
pub open spec fn session_made(
    before: Map<u64, GuildState>,
    after: Map<u64, GuildState>,
    guild_id: u64,
) -> bool {
    if before.contains_key(guild_id) {
        after == before
    } else {
        &&& touches_only(before, after, guild_id)
        &&& after[guild_id].is_fresh()
    }
}

impl GuildState {
    /// The settings of the session keep to their rule.
    pub open spec fn wf(&self) -> bool {
        self.config.wf()
    }

    /// The texts that the session has been fed, oldest first.
    pub open spec fn fed(&self) -> Seq<Seq<char>> {
        model_fed(self.markov_chain)
    }

    /// A session as it is made: default settings, nothing learnt.
    pub open spec fn is_fresh(&self) -> bool {
        self.config == Config::default_spec() && self.fed().len() == 0
    }

    /// Whether the session has learnt nothing yet.
    pub fn is_empty(&self) -> (r: bool)
        ensures
            r == (self.fed().len() == 0),
    {
        model_is_empty(&self.markov_chain)
    }

    /// Feeds one text to the model of the session.
    pub fn feed(&mut self, text: &str)
        ensures
            final(self).config == old(self).config,
            final(self).fed() == old(self).fed().push(text@),
    {
        feed_model(&mut self.markov_chain, text);
    }

    /// Feeds the texts of `messages` to the model, in order.
    pub fn feed_all(&mut self, messages: &Vec<Message>)
        ensures
            final(self).config == old(self).config,
            final(self).fed() == old(self).fed() + contents(messages@),
    {
        let mut i: usize = 0;
        assert(old(self).fed() + contents(messages@).subrange(0, 0) =~= old(self).fed());
        while i < messages.len()
            invariant
                i <= messages.len(),
                self.config == old(self).config,
                self.fed() == old(self).fed() + contents(messages@).subrange(0, i as int),
            decreases messages.len() - i,
        {
            self.feed(messages[i].content.as_str());
            assert(old(self).fed() + contents(messages@).subrange(0, i + 1) =~= (old(self).fed()
                + contents(messages@).subrange(0, i as int)).push(messages@[i as int].content@));
            i = i + 1;
        }
        assert(contents(messages@).subrange(0, messages.len() as int) =~= contents(messages@));
    }

    /// Takes note of a message of this guild: learns from it where it is
    /// conversation, and says whether it is to be answered.
    pub fn observe(&mut self, message: &Message) -> (reply: bool)
        requires
            old(self).wf(),
        ensures
            final(self).config == old(self).config,
            final(self).fed() == if is_convo_message_spec(*message) {
                old(self).fed().push(message.content@)
            } else {
                old(self).fed()
            },
            reply == (is_convo_message_spec(*message) && should_reply_spec(
                old(self).config,
                *message,
            )),
    {
        if !is_convo_message(message) {
            return false;
        }
        let reply = should_reply(&self.config, message);
        self.feed(message.content.as_str());
        reply
    }

    /// Generates the answer of the session: nothing while the model is
    /// empty; else a generated sentence, to go out as it is where pinging is
    /// on and without its mentions where it is off.
    pub fn send_nonsense(&self) -> (r: Action)
        ensures
            self.fed().len() == 0 ==> r is Nothing,
            self.fed().len() > 0 && self.config.pinging_enabled ==> r is Send,
            self.fed().len() > 0 && !self.config.pinging_enabled ==> r is SendSanitized,
    {
        if self.is_empty() {
            return Action::Nothing;
        }
        let nonsense_with_pings = generate_from_model(&self.markov_chain);
        outgoing(&self.config, nonsense_with_pings)
    }
}

impl Default for GuildState {
    fn default() -> (r: Self)
        ensures
            r.is_fresh(),
            r.wf(),
    {
        GuildState { config: Config::default(), markov_chain: new_model() }
    }
}

impl State {
    /// Every session keeps to the rule of its settings.
    pub open spec fn wf(&self) -> bool {
        forall|guild_id: u64|
            self.guilds@.contains_key(guild_id) ==> (#[trigger] self.guilds@[guild_id]).wf()
    }

    /// A registry without sessions.
    pub fn new() -> (r: State)
        ensures
            r.guilds@ == Map::<u64, GuildState>::empty(),
            r.wf(),
    {
        State { guilds: HashMap::new() }
    }

    /// Whether guild `guild_id` has a session.
    pub fn contains(&self, guild_id: u64) -> (r: bool)
        ensures
            r == self.guilds@.contains_key(guild_id),
    {
        self.guilds.contains_key(&guild_id)
    }

    /// The session of guild `guild_id`, if it has one.
    pub fn get(&self, guild_id: u64) -> (r: Option<&GuildState>)
        ensures
            match r {
                Some(session) => self.guilds@.contains_key(guild_id) && *session
                    == self.guilds@[guild_id],
                None => !self.guilds@.contains_key(guild_id),
            },
    {
        self.guilds.get(&guild_id)
    }

    /// The session of guild `guild_id`, for reading and changing. A new
    /// session is made where the guild has none; any other guild is left as
    /// it is, and so is this one unless the caller changes the session.
    pub fn get_or_create(&mut self, guild_id: u64) -> (session: &mut GuildState)
        ensures
            session.config == config_of(old(self).guilds@, guild_id),
            session.fed() == fed_of(old(self).guilds@, guild_id),
            old(self).guilds@.contains_key(guild_id) ==> *session == old(self).guilds@[guild_id],
            final(self).guilds@ == old(self).guilds@.insert(guild_id, *final(session)),
            *final(session) == *session ==> session_made(
                old(self).guilds@,
                final(self).guilds@,
                guild_id,
            ),
    {
        let session = self.guilds.entry(guild_id).or_insert(GuildState::default());
        proof {
            let before = old(self).guilds@;
            if before.contains_key(guild_id) {
                assert(before.insert(guild_id, before[guild_id]) =~= before);
            }
        }
        session
    }
}

impl Default for State {
    fn default() -> (r: Self)
        ensures
            r.guilds@ == Map::<u64, GuildState>::empty(),
            r.wf(),
    {
        State::new()
    }
}

/// Sessions of different guilds are apart: whatever is done to the session
/// that was handed out for one guild, every other guild has the session that
/// it had, and changes to the sessions of two guilds may come in either
/// order.
pub proof fn lemma_sessions_are_independent(
    before: Map<u64, GuildState>,
    first: u64,
    changed_first: GuildState,
    second: u64,
    changed_second: GuildState,
)
    requires
        first != second,
    ensures
        touches_only(before, before.insert(first, changed_first), first),
        before.insert(first, changed_first).contains_key(second) == before.contains_key(second),
        before.contains_key(second) ==> before.insert(first, changed_first)[second]
            == before[second],
        before.insert(first, changed_first).insert(second, changed_second) == before.insert(
            second,
            changed_second,
        ).insert(first, changed_first),
{
    assert(before.insert(first, changed_first).insert(second, changed_second) =~= before.insert(
        second,
        changed_second,
    ).insert(first, changed_first));
}

/// A guild gets its session once: however often a session is asked for,
/// every request after the first finds the session that the first one left.
pub proof fn lemma_session_is_created_once(states: Seq<Map<u64, GuildState>>, guild_id: u64)
    requires
        states.len() >= 2,
        forall|i: int|
            0 <= i < states.len() - 1 ==> session_made(
                #[trigger] states[i],
                states[i + 1],
                guild_id,
            ),
    ensures
        forall|i: int| 1 <= i < states.len() ==> #[trigger] states[i] == states[1],
        states[1].contains_key(guild_id),
    decreases states.len(),
{
    assert(session_made(states[0], states[1], guild_id));
    if states.len() > 2 {
        let shorter = states.drop_last();
        assert forall|i: int| 0 <= i < shorter.len() - 1 implies session_made(
            #[trigger] shorter[i],
            shorter[i + 1],
            guild_id,
        ) by {
            assert(session_made(states[i], states[i + 1], guild_id));
        }
        lemma_session_is_created_once(shorter, guild_id);
        let last = states.len() - 1;
        assert(session_made(states[last - 1], states[last], guild_id));
        assert(shorter[last - 1] == shorter[1]);
        assert forall|i: int| 1 <= i < states.len() implies #[trigger] states[i] == states[1] by {
            if i < last {
                assert(shorter[i] == shorter[1]);
            }
        }
    }
}

} // verus!
