use nonsense::cmd;
use nonsense::config::Config;
use nonsense::handler::{
    get_messages_in_guild, is_convo_message, outgoing, should_reply, Action, ChannelHistory,
    Handler, Message,
};
use nonsense::pings::remove_pings;
use nonsense::state::{GuildState, State};

fn human(id: u64, guild: u64, content: &str) -> Message {
    Message {
        id,
        guild_id: Some(guild),
        author_is_bot: false,
        content: String::from(content),
        mentions_me: false,
    }
}

fn history(texts: &[&str]) -> Vec<Message> {
    let mut messages = Vec::new();
    let mut id = 1;
    for text in texts {
        messages.push(human(id, 1, text));
        id += 1;
    }
    messages
}

#[test]
fn conversation_and_commands() {
    assert!(is_convo_message(&human(1, 1, "hello")));
    assert!(is_convo_message(&human(1, 1, "")));
    assert!(is_convo_message(&human(1, 1, " /x")));
    assert!(!is_convo_message(&human(1, 1, "/x")));
    assert!(!is_convo_message(&human(1, 1, "!x")));
    assert!(!is_convo_message(&human(1, 1, "?")));
    let mut from_bot = human(1, 1, "hello");
    from_bot.author_is_bot = true;
    assert!(!is_convo_message(&from_bot));
}

#[test]
fn frequency_decides_automatic_answers() {
    let config = Config::default();
    assert!(should_reply(&config, &human(300, 1, "x")));
    assert!(should_reply(&config, &human(0, 1, "x")));
    assert!(!should_reply(&config, &human(301, 1, "x")));
    let off = Config { auto_post_enabled: false, pinging_enabled: true, freq: 100 };
    assert!(!should_reply(&off, &human(300, 1, "x")));
    let always = Config { auto_post_enabled: true, pinging_enabled: true, freq: 1 };
    assert!(should_reply(&always, &human(301, 1, "x")));
}

#[test]
fn mention_is_answered_whatever_the_settings() {
    let off = Config { auto_post_enabled: false, pinging_enabled: false, freq: 100 };
    let mut message = human(301, 1, "x");
    message.mentions_me = true;
    assert!(should_reply(&off, &message));
}

#[test]
fn pinging_decides_how_text_goes_out() {
    let on = Config::default();
    assert_eq!(outgoing(&on, String::from("<@1> @everyone")), Action::Send(String::from("<@1> @everyone")));
    let off = Config { auto_post_enabled: true, pinging_enabled: false, freq: 100 };
    assert_eq!(outgoing(&off, String::from("x")), Action::SendSanitized(String::from("x")));
}

#[test]
fn history_keeps_conversation_of_text_channels() {
    let channels = vec![
        ChannelHistory { is_text: true, fetched: Some(history(&["a", "!b", "c"])) },
        ChannelHistory { is_text: false, fetched: Some(history(&["voice"])) },
        ChannelHistory { is_text: true, fetched: Some(history(&["/d", "e"])) },
    ];
    let kept: Vec<String> = get_messages_in_guild(&channels).into_iter().map(|m| m.content).collect();
    assert_eq!(kept, vec!["a", "c", "e"]);
}

#[test]
fn failed_channel_does_not_stop_the_others() {
    let channels = vec![
        ChannelHistory { is_text: true, fetched: Some(history(&["a"])) },
        ChannelHistory { is_text: true, fetched: None },
        ChannelHistory { is_text: true, fetched: Some(history(&["b"])) },
    ];
    let kept: Vec<String> = get_messages_in_guild(&channels).into_iter().map(|m| m.content).collect();
    assert_eq!(kept, vec!["a", "b"]);
    let mut state = State::new();
    Handler.guild_create(&mut state, 9, &channels);
    assert!(!state.get(9).unwrap().is_empty());
}

#[test]
fn new_session_is_empty_and_has_default_settings() {
    let session = GuildState::default();
    assert!(session.is_empty());
    assert_eq!(session.config, Config::default());
    assert_eq!(session.send_nonsense(), Action::Nothing);
}

#[test]
fn fed_session_is_not_empty_and_generates_what_it_learnt() {
    let mut session = GuildState::default();
    session.feed("hello");
    assert!(!session.is_empty());
    assert_eq!(session.send_nonsense(), Action::Send(String::from("hello")));
}

#[test]
fn empty_text_counts_as_fed() {
    let mut session = GuildState::default();
    session.feed("");
    assert!(!session.is_empty());
}

#[test]
fn observing_feeds_conversation_only() {
    let mut session = GuildState::default();
    assert!(!session.observe(&human(300, 1, "!status")));
    assert!(session.is_empty());
    assert!(session.observe(&human(300, 1, "word")));
    assert!(!session.is_empty());
    assert!(!session.observe(&human(301, 1, "word")));
}

#[test]
fn sessions_of_two_guilds_are_apart() {
    let mut state = State::new();
    assert!(!state.contains(1));
    state.get_or_create(1);
    state.get_or_create(2);
    assert!(state.contains(1));
    assert!(state.contains(2));
    cmd::off(state.get_or_create(1));
    state.get_or_create(1).feed("only here");
    assert!(!state.get(1).unwrap().config.auto_post_enabled);
    assert!(state.get(2).unwrap().config.auto_post_enabled);
    assert!(!state.get(1).unwrap().is_empty());
    assert!(state.get(2).unwrap().is_empty());
}

#[test]
fn asking_again_finds_the_same_session() {
    let mut state = State::new();
    assert_eq!(cmd::freq(state.get_or_create(7), 3), Ok(String::from("Changed post frequency to 3")));
    for _ in 0..10 {
        assert_eq!(state.get_or_create(7).config.freq, 3);
    }
    assert_eq!(state.guilds.len(), 1);
    assert!(state.get(8).is_none());
}

#[test]
fn bots_are_ignored() {
    let mut state = State::new();
    let mut message = human(300, 1, "hello");
    message.author_is_bot = true;
    message.mentions_me = true;
    assert_eq!(Handler.message(&mut state, &message), Action::Nothing);
    assert!(!state.contains(1));
}

#[test]
fn direct_chat_gets_the_notice() {
    let mut state = State::new();
    let mut message = human(300, 1, "hello");
    message.guild_id = None;
    assert_eq!(Handler.message(&mut state, &message), Action::Notice(String::from("I don't listen to DMs")));
    assert_eq!(state.guilds.len(), 0);
}

#[test]
fn commands_are_never_fed() {
    let mut state = State::new();
    state.get_or_create(1);
    for text in ["/help", "!info", "?what"] {
        let mut message = human(300, 1, text);
        message.mentions_me = true;
        assert_eq!(Handler.message(&mut state, &message), Action::Nothing);
    }
    assert!(state.get(1).unwrap().is_empty());
    assert!(!state.contains(2));
    assert_eq!(Handler.message(&mut state, &human(300, 2, "!info")), Action::Nothing);
    assert!(!state.contains(2));
}

#[test]
fn message_on_the_frequency_is_answered() {
    let mut state = State::new();
    assert_eq!(Handler.message(&mut state, &human(300, 1, "hello")), Action::Send(String::from("hello")));
    assert_eq!(Handler.message(&mut state, &human(301, 1, "hello")), Action::Nothing);
}

#[test]
fn no_automatic_answer_while_posting_is_off() {
    let mut state = State::new();
    cmd::off(state.get_or_create(1));
    assert_eq!(Handler.message(&mut state, &human(300, 1, "hello")), Action::Nothing);
    assert!(!state.get(1).unwrap().is_empty());
    let mut mention = human(301, 1, "hello");
    mention.mentions_me = true;
    assert_eq!(Handler.message(&mut state, &mention), Action::Send(String::from("hello")));
}

#[test]
fn answer_is_to_be_sanitized_while_pinging_is_off() {
    let mut state = State::new();
    cmd::ping_off(state.get_or_create(1));
    let action = Handler.message(&mut state, &human(300, 1, "<@5>"));
    assert_eq!(action, Action::SendSanitized(String::from("<@5>")));
    if let Action::SendSanitized(text) = action {
        assert_eq!(
            remove_pings(&text, &Vec::new(), &Vec::new()),
            Some(String::from("@INVALID-USERNAME"))
        );
    }
}

#[test]
fn joined_guild_learns_its_history_and_answers_on_the_frequency() {
    let mut state = State::default();
    let channels =
        vec![ChannelHistory { is_text: true, fetched: Some(history(&["hello", "!ignored", "world"])) }];
    Handler.guild_create(&mut state, 1, &channels);
    assert_eq!(state.get(1).unwrap().config, Config::default());
    for _ in 0..20 {
        match state.get(1).unwrap().send_nonsense() {
            Action::Send(text) => assert!(text == "hello" || text == "world", "{}", text),
            other => panic!("{:?}", other),
        }
    }
    match Handler.message(&mut state, &human(300, 1, "again")) {
        Action::Send(text) => assert!(text == "hello" || text == "world" || text == "again"),
        other => panic!("{:?}", other),
    }
}

#[test]
fn joining_twice_keeps_the_settings() {
    let mut state = State::new();
    cmd::ping_off(state.get_or_create(4));
    Handler.guild_create(&mut state, 4, &Vec::new());
    assert!(!state.get(4).unwrap().config.pinging_enabled);
    assert!(state.get(4).unwrap().is_empty());
}
