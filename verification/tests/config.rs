use nonsense::cmd;
use nonsense::config::{get_state_str, Config, ConfigError};
use nonsense::state::GuildState;
use nonsense::text::{parse_id, parse_u64, u64_to_string};

#[test]
fn default_config_posts_and_pings_every_hundred() {
    let config = Config::default();
    assert!(config.auto_post_enabled);
    assert!(config.pinging_enabled);
    assert_eq!(config.freq, 100);
}

#[test]
fn switch_words() {
    assert_eq!(get_state_str(true), "enabled");
    assert_eq!(get_state_str(false), "disabled");
}

#[test]
fn describe_default_config() {
    assert_eq!(
        Config::default().to_string(),
        "Automatic posting is enabled\nPinging is enabled\nPost frequency = 100"
    );
}

#[test]
fn describe_changed_config() {
    let config = Config { auto_post_enabled: false, pinging_enabled: true, freq: 7 };
    assert_eq!(
        config.to_string(),
        "Automatic posting is disabled\nPinging is enabled\nPost frequency = 7"
    );
}

#[test]
fn zero_frequency_is_refused_and_changes_nothing() {
    let mut config = Config { auto_post_enabled: false, pinging_enabled: true, freq: 42 };
    assert_eq!(config.set_freq(0), Err(ConfigError::ZeroFrequency));
    assert_eq!(config, Config { auto_post_enabled: false, pinging_enabled: true, freq: 42 });
}

#[test]
fn positive_frequency_is_taken() {
    let mut config = Config::default();
    assert_eq!(config.set_freq(1), Ok(()));
    assert_eq!(config.freq, 1);
    assert_eq!(config.set_freq(u64::MAX), Ok(()));
    assert_eq!(config.freq, u64::MAX);
    assert!(config.auto_post_enabled);
    assert!(config.pinging_enabled);
}

#[test]
fn zero_frequency_message() {
    assert_eq!(ConfigError::ZeroFrequency.message(), "Zero is not a valid frequency");
}

#[test]
fn numbers_are_rendered_in_decimal() {
    assert_eq!(u64_to_string(0), "0");
    assert_eq!(u64_to_string(9), "9");
    assert_eq!(u64_to_string(10), "10");
    assert_eq!(u64_to_string(1203), "1203");
    assert_eq!(u64_to_string(u64::MAX), "18446744073709551615");
}

#[test]
fn numerals_are_read_back() {
    assert_eq!(parse_u64("0"), Some(0));
    assert_eq!(parse_u64("007"), Some(7));
    assert_eq!(parse_u64("+5"), Some(5));
    assert_eq!(parse_u64("18446744073709551615"), Some(u64::MAX));
}

#[test]
fn what_is_no_numeral_is_refused() {
    assert_eq!(parse_u64(""), None);
    assert_eq!(parse_u64("+"), None);
    assert_eq!(parse_u64("-1"), None);
    assert_eq!(parse_u64("12a"), None);
    assert_eq!(parse_u64(" 1"), None);
    assert_eq!(parse_u64("++1"), None);
    assert_eq!(parse_u64("\u{0663}"), None);
    assert_eq!(parse_u64("18446744073709551616"), None);
    assert_eq!(parse_u64("99999999999999999999999999"), None);
}

#[test]
fn reading_agrees_with_the_standard_library() {
    let samples = [
        "", "+", "-", "0", "+0", "-0", "1", "42", "+42", "4 2", "0x10", "18446744073709551615",
        "18446744073709551616", "184467440737095516150", "000000000000000000000000001", "1e3",
        "\u{ff11}",
    ];
    for sample in samples {
        assert_eq!(parse_u64(sample), sample.parse::<u64>().ok(), "{}", sample);
        assert_eq!(parse_id(sample), sample.parse::<u64>().unwrap_or(0), "{}", sample);
    }
}

#[test]
fn rendering_agrees_with_the_standard_library() {
    let samples = [0u64, 1, 9, 10, 11, 99, 100, 101, 12345678901234567890, u64::MAX];
    for sample in samples {
        assert_eq!(u64_to_string(sample), sample.to_string());
        assert_eq!(parse_u64(&u64_to_string(sample)), Some(sample));
    }
}

#[test]
fn unreadable_identifier_is_zero() {
    assert_eq!(parse_id("abc"), 0);
    assert_eq!(parse_id("123"), 123);
}

#[test]
fn switches_answer_and_take_effect() {
    let mut session = GuildState::default();
    assert_eq!(cmd::off(&mut session), "Posting disabled");
    assert!(!session.config.auto_post_enabled);
    assert_eq!(cmd::on(&mut session), "Posting enabled");
    assert!(session.config.auto_post_enabled);
    assert_eq!(cmd::ping_off(&mut session), "Pinging disabled");
    assert!(!session.config.pinging_enabled);
    assert_eq!(cmd::ping_on(&mut session), "Pinging enabled");
    assert!(session.config.pinging_enabled);
    assert_eq!(session.config.freq, 100);
}

#[test]
fn freq_command_sets_the_frequency() {
    let mut session = GuildState::default();
    assert_eq!(cmd::freq(&mut session, 25), Ok(String::from("Changed post frequency to 25")));
    assert_eq!(session.config.freq, 25);
}

#[test]
fn freq_command_refuses_zero() {
    let mut session = GuildState::default();
    assert_eq!(cmd::freq(&mut session, 25), Ok(String::from("Changed post frequency to 25")));
    assert_eq!(cmd::freq(&mut session, 0), Err(ConfigError::ZeroFrequency));
    assert_eq!(session.config.freq, 25);
}

#[test]
fn info_reports_the_settings() {
    let mut session = GuildState::default();
    cmd::off(&mut session);
    let embed = cmd::info(&session, "Nonsense");
    assert_eq!(embed.title, "Nonsense information");
    assert_eq!(
        embed.description,
        "Automatic posting is disabled\nPinging is enabled\nPost frequency = 100"
    );
}

#[test]
fn unknown_command_is_named_in_the_answer() {
    assert_eq!(cmd::unrecognised_command_text("dance"), "Command 'dance' unrecognized");
}
