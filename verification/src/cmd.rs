//! The commands by which the members of a guild read and change its
//! settings. Each returns the text that answers the member.

use vstd::prelude::*;
use crate::config::{Config, ConfigError};
use crate::state::GuildState;
use crate::text::{decimal, u64_to_string};

verus! {

/// A titled piece of text that answers a command.
pub struct Embed {
    pub title: String,
    pub description: String,
}

/// What `freq` answers and what it leaves behind.
pub open spec fn freq_spec(
    before: GuildState,
    after: GuildState,
    new_freq: u64,
    answer: Result<String, ConfigError>,
) -> bool {
    if new_freq == 0 {
        answer == Err::<String, ConfigError>(ConfigError::ZeroFrequency) && after == before
    } else {
        &&& answer is Ok
        &&& answer->Ok_0@ == "Changed post frequency to "@ + decimal(new_freq as nat)
        &&& after == GuildState { config: Config { freq: new_freq, ..before.config }, ..before }
    }
}

/// Reports the settings of a guild under the name of the bot.
pub fn info(session: &GuildState, username: &str) -> (r: Embed)
    ensures
        r.title@ == username@ + " information"@,
        r.description@ == session.config.to_string_spec(),
{
    let mut title = String::from_str(username);
    title.append(" information");
    Embed { title, description: session.config.to_string() }
}

/// Turns automatic posting on.
pub fn on(session: &mut GuildState) -> (r: String)
    ensures
        r@ == "Posting enabled"@,
        *final(session) == (GuildState {
            config: Config { auto_post_enabled: true, ..old(session).config },
            ..*old(session)
        }),
{
    session.config.auto_post_enabled = true;
    String::from_str("Posting enabled")
}

/// Turns automatic posting off.
pub fn off(session: &mut GuildState) -> (r: String)
    ensures
        r@ == "Posting disabled"@,
        *final(session) == (GuildState {
            config: Config { auto_post_enabled: false, ..old(session).config },
            ..*old(session)
        }),
{
    session.config.auto_post_enabled = false;
    String::from_str("Posting disabled")
}

/// Lets generated text go out with its mentions.
pub fn ping_on(session: &mut GuildState) -> (r: String)
    ensures
        r@ == "Pinging enabled"@,
        *final(session) == (GuildState {
            config: Config { pinging_enabled: true, ..old(session).config },
            ..*old(session)
        }),
{
    session.config.pinging_enabled = true;
    String::from_str("Pinging enabled")
}

/// Has the mentions removed from generated text.
pub fn ping_off(session: &mut GuildState) -> (r: String)
    ensures
        r@ == "Pinging disabled"@,
        *final(session) == (GuildState {
            config: Config { pinging_enabled: false, ..old(session).config },
            ..*old(session)
        }),
{
    session.config.pinging_enabled = false;
    String::from_str("Pinging disabled")
}

/// Sets the post frequency. Zero is refused and changes nothing; every other
/// value is taken.
pub fn freq(session: &mut GuildState, new_freq: u64) -> (r: Result<String, ConfigError>)
    ensures
        freq_spec(*old(session), *final(session), new_freq, r),
        old(session).wf() ==> final(session).wf(),
{
    match session.config.set_freq(new_freq) {
        Ok(()) => {
            let mut response = String::from_str("Changed post frequency to ");
            let number = u64_to_string(new_freq);
            response.append(number.as_str());
            Ok(response)
        },
        Err(error) => Err(error),
    }
}

/// What a member is told who gave a command that the bot does not know.
pub fn unrecognised_command_text(cmd: &str) -> (r: String)
    ensures
        r@ == "Command '"@ + cmd@ + "' unrecognized"@,
{
    let mut text = String::from_str("Command '");
    text.append(cmd);
    text.append("' unrecognized");
    text
}

} // verus!
