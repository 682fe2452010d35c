//! Per-guild settings of the bot.

use vstd::prelude::*;
use crate::text::{decimal, u64_to_string};

verus! {

/// How the bot behaves in one guild.
#[derive(Debug, Clone, Copy, PartialEq, Eq)]
pub struct Config {
    /// Whether the bot posts on its own.
    pub auto_post_enabled: bool,
    /// Whether generated text goes out with its mentions intact.
    pub pinging_enabled: bool,
    /// The bot posts on its own after about every `freq` messages.
    pub freq: u64,
}

/// Why a change of the settings was refused.
#[derive(Debug, PartialEq, Eq, Clone, Copy, Structural)]
pub enum ConfigError {
    /// A post frequency of zero was asked for.
    ZeroFrequency,
}

/// The word by which a switch is reported.
pub open spec fn state_str(state: bool) -> Seq<char> {
    if state {
        "enabled"@
    } else {
        "disabled"@
    }
}

/// The word by which a switch is reported.
pub fn get_state_str(state: bool) -> (r: &'static str)
    ensures
        r@ == state_str(state),
{
    if state {
        "enabled"
    } else {
        "disabled"
    }
}

impl ConfigError {
    pub open spec fn message_spec(self) -> Seq<char> {
        "Zero is not a valid frequency"@
    }

    /// The sentence that tells a user what was wrong.
    pub fn message(&self) -> (r: String)
        ensures
            r@ == self.message_spec(),
    {
        String::from_str("Zero is not a valid frequency")
    }
}

impl Config {
    /// The post frequency is used as a modulus, so it is never zero.
    pub open spec fn wf(&self) -> bool {
        self.freq > 0
    }

    /// The settings of a guild that has changed none.
    pub open spec fn default_spec() -> Config {
        Config { auto_post_enabled: true, pinging_enabled: true, freq: 100 }
    }

    /// The report of the settings, one line for each.
    pub open spec fn to_string_spec(&self) -> Seq<char> {
        "Automatic posting is "@ + state_str(self.auto_post_enabled) + "\nPinging is "@
            + state_str(self.pinging_enabled) + "\nPost frequency = "@ + decimal(
            self.freq as nat,
        )
    }

    /// What `set_freq` leaves behind and returns.
    pub open spec fn set_freq_spec(self, new_freq: u64) -> (Config, Result<(), ConfigError>) {
        if new_freq == 0 {
            (self, Err(ConfigError::ZeroFrequency))
        } else {
            (Config { freq: new_freq, ..self }, Ok(()))
        }
    }

    /// Sets the post frequency. Zero is refused and changes nothing; every
    /// other value is taken.
    pub fn set_freq(&mut self, new_freq: u64) -> (r: Result<(), ConfigError>)
        ensures
            *final(self) == old(self).set_freq_spec(new_freq).0,
            r == old(self).set_freq_spec(new_freq).1,
            old(self).wf() ==> final(self).wf(),
    {
        if new_freq == 0 {
            return Err(ConfigError::ZeroFrequency);
        }
        self.freq = new_freq;
        Ok(())
    }

    /// Reports the settings, one line for each.
    pub fn to_string(&self) -> (r: String)
        ensures
            r@ == self.to_string_spec(),
    {
        let mut out = String::from_str("Automatic posting is ");
        out.append(get_state_str(self.auto_post_enabled));
        out.append("\nPinging is ");
        out.append(get_state_str(self.pinging_enabled));
        out.append("\nPost frequency = ");
        let number = u64_to_string(self.freq);
        out.append(number.as_str());
        out
    }
}

impl Default for Config {
    fn default() -> (r: Self)
        ensures
            r == Config::default_spec(),
            r.wf(),
    {
        Config { auto_post_enabled: true, pinging_enabled: true, freq: 100 }
    }
}

/// Setting the post frequency to zero fails and changes nothing; setting it
/// to any other value succeeds, and the settings then hold that value and
/// are otherwise as before.
pub proof fn lemma_set_freq(config: Config, new_freq: u64)
    ensures
        new_freq == 0 ==> config.set_freq_spec(new_freq).1 is Err && config.set_freq_spec(
            new_freq,
        ).0 == config,
        new_freq > 0 ==> config.set_freq_spec(new_freq).1 is Ok && config.set_freq_spec(
            new_freq,
        ).0.freq == new_freq && config.set_freq_spec(new_freq).0.wf(),
        config.set_freq_spec(new_freq).0.auto_post_enabled == config.auto_post_enabled,
        config.set_freq_spec(new_freq).0.pinging_enabled == config.pinging_enabled,
        config.wf() ==> config.set_freq_spec(new_freq).0.wf(),
{
}

} // verus!
