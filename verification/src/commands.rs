//! Chat-command module configuration: which commands exist, where they may
//! be used, and the shared cooldown. Dispatching the interactions
//! themselves happens outside this library.

use vstd::prelude::*;

use std::collections::HashSet;

verus! {

broadcast use vstd::std_specs::hash::group_hash_axioms;

/// Module-wide command settings.
#[derive(Debug)]
pub struct CommandsConfig {
    pub enabled: bool,
    pub whitelist: Option<bool>,
    pub channels: HashSet<u64>,
    pub commands: Vec<(String, Command)>,
    pub cdn_url: String,
    pub cooldown: u32,
}

/// Whether the channel list is a whitelist (the default) or a blacklist.
pub open spec fn spec_is_whitelist(whitelist: Option<bool>) -> bool {
    match whitelist {
        Some(w) => w,
        None => true,
    }
}

impl CommandsConfig {
    pub fn is_whitelist(&self) -> (r: bool)
        ensures
            r == spec_is_whitelist(self.whitelist),
    {
        self.whitelist.unwrap_or(true)
    }

    /// A command is allowed in a channel when membership in the channel
    /// list matches the list's polarity.
    pub fn allowed(&self, channel_id: u64) -> (r: bool)
        ensures
            r == (self.channels@.contains(channel_id) == spec_is_whitelist(self.whitelist)),
    {
        self.channels.contains(&channel_id) == self.is_whitelist()
    }
}

impl Default for CommandsConfig {
    /// The startup configuration: disabled, with no commands.
    fn default() -> (r: CommandsConfig)
        ensures
            !r.enabled,
            r.whitelist is None,
            r.channels@ == Set::<u64>::empty(),
            r.commands@.len() == 0,
            r.cdn_url@.len() == 0,
            r.cooldown == 0,
    {
        CommandsConfig {
            enabled: false,
            whitelist: None,
            channels: HashSet::new(),
            commands: Vec::new(),
            cdn_url: String::new(),
            cooldown: 0,
        }
    }
}

/// What a command responds with.
#[derive(Debug)]
pub enum CommandType {
    Text(String),
    Image(String),
}

/// One configured command.
#[derive(Debug)]
pub struct Command {
    pub use_global_list: Option<bool>,
    pub whitelist: Option<bool>,
    pub channels: HashSet<u64>,
    pub command_type: CommandType,
    pub description: String,
}

impl Command {
    /// Whether this command defers to the module-wide channel list: by
    /// default it does exactly when it has no channel list of its own.
    pub fn use_global_list(&self) -> (r: bool)
        ensures
            self.use_global_list matches Some(b) ==> r == b,
            self.use_global_list is None ==> r == self.channels@.is_empty(),
    {
        match self.use_global_list {
            Some(b) => b,
            None => self.channels.is_empty(),
        }
    }

    pub fn is_whitelist(&self) -> (r: bool)
        ensures
            r == spec_is_whitelist(self.whitelist),
    {
        self.whitelist.unwrap_or(true)
    }

    /// Allowed in a channel when membership in this command's own list
    /// matches the list's polarity.
    pub fn allowed(&self, channel_id: u64) -> (r: bool)
        ensures
            r == (self.channels@.contains(channel_id) == spec_is_whitelist(self.whitelist)),
    {
        self.channels.contains(&channel_id) == self.is_whitelist()
    }
}

/// Seconds of cooldown left at `now` for something last triggered at
/// `last` (`None`: never): the cooldown minus the time already elapsed.
pub open spec fn spec_cooldown_left(cooldown: u32, last: Option<u64>, now: u64) -> u64 {
    match last {
        Some(t) => if cooldown as u64 > now - t {
            (cooldown - (now - t)) as u64
        } else {
            0
        },
        None => 0,
    }
}

/// The moment a name was last triggered, per the first entry carrying it.
pub open spec fn spec_last_trigger(s: Seq<(String, u64)>, name: Seq<char>) -> Option<u64>
    decreases s.len(),
{
    if s.len() == 0 {
        None
    } else if s[0].0@ == name {
        Some(s[0].1)
    } else {
        spec_last_trigger(s.drop_first(), name)
    }
}

/// The command module's state: its configuration and, per command, when it
/// was last triggered (seconds on a monotonic clock).
#[derive(Debug)]
pub struct Commands {
    pub config: CommandsConfig,
    pub last: Vec<(String, u64)>,
}

impl Commands {
    /// Seconds of cooldown left for the command `name` at instant `now`; a
    /// command that was never triggered has none. The dispatcher consumes
    /// an interaction only while more than one second is left.
    pub fn cooldown_left(&self, name: &str, now: u64) -> (r: u64)
        requires
            forall|i: int| 0 <= i < self.last@.len() ==> (#[trigger] self.last@[i]).1 <= now,
        ensures
            r == spec_cooldown_left(self.config.cooldown, spec_last_trigger(self.last@, name@), now),
    {
        let n = self.last.len();
        let mut i: usize = 0;
        proof {
            assert(self.last@.skip(0) =~= self.last@);
        }
        while i < n
            invariant
                n == self.last@.len(),
                i <= n,
                forall|j: int| 0 <= j < self.last@.len() ==> (#[trigger] self.last@[j]).1 <= now,
                spec_last_trigger(self.last@, name@) == spec_last_trigger(
                    self.last@.skip(i as int),
                    name@,
                ),
            decreases n - i,
        {
            proof {
                assert(self.last@.skip(i as int)[0] == self.last@[i as int]);
                assert(self.last@.skip(i as int).drop_first() =~= self.last@.skip(i + 1));
            }
            if crate::text::str_eq(self.last[i].0.as_str(), name) {
                let t = self.last[i].1;
                let elapsed = now - t;
                let cd = self.config.cooldown as u64;
                return if cd > elapsed {
                    cd - elapsed
                } else {
                    0
                };
            }
            i = i + 1;
        }
        proof {
            assert(self.last@.skip(n as int) =~= Seq::<(String, u64)>::empty());
        }
        0
    }

    pub fn new() -> (r: Commands)
        ensures
            !r.config.enabled,
            r.config.commands@.len() == 0,
            r.last@.len() == 0,
    {
        Commands { config: Default::default(), last: Vec::new() }
    }
}

} // verus!
