//! The command line: the config file to use, and an optional command.
use vstd::prelude::*;

verus! {

/// The parsed command line.
#[derive(Debug)]
pub struct Cli {
    /// The config file to use.
    pub config: String,
    pub command: Option<Command>,
}

/// What to do instead of serving.
#[derive(Debug, Clone, Copy, PartialEq, Eq, Structural)]
pub enum Command {
    /// Check the configuration, then stop.
    Validate,
}

/// The config file used when the command line names none.
pub fn default_config_path() -> (p: String)
    ensures
        p@ == "configs/config.yml"@,
{
    String::from_str("configs/config.yml")
}

impl Cli {
    /// Whether the command is `validate`.
    pub fn is_validate(&self) -> (b: bool)
        ensures
            b <==> (self.command matches Some(Command::Validate)),
    {
        match self.command {
            Some(Command::Validate) => true,
            None => false,
        }
    }
}

} // verus!
