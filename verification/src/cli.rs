//! The command line: subcommands and their arguments.
use vstd::prelude::*;

verus! {

/// The parsed command line.
#[derive(Debug)]
pub struct Cli {
    pub command: Option<Commands>,
}

/// The subcommands.
#[derive(Debug)]
pub enum Commands {
    Interactive,
    Exec { task: String },
    Resume { session: Option<String> },
    Config { command: ConfigCommand },
    Providers,
    Mcp { command: McpCommand },
    Review { paths: Vec<String> },
    Skills,
    Task { command: TaskCommand },
    Subagent { kind: String, task: String },
    Bench,
    ReleaseCheck,
    Doctor,
}

#[derive(Debug, Clone, Copy, PartialEq, Eq, Structural)]
pub enum ConfigCommand {
    Init,
    Path,
    Show,
}

#[derive(Debug, Clone, Copy, PartialEq, Eq, Structural)]
pub enum McpCommand {
    List,
}

#[derive(Debug)]
pub enum TaskCommand {
    Spawn { task: String },
    List,
    Show { id: String },
    Cancel { id: String },
    Tail { id: String, lines: usize },
    Worker { id: String, task: String },
}

impl Cli {
    /// The subcommand to run: the given one, or the interactive harness.
    pub fn into_command(self) -> (r: Commands)
        ensures
            match self.command {
                Some(c) => r == c,
                None => r is Interactive,
            },
    {
        match self.command {
            Some(c) => c,
            None => Commands::Interactive,
        }
    }
}

} // verus!
