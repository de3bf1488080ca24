use vstd::prelude::*;

verus! {

/// The console commands that the server understands.
pub struct Commands {}

/// A console command.
#[derive(Debug)]
pub enum Command {
    Reload,
}

/// The command that a line of console input names, if any.
pub open spec fn spec_command(cmd: Seq<char>) -> Option<Command> {
    if cmd == "reload"@ {
        Some(Command::Reload)
    } else {
        None
    }
}

impl Commands {
    pub fn new() -> Self {
        Self {}
    }

    /// Reads a console command: `reload` reloads the plugins; any other text is no command.
    pub fn exec(cmd: &str) -> (r: Option<Command>)
        ensures
            r == spec_command(cmd@),
    {
        if String::from_str(cmd) == String::from_str("reload") {
            Some(Command::Reload)
        } else {
            None
        }
    }
}

} // verus!
