//! The command line: which program the first argument asks for.

use vstd::prelude::*;

verus! {

/// What the program runs.
#[derive(Debug, Clone, PartialEq)]
pub enum Command {
    /// print the version
    Version,
    /// the greeter shell without greetd
    DemoGreeter,
    /// the lock view in a plain preview window
    DemoLock,
    /// the real screen locker
    Lock,
    /// the configuration TUI
    Config,
    /// an unknown option (exit 2)
    Unknown(String),
    /// no option: the greeter
    Greeter,
}

pub enum SpecCommand {
    Version,
    DemoGreeter,
    DemoLock,
    Lock,
    Config,
    Unknown(Seq<char>),
    Greeter,
}

impl View for Command {
    type V = SpecCommand;

    open spec fn view(&self) -> SpecCommand {
        match self {
            Command::Version => SpecCommand::Version,
            Command::DemoGreeter => SpecCommand::DemoGreeter,
            Command::DemoLock => SpecCommand::DemoLock,
            Command::Lock => SpecCommand::Lock,
            Command::Config => SpecCommand::Config,
            Command::Unknown(s) => SpecCommand::Unknown(s@),
            Command::Greeter => SpecCommand::Greeter,
        }
    }
}

pub open spec fn spec_command(arg: Option<Seq<char>>) -> SpecCommand {
    match arg {
        None => SpecCommand::Greeter,
        Some(a) => if a == "--version"@ || a == "-V"@ {
            SpecCommand::Version
        } else if a == "--demo-g"@ {
            SpecCommand::DemoGreeter
        } else if a == "--demo-l"@ {
            SpecCommand::DemoLock
        } else if a == "--lock"@ {
            SpecCommand::Lock
        } else if a == "--config"@ {
            SpecCommand::Config
        } else {
            SpecCommand::Unknown(a)
        },
    }
}

/// The command for the first argument (`None`: no argument).
pub fn command(arg: Option<&str>) -> (r: Command)
    ensures
        r@ == spec_command(crate::ui::ascii::opt_str_view(arg)),
{
    match arg {
        None => Command::Greeter,
        Some(a) => {
            if crate::text::str_eq(a, "--version") || crate::text::str_eq(a, "-V") {
                Command::Version
            } else if crate::text::str_eq(a, "--demo-g") {
                Command::DemoGreeter
            } else if crate::text::str_eq(a, "--demo-l") {
                Command::DemoLock
            } else if crate::text::str_eq(a, "--lock") {
                Command::Lock
            } else if crate::text::str_eq(a, "--config") {
                Command::Config
            } else {
                Command::Unknown(a.to_string())
            }
        },
    }
}

} // verus!
