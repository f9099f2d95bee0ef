//! What the command line comes down to.
use vstd::prelude::*;

verus! {

/// The port of the server.
pub const DEFAULT_PORT: u16 = 5600;

/// The port of the server in its testing mode.
pub const TESTING_PORT: u16 = 5666;

/// Where the daemon listens.
pub const DEFAULT_DAEMON_LISTEN: &'static str = "127.0.0.1:5667";

/// What there is to do.
#[derive(Clone, Copy, PartialEq, Eq, Structural, Debug)]
pub enum Command {
    Daemon,
    Teardown,
    Status,
}

/// The port to connect to: the one that is named, or else that of the server in
/// the mode that is asked for.
pub fn server_port(port: Option<u16>, testing: bool) -> (resolved: u16)
    ensures
        resolved == match port {
            Some(port) => port,
            None => if testing {
                TESTING_PORT
            } else {
                DEFAULT_PORT
            },
        },
{
    match port {
        Some(port) => port,
        None => if testing {
            TESTING_PORT
        } else {
            DEFAULT_PORT
        },
    }
}

/// What to do: where nothing is asked for, the daemon runs.
pub fn chosen_command(command: Option<Command>) -> (chosen: Command)
    ensures
        chosen == match command {
            Some(command) => command,
            None => Command::Daemon,
        },
{
    command.unwrap_or(Command::Daemon)
}

/// The name to connect under. The daemon has one of its own, since the server
/// lets only one client of a name in at a time.
pub fn client_name(command: Command) -> (name: &'static str)
    ensures
        name@ == if command == Command::Daemon {
            "aw-watcher-agent-daemon"@
        } else {
            "aw-watcher-agent-cli"@
        },
{
    match command {
        Command::Daemon => "aw-watcher-agent-daemon",
        _ => "aw-watcher-agent-cli",
    }
}

} // verus!
