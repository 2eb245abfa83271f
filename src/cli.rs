//! The schedule of the daemon: when to apply the mappings, when to wait,
//! when to withdraw them and when to stop.

use vstd::prelude::*;

verus! {

/// The format of the mapping file.
#[derive(Clone, Copy, Debug, PartialEq, Eq, Structural)]
pub enum CliInputFormat {
    Csv,
    Json,
}

/// The daemon's settings.
#[derive(Clone, Debug)]
pub struct Cli {
    /// The mapping file, or "-" for standard input.
    pub file: String,
    pub format: CliInputFormat,
    /// Field delimiter of CSV files.
    pub csv_delimiter: char,
    /// Stay in the foreground instead of forking to the background.
    pub foreground: bool,
    /// Run one pass only.
    pub oneshot: bool,
    /// Seconds between two passes.
    pub interval: u64,
    /// Withdraw the mappings when the daemon stops.
    pub close_ports_on_exit: bool,
    /// Only withdraw the mappings, then stop.
    pub only_close_ports: bool,
    /// Where the daemon records its process id.
    pub pid_file: String,
}

/// Where the daemon's schedule stands.
#[derive(Clone, Copy, Debug, PartialEq, Eq, Structural)]
pub enum Pass {
    /// A pass over the mapping file is due.
    Starting,
    /// Between two passes.
    Waiting,
    /// Stopping; the mappings are to be withdrawn.
    Closing,
    Stopped,
}

/// What the daemon does next.
#[derive(Clone, Copy, Debug, PartialEq, Eq, Structural)]
pub enum Command {
    /// Read the mapping file and apply every mapping.
    Apply,
    /// Wait `seconds`, or less if a stop is requested.
    Wait { seconds: u64 },
    /// Read the mapping file and withdraw every mapping.
    Withdraw,
    Exit,
}

/// How the last command ended.
#[derive(Clone, Copy, Debug, PartialEq, Eq, Structural)]
pub enum Wake {
    /// An apply or withdraw pass is over.
    Done,
    /// The wait ran its full time.
    Timeout,
    /// A stop was requested.
    Interrupted,
}

impl Cli {
    /// The stage after a stop: withdraw first where asked to.
    pub open spec fn stopping_spec(&self) -> Pass {
        if self.close_ports_on_exit || self.only_close_ports {
            Pass::Closing
        } else {
            Pass::Stopped
        }
    }

    pub open spec fn command_spec(&self, pass: Pass) -> Command {
        match pass {
            Pass::Starting => if self.only_close_ports {
                Command::Withdraw
            } else {
                Command::Apply
            },
            Pass::Waiting => Command::Wait { seconds: self.interval },
            Pass::Closing => Command::Withdraw,
            Pass::Stopped => Command::Exit,
        }
    }

    pub open spec fn after_spec(&self, pass: Pass, wake: Wake) -> Pass {
        match (pass, wake) {
            (Pass::Starting, Wake::Done) => if self.only_close_ports {
                Pass::Stopped
            } else if self.oneshot {
                self.stopping_spec()
            } else {
                Pass::Waiting
            },
            (Pass::Waiting, Wake::Timeout) => Pass::Starting,
            (Pass::Waiting, Wake::Interrupted) => self.stopping_spec(),
            (Pass::Closing, Wake::Done) => Pass::Stopped,
            _ => pass,
        }
    }

    /// The command for stage `pass`. With `only_close_ports` the first
    /// pass withdraws instead of applying.
    pub fn command(&self, pass: Pass) -> (r: Command)
        ensures
            r == self.command_spec(pass),
    {
        match pass {
            Pass::Starting => if self.only_close_ports {
                Command::Withdraw
            } else {
                Command::Apply
            },
            Pass::Waiting => Command::Wait { seconds: self.interval },
            Pass::Closing => Command::Withdraw,
            Pass::Stopped => Command::Exit,
        }
    }

    /// The stage after the command of `pass` ended with `wake`. A pass
    /// is followed by a wait, unless one pass is all that is asked for; a
    /// stop request ends the wait, and the mappings are withdrawn on the way
    /// out where `close_ports_on_exit` asks for it. A `wake` that does not
    /// end the command leaves the stage as it is.
    pub fn after(&self, pass: Pass, wake: Wake) -> (r: Pass)
        ensures
            r == self.after_spec(pass, wake),
    {
        let stopping = if self.close_ports_on_exit || self.only_close_ports {
            Pass::Closing
        } else {
            Pass::Stopped
        };
        match (pass, wake) {
            (Pass::Starting, Wake::Done) => if self.only_close_ports {
                Pass::Stopped
            } else if self.oneshot {
                stopping
            } else {
                Pass::Waiting
            },
            (Pass::Waiting, Wake::Timeout) => Pass::Starting,
            (Pass::Waiting, Wake::Interrupted) => stopping,
            (Pass::Closing, Wake::Done) => Pass::Stopped,
            _ => pass,
        }
    }
}

} // verus!
