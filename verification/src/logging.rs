//! Logging by verbosity: which messages a logger lets through.

use vstd::prelude::*;

verus! {

/// How much a logger says, or how much a message matters: a logger lets a
/// message through when the message's level is not above its own.
#[derive(Debug, Clone, Copy, PartialEq, Eq, Structural)]
pub enum Verbosity {
    Quiet,
    Normal,
    Verbose,
}

/// The rank of a level: `Quiet` lowest.
pub open spec fn level(v: Verbosity) -> int {
    match v {
        Verbosity::Quiet => 0,
        Verbosity::Normal => 1,
        Verbosity::Verbose => 2,
    }
}

impl Verbosity {
    /// The rank of this level.
    pub fn rank(&self) -> (r: u8)
        ensures
            r == level(*self),
    {
        match self {
            Verbosity::Quiet => 0,
            Verbosity::Normal => 1,
            Verbosity::Verbose => 2,
        }
    }
}

/// A logger with its level.
pub struct Logger {
    pub verbosity: Verbosity,
}

impl Logger {
    /// A logger at the level `verbosity`.
    #[must_use]
    pub fn new(verbosity: Verbosity) -> (logger: Logger)
        ensures
            logger.verbosity == verbosity,
    {
        Logger { verbosity }
    }

    /// What is to be printed for `message` at the level `verbosity`: the
    /// message where the logger lets it through, else nothing.
    pub fn log(&self, verbosity: Verbosity, message: &str) -> (line: Option<String>)
        ensures
            line.deep_view() == (if level(verbosity) <= level(self.verbosity) {
                Some(message@)
            } else {
                None
            }),
    {
        if verbosity.rank() <= self.verbosity.rank() {
            Some(message.to_owned())
        } else {
            None
        }
    }

    /// Sets the logger's level.
    pub fn set_verbosity(&mut self, verbosity: Verbosity)
        ensures
            final(self).verbosity == verbosity,
    {
        self.verbosity = verbosity;
    }
}

} // verus!
