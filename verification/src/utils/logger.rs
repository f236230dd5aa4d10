//! Which messages are printed, and how a line looks.
use crate::utils::text;
use vstd::prelude::*;

verus! {

/// How much a message matters, most first.
#[derive(Clone, Copy, Debug, PartialEq, Eq, Structural)]
pub enum Level {
    Error,
    Warn,
    Info,
    Debug,
    Trace,
}

impl Level {
    /// The place in the order: a larger one matters less.
    pub open spec fn spec_rank(self) -> u8 {
        match self {
            Level::Error => 1u8,
            Level::Warn => 2u8,
            Level::Info => 3u8,
            Level::Debug => 4u8,
            Level::Trace => 5u8,
        }
    }

    pub fn rank(self) -> (r: u8)
        ensures
            r == self.spec_rank(),
    {
        match self {
            Level::Error => 1,
            Level::Warn => 2,
            Level::Info => 3,
            Level::Debug => 4,
            Level::Trace => 5,
        }
    }

    pub open spec fn spec_name(self) -> Seq<char> {
        match self {
            Level::Error => "ERROR"@,
            Level::Warn => "WARN"@,
            Level::Info => "INFO"@,
            Level::Debug => "DEBUG"@,
            Level::Trace => "TRACE"@,
        }
    }

    pub fn name(self) -> (r: &'static str)
        ensures
            r@ == self.spec_name(),
    {
        match self {
            Level::Error => "ERROR",
            Level::Warn => "WARN",
            Level::Info => "INFO",
            Level::Debug => "DEBUG",
            Level::Trace => "TRACE",
        }
    }
}

/// Whether a message is left out whatever is asked for: window and trace libraries
/// write enormous debug messages.
pub open spec fn is_noise(level: Level, target: Seq<char>) -> bool {
    level == Level::Debug && (text::has_prefix(target, "winit::"@) || text::has_prefix(
        target,
        "tracing::"@,
    ))
}

/// Prints messages down to some level.
#[derive(Clone, Copy, Debug)]
pub struct StdoutLogger {
    pub level: Level,
}

impl StdoutLogger {
    pub fn new(level: Level) -> (r: Self)
        ensures
            r.level == level,
    {
        StdoutLogger { level }
    }

    /// Whether a message is printed.
    pub fn enabled(&self, level: Level, target: &str) -> (r: bool)
        ensures
            r == (level.spec_rank() <= self.level.spec_rank() && !is_noise(level, target@)),
    {
        if level == Level::Debug && (text::starts_with(target, "winit::") || text::starts_with(
            target,
            "tracing::",
        )) {
            return false;
        }
        level.rank() <= self.level.rank()
    }

    /// The line of a message.
    pub fn line(&self, timestamp: &str, level: Level, target: &str, message: &str) -> (r: String)
        ensures
            r@ == "["@ + timestamp@ + "] "@ + level.spec_name() + " "@ + target@ + ": "@ + message@,
    {
        "[".to_owned().concat(timestamp).concat("] ").concat(level.name()).concat(" ").concat(
            target,
        ).concat(": ").concat(message)
    }
}

} // verus!
