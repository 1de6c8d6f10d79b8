//! Levels of log messages, and which of them are shown.

use vstd::prelude::*;
use vstd::string::*;
use crate::text::same_text;

verus! {

/// How grave a log message is, from the least to the gravest.
#[derive(Debug, Clone, Copy, PartialEq, Eq, Structural)]
pub enum LogLevel {
    Trace,
    Debug,
    Info,
    Warn,
    Error,
}

impl LogLevel {
    /// The level's place in the order, `Trace` being 0 and `Error` 4.
    pub open spec fn rank(self) -> int {
        match self {
            LogLevel::Trace => 0,
            LogLevel::Debug => 1,
            LogLevel::Info => 2,
            LogLevel::Warn => 3,
            LogLevel::Error => 4,
        }
    }

    /// The level that a setting asks for; anything unknown, and no setting
    /// at all, asks for `Error`.
    pub open spec fn named(setting: Option<Seq<char>>) -> LogLevel {
        match setting {
            Some(name) => if name == "trace"@ {
                LogLevel::Trace
            } else if name == "debug"@ {
                LogLevel::Debug
            } else if name == "info"@ {
                LogLevel::Info
            } else if name == "warn"@ {
                LogLevel::Warn
            } else {
                LogLevel::Error
            },
            None => LogLevel::Error,
        }
    }

    /// The text that opens a message of this level; all five are equally long.
    pub open spec fn prefix(self) -> Seq<char> {
        match self {
            LogLevel::Trace => "trace:"@,
            LogLevel::Debug => "debug:"@,
            LogLevel::Info => "info: "@,
            LogLevel::Warn => "warn: "@,
            LogLevel::Error => "error:"@,
        }
    }

    /// Whether a message of level `other` is shown when `self` is the level
    /// asked for: it is when it is at least as grave.
    pub fn visible(&self, other: &Self) -> (shown: bool)
        ensures
            shown == (other.rank() >= self.rank()),
    {
        match self {
            LogLevel::Error => match other {
                LogLevel::Error => true,
                _ => false,
            },
            LogLevel::Warn => match other {
                LogLevel::Error | LogLevel::Warn => true,
                _ => false,
            },
            LogLevel::Info => match other {
                LogLevel::Error | LogLevel::Warn | LogLevel::Info => true,
                _ => false,
            },
            LogLevel::Debug => match other {
                LogLevel::Trace => false,
                _ => true,
            },
            LogLevel::Trace => true,
        }
    }

    /// The text that opens a message of this level.
    pub fn label(&self) -> (text: String)
        ensures
            text@ == self.prefix(),
    {
        match self {
            LogLevel::Trace => String::from_str("trace:"),
            LogLevel::Debug => String::from_str("debug:"),
            LogLevel::Info => String::from_str("info: "),
            LogLevel::Warn => String::from_str("warn: "),
            LogLevel::Error => String::from_str("error:"),
        }
    }
}

/// The level asked for by `setting`, the value of the setting if it is set.
pub fn get_log_level(setting: Option<&str>) -> (level: LogLevel)
    ensures
        level == LogLevel::named(
            match setting {
                Some(name) => Some(name@),
                None => None,
            },
        ),
{
    match setting {
        Some(name) => {
            if same_text(name, "trace") {
                LogLevel::Trace
            } else if same_text(name, "debug") {
                LogLevel::Debug
            } else if same_text(name, "info") {
                LogLevel::Info
            } else if same_text(name, "warn") {
                LogLevel::Warn
            } else {
                LogLevel::Error
            }
        },
        None => LogLevel::Error,
    }
}

} // verus!
