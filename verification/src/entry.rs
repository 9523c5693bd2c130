//! Log entries and their canonical textual form.

use vstd::prelude::*;
use vstd::string::StringExecFns;

use crate::level::{spec_level_name, LogLevel};

verus! {

/// The mathematical value of a log entry: its channel and message as
/// character sequences together with its severity.
pub struct LogView {
    pub channel: Seq<char>,
    pub level: LogLevel,
    pub message: Seq<char>,
}

/// A recorded log entry: an immutable triple of channel, severity and
/// message. An empty channel is permitted and treated as "no channel".
#[derive(PartialEq, Eq, PartialOrd, Ord, Clone, Debug)]
pub struct Log {
    pub channel: String,
    pub level: LogLevel,
    pub message: String,
}

impl View for Log {
    type V = LogView;

    open spec fn view(&self) -> LogView {
        LogView { channel: self.channel@, level: self.level, message: self.message@ }
    }
}

/// The canonical textual form of an entry: `[channel/level] message`, or
/// `[level] message` when the channel is empty.
pub open spec fn spec_display(entry: LogView) -> Seq<char> {
    if entry.channel.len() != 0 {
        "["@ + entry.channel + "/"@ + spec_level_name(entry.level) + "] "@ + entry.message
    } else {
        "["@ + spec_level_name(entry.level) + "] "@ + entry.message
    }
}

impl Log {
    /// Creates a new log entry.
    pub fn new(channel: String, level: LogLevel, message: String) -> (r: Log)
        ensures
            r@ == (LogView { channel: channel@, level: level, message: message@ }),
    {
        Log { channel, level, message }
    }

    /// Renders the entry in its canonical textual form.
    pub fn display(&self) -> (r: String)
        ensures
            r@ == spec_display(self@),
    {
        let mut out = String::new();
        out.append("[");
        if !self.channel.as_str().is_empty() {
            out.append(self.channel.as_str());
            out.append("/");
        }
        out.append(self.level.name());
        out.append("] ");
        out.append(self.message.as_str());
        proof {
            assert(out@ =~= spec_display(self@));
        }
        out
    }

    /// A copy of the entry holding the same channel, severity and message.
    pub fn duplicate(&self) -> (r: Log)
        ensures
            r@ == self@,
    {
        Log { channel: self.channel.clone(), level: self.level, message: self.message.clone() }
    }
}

/// Two entries are equal by value exactly when channel, severity and message
/// all agree.
pub(crate) fn log_eq(a: &Log, b: &Log) -> (r: bool)
    ensures
        r == (a@ == b@),
{
    a.channel == b.channel && a.level == b.level && a.message == b.message
}

} // verus!
