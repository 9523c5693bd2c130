//! A tiny traceback and logging library: callers emit structured log entries
//! (channel, severity, message) into a store, the store retains them in
//! insertion order and optionally forwards each one to a registered
//! listener, and filtered, human-readable tracebacks are later reconstructed
//! from the retained entries.

use vstd::prelude::*;

pub mod entry;
pub mod level;
pub mod store;
pub mod traceback;

pub use crate::entry::spec_display;
pub use crate::entry::Log;
pub use crate::entry::LogView;
pub use crate::level::spec_at_least;
pub use crate::level::spec_level_name;
pub use crate::level::spec_level_of_name;
pub use crate::level::LogLevel;
pub use crate::store::spec_channel_allowed;
pub use crate::store::spec_level_allowed;
pub use crate::store::spec_passes;
pub use crate::store::LogListener;
pub use crate::store::LogStore;
pub use crate::store::SilentListener;
pub use crate::traceback::get_logs_traceback;
pub use crate::traceback::spec_render;
pub use crate::traceback::Traceback;

verus! {

/// Initializes the store: clears all retained entries and detaches any
/// listener.
pub fn init<L: LogListener>(store: &mut LogStore<L>)
    ensures
        final(store).logs() == Seq::<LogView>::empty(),
        final(store).observer() is None,
{
    store.reset();
}

/// Initializes the store: clears all retained entries and installs
/// `listener` in place of any previous one.
pub fn init_with_listener<L: LogListener>(store: &mut LogStore<L>, listener: L)
    ensures
        final(store).logs() == Seq::<LogView>::empty(),
        final(store).observer() == Some(listener),
{
    store.reset_with_listener(listener);
}

/// The entry a `log` call with these arguments appends: a missing level
/// defaults to `Info` and a missing channel to the empty channel.
pub open spec fn spec_logged_entry(
    level: Option<LogLevel>,
    channel: Option<String>,
    message: String,
) -> LogView {
    LogView {
        channel: match channel {
            Some(c) => c@,
            None => Seq::empty(),
        },
        level: match level {
            Some(l) => l,
            None => LogLevel::Info,
        },
        message: message@,
    }
}

/// Logs a message with an optional level and channel: appends the entry to
/// the store and notifies the registered listener, if any, exactly once,
/// with an equal entry.
pub fn log<L: LogListener>(
    store: &mut LogStore<L>,
    level: Option<LogLevel>,
    channel: Option<String>,
    message: String,
)
    ensures
        final(store).logs() == old(store).logs().push(spec_logged_entry(level, channel, message)),
        match old(store).observer() {
            None => final(store).observer() is None,
            Some(l) => match final(store).observer() {
                Some(m) => m.notified() == l.notified().push(
                    spec_logged_entry(level, channel, message),
                ),
                None => false,
            },
        },
{
    let entry = Log::new(
        match channel {
            Some(c) => c,
            None => String::new(),
        },
        match level {
            Some(l) => l,
            None => LogLevel::Info,
        },
        message,
    );
    store.append(entry);
}

} // verus!
