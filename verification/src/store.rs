//! The log store: an ordered collection of entries plus at most one
//! registered listener.

use vstd::prelude::*;

use crate::entry::{log_eq, Log, LogView};
use crate::level::{spec_at_least, LogLevel};

verus! {

/// A handler notified synchronously of each entry appended to a store.
///
/// `notified` is the sequence of entries the handler has received so far,
/// oldest first; `on_log` extends it by exactly the entry it was handed.
pub trait LogListener {
    /// The entries this listener has been notified of, oldest first. A
    /// listener that does not track them may leave the default in place, at
    /// the price of not being able to prove `on_log`'s promise.
    open spec fn notified(&self) -> Seq<LogView> {
        Seq::empty()
    }

    /// Receives one appended entry.
    fn on_log(&mut self, log: Log)
        ensures
            final(self).notified() == old(self).notified().push(log@),
    ;
}

/// A listener that does nothing with the entries it is handed, recording
/// them only in ghost state; it also serves as the listener type of stores
/// that have no listener installed at all.
pub struct SilentListener {
    history: Ghost<Seq<LogView>>,
}

impl SilentListener {
    /// Creates a listener that has been notified of nothing yet.
    pub fn new() -> (r: SilentListener)
        ensures
            r.notified() == Seq::<LogView>::empty(),
    {
        SilentListener { history: Ghost(Seq::empty()) }
    }
}

impl LogListener for SilentListener {
    closed spec fn notified(&self) -> Seq<LogView> {
        self.history@
    }

    fn on_log(&mut self, log: Log) {
        self.history = Ghost(self.history@.push(log@));
    }
}

/// A store of log entries in insertion order, with at most one registered
/// listener. Entries equal by value are distinguished by position.
pub struct LogStore<L: LogListener> {
    entries: Vec<Log>,
    listener: Option<L>,
}

/// The level filter admits `level` when it is absent or when `level` is at
/// least as severe as the threshold.
pub open spec fn spec_level_allowed(min_level: Option<LogLevel>, level: LogLevel) -> bool {
    match min_level {
        None => true,
        Some(m) => spec_at_least(level, m),
    }
}

/// The channel filter admits `channel` when it is absent or lists it.
pub open spec fn spec_channel_allowed(channels: Option<Seq<Seq<char>>>, channel: Seq<char>) -> bool {
    match channels {
        None => true,
        Some(cs) => cs.contains(channel),
    }
}

/// An entry passes a query exactly when both filters admit it.
pub open spec fn spec_passes(
    entry: LogView,
    min_level: Option<LogLevel>,
    channels: Option<Seq<Seq<char>>>,
) -> bool {
    spec_level_allowed(min_level, entry.level) && spec_channel_allowed(channels, entry.channel)
}

impl<L: LogListener> LogStore<L> {
    /// The entries the store retains, in insertion order.
    pub closed spec fn logs(&self) -> Seq<LogView> {
        self.entries@.map_values(|l: Log| l@)
    }

    /// The registered listener, if one is installed.
    pub closed spec fn observer(&self) -> Option<L> {
        self.listener
    }

    /// Creates an empty store with no listener.
    pub fn new() -> (r: LogStore<L>)
        ensures
            r.logs() == Seq::<LogView>::empty(),
            r.observer() is None,
    {
        let r = LogStore { entries: Vec::new(), listener: None };
        proof {
            assert(r.logs() =~= Seq::<LogView>::empty());
        }
        r
    }

    /// Clears the entries and detaches any listener.
    pub fn reset(&mut self)
        ensures
            final(self).logs() == Seq::<LogView>::empty(),
            final(self).observer() is None,
    {
        self.entries.clear();
        self.listener = None;
        proof {
            assert(self.logs() =~= Seq::<LogView>::empty());
        }
    }

    /// Clears the entries and installs `listener` in place of any previous
    /// one.
    pub fn reset_with_listener(&mut self, listener: L)
        ensures
            final(self).logs() == Seq::<LogView>::empty(),
            final(self).observer() == Some(listener),
    {
        self.entries.clear();
        self.listener = Some(listener);
        proof {
            assert(self.logs() =~= Seq::<LogView>::empty());
        }
    }

    /// Appends an entry at the end of the store; if a listener is installed,
    /// it is then handed a copy of the entry, so that it is notified exactly
    /// once per appended entry, in insertion order.
    pub fn append(&mut self, entry: Log)
        ensures
            final(self).logs() == old(self).logs().push(entry@),
            match old(self).observer() {
                None => final(self).observer() is None,
                Some(l) => match final(self).observer() {
                    Some(m) => m.notified() == l.notified().push(entry@),
                    None => false,
                },
            },
    {
        let ghost v = entry@;
        let copy = entry.duplicate();
        self.entries.push(entry);
        proof {
            assert(self.logs() =~= old(self).logs().push(v));
        }
        let taken = self.listener.take();
        match taken {
            Some(mut l) => {
                l.on_log(copy);
                self.listener = Some(l);
            },
            None => {},
        }
    }

    /// True when some retained entry equals `entry` by value.
    pub fn contains(&self, entry: &Log) -> (r: bool)
        ensures
            r == self.logs().contains(entry@),
    {
        let mut i: usize = 0;
        while i < self.entries.len()
            invariant
                i <= self.entries@.len(),
                forall|j: int| 0 <= j < i ==> self.logs()[j] != entry@,
            decreases self.entries@.len() - i,
        {
            if log_eq(&self.entries[i], entry) {
                proof {
                    assert(self.logs()[i as int] == entry@);
                    assert(self.logs().contains(entry@));
                }
                return true;
            }
            i += 1;
        }
        false
    }

    /// Removes the first retained entry equal to `entry` by value. The
    /// caller must know such an entry is present: removing an entry that is
    /// absent is a contract violation.
    pub fn remove(&mut self, entry: &Log)
        requires
            old(self).logs().contains(entry@),
        ensures
            final(self).logs() == old(self).logs().remove(
                old(self).logs().index_of_first(entry@).unwrap(),
            ),
            final(self).observer() == old(self).observer(),
    {
        let ghost target = entry@;
        proof {
            old(self).logs().index_of_first_ensures(target);
        }
        let mut i: usize = 0;
        while i < self.entries.len()
            invariant
                *self == *old(self),
                i <= self.entries@.len(),
                forall|j: int| 0 <= j < i ==> self.logs()[j] != target,
                self.logs().contains(target),
                target == entry@,
            decreases self.entries@.len() - i,
        {
            if log_eq(&self.entries[i], entry) {
                proof {
                    let s = old(self).logs();
                    s.index_of_first_ensures(target);
                    assert(s[i as int] == target);
                    assert(s.index_of_first(target) is Some);
                    let fi = s.index_of_first(target).unwrap();
                    assert(s[fi] == target);
                    assert(fi >= i as int);
                    assert(forall|j: int| 0 <= j < fi ==> s[j] != target);
                    assert(fi == i as int);
                }
                self.entries.remove(i);
                proof {
                    assert(self.logs() =~= old(self).logs().remove(i as int));
                }
                return;
            }
            i += 1;
        }
        proof {
            assert(false);
        }
    }

    /// Returns, in insertion order, a copy of every retained entry that both
    /// filters admit.
    pub fn query(&self, min_level: Option<LogLevel>, channels: &Option<Vec<String>>) -> (r: Vec<
        Log,
    >)
        ensures
            r@.map_values(|l: Log| l@) == self.logs().filter(
                |e: LogView| spec_passes(e, min_level, channels.deep_view()),
            ),
    {
        let ghost pred = |e: LogView| spec_passes(e, min_level, channels.deep_view());
        let mut out: Vec<Log> = Vec::new();
        proof {
            assert(out@.map_values(|l: Log| l@) =~= self.logs().take(0).filter(pred));
        }
        let mut i: usize = 0;
        while i < self.entries.len()
            invariant
                i <= self.entries@.len(),
                out@.map_values(|l: Log| l@) == self.logs().take(i as int).filter(pred),
                pred == (|e: LogView| spec_passes(e, min_level, channels.deep_view())),
            decreases self.entries@.len() - i,
        {
            let log = &self.entries[i];
            proof {
                assert(self.logs()[i as int] == log@);
            }
            let level_ok = match min_level {
                None => true,
                Some(m) => log.level.is_at_least(m),
            };
            let channel_ok = match channels {
                None => true,
                Some(cs) => contains_string(cs, &log.channel),
            };
            let ghost prev = out@;
            if level_ok && channel_ok {
                out.push(log.duplicate());
            }
            proof {
                let s = self.logs();
                assert(level_ok == spec_level_allowed(min_level, s[i as int].level));
                assert(channel_ok == spec_channel_allowed(
                    channels.deep_view(),
                    s[i as int].channel,
                ));
                assert((level_ok && channel_ok) == pred(s[i as int]));
                assert(s.take(i + 1) =~= s.take(i as int).push(s[i as int]));
                lemma_filter_push(s.take(i as int), pred, s[i as int]);
                if pred(s[i as int]) {
                    assert(out@.map_values(|l: Log| l@) =~= prev.map_values(|l: Log| l@).push(
                        s[i as int],
                    ));
                }
            }
            i += 1;
        }
        proof {
            assert(self.logs().take(self.entries@.len() as int) =~= self.logs());
        }
        out
    }
}

/// True when some string in `list` equals `s` by contents.
fn contains_string(list: &Vec<String>, s: &String) -> (r: bool)
    ensures
        r == list.deep_view().contains(s@),
{
    let mut i: usize = 0;
    while i < list.len()
        invariant
            i <= list@.len(),
            forall|j: int| 0 <= j < i ==> list.deep_view()[j] != s@,
        decreases list@.len() - i,
    {
        if list[i] == *s {
            proof {
                assert(list.deep_view()[i as int] == s@);
            }
            return true;
        }
        i += 1;
    }
    false
}

/// Filtering one more element keeps the filtered prefix and appends the
/// element exactly when the predicate admits it.
pub(crate) proof fn lemma_filter_push<A>(s: Seq<A>, pred: spec_fn(A) -> bool, x: A)
    ensures
        s.push(x).filter(pred) == (if pred(x) {
            s.filter(pred).push(x)
        } else {
            s.filter(pred)
        }),
{
    reveal(Seq::filter);
    assert(s.push(x).drop_last() =~= s);
    assert(s.push(x).last() == x);
}

impl Log {
    /// Removes this previously-appended entry from the store: the first
    /// retained entry equal to it by value. Removing an entry that is no
    /// longer present is a contract violation.
    pub fn remove<L: LogListener>(&self, store: &mut LogStore<L>)
        requires
            old(store).logs().contains(self@),
        ensures
            final(store).logs() == old(store).logs().remove(
                old(store).logs().index_of_first(self@).unwrap(),
            ),
            final(store).observer() == old(store).observer(),
    {
        store.remove(self);
    }
}

/// Appending an entry and then removing it by value takes out the first
/// equal occurrence, which exists; a store that held no equal entry is
/// restored exactly, and then holds no equal entry for a further removal.
pub proof fn lemma_append_then_remove(logs: Seq<LogView>, entry: LogView)
    ensures
        logs.push(entry).contains(entry),
        logs.push(entry).index_of_first(entry) is Some,
        !logs.contains(entry) ==> logs.push(entry).remove(
            logs.push(entry).index_of_first(entry).unwrap(),
        ) == logs,
        !logs.contains(entry) ==> !logs.push(entry).remove(
            logs.push(entry).index_of_first(entry).unwrap(),
        ).contains(entry),
{
    let pushed = logs.push(entry);
    assert(pushed[logs.len() as int] == entry);
    assert(pushed.contains(entry));
    pushed.index_of_first_ensures(entry);
    if !logs.contains(entry) {
        let first = pushed.index_of_first(entry).unwrap();
        assert(forall|j: int| 0 <= j < logs.len() ==> pushed[j] == logs[j]);
        assert(forall|j: int| 0 <= j < logs.len() ==> !(logs[j] == entry)) by {
            assert(forall|j: int| 0 <= j < logs.len() && logs[j] == entry ==> logs.contains(
                entry,
            ));
        }
        assert(first == logs.len() as int);
        assert(pushed.remove(first) =~= logs);
    }
}

} // verus!
