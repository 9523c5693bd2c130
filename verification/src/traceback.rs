//! Tracebacks: ordered snapshots of queried entries, rendered as a report.

use vstd::prelude::*;
use vstd::string::StringExecFns;

use crate::entry::{spec_display, Log, LogView};
use crate::level::LogLevel;
use crate::store::{
    lemma_filter_push, spec_channel_allowed, spec_level_allowed, spec_passes, LogListener,
    LogStore,
};

verus! {

/// A traceback of logs: the ordered snapshot of entries a query returned.
pub struct Traceback(pub Vec<Log>);

impl View for Traceback {
    type V = Seq<LogView>;

    open spec fn view(&self) -> Seq<LogView> {
        self.0@.map_values(|l: Log| l@)
    }
}

/// The rendered report: each entry's canonical form followed by a newline,
/// in the snapshot's order. An empty snapshot renders to empty text.
pub open spec fn spec_render(entries: Seq<LogView>) -> Seq<char>
    decreases entries.len(),
{
    if entries.len() == 0 {
        Seq::empty()
    } else {
        spec_render(entries.drop_last()) + spec_display(entries.last()) + "\n"@
    }
}

impl Traceback {
    /// Converts the traceback to its report string.
    pub fn to_string(&self) -> (r: String)
        ensures
            r@ == spec_render(self@),
    {
        let mut out = String::new();
        let mut i: usize = 0;
        while i < self.0.len()
            invariant
                i <= self.0@.len(),
                out@ == spec_render(self@.take(i as int)),
            decreases self.0@.len() - i,
        {
            let line = self.0[i].display();
            out.append(line.as_str());
            out.append("\n");
            proof {
                assert(self@.take(i + 1).drop_last() =~= self@.take(i as int));
                assert(self@.take(i + 1).last() == self@[i as int]);
                assert(self@[i as int] == self.0@[i as int]@);
                assert(out@ =~= spec_render(self@.take(i + 1)));
            }
            i += 1;
        }
        proof {
            assert(self@.take(self.0@.len() as int) =~= self@);
        }
        out
    }
}

/// Retrieves a traceback of the entries that pass the given filters, in
/// insertion order: every retained entry whose severity is at least
/// `min_level` (when given) and whose channel is one of `channels` (when
/// given).
pub fn get_logs_traceback<L: LogListener>(
    store: &LogStore<L>,
    min_level: Option<LogLevel>,
    channels: Option<Vec<String>>,
) -> (r: Traceback)
    ensures
        r@ == store.logs().filter(
            |e: LogView| spec_passes(e, min_level, channels.deep_view()),
        ),
{
    let logs = store.query(min_level, &channels);
    Traceback(logs)
}

/// A query with neither filter keeps every entry: the unfiltered traceback
/// reproduces the whole store, in insertion order.
pub proof fn lemma_unfiltered_query_keeps_all(logs: Seq<LogView>)
    ensures
        logs.filter(|e: LogView| spec_passes(e, None, None)) == logs,
    decreases logs.len(),
{
    reveal(Seq::filter);
    let pred = |e: LogView| spec_passes(e, None, None);
    if logs.len() == 0 {
        assert(logs.filter(pred) =~= logs);
    } else {
        lemma_unfiltered_query_keeps_all(logs.drop_last());
        assert(logs.filter(pred) =~= logs);
    }
}

/// Filtering is conjunctive: a query with both a level threshold and a
/// channel set keeps exactly the entries kept by the level filter alone and
/// then by the channel filter alone.
pub proof fn lemma_filter_conjunctive(
    logs: Seq<LogView>,
    min_level: LogLevel,
    channels: Seq<Seq<char>>,
)
    ensures
        logs.filter(|e: LogView| spec_passes(e, Some(min_level), Some(channels))) == logs.filter(
            |e: LogView| spec_level_allowed(Some(min_level), e.level),
        ).filter(|e: LogView| spec_channel_allowed(Some(channels), e.channel)),
    decreases logs.len(),
{
    reveal(Seq::filter);
    let both = |e: LogView| spec_passes(e, Some(min_level), Some(channels));
    let by_level = |e: LogView| spec_level_allowed(Some(min_level), e.level);
    let by_channel = |e: LogView| spec_channel_allowed(Some(channels), e.channel);
    if logs.len() == 0 {
        assert(logs.filter(both) =~= logs.filter(by_level).filter(by_channel));
    } else {
        let prefix = logs.drop_last();
        let last = logs.last();
        lemma_filter_conjunctive(prefix, min_level, channels);
        assert(logs =~= prefix.push(last));
        lemma_filter_push(prefix, both, last);
        lemma_filter_push(prefix, by_level, last);
        if by_level(last) {
            lemma_filter_push(prefix.filter(by_level), by_channel, last);
        }
    }
}

/// An empty store renders to empty text under any query: whatever the
/// filters, nothing passes them and the report is empty.
pub proof fn lemma_empty_store_renders_empty(
    min_level: Option<LogLevel>,
    channels: Option<Seq<Seq<char>>>,
)
    ensures
        spec_render(
            Seq::<LogView>::empty().filter(|e: LogView| spec_passes(e, min_level, channels)),
        ) == Seq::<char>::empty(),
{
    reveal(Seq::filter);
    let pred = |e: LogView| spec_passes(e, min_level, channels);
    assert(Seq::<LogView>::empty().filter(pred) =~= Seq::<LogView>::empty());
}

} // verus!
