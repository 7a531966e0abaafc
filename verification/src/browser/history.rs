//! Browsing history: the most recent visits, oldest first, bounded in size.
use vstd::prelude::*;
use crate::time::Timestamp;

verus! {

/// One visit.
#[derive(Debug, Clone)]
pub struct HistoryEntry {
    pub url: String,
    pub title: String,
    pub visited_at: Timestamp,
}

/// The last `max_entries` visits, oldest first.
pub struct BrowserHistory {
    entries: Vec<HistoryEntry>,
    max_entries: usize,
}

/// The history after recording `e`: `e` appended, then the oldest entry
/// dropped when that makes the list longer than `max`.
pub open spec fn history_after(h: Seq<HistoryEntry>, e: HistoryEntry, max: nat) -> Seq<HistoryEntry> {
    if h.len() + 1 > max {
        h.push(e).drop_first()
    } else {
        h.push(e)
    }
}

impl BrowserHistory {
    /// The history never exceeds its bound, except by the one entry that a
    /// bound of zero leaves room for before it is dropped.
    #[verifier::type_invariant]
    spec fn wf(&self) -> bool {
        self.entries@.len() <= self.max_entries
    }

    /// The visits, oldest first.
    pub closed spec fn view(&self) -> Seq<HistoryEntry> {
        self.entries@
    }

    /// Most visits kept.
    pub closed spec fn max_entries(&self) -> nat {
        self.max_entries as nat
    }

    /// An empty history keeping at most `max_entries` visits.
    pub fn new(max_entries: usize) -> (r: Self)
        ensures
            r@ == Seq::<HistoryEntry>::empty(),
            r.max_entries() == max_entries,
    {
        BrowserHistory { entries: Vec::new(), max_entries }
    }

    /// Records a visit to `url` titled `title` at `visited_at` (the
    /// caller reads the clock): the visit is appended, and the oldest one
    /// dropped when that makes the history longer than its bound.
    pub fn add(&mut self, url: &str, title: &str, visited_at: Timestamp)
        ensures
            final(self).max_entries() == old(self).max_entries(),
            final(self)@ == history_after(old(self)@, final(self)@.last(), old(self).max_entries()),
            final(self)@.len() > 0 ==> final(self)@.last().url@ == url@ && final(self)@.last().title@ == title@
                && final(self)@.last().visited_at == visited_at,
            final(self)@.len() <= final(self).max_entries(),
    {
        proof { use_type_invariant(&*self); }
        let entry = HistoryEntry {
            url: crate::text::owned(url),
            title: crate::text::owned(title),
            visited_at,
        };
        let ghost e = entry;
        let mut entries: Vec<HistoryEntry> = Vec::new();
        std::mem::swap(&mut entries, &mut self.entries);
        entries.push(entry);
        if entries.len() > self.max_entries {
            entries.remove(0);
            assert(entries@ =~= old(self).entries@.push(e).drop_first());
        }
        self.entries = entries;
        assert(self.entries@.len() > 0 ==> self.entries@.last() == e);
    }

    /// The visits, oldest first.
    pub fn list(&self) -> (r: &[HistoryEntry])
        ensures
            r@ == self@,
    {
        self.entries.as_slice()
    }
}

impl Default for BrowserHistory {
    /// A history of the last hundred visits.
    fn default() -> (r: Self)
        ensures
            r@ == Seq::<HistoryEntry>::empty(),
            r.max_entries() == 100,
    {
        Self::new(100)
    }
}

/// Recording a visit keeps the newest visits: the new one comes last, the
/// ones before it are the latest of the earlier history in their order,
/// and no more than the bound are kept.
pub proof fn lemma_history_keeps_newest(h: Seq<HistoryEntry>, e: HistoryEntry, max: nat)
    requires
        0 < max,
        h.len() <= max,
    ensures
        history_after(h, e, max).len() == (if h.len() < max { (h.len() + 1) as nat } else { max }),
        history_after(h, e, max).last() == e,
        history_after(h, e, max).drop_last() == h.skip(h.len() + 1 - history_after(h, e, max).len()),
{
    let r = history_after(h, e, max);
    assert(r.drop_last() =~= h.skip(h.len() + 1 - r.len()));
}

} // verus!
