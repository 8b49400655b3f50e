//! The consensus log: entries at consecutive indexes from 1, with terms that
//! never decrease.
use crate::state_machine::{Entry, LogId};
use vstd::prelude::*;

verus! {

/// The log is well formed: the entry at position `i` has index `i + 1`, and
/// terms never decrease along it.
pub open spec fn log_wf(s: Seq<Entry>) -> bool {
    &&& forall|i: int| 0 <= i < s.len() ==> #[trigger] s[i].log_id.index == i + 1
    &&& forall|i: int, j: int|
        0 <= i <= j < s.len() ==> #[trigger] s[i].log_id.term <= #[trigger] s[j].log_id.term
}

/// The id of the last entry of a log.
pub open spec fn last_id(s: Seq<Entry>) -> Option<LogId> {
    if s.len() == 0 {
        None
    } else {
        Some(s.last().log_id)
    }
}

/// The term of the entry at `index`, if the log holds one there.
pub open spec fn term_at_spec(s: Seq<Entry>, index: u64) -> Option<u64> {
    if 1 <= index <= s.len() {
        Some(s[index - 1].log_id.term)
    } else {
        None
    }
}

/// Append-only log of consensus entries.
pub struct LogStore {
    pub entries: Vec<Entry>,
}

impl LogStore {
    pub open spec fn wf(self) -> bool {
        log_wf(self.entries@)
    }

    pub fn new() -> (r: LogStore)
        ensures
            r.wf(),
            r.entries@.len() == 0,
    {
        LogStore { entries: Vec::new() }
    }

    /// The id of the last entry, used to compare logs in elections.
    pub fn last_log_id(&self) -> (r: Option<LogId>)
        ensures
            r == last_id(self.entries@),
    {
        if self.entries.len() == 0 {
            None
        } else {
            Some(self.entries[self.entries.len() - 1].log_id)
        }
    }

    /// The term of the entry at `index`.
    pub fn term_at(&self, index: u64) -> (r: Option<u64>)
        requires
            self.wf(),
        ensures
            r == term_at_spec(self.entries@, index),
    {
        if 1 <= index && index as u128 <= self.entries.len() as u128 {
            Some(self.entries[(index - 1) as usize].log_id.term)
        } else {
            None
        }
    }

    /// Appends an entry at the tail.
    pub fn append(&mut self, entry: Entry)
        requires
            old(self).wf(),
            entry.log_id.index == old(self).entries@.len() + 1,
            old(self).entries@.len() > 0 ==> old(self).entries@.last().log_id.term
                <= entry.log_id.term,
        ensures
            final(self).wf(),
            final(self).entries@ == old(self).entries@.push(entry),
    {
        self.entries.push(entry);
    }

    /// Removes the entries at `index` and after it.
    pub fn truncate(&mut self, index: u64)
        requires
            old(self).wf(),
            index >= 1,
        ensures
            final(self).wf(),
            index - 1 < old(self).entries@.len() ==> final(self).entries@ == old(
                self,
            ).entries@.subrange(0, index - 1),
            index - 1 >= old(self).entries@.len() ==> final(self).entries@ == old(self).entries@,
    {
        if ((index - 1) as u128) < self.entries.len() as u128 {
            self.entries.truncate((index - 1) as usize);
        }
    }

    /// The entries with indexes in `start..end`.
    pub fn get_log_entries(&self, start: u64, end: u64) -> (r: Vec<Entry>)
        requires
            self.wf(),
            1 <= start <= end <= self.entries@.len() + 1,
        ensures
            r@.map_values(|e: Entry| e@) == self.entries@.subrange(start - 1, end - 1).map_values(
                |e: Entry| e@,
            ),
    {
        let _n = self.entries.len();
        let lo: usize = (start - 1) as usize;
        let hi: usize = (end - 1) as usize;
        assert(lo == start - 1 && hi == end - 1);
        let mut r: Vec<Entry> = Vec::new();
        let mut i: usize = lo;
        while i < hi
            invariant
                lo <= i <= hi,
                hi <= self.entries@.len(),
                lo == start - 1,
                hi == end - 1,
                r@.len() == i - lo,
                forall|k: int| 0 <= k < r@.len() ==> #[trigger] r@[k]@ == self.entries@[lo + k]@,
            decreases hi - i,
        {
            r.push(self.entries[i].duplicate());
            i = i + 1;
        }
        assert(r@.map_values(|e: Entry| e@) =~= self.entries@.subrange(
            start - 1,
            end - 1,
        ).map_values(|e: Entry| e@));
        r
    }
}

} // verus!
