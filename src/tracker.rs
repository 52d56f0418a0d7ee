//! Bearing histories of every tracked contact, looked up by contact id.
use vstd::prelude::*;
use crate::angle::is_normalized;
use crate::history::{BearingHistory, BearingRecord, records_wf, pruned};

verus! {

/// Why a tracker operation was refused.
#[derive(Clone, Copy, Debug, PartialEq, Eq, Structural)]
pub enum TrackError {
    /// No history is registered under the id.
    UnknownContact,
    /// A history is already registered under the id.
    DuplicateContact,
}

/// The history of one contact.
pub struct ContactHistory {
    pub id: u32,
    pub history: BearingHistory,
}

pub open spec fn entry_view(e: ContactHistory) -> (u32, Seq<BearingRecord>) {
    (e.id, e.history@)
}

/// Whether some entry of `v` has the id.
pub open spec fn has_contact(v: Seq<(u32, Seq<BearingRecord>)>, id: u32) -> bool {
    exists|i: int| 0 <= i < v.len() && (#[trigger] v[i]).0 == id
}

pub open spec fn unique_ids(v: Seq<(u32, Seq<BearingRecord>)>) -> bool {
    forall|i: int, j: int| 0 <= i < v.len() && 0 <= j < v.len() && i != j ==> (#[trigger] v[i]).0 != (#[trigger] v[j]).0
}

/// Bearing histories keyed by contact id, in order of registration.
pub struct BearingTracker {
    entries: Vec<ContactHistory>,
}

impl View for BearingTracker {
    type V = Seq<(u32, Seq<BearingRecord>)>;

    closed spec fn view(&self) -> Seq<(u32, Seq<BearingRecord>)> {
        self.entries@.map_values(|e: ContactHistory| entry_view(e))
    }
}

impl BearingTracker {
    /// Ids are unique and every history is well formed.
    pub open spec fn wf(&self) -> bool {
        &&& unique_ids(self@)
        &&& forall|i: int| 0 <= i < self@.len() ==> records_wf(#[trigger] self@[i].1)
    }

    /// A tracker with no contacts.
    pub fn new() -> (r: BearingTracker)
        ensures
            r@ == Seq::<(u32, Seq<BearingRecord>)>::empty(),
            r.wf(),
    {
        let r = BearingTracker { entries: Vec::new() };
        assert(r@ =~= Seq::<(u32, Seq<BearingRecord>)>::empty());
        r
    }

    /// The entries, in order of registration.
    pub fn entries(&self) -> (r: &Vec<ContactHistory>)
        ensures
            r@.map_values(|e: ContactHistory| entry_view(e)) == self@,
    {
        &self.entries
    }

    /// Position of the entry with the id, if any.
    pub fn find(&self, id: u32) -> (r: Option<usize>)
        ensures
            match r {
                Some(i) => i < self@.len() && self@[i as int].0 == id,
                None => !has_contact(self@, id),
            },
    {
        let mut i: usize = 0;
        while i < self.entries.len()
            invariant
                i <= self@.len(),
                self@.len() == self.entries@.len(),
                forall|k: int| 0 <= k < i ==> (#[trigger] self@[k]).0 != id,
            decreases self.entries.len() - i,
        {
            if self.entries[i].id == id {
                return Some(i);
            }
            i = i + 1;
        }
        None
    }

    /// The history of the contact with the id, if one is registered.
    pub fn history(&self, id: u32) -> (r: Option<&BearingHistory>)
        ensures
            r is None <==> !has_contact(self@, id),
            r matches Some(h) ==> exists|i: int| 0 <= i < self@.len()
                && (#[trigger] self@[i]).0 == id && self@[i].1 == h@,
    {
        match self.find(id) {
            Some(i) => {
                assert(self@[i as int] == entry_view(self.entries@[i as int]));
                Some(&self.entries[i].history)
            },
            None => None,
        }
    }

    /// Starts an empty history for a new contact.
    pub fn register(&mut self, id: u32) -> (r: Result<(), TrackError>)
        requires
            old(self).wf(),
        ensures
            final(self).wf(),
            r is Err <==> has_contact(old(self)@, id),
            r matches Err(e) ==> e == TrackError::DuplicateContact && final(self)@ == old(self)@,
            r is Ok ==> final(self)@ == old(self)@.push((id, Seq::<BearingRecord>::empty())),
    {
        match self.find(id) {
            Some(_) => Err(TrackError::DuplicateContact),
            None => {
                let h = BearingHistory::new();
                self.entries.push(ContactHistory { id, history: h });
                assert(self@ =~= old(self)@.push((id, Seq::<BearingRecord>::empty())));
                Ok(())
            },
        }
    }

    /// Appends a sample to the contact's history.
    pub fn record(&mut self, id: u32, timestamp: u64, relative_bearing: i64) -> (r: Result<(), TrackError>)
        requires
            old(self).wf(),
            is_normalized(relative_bearing as int),
            forall|i: int| 0 <= i < old(self)@.len() && (#[trigger] old(self)@[i]).0 == id
                ==> old(self)@[i].1.len() == 0 || old(self)@[i].1.last().timestamp <= timestamp,
        ensures
            final(self).wf(),
            r is Err <==> !has_contact(old(self)@, id),
            r matches Err(e) ==> e == TrackError::UnknownContact && final(self)@ == old(self)@,
            r is Ok ==> final(self)@.len() == old(self)@.len(),
            r is Ok ==> forall|i: int| 0 <= i < old(self)@.len() ==> #[trigger] final(self)@[i] == if old(self)@[i].0 == id {
                (id, old(self)@[i].1.push(BearingRecord { timestamp, relative_bearing }))
            } else {
                old(self)@[i]
            },
    {
        match self.find(id) {
            None => Err(TrackError::UnknownContact),
            Some(i) => {
                assert(old(self)@[i as int] == entry_view(old(self).entries@[i as int]));
                assert(records_wf(old(self)@[i as int].1));
                self.entries[i].history.record(timestamp, relative_bearing);
                proof {
                    assert forall|k: int| 0 <= k < old(self)@.len() implies #[trigger] self@[k] == if old(self)@[k].0 == id {
                        (id, old(self)@[k].1.push(BearingRecord { timestamp, relative_bearing }))
                    } else {
                        old(self)@[k]
                    } by {
                        assert(self@[k] == entry_view(self.entries@[k]));
                        assert(old(self)@[k] == entry_view(old(self).entries@[k]));
                        if k != i {
                            assert(old(self)@[k].0 != old(self)@[i as int].0);
                        }
                    }
                }
                Ok(())
            },
        }
    }

    /// Drops the leading samples of the contact's history that are older
    /// than `window` at `now`.
    pub fn prune(&mut self, id: u32, now: u64, window: u64) -> (r: Result<(), TrackError>)
        requires
            old(self).wf(),
        ensures
            final(self).wf(),
            r is Err <==> !has_contact(old(self)@, id),
            r matches Err(e) ==> e == TrackError::UnknownContact && final(self)@ == old(self)@,
            r is Ok ==> final(self)@.len() == old(self)@.len(),
            r is Ok ==> forall|i: int| 0 <= i < old(self)@.len() ==> #[trigger] final(self)@[i] == if old(self)@[i].0 == id {
                (id, pruned(old(self)@[i].1, now, window))
            } else {
                old(self)@[i]
            },
    {
        match self.find(id) {
            None => Err(TrackError::UnknownContact),
            Some(i) => {
                assert(old(self)@[i as int] == entry_view(old(self).entries@[i as int]));
                assert(records_wf(old(self)@[i as int].1));
                self.entries[i].history.prune(now, window);
                proof {
                    assert forall|k: int| 0 <= k < old(self)@.len() implies #[trigger] self@[k] == if old(self)@[k].0 == id {
                        (id, pruned(old(self)@[k].1, now, window))
                    } else {
                        old(self)@[k]
                    } by {
                        assert(self@[k] == entry_view(self.entries@[k]));
                        assert(old(self)@[k] == entry_view(old(self).entries@[k]));
                        if k != i {
                            assert(old(self)@[k].0 != old(self)@[i as int].0);
                        }
                    }
                }
                Ok(())
            },
        }
    }
}

} // verus!
