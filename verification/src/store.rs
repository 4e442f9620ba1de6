//! The ledger's records in memory: creating a record under a free address,
//! finding the record under an address, and changing a record in place.

use vstd::prelude::*;
use crate::address::Address;
use crate::model::lemma_index;
use crate::model::EntryView;
use crate::model::LedgerView;
use crate::model::RecordView;
use crate::state::Community;
use crate::state::Membership;
use crate::state::Poll;
use crate::state::Vote;

verus! {

/// A record of one of the four kinds.
#[derive(Clone, Debug, PartialEq, Eq)]
pub enum Record {
    Community(Community),
    Membership(Membership),
    Poll(Poll),
    Vote(Vote),
}

impl View for Record {
    type V = RecordView;

    open spec fn view(&self) -> RecordView {
        match self {
            Record::Community(c) => RecordView::Community(c@),
            Record::Membership(m) => RecordView::Membership(*m),
            Record::Poll(p) => RecordView::Poll(p@),
            Record::Vote(v) => RecordView::Vote(*v),
        }
    }
}

/// A record under its address.
#[derive(Clone, Debug, PartialEq, Eq)]
pub struct Entry {
    pub address: Address,
    pub record: Record,
}

impl View for Entry {
    type V = EntryView;

    open spec fn view(&self) -> EntryView {
        EntryView { address: self.address, record: self.record@ }
    }
}

/// What a sequence of entries holds.
pub open spec fn entry_views(entries: Seq<Entry>) -> Seq<EntryView> {
    Seq::new(entries.len(), |i: int| entries[i]@)
}

/// The records of one program, each under its own address. Records are
/// created and changed, never removed.
#[derive(Clone, Debug, PartialEq, Eq)]
pub struct Ledger {
    program_id: Address,
    entries: Vec<Entry>,
}

impl View for Ledger {
    type V = LedgerView;

    closed spec fn view(&self) -> LedgerView {
        LedgerView { program_id: self.program_id, entries: entry_views(self.entries@) }
    }
}

impl Ledger {
    /// What holds of every ledger that the transitions reach.
    pub open spec fn wf(&self) -> bool {
        self@.wf()
    }

    /// A ledger without records, for addresses derived under `program_id`.
    pub fn new(program_id: Address) -> (r: Ledger)
        ensures
            r@ == (LedgerView { program_id, entries: Seq::empty() }),
            r.wf(),
    {
        let r = Ledger { program_id, entries: Vec::new() };
        proof {
            assert(r@.entries =~= Seq::empty());
            assert(r@.unique());
            assert forall|a: Address| !#[trigger] r@.contains(a) by {
                if r@.contains(a) {
                    assert(r@.occupies(r@.index_of(a), a));
                }
            }
        }
        r
    }

    /// The program that the ledger's addresses are derived under.
    pub fn program_id(&self) -> (r: Address)
        ensures
            r == self@.program_id,
    {
        self.program_id
    }

    /// The number of records.
    pub fn len(&self) -> (r: usize)
        ensures
            r == self@.entries.len(),
    {
        self.entries.len()
    }

    /// The position of the record under `a`, if there is one.
    pub(crate) fn find(&self, a: &Address) -> (r: Option<usize>)
        ensures
            match r {
                Some(i) => self@.occupies(i as int, *a),
                None => !self@.contains(*a),
            },
    {
        let mut i: usize = 0;
        while i < self.entries.len()
            invariant
                0 <= i <= self.entries@.len(),
                forall|j: int| 0 <= j < i ==> !self@.occupies(j, *a),
            decreases self.entries@.len() - i,
        {
            if self.entries[i].address.same(a) {
                return Some(i);
            }
            i = i + 1;
        }
        None
    }

    /// The record at position `i`.
    pub(crate) fn record(&self, i: usize) -> (r: &Record)
        requires
            i < self@.entries.len(),
        ensures
            r@ == self@.entries[i as int].record,
    {
        &self.entries[i].record
    }

    /// Whether there is a record under `a`.
    pub fn contains(&self, a: &Address) -> (r: bool)
        ensures
            r == self@.contains(*a),
    {
        let found = self.find(a);
        found.is_some()
    }

    /// The record under `a`, if there is one.
    pub fn get(&self, a: &Address) -> (r: Option<&Record>)
        requires
            self.wf(),
        ensures
            match r {
                Some(record) => self@.lookup(*a) == Some(record@),
                None => self@.lookup(*a) is None,
            },
    {
        match self.find(a) {
            Some(i) => {
                proof {
                    lemma_index(self@, i as int);
                }
                Some(self.record(i))
            },
            None => None,
        }
    }

    /// The community under `a`, if there is one.
    pub fn community(&self, a: &Address) -> (r: Option<&Community>)
        requires
            self.wf(),
        ensures
            match r {
                Some(c) => self@.community_at(*a) == Some(c@),
                None => self@.community_at(*a) is None,
            },
    {
        match self.get(a) {
            Some(Record::Community(c)) => Some(c),
            _ => None,
        }
    }

    /// The membership under `a`, if there is one.
    pub fn membership(&self, a: &Address) -> (r: Option<&Membership>)
        requires
            self.wf(),
        ensures
            match r {
                Some(m) => self@.membership_at(*a) == Some(*m),
                None => self@.membership_at(*a) is None,
            },
    {
        match self.get(a) {
            Some(Record::Membership(m)) => Some(m),
            _ => None,
        }
    }

    /// The poll under `a`, if there is one.
    pub fn poll(&self, a: &Address) -> (r: Option<&Poll>)
        requires
            self.wf(),
        ensures
            match r {
                Some(p) => self@.poll_at(*a) == Some(p@),
                None => self@.poll_at(*a) is None,
            },
    {
        match self.get(a) {
            Some(Record::Poll(p)) => Some(p),
            _ => None,
        }
    }

    /// The vote under `a`, if there is one.
    pub fn vote(&self, a: &Address) -> (r: Option<&Vote>)
        requires
            self.wf(),
        ensures
            match r {
                Some(v) => self@.vote_at(*a) == Some(*v),
                None => self@.vote_at(*a) is None,
            },
    {
        match self.get(a) {
            Some(Record::Vote(v)) => Some(v),
            _ => None,
        }
    }

    /// Puts a new record under `a`.
    pub(crate) fn create(&mut self, a: Address, record: Record)
        ensures
            final(self)@ == old(self)@.created(a, record@),
            final(self)@.entries.len() <= usize::MAX,
    {
        self.entries.push(Entry { address: a, record });
        assert(self@.entries =~= old(self)@.created(a, record@).entries);
        assert(self.entries@.len() == self.entries.len());
    }

    /// Approves the membership at position `i`.
    pub(crate) fn approve_at(&mut self, i: usize)
        requires
            i < old(self)@.entries.len(),
            old(self)@.entries[i as int].record is Membership,
        ensures
            final(self)@ == old(self)@.put(
                i as int,
                RecordView::Membership(old(self)@.entries[i as int].record->Membership_0.approved()),
            ),
    {
        match &mut self.entries[i].record {
            Record::Membership(m) => {
                m.approve();
            },
            _ => {},
        }
        assert(self@.entries =~= old(self)@.put(
            i as int,
            RecordView::Membership(old(self)@.entries[i as int].record->Membership_0.approved()),
        ).entries);
    }

    /// Counts one more approved member in the community at position `i`.
    pub(crate) fn add_member_at(&mut self, i: usize)
        requires
            i < old(self)@.entries.len(),
            old(self)@.entries[i as int].record is Community,
            old(self)@.entries[i as int].record->Community_0.member_count < u64::MAX,
        ensures
            final(self)@ == old(self)@.put(
                i as int,
                RecordView::Community(old(self)@.entries[i as int].record->Community_0.with_member()),
            ),
    {
        match &mut self.entries[i].record {
            Record::Community(c) => {
                c.add_member();
            },
            _ => {},
        }
        assert(self@.entries =~= old(self)@.put(
            i as int,
            RecordView::Community(old(self)@.entries[i as int].record->Community_0.with_member()),
        ).entries);
    }

    /// Counts one more poll in the community at position `i`.
    pub(crate) fn add_poll_at(&mut self, i: usize)
        requires
            i < old(self)@.entries.len(),
            old(self)@.entries[i as int].record is Community,
            old(self)@.entries[i as int].record->Community_0.total_polls < u64::MAX,
        ensures
            final(self)@ == old(self)@.put(
                i as int,
                RecordView::Community(old(self)@.entries[i as int].record->Community_0.with_poll()),
            ),
    {
        match &mut self.entries[i].record {
            Record::Community(c) => {
                c.add_poll();
            },
            _ => {},
        }
        assert(self@.entries =~= old(self)@.put(
            i as int,
            RecordView::Community(old(self)@.entries[i as int].record->Community_0.with_poll()),
        ).entries);
    }

    /// Counts one vote for an option of the poll at position `i`.
    pub(crate) fn record_vote_at(&mut self, i: usize, option_index: u8)
        requires
            i < old(self)@.entries.len(),
            old(self)@.entries[i as int].record is Poll,
            old(self)@.entries[i as int].record->Poll_0.wf(),
            option_index < old(self)@.entries[i as int].record->Poll_0.options.len(),
            old(self)@.entries[i as int].record->Poll_0.total_votes < u64::MAX,
        ensures
            final(self)@ == old(self)@.put(
                i as int,
                RecordView::Poll(
                    old(self)@.entries[i as int].record->Poll_0.with_vote(option_index as int),
                ),
            ),
    {
        match &mut self.entries[i].record {
            Record::Poll(p) => {
                p.record_vote(option_index);
            },
            _ => {},
        }
        assert(self@.entries =~= old(self)@.put(
            i as int,
            RecordView::Poll(
                old(self)@.entries[i as int].record->Poll_0.with_vote(option_index as int),
            ),
        ).entries);
    }

    /// Closes the poll at position `i`.
    pub(crate) fn close_at(&mut self, i: usize)
        requires
            i < old(self)@.entries.len(),
            old(self)@.entries[i as int].record is Poll,
        ensures
            final(self)@ == old(self)@.put(
                i as int,
                RecordView::Poll(old(self)@.entries[i as int].record->Poll_0.closed()),
            ),
    {
        match &mut self.entries[i].record {
            Record::Poll(p) => {
                p.close();
            },
            _ => {},
        }
        assert(self@.entries =~= old(self)@.put(
            i as int,
            RecordView::Poll(old(self)@.entries[i as int].record->Poll_0.closed()),
        ).entries);
    }
}

} // verus!
