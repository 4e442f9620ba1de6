//! The ledger as a mathematical value: the records in the order of their
//! creation, each under its address, and what holds of them in every state
//! that the transitions reach.

use vstd::prelude::*;
use crate::address::community_slot;
use crate::address::membership_slot;
use crate::address::poll_slot;
use crate::address::vote_slot;
use crate::address::Address;
use crate::guard::approved_member_of;
use crate::state::CommunityView;
use crate::state::Membership;
use crate::state::PollView;
use crate::state::Vote;

verus! {

/// What a record holds.
pub enum RecordView {
    Community(CommunityView),
    Membership(Membership),
    Poll(PollView),
    Vote(Vote),
}

/// A record under its address.
pub struct EntryView {
    pub address: Address,
    pub record: RecordView,
}

/// What a ledger holds: the program that its addresses are derived under,
/// and its records, oldest first.
pub struct LedgerView {
    pub program_id: Address,
    pub entries: Seq<EntryView>,
}

/// Holds of the approved memberships in `community`.
pub open spec fn approved_in(community: Address) -> spec_fn(RecordView) -> bool {
    |r: RecordView| r matches RecordView::Membership(m) && m.community == community && m.is_approved
}

/// Holds of the polls of `community`.
pub open spec fn poll_in(community: Address) -> spec_fn(RecordView) -> bool {
    |r: RecordView| r matches RecordView::Poll(p) && p.community == community
}

/// Holds of the votes on `poll`.
pub open spec fn vote_on(poll: Address) -> spec_fn(RecordView) -> bool {
    |r: RecordView| r matches RecordView::Vote(v) && v.poll == poll
}

/// Holds of the votes on `poll` for the option at `option`.
pub open spec fn vote_for(poll: Address, option: int) -> spec_fn(RecordView) -> bool {
    |r: RecordView| r matches RecordView::Vote(v) && v.poll == poll && v.option_index == option
}

/// One where the condition holds, else zero.
pub open spec fn one_if(b: bool) -> nat {
    if b {
        1
    } else {
        0
    }
}

/// The number of entries whose record satisfies `p`.
pub open spec fn count(entries: Seq<EntryView>, p: spec_fn(RecordView) -> bool) -> nat
    decreases entries.len(),
{
    if entries.len() == 0 {
        0
    } else {
        count(entries.drop_last(), p) + one_if(p(entries.last().record))
    }
}

/// A new entry counts where its record satisfies `p`.
pub proof fn lemma_count_push(entries: Seq<EntryView>, e: EntryView, p: spec_fn(RecordView) -> bool)
    ensures
        count(entries.push(e), p) == count(entries, p) + one_if(p(e.record)),
{
    assert(entries.push(e).drop_last() =~= entries);
}

/// Replacing an entry changes the count by what the two records contribute.
pub proof fn lemma_count_update(
    entries: Seq<EntryView>,
    i: int,
    e: EntryView,
    p: spec_fn(RecordView) -> bool,
)
    requires
        0 <= i < entries.len(),
    ensures
        count(entries.update(i, e), p) + one_if(p(entries[i].record)) == count(entries, p) + one_if(
            p(e.record),
        ),
    decreases entries.len(),
{
    let after = entries.update(i, e);
    if i == entries.len() - 1 {
        assert(after.drop_last() =~= entries.drop_last());
    } else {
        assert(after.drop_last() =~= entries.drop_last().update(i, e));
        lemma_count_update(entries.drop_last(), i, e, p);
    }
}

/// No more entries satisfy `p` than there are entries.
pub proof fn lemma_count_le(entries: Seq<EntryView>, p: spec_fn(RecordView) -> bool)
    ensures
        count(entries, p) <= entries.len(),
    decreases entries.len(),
{
    if entries.len() > 0 {
        lemma_count_le(entries.drop_last(), p);
    }
}

/// Where no record satisfies `p`, the count is zero.
pub proof fn lemma_count_none(entries: Seq<EntryView>, p: spec_fn(RecordView) -> bool)
    requires
        forall|i: int| 0 <= i < entries.len() ==> !p(#[trigger] entries[i].record),
    ensures
        count(entries, p) == 0,
    decreases entries.len(),
{
    if entries.len() > 0 {
        assert(entries.last() == entries[entries.len() - 1]);
        assert forall|i: int| 0 <= i < entries.drop_last().len() implies !p(
            #[trigger] entries.drop_last()[i].record,
        ) by {
            assert(entries.drop_last()[i] == entries[i]);
        }
        lemma_count_none(entries.drop_last(), p);
    }
}

impl LedgerView {
    /// The entry at position `i` is under address `a`.
    pub open spec fn occupies(self, i: int, a: Address) -> bool {
        0 <= i < self.entries.len() && self.entries[i].address == a
    }

    /// There is a record under `a`.
    pub open spec fn contains(self, a: Address) -> bool {
        exists|i: int| self.occupies(i, a)
    }

    /// The position of the record under `a`.
    pub open spec fn index_of(self, a: Address) -> int {
        choose|i: int| self.occupies(i, a)
    }

    /// The record under `a`.
    pub open spec fn get(self, a: Address) -> RecordView {
        self.entries[self.index_of(a)].record
    }

    /// The record under `a`, if there is one.
    pub open spec fn lookup(self, a: Address) -> Option<RecordView> {
        if self.contains(a) {
            Some(self.get(a))
        } else {
            None
        }
    }

    /// The community under `a`, if there is one.
    pub open spec fn community_at(self, a: Address) -> Option<CommunityView> {
        match self.lookup(a) {
            Some(RecordView::Community(c)) => Some(c),
            _ => None,
        }
    }

    /// The membership under `a`, if there is one.
    pub open spec fn membership_at(self, a: Address) -> Option<Membership> {
        match self.lookup(a) {
            Some(RecordView::Membership(m)) => Some(m),
            _ => None,
        }
    }

    /// The poll under `a`, if there is one.
    pub open spec fn poll_at(self, a: Address) -> Option<PollView> {
        match self.lookup(a) {
            Some(RecordView::Poll(p)) => Some(p),
            _ => None,
        }
    }

    /// The vote under `a`, if there is one.
    pub open spec fn vote_at(self, a: Address) -> Option<Vote> {
        match self.lookup(a) {
            Some(RecordView::Vote(v)) => Some(v),
            _ => None,
        }
    }

    /// The number of approved memberships in `community`.
    pub open spec fn approved_members(self, community: Address) -> nat {
        count(self.entries, approved_in(community))
    }

    /// The number of polls of `community`.
    pub open spec fn polls_of(self, community: Address) -> nat {
        count(self.entries, poll_in(community))
    }

    /// The number of votes on `poll`.
    pub open spec fn votes_on(self, poll: Address) -> nat {
        count(self.entries, vote_on(poll))
    }

    /// The number of votes on `poll` for the option at `option`.
    pub open spec fn votes_for(self, poll: Address, option: int) -> nat {
        count(self.entries, vote_for(poll, option))
    }

    /// The ledger with a new record `r` under `a`.
    pub open spec fn created(self, a: Address, r: RecordView) -> LedgerView {
        LedgerView { entries: self.entries.push(EntryView { address: a, record: r }), ..self }
    }

    /// The ledger with `r` in place of the record at position `i`.
    pub open spec fn put(self, i: int, r: RecordView) -> LedgerView {
        LedgerView {
            entries: self.entries.update(
                i,
                EntryView { address: self.entries[i].address, record: r },
            ),
            ..self
        }
    }

    /// The ledger with `r` in place of the record under `a`.
    pub open spec fn replaced(self, a: Address, r: RecordView) -> LedgerView {
        self.put(self.index_of(a), r)
    }

    /// No two records are under one address.
    pub open spec fn unique(self) -> bool {
        forall|i: int, j: int|
            0 <= i < j < self.entries.len() ==> #[trigger] self.entries[i].address
                != #[trigger] self.entries[j].address
    }

    /// The record is under the address that its identifying data derive.
    pub open spec fn located(self, a: Address, r: RecordView) -> bool {
        match r {
            RecordView::Community(c) => community_slot(self.program_id, c.name) == Some(
                (a, c.bump),
            ),
            RecordView::Membership(m) => membership_slot(self.program_id, m.community, m.member)
                == Some((a, m.bump)),
            RecordView::Poll(p) => exists|index: u64| #[trigger]
                poll_slot(self.program_id, p.community, index) == Some((a, p.bump)),
            RecordView::Vote(v) => vote_slot(self.program_id, v.poll, v.voter) == Some(
                (a, v.bump),
            ),
        }
    }

    /// `member` has an approved membership in `community`.
    pub open spec fn approved(self, community: Address, member: Address) -> bool {
        membership_slot(self.program_id, community, member) matches Some((a, _))
            && self.membership_at(a) matches Some(m) && approved_member_of(member, community, m)
    }

    /// The record that this one refers to is in the ledger: a membership's
    /// and a poll's community, and a vote's poll with the option voted for;
    /// and who opened the poll or cast the vote is an approved member of
    /// the community.
    pub open spec fn linked(self, r: RecordView) -> bool {
        match r {
            RecordView::Community(c) => true,
            RecordView::Membership(m) => self.community_at(m.community) is Some,
            RecordView::Poll(p) => self.community_at(p.community) is Some && self.approved(
                p.community,
                p.creator,
            ),
            RecordView::Vote(v) => self.poll_at(v.poll) matches Some(p) && v.option_index
                < p.options.len() && self.approved(p.community, v.voter),
        }
    }

    /// The poll of `community` with the given index is in the ledger.
    pub open spec fn has_poll(self, community: Address, index: u64) -> bool {
        poll_slot(self.program_id, community, index) matches Some((a, _)) && self.poll_at(
            a,
        ) matches Some(p) && p.community == community
    }

    /// A community's polls are numbered from zero without a gap, and no two
    /// of its numbers lead to one address.
    pub open spec fn numbered(self, a: Address, r: RecordView) -> bool {
        r matches RecordView::Community(c) ==> {
            &&& forall|k: u64| k < c.total_polls ==> #[trigger] self.has_poll(a, k)
            &&& forall|j: u64, k: u64|
                j < k < c.total_polls ==> #[trigger] poll_slot(self.program_id, a, j).unwrap().0
                    != #[trigger] poll_slot(self.program_id, a, k).unwrap().0
        }
    }

    /// The record's counters count the records that refer to it.
    pub open spec fn counted(self, a: Address, r: RecordView) -> bool {
        match r {
            RecordView::Community(c) => {
                &&& c.member_count == self.approved_members(a)
                &&& c.total_polls == self.polls_of(a)
            },
            RecordView::Poll(p) => {
                &&& p.wf()
                &&& p.total_votes == self.votes_on(a)
                &&& forall|k: int|
                    0 <= k < p.vote_counts.len() ==> p.vote_counts[k] == #[trigger] count(
                        self.entries,
                        vote_for(a, k),
                    )
            },
            _ => true,
        }
    }

    /// All that holds of the record `r` under `a`.
    pub open spec fn sound(self, a: Address, r: RecordView) -> bool {
        &&& self.located(a, r)
        &&& self.linked(r)
        &&& self.counted(a, r)
        &&& self.numbered(a, r)
    }

    /// What holds of every ledger that the transitions reach.
    pub open spec fn wf(self) -> bool {
        &&& self.entries.len() <= usize::MAX
        &&& self.unique()
        &&& forall|a: Address| #[trigger] self.contains(a) ==> self.sound(a, self.get(a))
    }
}

/// The record `t` is what may have become of the record `r`: it is of the
/// same kind and identifies the same thing, no counter in it is smaller, an
/// approved membership is still approved, a closed poll still closed, and a
/// vote unchanged.
pub open spec fn evolves(r: RecordView, t: RecordView) -> bool {
    match r {
        RecordView::Community(c) => {
            &&& t matches RecordView::Community(d)
            &&& d.admin == c.admin
            &&& d.name == c.name
            &&& d.description == c.description
            &&& d.bump == c.bump
            &&& d.member_count >= c.member_count
            &&& d.total_polls >= c.total_polls
        },
        RecordView::Membership(m) => {
            &&& t matches RecordView::Membership(n)
            &&& n.community == m.community
            &&& n.member == m.member
            &&& n.joined_at == m.joined_at
            &&& n.bump == m.bump
            &&& m.is_approved ==> n.is_approved
        },
        RecordView::Poll(p) => {
            &&& t matches RecordView::Poll(q)
            &&& q.community == p.community
            &&& q.creator == p.creator
            &&& q.question == p.question
            &&& q.options == p.options
            &&& q.end_time == p.end_time
            &&& q.bump == p.bump
            &&& q.total_votes >= p.total_votes
            &&& !p.is_active ==> !q.is_active
        },
        RecordView::Vote(v) => t == r,
    }
}

/// The ledger `t` is for the program of `s`, and every record of `s` is in
/// `t` too, under its address and of its kind.
pub open spec fn grows_to(s: LedgerView, t: LedgerView) -> bool {
    &&& s.program_id == t.program_id
    &&& forall|a: Address| #[trigger]
        s.contains(a) ==> t.contains(a) && evolves(s.get(a), t.get(a))
}

/// What a record refers to is still there once the ledger has grown, and
/// so are the polls that a community has numbered.
pub proof fn lemma_kept(s: LedgerView, t: LedgerView, a: Address, r: RecordView)
    requires
        grows_to(s, t),
        s.linked(r),
        s.numbered(a, r),
    ensures
        t.linked(r),
        t.numbered(a, r),
{
    match r {
        RecordView::Community(c) => {
            assert forall|k: u64| k < c.total_polls implies #[trigger] t.has_poll(a, k) by {
                assert(s.has_poll(a, k));
                assert(s.contains(poll_slot(s.program_id, a, k).unwrap().0));
            }
        },
        RecordView::Membership(m) => {
            assert(s.contains(m.community));
        },
        RecordView::Poll(p) => {
            assert(s.contains(p.community));
        },
        RecordView::Vote(v) => {
            assert(s.contains(v.poll));
        },
    }
}

/// In a ledger without duplicates, the entry at a position is the one found
/// under its address.
pub proof fn lemma_index(s: LedgerView, i: int)
    requires
        s.unique(),
        0 <= i < s.entries.len(),
    ensures
        s.contains(s.entries[i].address),
        s.index_of(s.entries[i].address) == i,
        s.get(s.entries[i].address) == s.entries[i].record,
{
    let a = s.entries[i].address;
    assert(s.occupies(i, a));
    let j = s.index_of(a);
    assert(s.occupies(j, a));
    if i < j {
        assert(s.entries[i].address != s.entries[j].address);
    } else if j < i {
        assert(s.entries[j].address != s.entries[i].address);
    }
}

/// What a ledger holds once a record was created under a free address.
pub proof fn lemma_created(s: LedgerView, a0: Address, r0: RecordView)
    requires
        s.unique(),
        !s.contains(a0),
    ensures
        s.created(a0, r0).unique(),
        s.created(a0, r0).index_of(a0) == s.entries.len(),
        forall|a: Address| #[trigger]
            s.created(a0, r0).contains(a) <==> s.contains(a) || a == a0,
        forall|a: Address|
            s.contains(a) ==> #[trigger] s.created(a0, r0).get(a) == s.get(a) && s.created(
                a0,
                r0,
            ).index_of(a) == s.index_of(a),
        s.created(a0, r0).get(a0) == r0,
        forall|p: spec_fn(RecordView) -> bool| #[trigger]
            count(s.created(a0, r0).entries, p) == count(s.entries, p) + one_if(p(r0)),
{
    let t = s.created(a0, r0);
    let n = s.entries.len() as int;
    assert forall|i: int, j: int| 0 <= i < j < t.entries.len() implies #[trigger] t.entries[i].address
        != #[trigger] t.entries[j].address by {
        if j == n {
            assert(!s.occupies(i, a0));
        }
    }
    lemma_index(t, n);
    assert forall|a: Address| #[trigger] t.contains(a) <==> s.contains(a) || a == a0 by {
        if t.contains(a) {
            let i = t.index_of(a);
            assert(t.occupies(i, a));
            if i < n {
                assert(s.occupies(i, a));
            }
        }
        if s.contains(a) {
            assert(t.occupies(s.index_of(a), a));
        }
        if a == a0 {
            assert(t.occupies(n, a));
        }
    }
    assert forall|a: Address| s.contains(a) implies #[trigger] t.get(a) == s.get(a) && t.index_of(
        a,
    ) == s.index_of(a) by {
        let i = s.index_of(a);
        assert(s.occupies(i, a));
        lemma_index(t, i);
    }
    assert forall|p: spec_fn(RecordView) -> bool| #[trigger]
        count(t.entries, p) == count(s.entries, p) + one_if(p(r0)) by {
        lemma_count_push(s.entries, EntryView { address: a0, record: r0 }, p);
    }
}

/// What a ledger holds once the record at a position was replaced.
pub proof fn lemma_put(s: LedgerView, i: int, r0: RecordView)
    requires
        s.unique(),
        0 <= i < s.entries.len(),
    ensures
        s.put(i, r0).unique(),
        s.put(i, r0) == s.replaced(s.entries[i].address, r0),
        forall|a: Address| #[trigger] s.put(i, r0).contains(a) <==> s.contains(a),
        forall|a: Address|
            s.contains(a) ==> s.put(i, r0).index_of(a) == s.index_of(a) && #[trigger] s.put(
                i,
                r0,
            ).get(a) == (if a == s.entries[i].address {
                r0
            } else {
                s.get(a)
            }),
        forall|p: spec_fn(RecordView) -> bool| #[trigger]
            count(s.put(i, r0).entries, p) + one_if(p(s.entries[i].record)) == count(s.entries, p)
                + one_if(p(r0)),
{
    let t = s.put(i, r0);
    let a0 = s.entries[i].address;
    lemma_index(s, i);
    assert forall|j: int, k: int| 0 <= j < k < t.entries.len() implies #[trigger] t.entries[j].address
        != #[trigger] t.entries[k].address by {
        assert(t.entries[j].address == s.entries[j].address);
        assert(t.entries[k].address == s.entries[k].address);
    }
    assert forall|a: Address| #[trigger] t.contains(a) <==> s.contains(a) by {
        if t.contains(a) {
            let j = t.index_of(a);
            assert(t.occupies(j, a));
            assert(s.occupies(j, a));
        }
        if s.contains(a) {
            let j = s.index_of(a);
            assert(s.occupies(j, a));
            assert(t.occupies(j, a));
        }
    }
    assert forall|a: Address| s.contains(a) implies t.index_of(a) == s.index_of(a) && #[trigger] t.get(
        a,
    ) == (if a == a0 {
        r0
    } else {
        s.get(a)
    }) by {
        let j = s.index_of(a);
        assert(s.occupies(j, a));
        assert(t.entries[j].address == a);
        lemma_index(t, j);
        lemma_index(s, j);
    }
    assert forall|p: spec_fn(RecordView) -> bool| #[trigger]
        count(t.entries, p) + one_if(p(s.entries[i].record)) == count(s.entries, p) + one_if(
            p(r0),
        ) by {
        lemma_count_update(s.entries, i, EntryView { address: a0, record: r0 }, p);
    }
}

/// What a ledger holds once the record under an address was replaced.
pub proof fn lemma_replaced(s: LedgerView, a0: Address, r0: RecordView)
    requires
        s.unique(),
        s.contains(a0),
    ensures
        s.replaced(a0, r0).unique(),
        forall|a: Address| #[trigger] s.replaced(a0, r0).contains(a) <==> s.contains(a),
        forall|a: Address|
            s.contains(a) ==> s.replaced(a0, r0).index_of(a) == s.index_of(a) && #[trigger] s.replaced(
                a0,
                r0,
            ).get(a) == (if a == a0 {
                r0
            } else {
                s.get(a)
            }),
        forall|p: spec_fn(RecordView) -> bool| #[trigger]
            count(s.replaced(a0, r0).entries, p) + one_if(p(s.get(a0))) == count(s.entries, p)
                + one_if(p(r0)),
{
    let i = s.index_of(a0);
    assert(s.occupies(i, a0));
    lemma_put(s, i, r0);
}

/// Where no record in the ledger satisfies `p`, the count is zero.
pub proof fn lemma_none(s: LedgerView, p: spec_fn(RecordView) -> bool)
    requires
        s.unique(),
        forall|a: Address| #[trigger] s.contains(a) ==> !p(s.get(a)),
    ensures
        count(s.entries, p) == 0,
{
    assert forall|i: int| 0 <= i < s.entries.len() implies !p(#[trigger] s.entries[i].record) by {
        lemma_index(s, i);
        assert(s.contains(s.entries[i].address));
    }
    lemma_count_none(s.entries, p);
}

} // verus!
