//! The four kinds of record that the ledger keeps.

use vstd::prelude::*;
use crate::address::Address;

verus! {

/// A group with one admin, a count of approved members and a count of polls.
#[derive(Clone, Debug, PartialEq, Eq)]
pub struct Community {
    pub admin: Address,
    pub name: String,
    pub description: String,
    pub member_count: u64,
    pub total_polls: u64,
    pub bump: u8,
}

/// What a `Community` holds.
pub struct CommunityView {
    pub admin: Address,
    pub name: Seq<char>,
    pub description: Seq<char>,
    pub member_count: u64,
    pub total_polls: u64,
    pub bump: u8,
}

impl View for Community {
    type V = CommunityView;

    open spec fn view(&self) -> CommunityView {
        CommunityView {
            admin: self.admin,
            name: self.name@,
            description: self.description@,
            member_count: self.member_count,
            total_polls: self.total_polls,
            bump: self.bump,
        }
    }
}

impl CommunityView {
    /// The community with one approved member more.
    pub open spec fn with_member(self) -> CommunityView {
        CommunityView { member_count: (self.member_count + 1) as u64, ..self }
    }

    /// The community with one poll more.
    pub open spec fn with_poll(self) -> CommunityView {
        CommunityView { total_polls: (self.total_polls + 1) as u64, ..self }
    }
}

impl Community {
    /// A community without members or polls.
    pub fn new(admin: Address, name: String, description: String, bump: u8) -> (r: Community)
        ensures
            r@ == (CommunityView {
                admin,
                name: name@,
                description: description@,
                member_count: 0,
                total_polls: 0,
                bump,
            }),
    {
        Community { admin, name, description, member_count: 0, total_polls: 0, bump }
    }

    /// Counts one more approved member.
    pub fn add_member(&mut self)
        requires
            old(self).member_count < u64::MAX,
        ensures
            final(self)@ == old(self)@.with_member(),
    {
        self.member_count = self.member_count + 1;
    }

    /// Counts one more poll.
    pub fn add_poll(&mut self)
        requires
            old(self).total_polls < u64::MAX,
        ensures
            final(self)@ == old(self)@.with_poll(),
    {
        self.total_polls = self.total_polls + 1;
    }
}

/// The relation of one member to one community, pending or approved.
#[derive(Clone, Copy, Debug, PartialEq, Eq)]
pub struct Membership {
    pub community: Address,
    pub member: Address,
    pub is_approved: bool,
    pub joined_at: i64,
    pub bump: u8,
}

impl Membership {
    /// A pending membership.
    pub fn new(community: Address, member: Address, joined_at: i64, bump: u8) -> (r: Membership)
        ensures
            r == (Membership { community, member, is_approved: false, joined_at, bump }),
    {
        Membership { community, member, is_approved: false, joined_at, bump }
    }

    /// The membership once approved.
    pub open spec fn approved(self) -> Membership {
        Membership { is_approved: true, ..self }
    }

    /// Approves the membership. Nothing takes an approval back.
    pub fn approve(&mut self)
        ensures
            *final(self) == old(self).approved(),
    {
        self.is_approved = true;
    }
}

/// The sum of the counts.
pub open spec fn sum(counts: Seq<u64>) -> int
    decreases counts.len(),
{
    if counts.len() == 0 {
        0
    } else {
        sum(counts.drop_last()) + counts.last()
    }
}

/// `n` counts of zero.
pub open spec fn zeros(n: nat) -> Seq<u64> {
    Seq::new(n, |i: int| 0u64)
}

/// Counts of zero sum to zero.
pub proof fn lemma_sum_zeros(n: nat)
    ensures
        sum(zeros(n)) == 0,
    decreases n,
{
    if n > 0 {
        assert(zeros(n).drop_last() =~= zeros((n - 1) as nat));
        lemma_sum_zeros((n - 1) as nat);
    }
}

/// Replacing one count changes the sum by the difference.
pub proof fn lemma_sum_update(counts: Seq<u64>, k: int, v: u64)
    requires
        0 <= k < counts.len(),
    ensures
        sum(counts.update(k, v)) == sum(counts) - counts[k] + v,
    decreases counts.len(),
{
    let after = counts.update(k, v);
    if k == counts.len() - 1 {
        assert(after.drop_last() =~= counts.drop_last());
    } else {
        assert(after.drop_last() =~= counts.drop_last().update(k, v));
        lemma_sum_update(counts.drop_last(), k, v);
    }
}

/// No count is more than the sum.
pub proof fn lemma_sum_bounds(counts: Seq<u64>, k: int)
    requires
        0 <= k < counts.len(),
    ensures
        0 <= counts[k] <= sum(counts),
        0 <= sum(counts),
    decreases counts.len(),
{
    lemma_sum_nonnegative(counts.drop_last());
    if k < counts.len() - 1 {
        lemma_sum_bounds(counts.drop_last(), k);
    }
}

/// A sum of counts is not negative.
pub proof fn lemma_sum_nonnegative(counts: Seq<u64>)
    ensures
        0 <= sum(counts),
    decreases counts.len(),
{
    if counts.len() > 0 {
        lemma_sum_nonnegative(counts.drop_last());
    }
}

/// The texts of a vector of strings.
pub open spec fn texts(strings: Seq<String>) -> Seq<Seq<char>> {
    Seq::new(strings.len(), |i: int| strings[i]@)
}

/// A question put to a community, with two to four options and a count of
/// the votes for each.
#[derive(Clone, Debug, PartialEq, Eq)]
pub struct Poll {
    pub community: Address,
    pub creator: Address,
    pub question: String,
    pub options: Vec<String>,
    pub vote_counts: Vec<u64>,
    pub end_time: i64,
    pub total_votes: u64,
    pub is_active: bool,
    pub bump: u8,
}

/// What a `Poll` holds.
pub struct PollView {
    pub community: Address,
    pub creator: Address,
    pub question: Seq<char>,
    pub options: Seq<Seq<char>>,
    pub vote_counts: Seq<u64>,
    pub end_time: i64,
    pub total_votes: u64,
    pub is_active: bool,
    pub bump: u8,
}

impl View for Poll {
    type V = PollView;

    open spec fn view(&self) -> PollView {
        PollView {
            community: self.community,
            creator: self.creator,
            question: self.question@,
            options: texts(self.options@),
            vote_counts: self.vote_counts@,
            end_time: self.end_time,
            total_votes: self.total_votes,
            is_active: self.is_active,
            bump: self.bump,
        }
    }
}

/// The fewest options a poll has.
pub const MIN_OPTIONS: usize = 2;

/// The most options a poll has.
pub const MAX_OPTIONS: usize = 4;

impl PollView {
    /// Two to four options, a count for each, and their sum as the total.
    pub open spec fn wf(self) -> bool {
        &&& MIN_OPTIONS <= self.options.len() <= MAX_OPTIONS
        &&& self.vote_counts.len() == self.options.len()
        &&& self.total_votes == sum(self.vote_counts)
    }

    /// The poll with one vote more for option `k`.
    pub open spec fn with_vote(self, k: int) -> PollView {
        PollView {
            vote_counts: self.vote_counts.update(k, (self.vote_counts[k] + 1) as u64),
            total_votes: (self.total_votes + 1) as u64,
            ..self
        }
    }

    /// The poll once closed.
    pub open spec fn closed(self) -> PollView {
        PollView { is_active: false, ..self }
    }
}

/// Counting a vote keeps the total equal to the sum of the counts.
pub proof fn lemma_with_vote_wf(poll: PollView, k: int)
    requires
        poll.wf(),
        0 <= k < poll.options.len(),
        poll.total_votes < u64::MAX,
    ensures
        poll.with_vote(k).wf(),
        poll.vote_counts[k] < u64::MAX,
{
    lemma_sum_bounds(poll.vote_counts, k);
    lemma_sum_update(poll.vote_counts, k, (poll.vote_counts[k] + 1) as u64);
}

impl Poll {
    /// An open poll without votes.
    pub fn new(
        community: Address,
        creator: Address,
        question: String,
        options: Vec<String>,
        end_time: i64,
        bump: u8,
    ) -> (r: Poll)
        requires
            MIN_OPTIONS <= options@.len() <= MAX_OPTIONS,
        ensures
            r@ == (PollView {
                community,
                creator,
                question: question@,
                options: texts(options@),
                vote_counts: zeros(options@.len()),
                end_time,
                total_votes: 0,
                is_active: true,
                bump,
            }),
            r@.wf(),
    {
        let mut vote_counts: Vec<u64> = Vec::new();
        let mut i: usize = 0;
        while i < options.len()
            invariant
                0 <= i <= options@.len(),
                vote_counts@ =~= zeros(i as nat),
            decreases options@.len() - i,
        {
            vote_counts.push(0);
            i = i + 1;
        }
        proof {
            lemma_sum_zeros(options@.len());
        }
        Poll {
            community,
            creator,
            question,
            options,
            vote_counts,
            end_time,
            total_votes: 0,
            is_active: true,
            bump,
        }
    }

    /// Whether the poll has two to four options, a count for each, and
    /// their sum as its total.
    pub fn is_valid(&self) -> (r: bool)
        ensures
            r == self@.wf(),
    {
        let n = self.options.len();
        if n < MIN_OPTIONS || n > MAX_OPTIONS || self.vote_counts.len() != n {
            return false;
        }
        let mut total: u128 = 0;
        let mut i: usize = 0;
        while i < n
            invariant
                0 <= i <= n == self.vote_counts@.len() <= MAX_OPTIONS,
                total == sum(self.vote_counts@.take(i as int)),
                total <= i * u64::MAX,
            decreases n - i,
        {
            proof {
                let longer = self.vote_counts@.take(i + 1);
                assert(longer.drop_last() =~= self.vote_counts@.take(i as int));
            }
            total = total + self.vote_counts[i] as u128;
            i = i + 1;
        }
        assert(self.vote_counts@.take(n as int) =~= self.vote_counts@);
        total == self.total_votes as u128
    }

    /// Counts one vote for the option at `option_index`.
    pub fn record_vote(&mut self, option_index: u8)
        requires
            old(self)@.wf(),
            option_index < old(self)@.options.len(),
            old(self).total_votes < u64::MAX,
        ensures
            final(self)@ == old(self)@.with_vote(option_index as int),
            final(self)@.wf(),
    {
        proof {
            lemma_with_vote_wf(self@, option_index as int);
        }
        let k: usize = option_index as usize;
        self.vote_counts[k] = self.vote_counts[k] + 1;
        self.total_votes = self.total_votes + 1;
    }

    /// Closes the poll. Nothing opens a closed poll again.
    pub fn close(&mut self)
        ensures
            final(self)@ == old(self)@.closed(),
    {
        self.is_active = false;
    }
}

/// The choice of one voter on one poll.
#[derive(Clone, Copy, Debug, PartialEq, Eq)]
pub struct Vote {
    pub poll: Address,
    pub voter: Address,
    pub option_index: u8,
    pub voted_at: i64,
    pub bump: u8,
}

impl Vote {
    /// A vote for the option at `option_index`.
    pub fn new(poll: Address, voter: Address, option_index: u8, voted_at: i64, bump: u8) -> (r:
        Vote)
        ensures
            r == (Vote { poll, voter, option_index, voted_at, bump }),
    {
        Vote { poll, voter, option_index, voted_at, bump }
    }
}

} // verus!
