//! What holds of the ledger in every state and over every sequence of
//! transitions.

use vstd::prelude::*;
use crate::address::membership_slot;
use crate::address::poll_slot;
use crate::address::vote_slot;
use crate::address::Address;
use crate::error::CommunityError;
use crate::model::evolves;
use crate::model::grows_to;
use crate::model::lemma_created;
use crate::model::lemma_replaced;
use crate::model::LedgerView;
use crate::model::RecordView;
use crate::rules::vote_check;
use crate::state::sum;
use crate::state::Membership;
use crate::state::Vote;
use crate::transitions::approve_membership_effect;
use crate::transitions::approve_membership_result;
use crate::transitions::cast_vote_effect;
use crate::transitions::cast_vote_result;
use crate::transitions::close_poll_effect;
use crate::transitions::close_poll_result;
use crate::transitions::join_community_effect;
use crate::transitions::join_community_result;
use crate::transitions::lemma_approve_membership_wf;
use crate::transitions::ApproveMembership;
use crate::transitions::CastVote;
use crate::transitions::ClosePoll;
use crate::transitions::JoinCommunity;

verus! {

/// A ledger that has grown and grown again has grown.
pub proof fn lemma_grows_transitive(s: LedgerView, t: LedgerView, u: LedgerView)
    requires
        grows_to(s, t),
        grows_to(t, u),
    ensures
        grows_to(s, u),
{
    assert forall|a: Address| #[trigger] s.contains(a) implies u.contains(a) && evolves(
        s.get(a),
        u.get(a),
    ) by {
        assert(t.contains(a));
    }
}

/// A community's member count is the number of approved memberships in it,
/// and its poll count the number of its polls.
pub proof fn lemma_community_counts(s: LedgerView, community: Address)
    requires
        s.wf(),
        s.community_at(community) is Some,
    ensures
        s.community_at(community).unwrap().member_count == s.approved_members(community),
        s.community_at(community).unwrap().total_polls == s.polls_of(community),
{
    assert(s.contains(community));
    assert(s.sound(community, s.get(community)));
}

/// An accepted approval counts one member more, and the same membership is
/// not approved a second time, however the ledger has grown since: a second
/// approval by the admin is rejected with `AlreadyExists`.
pub proof fn lemma_approved_once(s: LedgerView, ctx: ApproveMembership, later: LedgerView)
    requires
        s.wf(),
        approve_membership_result(s, ctx) is Ok,
        grows_to(approve_membership_effect(s, ctx), later),
    ensures
        approve_membership_effect(s, ctx).approved_members(ctx.community) == s.approved_members(
            ctx.community,
        ) + 1,
        approve_membership_result(later, ctx) is Err,
        later.community_at(ctx.community) is Some,
        later.membership_at(ctx.membership) is Some,
        later.community_at(ctx.community).unwrap().admin == ctx.admin
            ==> approve_membership_result(later, ctx) == Err::<(), CommunityError>(
            CommunityError::AlreadyExists,
        ),
{
    let t = approve_membership_effect(s, ctx);
    let community = s.community_at(ctx.community).unwrap();
    let membership = s.membership_at(ctx.membership).unwrap();
    lemma_approve_membership_wf(s, ctx);
    lemma_community_counts(s, ctx.community);
    let s1 = s.replaced(ctx.membership, RecordView::Membership(membership.approved()));
    lemma_replaced(s, ctx.membership, RecordView::Membership(membership.approved()));
    assert(s1.contains(ctx.community));
    lemma_replaced(s1, ctx.community, RecordView::Community(community.with_member()));
    assert(t.contains(ctx.community));
    assert(t.contains(ctx.membership));
    lemma_community_counts(t, ctx.community);
}

/// No name has two communities.
pub proof fn lemma_one_community_per_name(s: LedgerView, a: Address, b: Address)
    requires
        s.wf(),
        s.community_at(a) is Some,
        s.community_at(b) is Some,
        s.community_at(a).unwrap().name == s.community_at(b).unwrap().name,
    ensures
        a == b,
{
    assert(s.contains(a));
    assert(s.contains(b));
    assert(s.sound(a, s.get(a)));
    assert(s.sound(b, s.get(b)));
}

/// A community's polls are numbered from zero without a gap: under each
/// number below the community's poll count there is a poll of the
/// community, and two numbers never lead to one poll.
pub proof fn lemma_polls_numbered(s: LedgerView, community: Address, j: u64, k: u64)
    requires
        s.wf(),
        s.community_at(community) is Some,
        j < k < s.community_at(community).unwrap().total_polls,
    ensures
        s.has_poll(community, j),
        s.has_poll(community, k),
        poll_slot(s.program_id, community, j).unwrap().0 != poll_slot(
            s.program_id,
            community,
            k,
        ).unwrap().0,
{
    assert(s.contains(community));
    assert(s.sound(community, s.get(community)));
}

/// A poll's total is the sum of its counts and the number of votes recorded
/// on it, and each count is the number of votes recorded for its option.
pub proof fn lemma_poll_counts(s: LedgerView, poll: Address)
    requires
        s.wf(),
        s.poll_at(poll) is Some,
    ensures
        s.poll_at(poll).unwrap().total_votes == sum(s.poll_at(poll).unwrap().vote_counts),
        s.poll_at(poll).unwrap().total_votes == s.votes_on(poll),
        forall|k: int|
            0 <= k < s.poll_at(poll).unwrap().vote_counts.len() ==> s.poll_at(
                poll,
            ).unwrap().vote_counts[k] == #[trigger] s.votes_for(poll, k),
{
    assert(s.contains(poll));
    assert(s.sound(poll, s.get(poll)));
}

/// Every vote is on a poll of the ledger, for one of the poll's options, and
/// by a voter with an approved membership in the poll's community; and
/// every poll was opened by such a member.
pub proof fn lemma_cast_and_opened_by_approved_members(s: LedgerView, a: Address)
    requires
        s.wf(),
    ensures
        s.vote_at(a) matches Some(v) ==> s.poll_at(v.poll) matches Some(p) && v.option_index
            < p.options.len() && s.approved(p.community, v.voter),
        s.poll_at(a) matches Some(p) ==> s.community_at(p.community) is Some && s.approved(
            p.community,
            p.creator,
        ),
        s.membership_at(a) matches Some(m) ==> s.community_at(m.community) is Some,
{
    if s.contains(a) {
        assert(s.sound(a, s.get(a)));
    }
}

/// No voter has two votes on one poll.
pub proof fn lemma_one_vote_per_voter(s: LedgerView, a: Address, b: Address)
    requires
        s.wf(),
        s.vote_at(a) is Some,
        s.vote_at(b) is Some,
        s.vote_at(a).unwrap().poll == s.vote_at(b).unwrap().poll,
        s.vote_at(a).unwrap().voter == s.vote_at(b).unwrap().voter,
    ensures
        a == b,
{
    assert(s.contains(a));
    assert(s.contains(b));
    assert(s.sound(a, s.get(a)));
    assert(s.sound(b, s.get(b)));
}

/// Once a voter's vote on a poll was accepted, no further vote of that
/// voter on that poll is, however the ledger has grown since and whatever
/// the option: where nothing else is wrong with it, it is rejected with
/// `AlreadyExists`.
pub proof fn lemma_vote_once(
    s: LedgerView,
    ctx: CastVote,
    option_index: u8,
    now: i64,
    later: LedgerView,
    again: CastVote,
    other_index: u8,
    then: i64,
)
    requires
        s.wf(),
        s.entries.len() < usize::MAX,
        cast_vote_result(s, ctx, option_index, now) is Ok,
        grows_to(cast_vote_effect(s, ctx, option_index, now), later),
        again.poll == ctx.poll,
        again.voter == ctx.voter,
    ensures
        cast_vote_result(later, again, other_index, then) is Err,
        later.poll_at(ctx.poll) is Some,
        vote_check(
            again.voter,
            later.poll_at(ctx.poll).unwrap(),
            later.membership_at(again.membership),
            other_index,
            then,
        ) is Ok ==> cast_vote_result(later, again, other_index, then) == Err::<(), CommunityError>(
            CommunityError::AlreadyExists,
        ),
{
    let t = cast_vote_effect(s, ctx, option_index, now);
    let (a, bump) = vote_slot(s.program_id, ctx.poll, ctx.voter).unwrap();
    let vote = RecordView::Vote(
        Vote { poll: ctx.poll, voter: ctx.voter, option_index, voted_at: now, bump },
    );
    let s1 = s.created(a, vote);
    lemma_created(s, a, vote);
    assert(s1.contains(ctx.poll));
    lemma_replaced(
        s1,
        ctx.poll,
        RecordView::Poll(s.poll_at(ctx.poll).unwrap().with_vote(option_index as int)),
    );
    assert(s1.contains(a));
    assert(t.contains(a));
    assert(t.contains(ctx.poll));
    assert(later.contains(a));
    assert(later.contains(ctx.poll));
}

/// No member has two memberships in one community.
pub proof fn lemma_one_membership_per_member(s: LedgerView, a: Address, b: Address)
    requires
        s.wf(),
        s.membership_at(a) is Some,
        s.membership_at(b) is Some,
        s.membership_at(a).unwrap().community == s.membership_at(b).unwrap().community,
        s.membership_at(a).unwrap().member == s.membership_at(b).unwrap().member,
    ensures
        a == b,
{
    assert(s.contains(a));
    assert(s.contains(b));
    assert(s.sound(a, s.get(a)));
    assert(s.sound(b, s.get(b)));
}

/// Once a caller has joined a community, the same caller does not join it
/// again, however the ledger has grown since: the request is rejected with
/// `AlreadyExists`.
pub proof fn lemma_join_once(s: LedgerView, ctx: JoinCommunity, now: i64, later: LedgerView)
    requires
        s.wf(),
        s.entries.len() < usize::MAX,
        join_community_result(s, ctx) is Ok,
        grows_to(join_community_effect(s, ctx, now), later),
    ensures
        join_community_result(later, ctx) == Err::<(), CommunityError>(
            CommunityError::AlreadyExists,
        ),
{
    let t = join_community_effect(s, ctx, now);
    let (a, bump) = membership_slot(s.program_id, ctx.community, ctx.member).unwrap();
    let membership = RecordView::Membership(
        Membership {
            community: ctx.community,
            member: ctx.member,
            is_approved: false,
            joined_at: now,
            bump,
        },
    );
    lemma_created(s, a, membership);
    assert(s.contains(ctx.community));
    assert(t.contains(a));
    assert(t.contains(ctx.community));
    assert(later.contains(a));
    assert(later.contains(ctx.community));
}

/// Closing a poll a second time succeeds and changes nothing, whether the
/// creator or the admin closes it.
pub proof fn lemma_close_twice(s: LedgerView, ctx: ClosePoll, again: ClosePoll)
    requires
        s.wf(),
        close_poll_result(s, ctx) is Ok,
        again.poll == ctx.poll,
        close_poll_result(s, again) is Ok,
    ensures
        close_poll_result(close_poll_effect(s, ctx), again) is Ok,
        close_poll_effect(close_poll_effect(s, ctx), again) == close_poll_effect(s, ctx),
        !close_poll_effect(s, ctx).poll_at(ctx.poll).unwrap().is_active,
{
    let t = close_poll_effect(s, ctx);
    let closed = RecordView::Poll(s.poll_at(ctx.poll).unwrap().closed());
    lemma_replaced(s, ctx.poll, closed);
    assert(t.contains(ctx.poll));
    assert(s.contains(again.community));
    assert(t.contains(again.community));
    assert(t.get(ctx.poll) == closed);
    let i = t.index_of(ctx.poll);
    assert(t.occupies(i, ctx.poll));
    let u = close_poll_effect(t, again);
    assert(u.entries =~= t.entries);
}

/// A closed poll takes no more votes, however the ledger has grown since
/// and whether or not its end time has passed: a vote on it is rejected
/// with `PollNotActive`.
pub proof fn lemma_closed_poll_takes_no_votes(
    s: LedgerView,
    ctx: ClosePoll,
    later: LedgerView,
    vote: CastVote,
    option_index: u8,
    now: i64,
)
    requires
        s.wf(),
        close_poll_result(s, ctx) is Ok,
        grows_to(close_poll_effect(s, ctx), later),
        vote.poll == ctx.poll,
    ensures
        cast_vote_result(later, vote, option_index, now) == Err::<(), CommunityError>(
            CommunityError::PollNotActive,
        ),
{
    let t = close_poll_effect(s, ctx);
    let closed = RecordView::Poll(s.poll_at(ctx.poll).unwrap().closed());
    lemma_replaced(s, ctx.poll, closed);
    assert(t.contains(ctx.poll));
    assert(later.contains(ctx.poll));
}

} // verus!
