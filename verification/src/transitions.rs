//! The six transitions of the ledger. Each one checks the caller's request
//! against the records as they are, and then either changes the ledger as
//! a whole or rejects the request and changes nothing.

use vstd::prelude::*;
use crate::address::community_address;
use crate::address::community_slot;
use crate::address::membership_address;
use crate::address::membership_slot;
use crate::address::poll_address;
use crate::address::poll_slot;
use crate::address::vote_address;
use crate::address::vote_slot;
use crate::address::Address;
use crate::error::CommunityError;
use crate::model::approved_in;
use crate::model::count;
use crate::model::evolves;
use crate::model::grows_to;
use crate::model::lemma_count_le;
use crate::model::lemma_created;
use crate::model::lemma_index;
use crate::model::lemma_kept;
use crate::model::lemma_none;
use crate::model::lemma_put;
use crate::model::lemma_replaced;
use crate::model::poll_in;
use crate::model::vote_for;
use crate::model::vote_on;
use crate::model::LedgerView;
use crate::model::RecordView;
use crate::rules::approval_check;
use crate::rules::check_approval;
use crate::rules::check_close;
use crate::rules::check_new_poll;
use crate::rules::check_vote;
use crate::rules::close_check;
use crate::rules::new_poll;
use crate::rules::new_poll_check;
use crate::rules::vote_check;
use crate::state::lemma_sum_zeros;
use crate::state::lemma_with_vote_wf;
use crate::state::texts;
use crate::state::Community;
use crate::state::CommunityView;
use crate::state::Membership;
use crate::state::Poll;
use crate::state::Vote;
use crate::store::Ledger;
use crate::store::Record;

verus! {

/// A request to found a community: the caller, who becomes its admin.
#[derive(Clone, Copy, Debug, PartialEq, Eq)]
pub struct InitializeCommunity {
    pub admin: Address,
}

/// A request to join: the community and the caller, who becomes a pending
/// member.
#[derive(Clone, Copy, Debug, PartialEq, Eq)]
pub struct JoinCommunity {
    pub community: Address,
    pub member: Address,
}

/// A request to approve a membership: the community, the membership and the
/// caller, who must be the community's admin.
#[derive(Clone, Copy, Debug, PartialEq, Eq)]
pub struct ApproveMembership {
    pub community: Address,
    pub membership: Address,
    pub admin: Address,
}

/// A request to open a poll: the community, the caller's membership and the
/// caller.
#[derive(Clone, Copy, Debug, PartialEq, Eq)]
pub struct CreatePoll {
    pub community: Address,
    pub membership: Address,
    pub creator: Address,
}

/// A request to vote: the poll, the voter's membership and the voter.
#[derive(Clone, Copy, Debug, PartialEq, Eq)]
pub struct CastVote {
    pub poll: Address,
    pub membership: Address,
    pub voter: Address,
}

/// A request to close a poll: the poll, a community and the caller, who must
/// be the poll's creator or that community's admin.
#[derive(Clone, Copy, Debug, PartialEq, Eq)]
pub struct ClosePoll {
    pub poll: Address,
    pub community: Address,
    pub authority: Address,
}

/// Whether a record can be created in the given slot: there is an address,
/// and nothing is under it.
pub open spec fn free_slot(s: LedgerView, slot: Option<(Address, u8)>) -> Result<
    (),
    CommunityError,
> {
    match slot {
        None => Err(CommunityError::InvalidSeeds),
        Some((a, _)) => if s.contains(a) {
            Err(CommunityError::AlreadyExists)
        } else {
            Ok(())
        },
    }
}

/// Whether a community is founded, and if not, why.
pub open spec fn initialize_community_result(s: LedgerView, name: Seq<char>) -> Result<
    (),
    CommunityError,
> {
    free_slot(s, community_slot(s.program_id, name))
}

/// The ledger after a community was founded: the community is recorded,
/// without members or polls, under the address that its name derives.
pub open spec fn initialize_community_effect(
    s: LedgerView,
    ctx: InitializeCommunity,
    name: Seq<char>,
    description: Seq<char>,
) -> LedgerView {
    let (a, bump) = community_slot(s.program_id, name).unwrap();
    s.created(
        a,
        RecordView::Community(
            CommunityView {
                admin: ctx.admin,
                name,
                description,
                member_count: 0,
                total_polls: 0,
                bump,
            },
        ),
    )
}

/// Founding a community leaves the ledger well formed.
pub proof fn lemma_initialize_community_wf(
    s: LedgerView,
    ctx: InitializeCommunity,
    name: Seq<char>,
    description: Seq<char>,
)
    requires
        s.wf(),
        s.entries.len() < usize::MAX,
        initialize_community_result(s, name) is Ok,
    ensures
        initialize_community_effect(s, ctx, name, description).wf(),
        grows_to(s, initialize_community_effect(s, ctx, name, description)),
{
    let (a, bump) = community_slot(s.program_id, name).unwrap();
    let community = RecordView::Community(
        CommunityView { admin: ctx.admin, name, description, member_count: 0, total_polls: 0, bump },
    );
    let t = s.created(a, community);
    lemma_created(s, a, community);
    assert(grows_to(s, t));
    assert forall|b: Address| #[trigger] s.contains(b) implies !approved_in(a)(s.get(b)) && !poll_in(
        a,
    )(s.get(b)) by {
        assert(s.sound(b, s.get(b)));
    }
    lemma_none(s, approved_in(a));
    lemma_none(s, poll_in(a));
    assert forall|b: Address| #[trigger] t.contains(b) implies t.sound(b, t.get(b)) by {
        if b != a {
            assert(s.contains(b));
            assert(s.sound(b, s.get(b)));
            lemma_kept(s, t, b, s.get(b));
        }
    }
}

/// Records a new community under the address that its name derives, with
/// the caller as its admin and without members or polls.
///
/// A name that is already taken finds that address occupied and is rejected
/// with `AlreadyExists`; a name from which no address can be derived, such
/// as one of more than 32 bytes, with `InvalidSeeds`.
pub fn initialize_community(
    ledger: &mut Ledger,
    ctx: &InitializeCommunity,
    name: String,
    description: String,
) -> (r: Result<(), CommunityError>)
    requires
        old(ledger).wf(),
    ensures
        final(ledger).wf(),
        grows_to(old(ledger)@, final(ledger)@),
        r == initialize_community_result(old(ledger)@, name@),
        final(ledger)@ == (if r is Ok {
            initialize_community_effect(old(ledger)@, *ctx, name@, description@)
        } else {
            old(ledger)@
        }),
{
    let program_id = ledger.program_id();
    let (a, bump) = match community_address(&program_id, name.as_str()) {
        Some(slot) => slot,
        None => {
            return Err(CommunityError::InvalidSeeds);
        },
    };
    if ledger.contains(&a) {
        return Err(CommunityError::AlreadyExists);
    }
    let community = Community::new(ctx.admin, name, description, bump);
    ledger.create(a, Record::Community(community));
    proof {
        lemma_initialize_community_wf(old(ledger)@, *ctx, name@, description@);
    }
    Ok(())
}

/// Whether a request to join is accepted, and if not, why.
pub open spec fn join_community_result(s: LedgerView, ctx: JoinCommunity) -> Result<
    (),
    CommunityError,
> {
    if s.community_at(ctx.community) is None {
        Err(CommunityError::NotFound)
    } else {
        free_slot(s, membership_slot(s.program_id, ctx.community, ctx.member))
    }
}

/// The ledger after an accepted request to join: a pending membership is
/// recorded under the address that the community and the member derive.
pub open spec fn join_community_effect(s: LedgerView, ctx: JoinCommunity, now: i64) -> LedgerView {
    let (a, bump) = membership_slot(s.program_id, ctx.community, ctx.member).unwrap();
    s.created(
        a,
        RecordView::Membership(
            Membership {
                community: ctx.community,
                member: ctx.member,
                is_approved: false,
                joined_at: now,
                bump,
            },
        ),
    )
}

/// An accepted request to join leaves the ledger well formed.
pub proof fn lemma_join_community_wf(s: LedgerView, ctx: JoinCommunity, now: i64)
    requires
        s.wf(),
        s.entries.len() < usize::MAX,
        join_community_result(s, ctx) is Ok,
    ensures
        join_community_effect(s, ctx, now).wf(),
        grows_to(s, join_community_effect(s, ctx, now)),
{
    let (a, bump) = membership_slot(s.program_id, ctx.community, ctx.member).unwrap();
    let membership = RecordView::Membership(
        Membership {
            community: ctx.community,
            member: ctx.member,
            is_approved: false,
            joined_at: now,
            bump,
        },
    );
    let t = s.created(a, membership);
    lemma_created(s, a, membership);
    assert(grows_to(s, t));
    assert forall|b: Address| #[trigger] t.contains(b) implies t.sound(b, t.get(b)) by {
        if b == a {
            assert(s.contains(ctx.community));
        } else {
            assert(s.contains(b));
            assert(s.sound(b, s.get(b)));
            lemma_kept(s, t, b, s.get(b));
        }
    }
}

/// Records the caller as a pending member of the community, at time `now`.
///
/// A caller who has joined before, approved or not, finds the membership's
/// address occupied and is rejected with `AlreadyExists`.
pub fn join_community(ledger: &mut Ledger, ctx: &JoinCommunity, now: i64) -> (r: Result<
    (),
    CommunityError,
>)
    requires
        old(ledger).wf(),
    ensures
        final(ledger).wf(),
        grows_to(old(ledger)@, final(ledger)@),
        r == join_community_result(old(ledger)@, *ctx),
        final(ledger)@ == (if r is Ok {
            join_community_effect(old(ledger)@, *ctx, now)
        } else {
            old(ledger)@
        }),
{
    if ledger.community(&ctx.community).is_none() {
        return Err(CommunityError::NotFound);
    }
    let program_id = ledger.program_id();
    let (a, bump) = match membership_address(&program_id, &ctx.community, &ctx.member) {
        Some(slot) => slot,
        None => {
            return Err(CommunityError::InvalidSeeds);
        },
    };
    if ledger.contains(&a) {
        return Err(CommunityError::AlreadyExists);
    }
    let membership = Membership::new(ctx.community, ctx.member, now, bump);
    ledger.create(a, Record::Membership(membership));
    proof {
        lemma_join_community_wf(old(ledger)@, *ctx, now);
    }
    Ok(())
}

/// Whether an approval is accepted, and if not, why.
pub open spec fn approve_membership_result(s: LedgerView, ctx: ApproveMembership) -> Result<
    (),
    CommunityError,
> {
    match (s.community_at(ctx.community), s.membership_at(ctx.membership)) {
        (Some(community), Some(membership)) => approval_check(
            ctx.admin,
            ctx.community,
            community,
            membership,
        ),
        _ => Err(CommunityError::NotFound),
    }
}

/// The ledger after an accepted approval: the membership is approved and
/// the community counts one member more.
pub open spec fn approve_membership_effect(s: LedgerView, ctx: ApproveMembership) -> LedgerView {
    let community = s.community_at(ctx.community).unwrap();
    let membership = s.membership_at(ctx.membership).unwrap();
    s.replaced(ctx.membership, RecordView::Membership(membership.approved())).replaced(
        ctx.community,
        RecordView::Community(community.with_member()),
    )
}

/// An accepted approval leaves the ledger well formed.
pub proof fn lemma_approve_membership_wf(s: LedgerView, ctx: ApproveMembership)
    requires
        s.wf(),
        approve_membership_result(s, ctx) is Ok,
    ensures
        approve_membership_effect(s, ctx).wf(),
        grows_to(s, approve_membership_effect(s, ctx)),
{
    let community = s.community_at(ctx.community).unwrap();
    let membership = s.membership_at(ctx.membership).unwrap();
    let approved = RecordView::Membership(membership.approved());
    let counted = RecordView::Community(community.with_member());
    let s1 = s.replaced(ctx.membership, approved);
    let t = s1.replaced(ctx.community, counted);
    lemma_replaced(s, ctx.membership, approved);
    assert(s1.contains(ctx.community));
    lemma_replaced(s1, ctx.community, counted);
    lemma_count_le(s1.entries, approved_in(ctx.community));
    assert(s.sound(ctx.community, s.get(ctx.community)));
    assert(s.sound(ctx.membership, s.get(ctx.membership)));
    assert(grows_to(s, t)) by {
        assert forall|b: Address| #[trigger] s.contains(b) implies t.contains(b) && evolves(
            s.get(b),
            t.get(b),
        ) by {
            assert(s1.contains(b));
        }
    }
    assert forall|b: Address| #[trigger] t.contains(b) implies t.sound(b, t.get(b)) by {
        assert(s1.contains(b));
        assert(s.contains(b));
        assert(s.sound(b, s.get(b)));
        if b == ctx.community {
            assert(t.get(b) == counted);
            lemma_kept(s, t, b, s.get(b));
        } else if b == ctx.membership {
            assert(t.get(b) == approved);
            lemma_kept(s, t, b, s.get(b));
        } else {
            assert(t.get(b) == s.get(b));
            lemma_kept(s, t, b, s.get(b));
        }
    }
}

/// Approves a pending membership and counts the member in the community.
///
/// Only the community's admin may approve, and only a membership in that
/// community; anyone and anything else is rejected with `Unauthorized`. A
/// membership is approved once: approving it again is rejected with
/// `AlreadyExists` and counts nothing, so that the community's member count
/// is always the number of its approved memberships.
pub fn approve_membership(ledger: &mut Ledger, ctx: &ApproveMembership) -> (r: Result<
    (),
    CommunityError,
>)
    requires
        old(ledger).wf(),
    ensures
        final(ledger).wf(),
        grows_to(old(ledger)@, final(ledger)@),
        r == approve_membership_result(old(ledger)@, *ctx),
        final(ledger)@ == (if r is Ok {
            approve_membership_effect(old(ledger)@, *ctx)
        } else {
            old(ledger)@
        }),
{
    let community_at = match ledger.find(&ctx.community) {
        Some(i) => i,
        None => {
            return Err(CommunityError::NotFound);
        },
    };
    let membership_at = match ledger.find(&ctx.membership) {
        Some(i) => i,
        None => {
            return Err(CommunityError::NotFound);
        },
    };
    proof {
        lemma_index(ledger@, community_at as int);
        lemma_index(ledger@, membership_at as int);
    }
    match (ledger.record(community_at), ledger.record(membership_at)) {
        (Record::Community(community), Record::Membership(membership)) => {
            match check_approval(&ctx.admin, &ctx.community, community, membership) {
                Ok(()) => {},
                Err(e) => {
                    return Err(e);
                },
            }
        },
        _ => {
            return Err(CommunityError::NotFound);
        },
    }
    proof {
        let s = ledger@;
        let approved = RecordView::Membership(s.membership_at(ctx.membership).unwrap().approved());
        lemma_put(s, membership_at as int, approved);
        lemma_count_le(s.put(membership_at as int, approved).entries, approved_in(ctx.community));
        assert(s.sound(ctx.community, s.get(ctx.community)));
    }
    ledger.approve_at(membership_at);
    ledger.add_member_at(community_at);
    proof {
        let s = old(ledger)@;
        let s1 = s.replaced(
            ctx.membership,
            RecordView::Membership(s.membership_at(ctx.membership).unwrap().approved()),
        );
        lemma_put(
            s1,
            community_at as int,
            RecordView::Community(s.community_at(ctx.community).unwrap().with_member()),
        );
        lemma_approve_membership_wf(s, *ctx);
    }
    Ok(())
}

/// Whether a poll is opened, and if not, why.
pub open spec fn create_poll_result(
    s: LedgerView,
    ctx: CreatePoll,
    options: Seq<Seq<char>>,
    end_time: i64,
    now: i64,
) -> Result<(), CommunityError> {
    match s.community_at(ctx.community) {
        None => Err(CommunityError::NotFound),
        Some(community) => match new_poll_check(
            ctx.creator,
            ctx.community,
            s.membership_at(ctx.membership),
            options.len(),
            end_time,
            now,
        ) {
            Err(e) => Err(e),
            Ok(()) => free_slot(s, poll_slot(s.program_id, ctx.community, community.total_polls)),
        },
    }
}

/// The ledger after a poll was opened: the poll is recorded, open and
/// without votes, under the address that the community and the number of
/// its earlier polls derive, and the community counts one poll more.
pub open spec fn create_poll_effect(
    s: LedgerView,
    ctx: CreatePoll,
    question: Seq<char>,
    options: Seq<Seq<char>>,
    end_time: i64,
) -> LedgerView {
    let community = s.community_at(ctx.community).unwrap();
    let (a, bump) = poll_slot(s.program_id, ctx.community, community.total_polls).unwrap();
    s.created(
        a,
        RecordView::Poll(
            new_poll(ctx.creator, ctx.community, question, options, end_time, bump),
        ),
    ).replaced(ctx.community, RecordView::Community(community.with_poll()))
}

/// Opening a poll leaves the ledger well formed.
pub proof fn lemma_create_poll_wf(
    s: LedgerView,
    ctx: CreatePoll,
    question: Seq<char>,
    options: Seq<Seq<char>>,
    end_time: i64,
    now: i64,
)
    requires
        s.wf(),
        s.entries.len() < usize::MAX,
        create_poll_result(s, ctx, options, end_time, now) is Ok,
    ensures
        create_poll_effect(s, ctx, question, options, end_time).wf(),
        grows_to(s, create_poll_effect(s, ctx, question, options, end_time)),
{
    let community = s.community_at(ctx.community).unwrap();
    let (a, bump) = poll_slot(s.program_id, ctx.community, community.total_polls).unwrap();
    let poll = RecordView::Poll(
        new_poll(ctx.creator, ctx.community, question, options, end_time, bump),
    );
    let counted = RecordView::Community(community.with_poll());
    let s1 = s.created(a, poll);
    let t = s1.replaced(ctx.community, counted);
    lemma_created(s, a, poll);
    assert(s1.contains(ctx.community));
    lemma_replaced(s1, ctx.community, counted);
    lemma_count_le(s.entries, poll_in(ctx.community));
    lemma_sum_zeros(options.len());
    assert(s.sound(ctx.community, s.get(ctx.community)));
    assert forall|b: Address| #[trigger] s.contains(b) implies !vote_on(a)(s.get(b)) by {
        assert(s.sound(b, s.get(b)));
    }
    lemma_none(s, vote_on(a));
    assert forall|k: int| 0 <= k < options.len() implies count(s.entries, vote_for(a, k)) == 0 by {
        assert forall|b: Address| #[trigger] s.contains(b) implies !vote_for(a, k)(s.get(b)) by {
            assert(s.sound(b, s.get(b)));
        }
        lemma_none(s, vote_for(a, k));
    }
    assert(grows_to(s, t)) by {
        assert forall|b: Address| #[trigger] s.contains(b) implies t.contains(b) && evolves(
            s.get(b),
            t.get(b),
        ) by {
            assert(s1.contains(b));
        }
    }
    assert forall|b: Address| #[trigger] t.contains(b) implies t.sound(b, t.get(b)) by {
        assert(s1.contains(b));
        if b == a {
            assert(t.get(b) == poll);
            assert(t.contains(ctx.community));
            assert(poll_slot(t.program_id, ctx.community, community.total_polls) == Some((a, bump)));
        } else if b == ctx.community {
            assert(t.get(b) == counted);
            lemma_kept(s, t, b, s.get(b));
            assert(t.has_poll(b, community.total_polls));
            assert forall|j: u64| j < community.total_polls implies poll_slot(
                t.program_id,
                b,
                j,
            ).unwrap().0 != a by {
                assert(s.has_poll(b, j));
                assert(s.contains(poll_slot(s.program_id, b, j).unwrap().0));
            }
        } else {
            assert(s.contains(b));
            assert(s.sound(b, s.get(b)));
            assert(t.get(b) == s.get(b));
            lemma_kept(s, t, b, s.get(b));
        }
    }
}

/// Opens a poll in the community, with two to four options, no votes, and
/// an end time after `now`, and counts it in the community.
///
/// The membership must be an approved one of the creator in the community.
/// The poll's address is derived from the community and the number of polls
/// that the community had before.
pub fn create_poll(
    ledger: &mut Ledger,
    ctx: &CreatePoll,
    question: String,
    options: Vec<String>,
    end_time: i64,
    now: i64,
) -> (r: Result<(), CommunityError>)
    requires
        old(ledger).wf(),
    ensures
        final(ledger).wf(),
        grows_to(old(ledger)@, final(ledger)@),
        r == create_poll_result(old(ledger)@, *ctx, texts(options@), end_time, now),
        final(ledger)@ == (if r is Ok {
            create_poll_effect(old(ledger)@, *ctx, question@, texts(options@), end_time)
        } else {
            old(ledger)@
        }),
{
    let at = match ledger.find(&ctx.community) {
        Some(i) => i,
        None => {
            return Err(CommunityError::NotFound);
        },
    };
    proof {
        lemma_index(ledger@, at as int);
    }
    let total_polls = match ledger.record(at) {
        Record::Community(community) => community.total_polls,
        _ => {
            return Err(CommunityError::NotFound);
        },
    };
    match check_new_poll(
        &ctx.creator,
        &ctx.community,
        ledger.membership(&ctx.membership),
        options.len(),
        end_time,
        now,
    ) {
        Ok(()) => {},
        Err(e) => {
            return Err(e);
        },
    }
    let program_id = ledger.program_id();
    let (a, bump) = match poll_address(&program_id, &ctx.community, total_polls) {
        Some(slot) => slot,
        None => {
            return Err(CommunityError::InvalidSeeds);
        },
    };
    if ledger.contains(&a) {
        return Err(CommunityError::AlreadyExists);
    }
    let poll = Poll::new(ctx.community, ctx.creator, question, options, end_time, bump);
    proof {
        lemma_created(ledger@, a, RecordView::Poll(poll@));
        lemma_count_le(ledger@.entries, poll_in(ctx.community));
        assert(ledger@.sound(ctx.community, ledger@.get(ctx.community)));
    }
    ledger.create(a, Record::Poll(poll));
    ledger.add_poll_at(at);
    proof {
        let s = old(ledger)@;
        let s1 = s.created(a, RecordView::Poll(poll@));
        assert(s1.contains(ctx.community));
        lemma_put(
            s1,
            at as int,
            RecordView::Community(s.community_at(ctx.community).unwrap().with_poll()),
        );
        lemma_create_poll_wf(s, *ctx, question@, texts(options@), end_time, now);
    }
    Ok(())
}

/// Whether a vote is accepted, and if not, why.
pub open spec fn cast_vote_result(s: LedgerView, ctx: CastVote, option_index: u8, now: i64) -> Result<
    (),
    CommunityError,
> {
    match s.poll_at(ctx.poll) {
        None => Err(CommunityError::NotFound),
        Some(poll) => match vote_check(
            ctx.voter,
            poll,
            s.membership_at(ctx.membership),
            option_index,
            now,
        ) {
            Err(e) => Err(e),
            Ok(()) => free_slot(s, vote_slot(s.program_id, ctx.poll, ctx.voter)),
        },
    }
}

/// The ledger after an accepted vote: the vote is recorded under the
/// address that the poll and the voter derive, and the poll counts it.
pub open spec fn cast_vote_effect(s: LedgerView, ctx: CastVote, option_index: u8, now: i64) -> LedgerView {
    let (a, bump) = vote_slot(s.program_id, ctx.poll, ctx.voter).unwrap();
    let vote = Vote { poll: ctx.poll, voter: ctx.voter, option_index, voted_at: now, bump };
    let poll = s.poll_at(ctx.poll).unwrap();
    s.created(a, RecordView::Vote(vote)).replaced(
        ctx.poll,
        RecordView::Poll(poll.with_vote(option_index as int)),
    )
}

/// An accepted vote leaves the ledger well formed.
pub proof fn lemma_cast_vote_wf(s: LedgerView, ctx: CastVote, option_index: u8, now: i64)
    requires
        s.wf(),
        s.entries.len() < usize::MAX,
        cast_vote_result(s, ctx, option_index, now) is Ok,
    ensures
        cast_vote_effect(s, ctx, option_index, now).wf(),
        grows_to(s, cast_vote_effect(s, ctx, option_index, now)),
{
    let (a, bump) = vote_slot(s.program_id, ctx.poll, ctx.voter).unwrap();
    let vote = RecordView::Vote(
        Vote { poll: ctx.poll, voter: ctx.voter, option_index, voted_at: now, bump },
    );
    let poll = s.poll_at(ctx.poll).unwrap();
    let counted = RecordView::Poll(poll.with_vote(option_index as int));
    let s1 = s.created(a, vote);
    let t = s1.replaced(ctx.poll, counted);
    lemma_created(s, a, vote);
    assert(s1.contains(ctx.poll));
    lemma_replaced(s1, ctx.poll, counted);
    assert(s.sound(ctx.poll, s.get(ctx.poll)));
    lemma_count_le(s.entries, vote_on(ctx.poll));
    lemma_with_vote_wf(poll, option_index as int);
    assert(grows_to(s, t)) by {
        assert forall|b: Address| #[trigger] s.contains(b) implies t.contains(b) && evolves(
            s.get(b),
            t.get(b),
        ) by {
            assert(s1.contains(b));
        }
    }
    assert forall|b: Address| #[trigger] t.contains(b) implies t.sound(b, t.get(b)) by {
        assert(s1.contains(b));
        if b == a {
            assert(t.get(b) == vote);
            assert(t.contains(ctx.poll));
        } else if b == ctx.poll {
            assert(t.get(b) == counted);
            lemma_kept(s, t, b, s.get(b));
        } else {
            assert(s.contains(b));
            assert(s.sound(b, s.get(b)));
            assert(t.get(b) == s.get(b));
            lemma_kept(s, t, b, s.get(b));
        }
    }
}

/// Records the voter's choice and counts it, once for each voter and poll.
///
/// The poll must be open and not yet ended at time `now`, the option one of
/// the poll's, and the membership an approved one of the voter in the
/// poll's community. A second vote of the same voter on the same poll finds
/// the vote's address occupied and is rejected with `AlreadyExists`.
pub fn cast_vote(ledger: &mut Ledger, ctx: &CastVote, option_index: u8, now: i64) -> (r: Result<
    (),
    CommunityError,
>)
    requires
        old(ledger).wf(),
    ensures
        final(ledger).wf(),
        grows_to(old(ledger)@, final(ledger)@),
        r == cast_vote_result(old(ledger)@, *ctx, option_index, now),
        final(ledger)@ == (if r is Ok {
            cast_vote_effect(old(ledger)@, *ctx, option_index, now)
        } else {
            old(ledger)@
        }),
{
    let at = match ledger.find(&ctx.poll) {
        Some(i) => i,
        None => {
            return Err(CommunityError::NotFound);
        },
    };
    proof {
        lemma_index(ledger@, at as int);
    }
    match ledger.record(at) {
        Record::Poll(poll) => {
            match check_vote(
                &ctx.voter,
                poll,
                ledger.membership(&ctx.membership),
                option_index,
                now,
            ) {
                Ok(()) => {},
                Err(e) => {
                    return Err(e);
                },
            }
        },
        _ => {
            return Err(CommunityError::NotFound);
        },
    }
    let program_id = ledger.program_id();
    let (a, bump) = match vote_address(&program_id, &ctx.poll, &ctx.voter) {
        Some(slot) => slot,
        None => {
            return Err(CommunityError::InvalidSeeds);
        },
    };
    if ledger.contains(&a) {
        return Err(CommunityError::AlreadyExists);
    }
    let vote = Vote::new(ctx.poll, ctx.voter, option_index, now, bump);
    proof {
        lemma_created(ledger@, a, RecordView::Vote(vote));
        lemma_count_le(ledger@.entries, vote_on(ctx.poll));
        assert(ledger@.sound(ctx.poll, ledger@.get(ctx.poll)));
    }
    ledger.create(a, Record::Vote(vote));
    ledger.record_vote_at(at, option_index);
    proof {
        let s = old(ledger)@;
        let s1 = s.created(a, RecordView::Vote(vote));
        assert(s1.contains(ctx.poll));
        lemma_put(
            s1,
            at as int,
            RecordView::Poll(s.poll_at(ctx.poll).unwrap().with_vote(option_index as int)),
        );
        lemma_cast_vote_wf(s, *ctx, option_index, now);
    }
    Ok(())
}

/// Whether a poll is closed, and if not, why.
pub open spec fn close_poll_result(s: LedgerView, ctx: ClosePoll) -> Result<(), CommunityError> {
    match (s.poll_at(ctx.poll), s.community_at(ctx.community)) {
        (Some(poll), Some(community)) => close_check(ctx.authority, poll, community),
        _ => Err(CommunityError::NotFound),
    }
}

/// The ledger after a poll was closed.
pub open spec fn close_poll_effect(s: LedgerView, ctx: ClosePoll) -> LedgerView {
    let poll = s.poll_at(ctx.poll).unwrap();
    s.replaced(ctx.poll, RecordView::Poll(poll.closed()))
}

/// Closing a poll leaves the ledger well formed.
pub proof fn lemma_close_poll_wf(s: LedgerView, ctx: ClosePoll)
    requires
        s.wf(),
        close_poll_result(s, ctx) is Ok,
    ensures
        close_poll_effect(s, ctx).wf(),
        grows_to(s, close_poll_effect(s, ctx)),
{
    let poll = s.poll_at(ctx.poll).unwrap();
    let closed = RecordView::Poll(poll.closed());
    let t = s.replaced(ctx.poll, closed);
    lemma_replaced(s, ctx.poll, closed);
    assert(grows_to(s, t));
    assert forall|b: Address| #[trigger] t.contains(b) implies t.sound(b, t.get(b)) by {
        assert(s.contains(b));
        assert(s.sound(b, s.get(b)));
        lemma_kept(s, t, b, s.get(b));
    }
}

/// Closes the poll, for good.
///
/// Only the poll's creator and the admin of the community named in the
/// request may close it; anyone else is rejected with
/// `UnauthorizedToClose`. Closing a closed poll succeeds and changes
/// nothing.
pub fn close_poll(ledger: &mut Ledger, ctx: &ClosePoll) -> (r: Result<(), CommunityError>)
    requires
        old(ledger).wf(),
    ensures
        final(ledger).wf(),
        grows_to(old(ledger)@, final(ledger)@),
        r == close_poll_result(old(ledger)@, *ctx),
        final(ledger)@ == (if r is Ok {
            close_poll_effect(old(ledger)@, *ctx)
        } else {
            old(ledger)@
        }),
{
    let at = match ledger.find(&ctx.poll) {
        Some(i) => i,
        None => {
            return Err(CommunityError::NotFound);
        },
    };
    proof {
        lemma_index(ledger@, at as int);
    }
    match (ledger.record(at), ledger.community(&ctx.community)) {
        (Record::Poll(poll), Some(community)) => {
            match check_close(&ctx.authority, poll, community) {
                Ok(()) => {},
                Err(e) => {
                    return Err(e);
                },
            }
        },
        _ => {
            return Err(CommunityError::NotFound);
        },
    }
    ledger.close_at(at);
    proof {
        let s = old(ledger)@;
        lemma_put(s, at as int, RecordView::Poll(s.poll_at(ctx.poll).unwrap().closed()));
        lemma_close_poll_wf(s, *ctx);
    }
    Ok(())
}

} // verus!
