//! The rules of the transitions, on the records that a transition reads and
//! writes: what is checked, in which order, and what an accepted transition
//! does to the records.

use vstd::prelude::*;
use crate::address::Address;
use crate::error::CommunityError;
use crate::guard::admin_of;
use crate::guard::approved_member_of;
use crate::guard::creator_or_admin_of;
use crate::guard::is_admin;
use crate::guard::is_approved_member;
use crate::guard::is_approved_member_of;
use crate::guard::is_creator_or_admin;
use crate::state::texts;
use crate::state::zeros;
use crate::state::Community;
use crate::state::CommunityView;
use crate::state::Membership;
use crate::state::Poll;
use crate::state::PollView;
use crate::state::Vote;
use crate::state::MAX_OPTIONS;
use crate::state::MIN_OPTIONS;

verus! {

/// The membership that a reference refers to, if there is one.
pub open spec fn held(membership: Option<&Membership>) -> Option<Membership> {
    match membership {
        Some(m) => Some(*m),
        None => None,
    }
}

/// Whether an approval is in order: the caller is the community's admin,
/// the membership is one in that community, and it is still pending.
pub open spec fn approval_check(
    admin: Address,
    community_key: Address,
    community: CommunityView,
    membership: Membership,
) -> Result<(), CommunityError> {
    if !admin_of(admin, community) {
        Err(CommunityError::Unauthorized)
    } else if membership.community != community_key {
        Err(CommunityError::Unauthorized)
    } else if membership.is_approved {
        Err(CommunityError::AlreadyExists)
    } else {
        Ok(())
    }
}

/// Checks an approval.
pub fn check_approval(
    admin: &Address,
    community_key: &Address,
    community: &Community,
    membership: &Membership,
) -> (r: Result<(), CommunityError>)
    ensures
        r == approval_check(*admin, *community_key, community@, *membership),
{
    if !is_admin(admin, community) {
        return Err(CommunityError::Unauthorized);
    }
    if !membership.community.same(community_key) {
        return Err(CommunityError::Unauthorized);
    }
    if is_approved_member(membership) {
        return Err(CommunityError::AlreadyExists);
    }
    Ok(())
}

/// Approves a pending membership and counts the member in the community,
/// where the approval is in order; changes neither record where it is not.
pub fn approve(
    admin: &Address,
    community_key: &Address,
    community: &mut Community,
    membership: &mut Membership,
) -> (r: Result<(), CommunityError>)
    requires
        old(community).member_count < u64::MAX,
    ensures
        r == approval_check(*admin, *community_key, old(community)@, *old(membership)),
        r is Ok ==> final(community)@ == old(community)@.with_member() && *final(membership) == old(
            membership,
        ).approved(),
        r is Err ==> *final(community) == *old(community) && *final(membership) == *old(membership),
{
    match check_approval(admin, community_key, community, membership) {
        Ok(()) => {
            membership.approve();
            community.add_member();
            Ok(())
        },
        Err(e) => Err(e),
    }
}

/// Whether a poll may be opened: it has two to four options, it ends after
/// `now`, and the membership is an approved one of the creator in the
/// community.
pub open spec fn new_poll_check(
    creator: Address,
    community_key: Address,
    membership: Option<Membership>,
    options: nat,
    end_time: i64,
    now: i64,
) -> Result<(), CommunityError> {
    if options < MIN_OPTIONS || options > MAX_OPTIONS {
        Err(CommunityError::InvalidOptionCount)
    } else if end_time <= now {
        Err(CommunityError::InvalidEndTime)
    } else if !(membership matches Some(m) && approved_member_of(creator, community_key, m)) {
        Err(CommunityError::NotApprovedMember)
    } else {
        Ok(())
    }
}

/// Checks a new poll of `options` options.
pub fn check_new_poll(
    creator: &Address,
    community_key: &Address,
    membership: Option<&Membership>,
    options: usize,
    end_time: i64,
    now: i64,
) -> (r: Result<(), CommunityError>)
    ensures
        r == new_poll_check(
            *creator,
            *community_key,
            held(membership),
            options as nat,
            end_time,
            now,
        ),
{
    if options < MIN_OPTIONS || options > MAX_OPTIONS {
        return Err(CommunityError::InvalidOptionCount);
    }
    if end_time <= now {
        return Err(CommunityError::InvalidEndTime);
    }
    match membership {
        Some(m) => {
            if !is_approved_member_of(creator, community_key, m) {
                return Err(CommunityError::NotApprovedMember);
            }
        },
        None => {
            return Err(CommunityError::NotApprovedMember);
        },
    }
    Ok(())
}

/// The poll that `open_poll` makes.
pub open spec fn new_poll(
    creator: Address,
    community_key: Address,
    question: Seq<char>,
    options: Seq<Seq<char>>,
    end_time: i64,
    bump: u8,
) -> PollView {
    PollView {
        community: community_key,
        creator,
        question,
        options,
        vote_counts: zeros(options.len()),
        end_time,
        total_votes: 0,
        is_active: true,
        bump,
    }
}

/// Makes an open poll without votes and counts it in the community, where
/// the poll may be opened; changes nothing where it may not.
pub fn open_poll(
    creator: &Address,
    community_key: &Address,
    community: &mut Community,
    membership: &Membership,
    question: String,
    options: Vec<String>,
    end_time: i64,
    now: i64,
    bump: u8,
) -> (r: Result<Poll, CommunityError>)
    requires
        old(community).total_polls < u64::MAX,
    ensures
        match r {
            Ok(poll) => {
                &&& new_poll_check(
                    *creator,
                    *community_key,
                    Some(*membership),
                    options@.len(),
                    end_time,
                    now,
                ) is Ok
                &&& poll@ == new_poll(
                    *creator,
                    *community_key,
                    question@,
                    texts(options@),
                    end_time,
                    bump,
                )
                &&& poll@.wf()
                &&& final(community)@ == old(community)@.with_poll()
            },
            Err(e) => {
                &&& new_poll_check(
                    *creator,
                    *community_key,
                    Some(*membership),
                    options@.len(),
                    end_time,
                    now,
                ) == Err::<(), CommunityError>(e)
                &&& *final(community) == *old(community)
            },
        },
{
    match check_new_poll(
        creator,
        community_key,
        Some(membership),
        options.len(),
        end_time,
        now,
    ) {
        Ok(()) => {
            let poll = Poll::new(*community_key, *creator, question, options, end_time, bump);
            community.add_poll();
            Ok(poll)
        },
        Err(e) => Err(e),
    }
}

/// Whether a vote is in order: the poll is open and has not ended at `now`,
/// the option is one of the poll's, and the membership is an approved one
/// of the voter in the poll's community.
pub open spec fn vote_check(
    voter: Address,
    poll: PollView,
    membership: Option<Membership>,
    option_index: u8,
    now: i64,
) -> Result<(), CommunityError> {
    if !poll.is_active {
        Err(CommunityError::PollNotActive)
    } else if now >= poll.end_time {
        Err(CommunityError::PollExpired)
    } else if option_index >= poll.options.len() {
        Err(CommunityError::InvalidOptionIndex)
    } else if !(membership matches Some(m) && approved_member_of(voter, poll.community, m)) {
        Err(CommunityError::NotApprovedMember)
    } else {
        Ok(())
    }
}

/// Checks a vote.
pub fn check_vote(
    voter: &Address,
    poll: &Poll,
    membership: Option<&Membership>,
    option_index: u8,
    now: i64,
) -> (r: Result<(), CommunityError>)
    ensures
        r == vote_check(*voter, poll@, held(membership), option_index, now),
{
    if !poll.is_active {
        return Err(CommunityError::PollNotActive);
    }
    if now >= poll.end_time {
        return Err(CommunityError::PollExpired);
    }
    if option_index as usize >= poll.options.len() {
        return Err(CommunityError::InvalidOptionIndex);
    }
    match membership {
        Some(m) => {
            if !is_approved_member_of(voter, &poll.community, m) {
                return Err(CommunityError::NotApprovedMember);
            }
        },
        None => {
            return Err(CommunityError::NotApprovedMember);
        },
    }
    Ok(())
}

/// Makes the voter's vote and counts it in the poll, where the vote is in
/// order; changes nothing where it is not.
pub fn vote(
    voter: &Address,
    poll_key: &Address,
    poll: &mut Poll,
    membership: &Membership,
    option_index: u8,
    now: i64,
    bump: u8,
) -> (r: Result<Vote, CommunityError>)
    requires
        old(poll)@.wf(),
        old(poll).total_votes < u64::MAX,
    ensures
        match r {
            Ok(vote) => {
                &&& vote_check(*voter, old(poll)@, Some(*membership), option_index, now) is Ok
                &&& vote == (Vote {
                    poll: *poll_key,
                    voter: *voter,
                    option_index,
                    voted_at: now,
                    bump,
                })
                &&& final(poll)@ == old(poll)@.with_vote(option_index as int)
                &&& final(poll)@.wf()
            },
            Err(e) => {
                &&& vote_check(*voter, old(poll)@, Some(*membership), option_index, now) == Err::<
                    (),
                    CommunityError,
                >(e)
                &&& *final(poll) == *old(poll)
            },
        },
{
    match check_vote(voter, poll, Some(membership), option_index, now) {
        Ok(()) => {
            poll.record_vote(option_index);
            Ok(Vote::new(*poll_key, *voter, option_index, now, bump))
        },
        Err(e) => Err(e),
    }
}

/// Whether the caller may close the poll: the caller created it or is the
/// admin of the community.
pub open spec fn close_check(authority: Address, poll: PollView, community: CommunityView) -> Result<
    (),
    CommunityError,
> {
    if !creator_or_admin_of(authority, poll, community) {
        Err(CommunityError::UnauthorizedToClose)
    } else {
        Ok(())
    }
}

/// Checks the closing of a poll.
pub fn check_close(authority: &Address, poll: &Poll, community: &Community) -> (r: Result<
    (),
    CommunityError,
>)
    ensures
        r == close_check(*authority, poll@, community@),
{
    if !is_creator_or_admin(authority, poll, community) {
        return Err(CommunityError::UnauthorizedToClose);
    }
    Ok(())
}

/// Closes the poll where the caller may close it; changes nothing where the
/// caller may not.
pub fn close(authority: &Address, poll: &mut Poll, community: &Community) -> (r: Result<
    (),
    CommunityError,
>)
    ensures
        r == close_check(*authority, old(poll)@, community@),
        r is Ok ==> final(poll)@ == old(poll)@.closed(),
        r is Err ==> *final(poll) == *old(poll),
{
    match check_close(authority, poll, community) {
        Ok(()) => {
            poll.close();
            Ok(())
        },
        Err(e) => Err(e),
    }
}

} // verus!
