//! Who may do what: the checks that every transition makes before it
//! changes a record.

use vstd::prelude::*;
use crate::address::Address;
use crate::state::Community;
use crate::state::CommunityView;
use crate::state::Membership;
use crate::state::Poll;
use crate::state::PollView;

verus! {

/// The caller is the community's admin.
pub open spec fn admin_of(caller: Address, community: CommunityView) -> bool {
    caller == community.admin
}

/// The membership is an approved one of `caller` in `community`.
pub open spec fn approved_member_of(caller: Address, community: Address, membership: Membership) -> bool {
    &&& membership.is_approved
    &&& membership.community == community
    &&& membership.member == caller
}

/// The caller created the poll or is the community's admin.
pub open spec fn creator_or_admin_of(caller: Address, poll: PollView, community: CommunityView) -> bool {
    caller == poll.creator || caller == community.admin
}

/// Whether the caller is the community's admin.
pub fn is_admin(caller: &Address, community: &Community) -> (r: bool)
    ensures
        r == admin_of(*caller, community@),
{
    caller.same(&community.admin)
}

/// Whether the membership has been approved.
pub fn is_approved_member(membership: &Membership) -> (r: bool)
    ensures
        r == membership.is_approved,
{
    membership.is_approved
}

/// Whether the membership is an approved one of `caller` in `community`.
pub fn is_approved_member_of(caller: &Address, community: &Address, membership: &Membership) -> (r:
    bool)
    ensures
        r == approved_member_of(*caller, *community, *membership),
{
    is_approved_member(membership) && membership.community.same(community)
        && membership.member.same(caller)
}

/// Whether the caller created the poll or is the community's admin.
pub fn is_creator_or_admin(caller: &Address, poll: &Poll, community: &Community) -> (r: bool)
    ensures
        r == creator_or_admin_of(*caller, poll@, community@),
{
    caller.same(&poll.creator) || caller.same(&community.admin)
}

} // verus!
