//! The reasons for which a transition is rejected.

use vstd::prelude::*;

verus! {

/// Why a transition was rejected. A rejected transition changes nothing.
#[derive(Clone, Copy, Debug, PartialEq, Eq, Structural)]
pub enum CommunityError {
    /// The caller lacks the capability that the transition asks for.
    Unauthorized,
    /// A poll has fewer than two options or more than four.
    InvalidOptionCount,
    /// A poll would end at or before the present.
    InvalidEndTime,
    /// The caller has no approved membership in the community.
    NotApprovedMember,
    /// The poll was closed.
    PollNotActive,
    /// The poll's end time has passed.
    PollExpired,
    /// The chosen option is not one of the poll's.
    InvalidOptionIndex,
    /// The caller is neither the poll's creator nor the community's admin.
    UnauthorizedToClose,
    /// The voter has a vote on the poll already.
    AlreadyVoted,
    /// The address of the record to create is occupied.
    AlreadyExists,
    /// A record that the transition refers to is absent.
    NotFound,
    /// No address can be derived for the record to create.
    InvalidSeeds,
}

impl CommunityError {
    /// The text of `message`.
    pub open spec fn text(self) -> Seq<char> {
        match self {
            CommunityError::Unauthorized => "You are not authorized for this action"@,
            CommunityError::InvalidOptionCount => "Invalid number of options (must be between 2 and 4)"@,
            CommunityError::InvalidEndTime => "Invalid end date"@,
            CommunityError::NotApprovedMember => "You are not an approved member of this community"@,
            CommunityError::PollNotActive => "The poll is not active"@,
            CommunityError::PollExpired => "The poll has expired"@,
            CommunityError::InvalidOptionIndex => "Invalid option index"@,
            CommunityError::UnauthorizedToClose => "You are not authorized to close this poll"@,
            CommunityError::AlreadyVoted => "You have already voted for this poll"@,
            CommunityError::AlreadyExists => "A record already exists at this address"@,
            CommunityError::NotFound => "The record was not found"@,
            CommunityError::InvalidSeeds => "No address can be derived from these seeds"@,
        }
    }

    /// What to tell the caller.
    pub fn message(&self) -> (r: String)
        ensures
            r@ == self.text(),
    {
        match self {
            CommunityError::Unauthorized => "You are not authorized for this action".to_owned(),
            CommunityError::InvalidOptionCount => "Invalid number of options (must be between 2 and 4)".to_owned(),
            CommunityError::InvalidEndTime => "Invalid end date".to_owned(),
            CommunityError::NotApprovedMember => "You are not an approved member of this community".to_owned(),
            CommunityError::PollNotActive => "The poll is not active".to_owned(),
            CommunityError::PollExpired => "The poll has expired".to_owned(),
            CommunityError::InvalidOptionIndex => "Invalid option index".to_owned(),
            CommunityError::UnauthorizedToClose => "You are not authorized to close this poll".to_owned(),
            CommunityError::AlreadyVoted => "You have already voted for this poll".to_owned(),
            CommunityError::AlreadyExists => "A record already exists at this address".to_owned(),
            CommunityError::NotFound => "The record was not found".to_owned(),
            CommunityError::InvalidSeeds => "No address can be derived from these seeds".to_owned(),
        }
    }
}

} // verus!
