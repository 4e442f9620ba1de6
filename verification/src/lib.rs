//! A governance ledger: communities with approved membership, time-boxed
//! multiple-choice polls, and one vote per approved member per poll.
//!
//! Every record is kept under an address derived from what identifies it,
//! so that a second community of the same name, a second membership of the
//! same member, or a second vote of the same voter on the same poll finds
//! its address occupied. Each transition either changes the ledger as a
//! whole or rejects the request and changes nothing.

pub mod address;
pub mod error;
pub mod guard;
pub mod laws;
pub mod model;
pub mod rules;
pub mod state;
pub mod store;
pub mod transitions;

pub use crate::address::Address;
pub use crate::error::CommunityError;
pub use crate::state::Community;
pub use crate::state::Membership;
pub use crate::state::Poll;
pub use crate::state::Vote;
pub use crate::store::Ledger;
pub use crate::store::Record;
pub use crate::transitions::approve_membership;
pub use crate::transitions::cast_vote;
pub use crate::transitions::close_poll;
pub use crate::transitions::create_poll;
pub use crate::transitions::initialize_community;
pub use crate::transitions::join_community;
pub use crate::transitions::ApproveMembership;
pub use crate::transitions::CastVote;
pub use crate::transitions::ClosePoll;
pub use crate::transitions::CreatePoll;
pub use crate::transitions::InitializeCommunity;
pub use crate::transitions::JoinCommunity;
