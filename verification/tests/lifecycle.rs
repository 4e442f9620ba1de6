use communities::address::community_address;
use communities::address::membership_address;
use communities::address::poll_address;
use communities::address::vote_address;
use communities::approve_membership;
use communities::cast_vote;
use communities::close_poll;
use communities::create_poll;
use communities::initialize_community;
use communities::join_community;
use communities::Address;
use communities::ApproveMembership;
use communities::CastVote;
use communities::ClosePoll;
use communities::CommunityError;
use communities::CreatePoll;
use communities::InitializeCommunity;
use communities::JoinCommunity;
use communities::Ledger;

const NOW: i64 = 1_700_000_000;

fn program() -> Address {
    Address::new([7u8; 32])
}

fn admin() -> Address {
    Address::new([9u8; 32])
}

fn alice() -> Address {
    Address::new([1u8; 32])
}

fn bob() -> Address {
    Address::new([2u8; 32])
}

fn devs() -> Address {
    community_address(&program(), "Devs").unwrap().0
}

fn membership_of(member: &Address) -> Address {
    membership_address(&program(), &devs(), member).unwrap().0
}

fn first_poll() -> Address {
    poll_address(&program(), &devs(), 0).unwrap().0
}

fn options(labels: &[&str]) -> Vec<String> {
    labels.iter().map(|l| l.to_string()).collect()
}

/// "Devs" with Alice as an approved member.
fn devs_with_alice() -> Ledger {
    let mut ledger = Ledger::new(program());
    let founded = initialize_community(
        &mut ledger,
        &InitializeCommunity { admin: admin() },
        "Devs".to_string(),
        "People who write code".to_string(),
    );
    assert_eq!(founded, Ok(()));
    let joined = join_community(
        &mut ledger,
        &JoinCommunity { community: devs(), member: alice() },
        NOW,
    );
    assert_eq!(joined, Ok(()));
    let approved = approve_membership(
        &mut ledger,
        &ApproveMembership {
            community: devs(),
            membership: membership_of(&alice()),
            admin: admin(),
        },
    );
    assert_eq!(approved, Ok(()));
    ledger
}

/// The same, with Alice's poll "Best lang?" that ends in an hour.
fn devs_with_poll() -> Ledger {
    let mut ledger = devs_with_alice();
    let created = create_poll(
        &mut ledger,
        &CreatePoll {
            community: devs(),
            membership: membership_of(&alice()),
            creator: alice(),
        },
        "Best lang?".to_string(),
        options(&["Rust", "Go"]),
        NOW + 3600,
        NOW,
    );
    assert_eq!(created, Ok(()));
    ledger
}

fn alice_votes(option_index: u8) -> (CastVote, u8) {
    (
        CastVote {
            poll: first_poll(),
            membership: membership_of(&alice()),
            voter: alice(),
        },
        option_index,
    )
}

#[test]
fn approved_member_creates_poll() {
    let ledger = devs_with_poll();
    let poll = ledger.poll(&first_poll()).unwrap();
    assert_eq!(poll.vote_counts, vec![0, 0]);
    assert_eq!(poll.total_votes, 0);
    assert_eq!(poll.options, options(&["Rust", "Go"]));
    assert_eq!(poll.question, "Best lang?");
    assert_eq!(poll.end_time, NOW + 3600);
    assert_eq!(poll.community, devs());
    assert_eq!(poll.creator, alice());
    assert!(poll.is_active);
    let community = ledger.community(&devs()).unwrap();
    assert_eq!(community.total_polls, 1);
    assert_eq!(community.member_count, 1);
    assert_eq!(community.admin, admin());
    assert_eq!(community.name, "Devs");
    assert_eq!(community.description, "People who write code");
    let membership = ledger.membership(&membership_of(&alice())).unwrap();
    assert!(membership.is_approved);
    assert_eq!(membership.joined_at, NOW);
    assert_eq!(membership.member, alice());
    assert_eq!(membership.community, devs());
}

#[test]
fn second_vote_is_rejected_and_counts_nothing() {
    let mut ledger = devs_with_poll();
    let (ctx, option_index) = alice_votes(0);
    assert_eq!(cast_vote(&mut ledger, &ctx, option_index, NOW + 10), Ok(()));
    {
        let poll = ledger.poll(&first_poll()).unwrap();
        assert_eq!(poll.vote_counts, vec![1, 0]);
        assert_eq!(poll.total_votes, 1);
    }
    let vote_at = vote_address(&program(), &first_poll(), &alice()).unwrap().0;
    {
        let vote = ledger.vote(&vote_at).unwrap();
        assert_eq!(vote.poll, first_poll());
        assert_eq!(vote.voter, alice());
        assert_eq!(vote.option_index, 0);
        assert_eq!(vote.voted_at, NOW + 10);
    }
    let before = ledger.clone();
    assert_eq!(
        cast_vote(&mut ledger, &ctx, option_index, NOW + 20),
        Err(CommunityError::AlreadyExists)
    );
    assert_eq!(ledger, before);
    let poll = ledger.poll(&first_poll()).unwrap();
    assert_eq!(poll.vote_counts, vec![1, 0]);
    assert_eq!(poll.total_votes, 1);
}

#[test]
fn stranger_cannot_vote() {
    let mut ledger = devs_with_poll();
    let before = ledger.clone();
    let ctx = CastVote {
        poll: first_poll(),
        membership: membership_of(&bob()),
        voter: bob(),
    };
    assert_eq!(
        cast_vote(&mut ledger, &ctx, 0, NOW + 10),
        Err(CommunityError::NotApprovedMember)
    );
    assert_eq!(ledger, before);
}

#[test]
fn poll_with_one_option_or_past_end_is_rejected() {
    let mut ledger = devs_with_alice();
    let before = ledger.clone();
    let ctx = CreatePoll {
        community: devs(),
        membership: membership_of(&admin()),
        creator: admin(),
    };
    assert_eq!(
        create_poll(
            &mut ledger,
            &ctx,
            "Only one?".to_string(),
            options(&["Yes"]),
            NOW + 3600,
            NOW
        ),
        Err(CommunityError::InvalidOptionCount)
    );
    assert_eq!(
        create_poll(
            &mut ledger,
            &ctx,
            "Too late?".to_string(),
            options(&["Yes", "No"]),
            NOW - 1,
            NOW
        ),
        Err(CommunityError::InvalidEndTime)
    );
    assert_eq!(ledger, before);
    assert_eq!(ledger.community(&devs()).unwrap().total_polls, 0);
}

#[test]
fn closed_poll_takes_no_votes_before_its_end() {
    let mut ledger = devs_with_poll();
    let closed = close_poll(
        &mut ledger,
        &ClosePoll { poll: first_poll(), community: devs(), authority: alice() },
    );
    assert_eq!(closed, Ok(()));
    assert!(!ledger.poll(&first_poll()).unwrap().is_active);
    let before = ledger.clone();
    let (ctx, option_index) = alice_votes(1);
    assert_eq!(
        cast_vote(&mut ledger, &ctx, option_index, NOW + 10),
        Err(CommunityError::PollNotActive)
    );
    assert_eq!(ledger, before);
    assert_eq!(ledger.poll(&first_poll()).unwrap().total_votes, 0);
}

#[test]
fn closed_poll_rejects_a_voter_who_has_voted() {
    let mut ledger = devs_with_poll();
    let (ctx, option_index) = alice_votes(1);
    assert_eq!(cast_vote(&mut ledger, &ctx, option_index, NOW + 10), Ok(()));
    let closed = close_poll(
        &mut ledger,
        &ClosePoll { poll: first_poll(), community: devs(), authority: alice() },
    );
    assert_eq!(closed, Ok(()));
    assert_eq!(
        cast_vote(&mut ledger, &ctx, option_index, NOW + 20),
        Err(CommunityError::PollNotActive)
    );
    let poll = ledger.poll(&first_poll()).unwrap();
    assert_eq!(poll.vote_counts, vec![0, 1]);
    assert_eq!(poll.total_votes, 1);
}
