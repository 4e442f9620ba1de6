use communities::guard::is_admin;
use communities::guard::is_approved_member;
use communities::guard::is_approved_member_of;
use communities::guard::is_creator_or_admin;
use communities::rules::approve;
use communities::rules::check_approval;
use communities::rules::check_close;
use communities::rules::check_new_poll;
use communities::rules::check_vote;
use communities::rules::close;
use communities::rules::open_poll;
use communities::rules::vote;
use communities::Address;
use communities::Community;
use communities::CommunityError;
use communities::Membership;
use communities::Poll;
use communities::Vote;

fn person(n: u8) -> Address {
    Address::new([n; 32])
}

fn devs_key() -> Address {
    person(100)
}

fn devs() -> Community {
    Community::new(person(9), "Devs".to_string(), "about".to_string(), 254)
}

fn pending(member: u8) -> Membership {
    Membership::new(devs_key(), person(member), 50, 253)
}

fn approved(member: u8) -> Membership {
    let mut m = pending(member);
    m.approve();
    m
}

fn options(labels: &[&str]) -> Vec<String> {
    labels.iter().map(|l| l.to_string()).collect()
}

fn poll() -> Poll {
    Poll::new(devs_key(), person(1), "Which?".to_string(), options(&["a", "b", "c"]), 2_000, 252)
}

#[test]
fn new_community_is_empty() {
    let c = devs();
    assert_eq!(
        c,
        Community {
            admin: person(9),
            name: "Devs".to_string(),
            description: "about".to_string(),
            member_count: 0,
            total_polls: 0,
            bump: 254,
        }
    );
}

#[test]
fn community_counters_count_up() {
    let mut c = devs();
    c.add_member();
    c.add_member();
    c.add_poll();
    assert_eq!(c.member_count, 2);
    assert_eq!(c.total_polls, 1);
    assert_eq!(c.name, "Devs");
    c.member_count = u64::MAX - 1;
    c.add_member();
    assert_eq!(c.member_count, u64::MAX);
}

#[test]
fn new_membership_is_pending() {
    assert_eq!(
        pending(3),
        Membership {
            community: devs_key(),
            member: person(3),
            is_approved: false,
            joined_at: 50,
            bump: 253,
        }
    );
}

#[test]
fn approve_sets_the_flag_only() {
    let mut m = pending(3);
    m.approve();
    assert_eq!(m, Membership { is_approved: true, ..pending(3) });
    m.approve();
    assert_eq!(m, Membership { is_approved: true, ..pending(3) });
}

#[test]
fn new_poll_is_open_and_without_votes() {
    assert_eq!(
        poll(),
        Poll {
            community: devs_key(),
            creator: person(1),
            question: "Which?".to_string(),
            options: options(&["a", "b", "c"]),
            vote_counts: vec![0, 0, 0],
            end_time: 2_000,
            total_votes: 0,
            is_active: true,
            bump: 252,
        }
    );
}

#[test]
fn record_vote_counts_the_option_and_the_total() {
    let mut p = poll();
    p.record_vote(2);
    p.record_vote(0);
    p.record_vote(2);
    assert_eq!(p.vote_counts, vec![1, 0, 2]);
    assert_eq!(p.total_votes, 3);
    assert!(p.is_valid());
}

#[test]
fn close_keeps_the_counts() {
    let mut p = poll();
    p.record_vote(1);
    p.close();
    assert!(!p.is_active);
    assert_eq!(p.vote_counts, vec![0, 1, 0]);
    assert_eq!(p.total_votes, 1);
    p.close();
    assert!(!p.is_active);
}

#[test]
fn valid_poll_has_counts_that_match() {
    assert!(poll().is_valid());
    let mut short = poll();
    short.vote_counts.pop();
    assert!(!short.is_valid());
    let mut off = poll();
    off.total_votes = 1;
    assert!(!off.is_valid());
    let mut one = poll();
    one.options.truncate(1);
    one.vote_counts.truncate(1);
    assert!(!one.is_valid());
    let mut five = poll();
    five.options = options(&["a", "b", "c", "d", "e"]);
    five.vote_counts = vec![0; 5];
    assert!(!five.is_valid());
    let mut large = poll();
    large.vote_counts = vec![u64::MAX, u64::MAX, 2];
    large.total_votes = 0;
    assert!(!large.is_valid());
    let mut full = poll();
    full.vote_counts = vec![u64::MAX - 1, 0, 1];
    full.total_votes = u64::MAX;
    assert!(full.is_valid());
}

#[test]
fn new_vote_holds_what_it_is_given() {
    assert_eq!(
        Vote::new(person(7), person(1), 3, 99, 251),
        Vote { poll: person(7), voter: person(1), option_index: 3, voted_at: 99, bump: 251 }
    );
}

#[test]
fn admin_is_the_communitys_admin() {
    assert!(is_admin(&person(9), &devs()));
    assert!(!is_admin(&person(1), &devs()));
}

#[test]
fn approved_member_has_the_flag() {
    assert!(is_approved_member(&approved(1)));
    assert!(!is_approved_member(&pending(1)));
}

#[test]
fn approved_member_of_needs_flag_community_and_member() {
    assert!(is_approved_member_of(&person(1), &devs_key(), &approved(1)));
    assert!(!is_approved_member_of(&person(1), &devs_key(), &pending(1)));
    assert!(!is_approved_member_of(&person(2), &devs_key(), &approved(1)));
    assert!(!is_approved_member_of(&person(1), &person(101), &approved(1)));
}

#[test]
fn creator_or_admin_is_either() {
    assert!(is_creator_or_admin(&person(1), &poll(), &devs()));
    assert!(is_creator_or_admin(&person(9), &poll(), &devs()));
    assert!(!is_creator_or_admin(&person(2), &poll(), &devs()));
}

#[test]
fn approval_is_checked() {
    assert_eq!(check_approval(&person(9), &devs_key(), &devs(), &pending(1)), Ok(()));
    assert_eq!(
        check_approval(&person(1), &devs_key(), &devs(), &pending(1)),
        Err(CommunityError::Unauthorized)
    );
    assert_eq!(
        check_approval(&person(9), &person(101), &devs(), &pending(1)),
        Err(CommunityError::Unauthorized)
    );
    assert_eq!(
        check_approval(&person(9), &devs_key(), &devs(), &approved(1)),
        Err(CommunityError::AlreadyExists)
    );
    assert_eq!(
        check_approval(&person(1), &devs_key(), &devs(), &approved(1)),
        Err(CommunityError::Unauthorized)
    );
}

#[test]
fn approve_changes_both_records_or_neither() {
    let mut c = devs();
    let mut m = pending(1);
    assert_eq!(approve(&person(9), &devs_key(), &mut c, &mut m), Ok(()));
    assert_eq!(c, Community { member_count: 1, ..devs() });
    assert_eq!(m, approved(1));
    assert_eq!(
        approve(&person(9), &devs_key(), &mut c, &mut m),
        Err(CommunityError::AlreadyExists)
    );
    assert_eq!(c.member_count, 1);
    assert_eq!(m, approved(1));
    let mut other = pending(2);
    assert_eq!(
        approve(&person(2), &devs_key(), &mut c, &mut other),
        Err(CommunityError::Unauthorized)
    );
    assert_eq!(c.member_count, 1);
    assert_eq!(other, pending(2));
}

#[test]
fn new_poll_is_checked() {
    let m = approved(1);
    let ok = |n: usize, end: i64| check_new_poll(&person(1), &devs_key(), Some(&m), n, end, 1_000);
    assert_eq!(ok(2, 1_001), Ok(()));
    assert_eq!(ok(4, i64::MAX), Ok(()));
    assert_eq!(ok(0, 1_001), Err(CommunityError::InvalidOptionCount));
    assert_eq!(ok(1, 1_001), Err(CommunityError::InvalidOptionCount));
    assert_eq!(ok(5, 1_001), Err(CommunityError::InvalidOptionCount));
    assert_eq!(ok(usize::MAX, 1_001), Err(CommunityError::InvalidOptionCount));
    assert_eq!(ok(2, 1_000), Err(CommunityError::InvalidEndTime));
    assert_eq!(ok(2, 999), Err(CommunityError::InvalidEndTime));
    assert_eq!(
        check_new_poll(&person(1), &devs_key(), None, 2, 1_001, 1_000),
        Err(CommunityError::NotApprovedMember)
    );
    assert_eq!(
        check_new_poll(&person(1), &devs_key(), Some(&pending(1)), 2, 1_001, 1_000),
        Err(CommunityError::NotApprovedMember)
    );
    assert_eq!(
        check_new_poll(&person(2), &devs_key(), Some(&m), 2, 1_001, 1_000),
        Err(CommunityError::NotApprovedMember)
    );
}

#[test]
fn open_poll_makes_the_poll_and_counts_it() {
    let mut c = devs();
    let made = open_poll(
        &person(1),
        &devs_key(),
        &mut c,
        &approved(1),
        "Which?".to_string(),
        options(&["a", "b", "c"]),
        2_000,
        1_000,
        252,
    );
    assert_eq!(made, Ok(poll()));
    assert_eq!(c, Community { total_polls: 1, ..devs() });
    let refused = open_poll(
        &person(1),
        &devs_key(),
        &mut c,
        &approved(1),
        "Which?".to_string(),
        options(&["a"]),
        2_000,
        1_000,
        252,
    );
    assert_eq!(refused, Err(CommunityError::InvalidOptionCount));
    assert_eq!(c.total_polls, 1);
}

#[test]
fn vote_is_checked() {
    let p = poll();
    let m = approved(2);
    assert_eq!(check_vote(&person(2), &p, Some(&m), 0, 1_999), Ok(()));
    assert_eq!(check_vote(&person(2), &p, Some(&m), 2, i64::MIN), Ok(()));
    assert_eq!(
        check_vote(&person(2), &p, Some(&m), 0, 2_000),
        Err(CommunityError::PollExpired)
    );
    assert_eq!(
        check_vote(&person(2), &p, Some(&m), 3, 1_999),
        Err(CommunityError::InvalidOptionIndex)
    );
    assert_eq!(
        check_vote(&person(2), &p, None, 0, 1_999),
        Err(CommunityError::NotApprovedMember)
    );
    assert_eq!(
        check_vote(&person(2), &p, Some(&pending(2)), 0, 1_999),
        Err(CommunityError::NotApprovedMember)
    );
    assert_eq!(
        check_vote(&person(3), &p, Some(&m), 0, 1_999),
        Err(CommunityError::NotApprovedMember)
    );
    let mut elsewhere = approved(2);
    elsewhere.community = person(101);
    assert_eq!(
        check_vote(&person(2), &p, Some(&elsewhere), 0, 1_999),
        Err(CommunityError::NotApprovedMember)
    );
    let mut closed = poll();
    closed.close();
    assert_eq!(
        check_vote(&person(2), &closed, Some(&m), 0, 1_999),
        Err(CommunityError::PollNotActive)
    );
}

#[test]
fn vote_makes_the_vote_and_counts_it() {
    let mut p = poll();
    let made = vote(&person(2), &person(7), &mut p, &approved(2), 1, 1_500, 251);
    assert_eq!(
        made,
        Ok(Vote { poll: person(7), voter: person(2), option_index: 1, voted_at: 1_500, bump: 251 })
    );
    assert_eq!(p.vote_counts, vec![0, 1, 0]);
    assert_eq!(p.total_votes, 1);
    let before = p.clone();
    let refused = vote(&person(2), &person(7), &mut p, &approved(2), 3, 1_500, 251);
    assert_eq!(refused, Err(CommunityError::InvalidOptionIndex));
    assert_eq!(p, before);
}

#[test]
fn close_is_checked_and_done() {
    assert_eq!(check_close(&person(1), &poll(), &devs()), Ok(()));
    assert_eq!(check_close(&person(9), &poll(), &devs()), Ok(()));
    assert_eq!(
        check_close(&person(2), &poll(), &devs()),
        Err(CommunityError::UnauthorizedToClose)
    );
    let mut p = poll();
    assert_eq!(close(&person(2), &mut p, &devs()), Err(CommunityError::UnauthorizedToClose));
    assert!(p.is_active);
    assert_eq!(close(&person(9), &mut p, &devs()), Ok(()));
    assert!(!p.is_active);
    assert_eq!(close(&person(1), &mut p, &devs()), Ok(()));
    assert!(!p.is_active);
}

#[test]
fn each_error_has_its_message() {
    let all = [
        (CommunityError::Unauthorized, "You are not authorized for this action"),
        (
            CommunityError::InvalidOptionCount,
            "Invalid number of options (must be between 2 and 4)",
        ),
        (CommunityError::InvalidEndTime, "Invalid end date"),
        (
            CommunityError::NotApprovedMember,
            "You are not an approved member of this community",
        ),
        (CommunityError::PollNotActive, "The poll is not active"),
        (CommunityError::PollExpired, "The poll has expired"),
        (CommunityError::InvalidOptionIndex, "Invalid option index"),
        (CommunityError::UnauthorizedToClose, "You are not authorized to close this poll"),
        (CommunityError::AlreadyVoted, "You have already voted for this poll"),
        (CommunityError::AlreadyExists, "A record already exists at this address"),
        (CommunityError::NotFound, "The record was not found"),
        (CommunityError::InvalidSeeds, "No address can be derived from these seeds"),
    ];
    for (error, text) in all {
        assert_eq!(error.message(), text);
    }
}
