use meme_museum::context::Context;
use meme_museum::dispatch::{Dispatch, ViewFn};
use meme_museum::error::Error;
use meme_museum::ledger::{
    Comment, Donation, Vote, MAX_COMMENT_LENGTH, RECENT_COMMENTS_CAPACITY,
    RECENT_DONATIONS_CAPACITY, RECENT_VOTES_CAPACITY, VOTE_LIMIT,
};
use meme_museum::meme::{Meme, ViewResult};
use meme_museum::pending::OpKind;
use meme_museum::state::{Category, Lifecycle, Outcome};

const ADDRESS: &str = "usain.museum";

fn by(caller: &str, attached: u128, now: u64) -> Context {
    Context::new(caller, ADDRESS, attached, now)
}

fn from_host() -> Context {
    Context::new(ADDRESS, ADDRESS, 0, 99)
}

fn fresh() -> Meme {
    Meme::init(None, &by("museum", 0, 1), "usain refrain", "https://9gag.com/gag/ayMDG8Y", 0)
        .unwrap()
}

#[test]
fn init_zeroes_the_ledgers() {
    let meme = fresh();
    let info = meme.get_meme();
    assert_eq!(info.name, "usain.museum");
    assert_eq!(info.title, "usain refrain");
    assert_eq!(info.data, "https://9gag.com/gag/ayMDG8Y");
    assert_eq!(info.category, Category::A);
    assert_eq!(info.creator, "museum");
    assert_eq!(info.vote_score, 0);
    assert!(info.recent_votes.is_empty());
    assert!(info.recent_comments.is_empty());
    assert_eq!(info.donation_total, 0);
    assert!(info.recent_donations.is_empty());
    assert_eq!(info.lifecycle, Lifecycle::Active);
    assert!(!info.release_in_flight);
}

#[test]
fn init_takes_the_four_categories_only() {
    let ctx = by("museum", 0, 1);
    let expected = [Category::A, Category::B, Category::C, Category::D];
    for code in 0..4u8 {
        let meme = Meme::init(None, &ctx, "t", "d", code).unwrap();
        assert_eq!(meme.get_meme().category, expected[code as usize]);
    }
    assert_eq!(Meme::init(None, &ctx, "t", "d", 4).err(), Some(Error::ValidationError));
    assert_eq!(Meme::init(None, &ctx, "t", "d", 255).err(), Some(Error::ValidationError));
}

#[test]
fn init_twice_is_once_only_for_a_meme() {
    let meme = fresh();
    let ctx = by("museum", 0, 1);
    assert_eq!(Meme::init(Some(&meme), &ctx, "t", "d", 0).err(), Some(Error::OnceOnly));
    assert_eq!(Meme::init(Some(&meme), &ctx, "t", "d", 9).err(), Some(Error::OnceOnly));
}

#[test]
fn category_codes_round_trip() {
    for code in 0..=255u8 {
        match Category::from_code(code) {
            Some(category) => assert_eq!(category.code(), code),
            None => assert!(code > 3),
        }
    }
    assert_eq!(Category::from_code(2), Some(Category::C));
    assert_eq!(Category::D.code(), 3);
}

#[test]
fn votes_add_up() {
    let mut meme = fresh();
    let values: [i8; 6] = [1, -1, 3, VOTE_LIMIT, -VOTE_LIMIT, 5];
    let mut sum: i64 = 0;
    for (i, value) in values.iter().enumerate() {
        assert_eq!(meme.vote(&by("bob", 0, i as u64), *value), Ok(()));
        sum += *value as i64;
        assert_eq!(meme.get_vote_score(), sum);
    }
    assert_eq!(meme.get_vote_score(), 8);
    let votes = meme.get_recent_votes();
    assert_eq!(votes.len(), 6);
    assert_eq!(votes[2], Vote { voter: "bob".to_string(), value: 3, timestamp: 2 });
}

#[test]
fn the_same_account_may_vote_again() {
    let mut meme = fresh();
    assert_eq!(meme.vote(&by("bob", 0, 1), 1), Ok(()));
    assert_eq!(meme.vote(&by("bob", 0, 2), 1), Ok(()));
    assert_eq!(meme.get_vote_score(), 2);
    assert_eq!(meme.get_recent_votes().len(), 2);
}

#[test]
fn votes_outside_the_limit_are_refused() {
    let mut meme = fresh();
    let ctx = by("bob", 0, 1);
    assert_eq!(VOTE_LIMIT, 10);
    assert_eq!(meme.vote(&ctx, 11), Err(Error::ValidationError));
    assert_eq!(meme.vote(&ctx, -11), Err(Error::ValidationError));
    assert_eq!(meme.vote(&ctx, i8::MAX), Err(Error::ValidationError));
    assert_eq!(meme.vote(&ctx, i8::MIN), Err(Error::ValidationError));
    assert_eq!(meme.batch_vote(&ctx, 11, true), Err(Error::ValidationError));
    assert_eq!(meme.batch_vote(&ctx, -11, false), Err(Error::ValidationError));
    assert_eq!(meme.get_vote_score(), 0);
    assert!(meme.get_recent_votes().is_empty());
    assert_eq!(meme.vote(&ctx, 0), Ok(()));
    assert_eq!(meme.get_recent_votes().len(), 1);
}

#[test]
fn batch_votes_follow_the_rule_of_votes() {
    let mut meme = fresh();
    assert_eq!(meme.batch_vote(&by("bob", 0, 1), 7, true), Ok(()));
    assert_eq!(meme.batch_vote(&by("bob", 0, 2), -2, false), Ok(()));
    assert_eq!(meme.get_vote_score(), 5);
    assert_eq!(
        meme.get_recent_votes(),
        vec![
            Vote { voter: "bob".to_string(), value: 7, timestamp: 1 },
            Vote { voter: "bob".to_string(), value: -2, timestamp: 2 },
        ]
    );
}

#[test]
fn the_vote_log_keeps_the_last_votes_in_call_order() {
    let mut meme = fresh();
    let n = RECENT_VOTES_CAPACITY + 5;
    for i in 0..n {
        let value: i8 = if i % 2 == 0 { 1 } else { -1 };
        assert_eq!(meme.vote(&by(&format!("voter{}", i), 0, i as u64), value), Ok(()));
        let expected_len = if i + 1 < RECENT_VOTES_CAPACITY { i + 1 } else { RECENT_VOTES_CAPACITY };
        assert_eq!(meme.get_recent_votes().len(), expected_len);
    }
    assert_eq!(meme.get_vote_score(), 1);
    let votes = meme.get_recent_votes();
    assert_eq!(votes.len(), RECENT_VOTES_CAPACITY);
    for (k, vote) in votes.iter().enumerate() {
        let i = n - RECENT_VOTES_CAPACITY + k;
        assert_eq!(vote.voter, format!("voter{}", i));
        assert_eq!(vote.timestamp, i as u64);
        assert_eq!(vote.value, if i % 2 == 0 { 1 } else { -1 });
    }
}

#[test]
fn comments_are_logged_with_author_and_time() {
    let mut meme = fresh();
    assert_eq!(meme.add_comment(&by("bob", 0, 5), "nice"), Ok(()));
    assert_eq!(meme.add_comment(&by("carol", 0, 6), ""), Ok(()));
    assert_eq!(
        meme.get_recent_comments(),
        vec![
            Comment { author: "bob".to_string(), text: "nice".to_string(), timestamp: 5 },
            Comment { author: "carol".to_string(), text: "".to_string(), timestamp: 6 },
        ]
    );
}

#[test]
fn oversize_comments_are_refused() {
    let mut meme = fresh();
    let ctx = by("bob", 0, 5);
    assert_eq!(MAX_COMMENT_LENGTH, 500);
    let longest = "x".repeat(MAX_COMMENT_LENGTH);
    let too_long = "x".repeat(MAX_COMMENT_LENGTH + 1);
    assert_eq!(meme.add_comment(&ctx, &too_long), Err(Error::ValidationError));
    assert!(meme.get_recent_comments().is_empty());
    assert_eq!(meme.add_comment(&ctx, &longest), Ok(()));
    assert_eq!(meme.get_recent_comments().len(), 1);
    // the length is counted in characters, not in bytes
    let wide = "é".repeat(MAX_COMMENT_LENGTH);
    assert!(wide.len() > MAX_COMMENT_LENGTH);
    assert_eq!(meme.add_comment(&ctx, &wide), Ok(()));
    let too_wide = "é".repeat(MAX_COMMENT_LENGTH + 1);
    assert_eq!(meme.add_comment(&ctx, &too_wide), Err(Error::ValidationError));
    assert_eq!(meme.get_recent_comments().len(), 2);
}

#[test]
fn the_comment_log_is_bounded() {
    let mut meme = fresh();
    for i in 0..(RECENT_COMMENTS_CAPACITY + 3) {
        assert_eq!(meme.add_comment(&by("bob", 0, i as u64), &format!("c{}", i)), Ok(()));
    }
    let comments = meme.get_recent_comments();
    assert_eq!(comments.len(), RECENT_COMMENTS_CAPACITY);
    assert_eq!(comments[0].text, "c3");
    assert_eq!(comments[RECENT_COMMENTS_CAPACITY - 1].text, format!("c{}", RECENT_COMMENTS_CAPACITY + 2));
}

#[test]
fn donations_add_up() {
    let mut meme = fresh();
    assert_eq!(meme.donate(&by("bob", 3, 1)), Ok(()));
    assert_eq!(meme.donate(&by("carol", 5, 2)), Ok(()));
    assert_eq!(meme.get_donations_total(), 8);
    assert_eq!(
        meme.get_recent_donations(),
        vec![
            Donation { donor: "bob".to_string(), amount: 3, timestamp: 1 },
            Donation { donor: "carol".to_string(), amount: 5, timestamp: 2 },
        ]
    );
}

#[test]
fn an_empty_donation_is_refused() {
    let mut meme = fresh();
    assert_eq!(meme.donate(&by("bob", 4, 1)), Ok(()));
    assert_eq!(meme.donate(&by("bob", 0, 2)), Err(Error::ValidationError));
    assert_eq!(meme.get_donations_total(), 4);
    assert_eq!(meme.get_recent_donations().len(), 1);
}

#[test]
fn a_donation_that_does_not_fit_is_refused() {
    let mut meme = fresh();
    assert_eq!(meme.donate(&by("bob", u128::MAX, 1)), Ok(()));
    assert_eq!(meme.donate(&by("bob", 1, 2)), Err(Error::InvariantViolation));
    assert_eq!(meme.get_donations_total(), u128::MAX);
    assert_eq!(meme.get_recent_donations().len(), 1);
}

#[test]
fn the_donation_log_is_bounded_and_the_total_is_not() {
    let mut meme = fresh();
    let n = RECENT_DONATIONS_CAPACITY as u128 + 4;
    for i in 1..=n {
        assert_eq!(meme.donate(&by("bob", i, i as u64)), Ok(()));
    }
    assert_eq!(meme.get_donations_total(), n * (n + 1) / 2);
    let donations = meme.get_recent_donations();
    assert_eq!(donations.len(), RECENT_DONATIONS_CAPACITY);
    assert_eq!(donations[0].amount, 5);
    assert_eq!(donations[RECENT_DONATIONS_CAPACITY - 1].amount, n);
}

#[test]
fn release_sends_the_total_and_waits() {
    let mut meme = fresh();
    meme.donate(&by("bob", 3, 1)).unwrap();
    let res = meme.release_donations(&by("museum", 0, 2), "alice");
    assert_eq!(res, Ok(Dispatch::Transfer { to: "alice".to_string(), amount: 3 }));
    assert!(meme.get_meme().release_in_flight);
    // the total is settled only by the callback
    assert_eq!(meme.get_donations_total(), 3);
}

#[test]
fn a_second_release_conflicts_with_the_first() {
    let mut meme = fresh();
    meme.donate(&by("bob", 3, 1)).unwrap();
    assert!(meme.release_donations(&by("museum", 0, 2), "alice").is_ok());
    assert_eq!(meme.release_donations(&by("museum", 0, 3), "alice"), Err(Error::ConflictError));
    assert_eq!(meme.release_donations(&by("carol", 0, 3), "carol"), Err(Error::ConflictError));
    assert_eq!(meme.get_donations_total(), 3);
    assert!(meme.get_meme().release_in_flight);
    // the first release is still the one that is settled
    assert_eq!(meme.on_donations_released(&from_host(), Outcome::Success), Ok(()));
    assert_eq!(meme.get_donations_total(), 0);
}

#[test]
fn a_successful_release_takes_the_amount_dispatched() {
    let mut meme = fresh();
    meme.donate(&by("bob", 3, 1)).unwrap();
    meme.donate(&by("bob", 5, 2)).unwrap();
    assert!(meme.release_donations(&by("museum", 0, 3), "alice").is_ok());
    // a donation arrives between dispatch and callback
    meme.donate(&by("carol", 4, 4)).unwrap();
    let log = meme.get_recent_donations();
    assert_eq!(meme.on_donations_released(&from_host(), Outcome::Success), Ok(()));
    assert_eq!(meme.get_donations_total(), 4);
    assert!(!meme.get_meme().release_in_flight);
    assert_eq!(meme.get_recent_donations(), log);
    // and a new release can start
    assert_eq!(
        meme.release_donations(&by("museum", 0, 5), "alice"),
        Ok(Dispatch::Transfer { to: "alice".to_string(), amount: 4 })
    );
}

#[test]
fn a_failed_release_rolls_back() {
    let mut meme = fresh();
    meme.donate(&by("bob", 3, 1)).unwrap();
    assert!(meme.release_donations(&by("museum", 0, 3), "alice").is_ok());
    let log = meme.get_recent_donations();
    assert_eq!(meme.on_donations_released(&from_host(), Outcome::Failure), Ok(()));
    assert_eq!(meme.get_donations_total(), 3);
    assert!(!meme.get_meme().release_in_flight);
    assert_eq!(meme.get_recent_donations(), log);
}

#[test]
fn a_release_callback_is_for_the_host_and_for_a_release() {
    let mut meme = fresh();
    meme.donate(&by("bob", 3, 1)).unwrap();
    // nothing is in flight
    assert_eq!(meme.on_donations_released(&from_host(), Outcome::Success), Err(Error::NotFound));
    assert!(meme.release_donations(&by("museum", 0, 3), "alice").is_ok());
    // not the host
    assert_eq!(
        meme.on_donations_released(&by("alice", 0, 4), Outcome::Success),
        Err(Error::PermissionDenied)
    );
    assert_eq!(meme.get_donations_total(), 3);
    assert!(meme.get_meme().release_in_flight);
    assert_eq!(meme.on_donations_released(&from_host(), Outcome::Success), Ok(()));
    // delivered twice
    assert_eq!(meme.on_donations_released(&from_host(), Outcome::Success), Err(Error::NotFound));
    assert_eq!(meme.get_donations_total(), 0);
}

#[test]
fn a_removing_meme_refuses_every_mutating_call() {
    let mut meme = fresh();
    meme.donate(&by("bob", 3, 1)).unwrap();
    assert_eq!(
        meme.teardown(&by("museum", 0, 2)),
        Ok(Dispatch::Transfer { to: "museum".to_string(), amount: 3 })
    );
    assert_eq!(meme.get_meme().lifecycle, Lifecycle::Removing);
    let ctx = by("bob", 1, 3);
    assert_eq!(meme.vote(&ctx, 1), Err(Error::ConflictError));
    assert_eq!(meme.vote(&ctx, 100), Err(Error::ConflictError));
    assert_eq!(meme.batch_vote(&ctx, 1, true), Err(Error::ConflictError));
    assert_eq!(meme.add_comment(&ctx, "hi"), Err(Error::ConflictError));
    assert_eq!(meme.donate(&ctx), Err(Error::ConflictError));
    assert_eq!(meme.donate(&by("bob", 0, 3)), Err(Error::ConflictError));
    assert_eq!(meme.release_donations(&ctx, "alice"), Err(Error::ConflictError));
    assert_eq!(meme.teardown(&by("museum", 0, 4)), Err(Error::ConflictError));
    assert_eq!(meme.get_vote_score(), 0);
    assert_eq!(meme.get_donations_total(), 3);
    assert!(meme.get_recent_comments().is_empty());
    // reading still works
    assert_eq!(meme.view_of(ViewFn::GetDonationsTotal), ViewResult::DonationsTotal(3));
}

#[test]
fn teardown_and_restore_are_for_the_creator() {
    let mut meme = fresh();
    assert_eq!(meme.teardown(&by("bob", 0, 2)), Err(Error::PermissionDenied));
    assert_eq!(meme.restore(&by("bob", 0, 2), Lifecycle::Removing), Err(Error::PermissionDenied));
    assert_eq!(meme.get_meme().lifecycle, Lifecycle::Active);
    assert!(meme.teardown(&by("museum", 0, 2)).is_ok());
    assert_eq!(meme.restore(&by("museum", 0, 3), Lifecycle::Active), Ok(()));
    assert_eq!(meme.get_meme().lifecycle, Lifecycle::Active);
    assert_eq!(meme.vote(&by("bob", 0, 4), 1), Ok(()));
}

#[test]
fn teardown_hands_back_what_is_not_already_on_its_way() {
    let mut meme = fresh();
    meme.donate(&by("bob", 10, 1)).unwrap();
    assert!(meme.release_donations(&by("museum", 0, 2), "alice").is_ok());
    meme.donate(&by("bob", 7, 3)).unwrap();
    assert_eq!(
        meme.teardown(&by("museum", 0, 4)),
        Ok(Dispatch::Transfer { to: "museum".to_string(), amount: 7 })
    );
    // the release in flight is still settled while the meme is removing
    assert_eq!(meme.on_donations_released(&from_host(), Outcome::Success), Ok(()));
    assert_eq!(meme.get_donations_total(), 7);
}

#[test]
fn views_answer_queries() {
    let mut meme = fresh();
    meme.vote(&by("bob", 0, 1), 2).unwrap();
    meme.add_comment(&by("bob", 0, 2), "nice").unwrap();
    meme.donate(&by("bob", 6, 3)).unwrap();
    assert_eq!(meme.view_of(ViewFn::GetVoteScore), ViewResult::VoteScore(2));
    assert_eq!(meme.view_of(ViewFn::GetDonationsTotal), ViewResult::DonationsTotal(6));
    assert_eq!(meme.view_of(ViewFn::GetRecentVotes), ViewResult::RecentVotes(meme.get_recent_votes()));
    assert_eq!(
        meme.view_of(ViewFn::GetRecentComments),
        ViewResult::RecentComments(meme.get_recent_comments())
    );
    assert_eq!(
        meme.view_of(ViewFn::GetRecentDonations),
        ViewResult::RecentDonations(meme.get_recent_donations())
    );
    assert_eq!(meme.view_of(ViewFn::GetMeme), ViewResult::Meme(meme.get_meme()));
    let info = meme.get_meme();
    assert_eq!(info.vote_score, 2);
    assert_eq!(info.donation_total, 6);
    assert_eq!(info.recent_comments.len(), 1);
}

#[test]
fn resolve_settles_the_release_under_its_identity_only() {
    let mut meme = fresh();
    meme.donate(&by("bob", 9, 1)).unwrap();
    assert!(meme.release_donations(&by("museum", 0, 2), "alice").is_ok());
    let host = from_host();
    assert_eq!(
        meme.resolve(&host, OpKind::ReleaseDonations, "bob", Outcome::Success),
        Err(Error::NotFound)
    );
    assert_eq!(
        meme.resolve(&host, OpKind::CreateExhibit, "alice", Outcome::Success),
        Err(Error::NotFound)
    );
    assert_eq!(
        meme.resolve(&host, OpKind::RemoveExhibit, "alice", Outcome::Success),
        Err(Error::NotFound)
    );
    assert_eq!(
        meme.resolve(&by("alice", 0, 3), OpKind::ReleaseDonations, "alice", Outcome::Success),
        Err(Error::PermissionDenied)
    );
    assert_eq!(meme.get_donations_total(), 9);
    assert!(meme.get_meme().release_in_flight);
    assert_eq!(meme.resolve(&host, OpKind::ReleaseDonations, "alice", Outcome::Success), Ok(()));
    assert_eq!(meme.get_donations_total(), 0);
    assert_eq!(
        meme.resolve(&host, OpKind::ReleaseDonations, "alice", Outcome::Success),
        Err(Error::NotFound)
    );
}

#[test]
fn a_release_of_nothing_is_still_a_release() {
    let mut meme = fresh();
    assert_eq!(
        meme.release_donations(&by("museum", 0, 2), "alice"),
        Ok(Dispatch::Transfer { to: "alice".to_string(), amount: 0 })
    );
    assert!(meme.get_meme().release_in_flight);
    assert_eq!(meme.on_donations_released(&from_host(), Outcome::Success), Ok(()));
    assert_eq!(meme.get_donations_total(), 0);
}
