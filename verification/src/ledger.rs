//! The ledgers of a meme: three bounded logs (votes, comments, donations) and
//! the two running totals that go with them.
//!
//! The totals are authoritative. A log is only a window onto the most recent
//! entries: appending never reorders what is there, and once the log is full
//! the oldest entry makes room for the newest.

use std::collections::VecDeque;
use vstd::pervasive::cloned;
use vstd::prelude::*;
use vstd::string::*;

use crate::error::Error;

verus! {

/// The largest number of points one call may add to, or take from, a score.
pub const VOTE_LIMIT: i8 = 10;

/// How many votes the vote log keeps.
pub const RECENT_VOTES_CAPACITY: usize = 10;

/// How many comments the comment log keeps.
pub const RECENT_COMMENTS_CAPACITY: usize = 10;

/// How many donations the donation log keeps.
pub const RECENT_DONATIONS_CAPACITY: usize = 10;

/// The longest comment that is accepted, in characters.
pub const MAX_COMMENT_LENGTH: usize = 500;

/// One vote as the log keeps it.
#[derive(Debug, PartialEq, Eq)]
pub struct Vote {
    pub voter: String,
    pub value: i8,
    pub timestamp: u64,
}

/// The mathematical content of a [`Vote`].
pub struct VoteView {
    pub voter: Seq<char>,
    pub value: int,
    pub timestamp: nat,
}

impl View for Vote {
    type V = VoteView;

    open spec fn view(&self) -> VoteView {
        VoteView { voter: self.voter@, value: self.value as int, timestamp: self.timestamp as nat }
    }
}

impl Clone for Vote {
    fn clone(&self) -> (r: Self)
        ensures
            r@ == self@,
    {
        Vote { voter: self.voter.clone(), value: self.value, timestamp: self.timestamp }
    }
}

/// One comment as the log keeps it.
#[derive(Debug, PartialEq, Eq)]
pub struct Comment {
    pub author: String,
    pub text: String,
    pub timestamp: u64,
}

/// The mathematical content of a [`Comment`].
pub struct CommentView {
    pub author: Seq<char>,
    pub text: Seq<char>,
    pub timestamp: nat,
}

impl View for Comment {
    type V = CommentView;

    open spec fn view(&self) -> CommentView {
        CommentView { author: self.author@, text: self.text@, timestamp: self.timestamp as nat }
    }
}

impl Clone for Comment {
    fn clone(&self) -> (r: Self)
        ensures
            r@ == self@,
    {
        Comment {
            author: self.author.clone(),
            text: self.text.clone(),
            timestamp: self.timestamp,
        }
    }
}

/// One donation as the log keeps it.
#[derive(Debug, PartialEq, Eq)]
pub struct Donation {
    pub donor: String,
    pub amount: u128,
    pub timestamp: u64,
}

/// The mathematical content of a [`Donation`].
pub struct DonationView {
    pub donor: Seq<char>,
    pub amount: nat,
    pub timestamp: nat,
}

impl View for Donation {
    type V = DonationView;

    open spec fn view(&self) -> DonationView {
        DonationView {
            donor: self.donor@,
            amount: self.amount as nat,
            timestamp: self.timestamp as nat,
        }
    }
}

impl Clone for Donation {
    fn clone(&self) -> (r: Self)
        ensures
            r@ == self@,
    {
        Donation { donor: self.donor.clone(), amount: self.amount, timestamp: self.timestamp }
    }
}

/// The views of the entries of a log, in the log's order.
pub open spec fn views<T: View>(s: Seq<T>) -> Seq<T::V> {
    s.map_values(|t: T| t@)
}

/// The last `capacity` entries of `s`, or all of `s` if it has no more than
/// that; the order is that of `s`.
pub open spec fn window<T>(s: Seq<T>, capacity: nat) -> Seq<T> {
    if s.len() <= capacity {
        s
    } else {
        s.subrange(s.len() - capacity, s.len() as int)
    }
}

/// A window is never longer than its capacity, and never longer than what it
/// was cut from: its length is the smaller of the two.
pub proof fn lemma_window_len<T>(s: Seq<T>, capacity: nat)
    ensures
        window(s, capacity).len() == if s.len() <= capacity {
            s.len()
        } else {
            capacity
        },
{
}

/// Appending to a window and cutting again gives the window of the whole
/// history: a log that only ever keeps its window loses nothing that the
/// window of the full history would show.
pub proof fn lemma_window_push<T>(s: Seq<T>, entry: T, capacity: nat)
    ensures
        window(window(s, capacity).push(entry), capacity) == window(s.push(entry), capacity),
{
    assert(window(window(s, capacity).push(entry), capacity) =~= window(
        s.push(entry),
        capacity,
    ));
}

/// Taking views commutes with appending and with cutting a window.
pub proof fn lemma_views_window_push<T: View>(s: Seq<T>, entry: T, capacity: nat)
    ensures
        views(window(s.push(entry), capacity)) == window(views(s).push(entry@), capacity),
{
    assert(views(window(s.push(entry), capacity)) =~= window(views(s).push(entry@), capacity));
}

/// Appends `entry` to `log` and evicts from the front until no more than
/// `capacity` entries are left. The entries that stay keep their order.
pub fn append_bounded<T>(log: &mut VecDeque<T>, entry: T, capacity: usize)
    ensures
        final(log)@ == window(old(log)@.push(entry), capacity as nat),
{
    if capacity == 0 {
        log.clear();
        return ;
    }
    let ghost before = log@;
    while log.len() >= capacity
        invariant
            capacity > 0,
            log@.len() <= before.len(),
            log@ == before.subrange(before.len() - log@.len(), before.len() as int),
            log@.len() >= capacity - 1 || log@.len() == before.len(),
        decreases log@.len(),
    {
        log.pop_front();
    }
    log.push_back(entry);
}

/// Copies a log into a vector, oldest entry first.
pub fn log_entries<T: Clone>(log: &VecDeque<T>) -> (out: Vec<T>)
    ensures
        out@.len() == log@.len(),
        forall|i: int| 0 <= i < out@.len() ==> cloned::<T>(#[trigger] log@[i], out@[i]),
{
    let mut out: Vec<T> = Vec::new();
    let mut i: usize = 0;
    while i < log.len()
        invariant
            i <= log@.len(),
            out@.len() == i,
            forall|j: int| 0 <= j < i ==> cloned::<T>(#[trigger] log@[j], out@[j]),
        decreases log@.len() - i,
    {
        out.push(log[i].clone());
        i += 1;
    }
    out
}

/// The ledgers of one meme.
#[derive(Debug)]
pub struct Ledger {
    vote_score: i64,
    recent_votes: VecDeque<Vote>,
    recent_comments: VecDeque<Comment>,
    donation_total: u128,
    recent_donations: VecDeque<Donation>,
}

/// The mathematical content of a [`Ledger`].
pub struct LedgerView {
    /// The sum of all votes ever accepted.
    pub vote_score: int,
    /// The most recent votes, oldest first.
    pub recent_votes: Seq<VoteView>,
    /// The most recent comments, oldest first.
    pub recent_comments: Seq<CommentView>,
    /// The sum of all donations ever accepted, less what was released.
    pub donation_total: nat,
    /// The most recent donations, oldest first.
    pub recent_donations: Seq<DonationView>,
}

impl LedgerView {
    /// The ledgers of a meme that nobody has touched yet.
    pub open spec fn empty() -> LedgerView {
        LedgerView {
            vote_score: 0,
            recent_votes: Seq::empty(),
            recent_comments: Seq::empty(),
            donation_total: 0,
            recent_donations: Seq::empty(),
        }
    }

    /// What holds of every ledger: the logs respect their capacities and the
    /// totals fit their machine representation.
    pub open spec fn inv(self) -> bool {
        &&& i64::MIN <= self.vote_score <= i64::MAX
        &&& self.donation_total <= u128::MAX
        &&& self.recent_votes.len() <= RECENT_VOTES_CAPACITY
        &&& self.recent_comments.len() <= RECENT_COMMENTS_CAPACITY
        &&& self.recent_donations.len() <= RECENT_DONATIONS_CAPACITY
    }

    /// Adds `value` to the score and logs the vote. Refused with
    /// `InvariantViolation` when the score would leave its representation.
    pub open spec fn record_vote(self, voter: Seq<char>, value: int, now: nat) -> Result<
        LedgerView,
        Error,
    > {
        if i64::MIN <= self.vote_score + value <= i64::MAX {
            Ok(
                LedgerView {
                    vote_score: self.vote_score + value,
                    recent_votes: window(
                        self.recent_votes.push(VoteView { voter, value, timestamp: now }),
                        RECENT_VOTES_CAPACITY as nat,
                    ),
                    ..self
                },
            )
        } else {
            Err(Error::InvariantViolation)
        }
    }

    /// Logs a comment. Refused with `ValidationError` when the text is longer
    /// than [`MAX_COMMENT_LENGTH`].
    pub open spec fn record_comment(self, author: Seq<char>, text: Seq<char>, now: nat) -> Result<
        LedgerView,
        Error,
    > {
        if text.len() > MAX_COMMENT_LENGTH {
            Err(Error::ValidationError)
        } else {
            Ok(
                LedgerView {
                    recent_comments: window(
                        self.recent_comments.push(CommentView { author, text, timestamp: now }),
                        RECENT_COMMENTS_CAPACITY as nat,
                    ),
                    ..self
                },
            )
        }
    }

    /// Adds `amount` to the donation total and logs the donation. Refused
    /// with `ValidationError` when the amount is not positive, and with
    /// `InvariantViolation` when the total would leave its representation.
    pub open spec fn record_donation(self, donor: Seq<char>, amount: nat, now: nat) -> Result<
        LedgerView,
        Error,
    > {
        if amount == 0 {
            Err(Error::ValidationError)
        } else if self.donation_total + amount > u128::MAX {
            Err(Error::InvariantViolation)
        } else {
            Ok(
                LedgerView {
                    donation_total: self.donation_total + amount,
                    recent_donations: window(
                        self.recent_donations.push(DonationView { donor, amount, timestamp: now }),
                        RECENT_DONATIONS_CAPACITY as nat,
                    ),
                    ..self
                },
            )
        }
    }

    /// Takes a released amount off the donation total. The logs stay as they
    /// are: they record what came in, not what is held. Refused with
    /// `InvariantViolation` when the amount exceeds the total.
    pub open spec fn settle(self, amount: nat) -> Result<LedgerView, Error> {
        if amount > self.donation_total {
            Err(Error::InvariantViolation)
        } else {
            Ok(LedgerView { donation_total: (self.donation_total - amount) as nat, ..self })
        }
    }
}

impl View for Ledger {
    type V = LedgerView;

    closed spec fn view(&self) -> LedgerView {
        LedgerView {
            vote_score: self.vote_score as int,
            recent_votes: views(self.recent_votes@),
            recent_comments: views(self.recent_comments@),
            donation_total: self.donation_total as nat,
            recent_donations: views(self.recent_donations@),
        }
    }
}

impl Ledger {
    /// Empty logs and zero totals.
    pub fn new() -> (ledger: Ledger)
        ensures
            ledger@ == LedgerView::empty(),
            ledger@.inv(),
    {
        let ledger = Ledger {
            vote_score: 0,
            recent_votes: VecDeque::new(),
            recent_comments: VecDeque::new(),
            donation_total: 0,
            recent_donations: VecDeque::new(),
        };
        assert(ledger@.recent_votes =~= Seq::empty());
        assert(ledger@.recent_comments =~= Seq::empty());
        assert(ledger@.recent_donations =~= Seq::empty());
        ledger
    }

    /// Adds a vote to the score and to the vote log.
    pub fn record_vote(&mut self, voter: &str, value: i8, now: u64) -> (r: Result<(), Error>)
        requires
            old(self)@.inv(),
        ensures
            final(self)@.inv(),
            match r {
                Ok(()) => old(self)@.record_vote(voter@, value as int, now as nat) == Ok::<
                    LedgerView,
                    Error,
                >(final(self)@),
                Err(e) => old(self)@.record_vote(voter@, value as int, now as nat) == Err::<
                    LedgerView,
                    Error,
                >(e) && final(self)@ == old(self)@,
            },
    {
        match self.vote_score.checked_add(value as i64) {
            None => Err(Error::InvariantViolation),
            Some(score) => {
                let vote = Vote { voter: voter.to_owned(), value, timestamp: now };
                proof {
                    lemma_views_window_push(
                        self.recent_votes@,
                        vote,
                        RECENT_VOTES_CAPACITY as nat,
                    );
                }
                self.vote_score = score;
                append_bounded(&mut self.recent_votes, vote, RECENT_VOTES_CAPACITY);
                Ok(())
            },
        }
    }

    /// Adds a comment to the comment log.
    pub fn record_comment(&mut self, author: &str, text: &str, now: u64) -> (r: Result<(), Error>)
        requires
            old(self)@.inv(),
        ensures
            final(self)@.inv(),
            match r {
                Ok(()) => old(self)@.record_comment(author@, text@, now as nat) == Ok::<
                    LedgerView,
                    Error,
                >(final(self)@),
                Err(e) => old(self)@.record_comment(author@, text@, now as nat) == Err::<
                    LedgerView,
                    Error,
                >(e) && final(self)@ == old(self)@,
            },
    {
        if text.unicode_len() > MAX_COMMENT_LENGTH {
            return Err(Error::ValidationError);
        }
        let comment = Comment { author: author.to_owned(), text: text.to_owned(), timestamp: now };
        proof {
            lemma_views_window_push(
                self.recent_comments@,
                comment,
                RECENT_COMMENTS_CAPACITY as nat,
            );
        }
        append_bounded(&mut self.recent_comments, comment, RECENT_COMMENTS_CAPACITY);
        Ok(())
    }

    /// Adds a donation to the total and to the donation log.
    pub fn record_donation(&mut self, donor: &str, amount: u128, now: u64) -> (r: Result<
        (),
        Error,
    >)
        requires
            old(self)@.inv(),
        ensures
            final(self)@.inv(),
            match r {
                Ok(()) => old(self)@.record_donation(donor@, amount as nat, now as nat) == Ok::<
                    LedgerView,
                    Error,
                >(final(self)@),
                Err(e) => old(self)@.record_donation(donor@, amount as nat, now as nat) == Err::<
                    LedgerView,
                    Error,
                >(e) && final(self)@ == old(self)@,
            },
    {
        if amount == 0 {
            return Err(Error::ValidationError);
        }
        match self.donation_total.checked_add(amount) {
            None => Err(Error::InvariantViolation),
            Some(total) => {
                let donation = Donation { donor: donor.to_owned(), amount, timestamp: now };
                proof {
                    lemma_views_window_push(
                        self.recent_donations@,
                        donation,
                        RECENT_DONATIONS_CAPACITY as nat,
                    );
                }
                self.donation_total = total;
                append_bounded(&mut self.recent_donations, donation, RECENT_DONATIONS_CAPACITY);
                Ok(())
            },
        }
    }

    /// Takes a released amount off the donation total.
    pub fn settle(&mut self, amount: u128) -> (r: Result<(), Error>)
        requires
            old(self)@.inv(),
        ensures
            final(self)@.inv(),
            match r {
                Ok(()) => old(self)@.settle(amount as nat) == Ok::<LedgerView, Error>(
                    final(self)@,
                ),
                Err(e) => old(self)@.settle(amount as nat) == Err::<LedgerView, Error>(e)
                    && final(self)@ == old(self)@,
            },
    {
        if amount > self.donation_total {
            return Err(Error::InvariantViolation);
        }
        self.donation_total = self.donation_total - amount;
        Ok(())
    }

    /// The sum of all votes ever accepted.
    pub fn vote_score(&self) -> (r: i64)
        ensures
            r == self@.vote_score,
    {
        self.vote_score
    }

    /// What the meme holds in donations.
    pub fn donation_total(&self) -> (r: u128)
        ensures
            r == self@.donation_total,
    {
        self.donation_total
    }

    /// The most recent votes, oldest first.
    pub fn recent_votes(&self) -> (r: Vec<Vote>)
        ensures
            views(r@) == self@.recent_votes,
    {
        let r = log_entries(&self.recent_votes);
        assert(views(r@) =~= views(self.recent_votes@));
        r
    }

    /// The most recent comments, oldest first.
    pub fn recent_comments(&self) -> (r: Vec<Comment>)
        ensures
            views(r@) == self@.recent_comments,
    {
        let r = log_entries(&self.recent_comments);
        assert(views(r@) =~= views(self.recent_comments@));
        r
    }

    /// The most recent donations, oldest first.
    pub fn recent_donations(&self) -> (r: Vec<Donation>)
        ensures
            views(r@) == self@.recent_donations,
    {
        let r = log_entries(&self.recent_donations);
        assert(views(r@) =~= views(self.recent_donations@));
        r
    }
}

} // verus!
