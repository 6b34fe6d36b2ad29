//! What follows from the rules of a meme, over any number of calls.

use vstd::prelude::*;

use crate::context::ContextView;
use crate::dispatch::DispatchView;
use crate::error::Error;
use crate::ledger::{
    lemma_window_len, lemma_window_push, window, DonationView, LedgerView, VoteView,
    RECENT_DONATIONS_CAPACITY, RECENT_VOTES_CAPACITY,
};
use crate::meme::MemeView;
use crate::state::{Lifecycle, Outcome};

verus! {

/// One call of `vote`: who calls and when, and the value.
pub struct VoteCall {
    pub ctx: ContextView,
    pub value: int,
}

/// The sum of the values of a series of votes.
pub open spec fn votes_sum(calls: Seq<VoteCall>) -> int
    decreases calls.len(),
{
    if calls.len() == 0 {
        0
    } else {
        votes_sum(calls.drop_last()) + calls.last().value
    }
}

/// The log entries that a series of votes leaves, in call order.
pub open spec fn votes_logged(calls: Seq<VoteCall>) -> Seq<VoteView> {
    Seq::new(
        calls.len(),
        |i: int|
            VoteView { voter: calls[i].ctx.caller, value: calls[i].value, timestamp: calls[i].ctx.now },
    )
}

/// The sum of the payments attached to a series of donations.
pub open spec fn donations_sum(calls: Seq<ContextView>) -> nat
    decreases calls.len(),
{
    if calls.len() == 0 {
        0
    } else {
        donations_sum(calls.drop_last()) + calls.last().attached
    }
}

/// The log entries that a series of donations leaves, in call order.
pub open spec fn donations_logged(calls: Seq<ContextView>) -> Seq<DonationView> {
    Seq::new(
        calls.len(),
        |i: int|
            DonationView { donor: calls[i].caller, amount: calls[i].attached, timestamp: calls[i].now },
    )
}

impl MemeView {
    /// The meme after a series of votes, each of them accepted; the first
    /// refusal, if one is refused.
    pub open spec fn vote_all(self, calls: Seq<VoteCall>) -> Result<MemeView, Error>
        decreases calls.len(),
    {
        if calls.len() == 0 {
            Ok(self)
        } else {
            match self.vote_all(calls.drop_last()) {
                Ok(meme) => meme.vote(calls.last().ctx, calls.last().value),
                Err(e) => Err(e),
            }
        }
    }

    /// The meme after a series of donations, each of them accepted; the
    /// first refusal, if one is refused.
    pub open spec fn donate_all(self, calls: Seq<ContextView>) -> Result<MemeView, Error>
        decreases calls.len(),
    {
        if calls.len() == 0 {
            Ok(self)
        } else {
            match self.donate_all(calls.drop_last()) {
                Ok(meme) => meme.donate(calls.last()),
                Err(e) => Err(e),
            }
        }
    }
}

/// Every transition of a meme keeps its invariant.
pub proof fn lemma_meme_inv_kept(
    meme: MemeView,
    ctx: ContextView,
    value: int,
    text: Seq<char>,
    account: Seq<char>,
    outcome: Outcome,
    lifecycle: Lifecycle,
)
    requires
        meme.inv(),
    ensures
        MemeView::init(false, ctx, text, text, value) matches Ok(m) ==> m.inv(),
        meme.vote(ctx, value) matches Ok(m) ==> m.inv(),
        meme.add_comment(ctx, text) matches Ok(m) ==> m.inv(),
        meme.donate(ctx) matches Ok(m) ==> m.inv(),
        meme.release_donations(ctx, account) matches Ok(p) ==> p.0.inv(),
        meme.on_donations_released(ctx, outcome) matches Ok(m) ==> m.inv(),
        meme.teardown(ctx) matches Ok(p) ==> p.0.inv(),
        meme.restore(ctx, lifecycle) matches Ok(m) ==> m.inv(),
{
    lemma_window_len(
        meme.ledger.recent_votes.push(
            VoteView { voter: ctx.caller, value, timestamp: ctx.now },
        ),
        RECENT_VOTES_CAPACITY as nat,
    );
    lemma_window_len(
        meme.ledger.recent_comments.push(
            crate::ledger::CommentView { author: ctx.caller, text, timestamp: ctx.now },
        ),
        crate::ledger::RECENT_COMMENTS_CAPACITY as nat,
    );
    lemma_window_len(
        meme.ledger.recent_donations.push(
            DonationView { donor: ctx.caller, amount: ctx.attached, timestamp: ctx.now },
        ),
        RECENT_DONATIONS_CAPACITY as nat,
    );
}

/// A meme whose removal is under way refuses votes, comments, donations and
/// releases with `ConflictError`, whatever their arguments.
pub proof fn lemma_removing_refuses(
    meme: MemeView,
    ctx: ContextView,
    value: int,
    text: Seq<char>,
    account: Seq<char>,
)
    requires
        meme.lifecycle == Lifecycle::Removing,
    ensures
        meme.vote(ctx, value) == Err::<MemeView, Error>(Error::ConflictError),
        meme.add_comment(ctx, text) == Err::<MemeView, Error>(Error::ConflictError),
        meme.donate(ctx) == Err::<MemeView, Error>(Error::ConflictError),
        meme.release_donations(ctx, account) == Err::<(MemeView, DispatchView), Error>(
            Error::ConflictError,
        ),
{
}

/// After any number of accepted votes the score has grown by exactly the sum
/// of their values, and the vote log is the window onto the last entries of
/// what it held before followed by the new votes in call order. Nothing else
/// has changed.
pub proof fn lemma_votes_accumulate(meme: MemeView, calls: Seq<VoteCall>)
    requires
        meme.inv(),
        meme.vote_all(calls) is Ok,
    ensures
        meme.vote_all(calls)->Ok_0 == (MemeView {
            ledger: LedgerView {
                vote_score: meme.ledger.vote_score + votes_sum(calls),
                recent_votes: window(
                    meme.ledger.recent_votes + votes_logged(calls),
                    RECENT_VOTES_CAPACITY as nat,
                ),
                ..meme.ledger
            },
            ..meme
        }),
    decreases calls.len(),
{
    if calls.len() == 0 {
        assert(meme.ledger.recent_votes + votes_logged(calls) =~= meme.ledger.recent_votes);
    } else {
        let before = calls.drop_last();
        let last = calls.last();
        let entry = VoteView { voter: last.ctx.caller, value: last.value, timestamp: last.ctx.now };
        lemma_votes_accumulate(meme, before);
        let history = meme.ledger.recent_votes + votes_logged(before);
        assert(history.push(entry) =~= meme.ledger.recent_votes + votes_logged(calls));
        lemma_window_push(history, entry, RECENT_VOTES_CAPACITY as nat);
    }
}

/// On a meme that has taken no vote yet, after `n` accepted votes the score
/// is the sum of their values, and the vote log holds the last `n` of them,
/// or as many as its capacity allows if that is fewer, in call order.
pub proof fn lemma_votes_from_fresh(meme: MemeView, calls: Seq<VoteCall>)
    requires
        meme.inv(),
        meme.ledger == LedgerView::empty(),
        meme.vote_all(calls) is Ok,
    ensures
        ({
            let after = meme.vote_all(calls)->Ok_0.ledger;
            let kept = if calls.len() <= RECENT_VOTES_CAPACITY {
                calls.len()
            } else {
                RECENT_VOTES_CAPACITY as nat
            };
            &&& after.vote_score == votes_sum(calls)
            &&& after.recent_votes.len() == kept
            &&& forall|i: int|
                0 <= i < kept ==> after.recent_votes[i] == votes_logged(calls)[calls.len() - kept
                    + i]
        }),
{
    lemma_votes_accumulate(meme, calls);
    assert(meme.ledger.recent_votes + votes_logged(calls) =~= votes_logged(calls));
    lemma_window_len(votes_logged(calls), RECENT_VOTES_CAPACITY as nat);
}

/// A donation with nothing attached is refused with `ValidationError`.
pub proof fn lemma_empty_donation_refused(meme: MemeView, ctx: ContextView)
    requires
        meme.lifecycle == Lifecycle::Active,
        ctx.attached == 0,
    ensures
        meme.donate(ctx) == Err::<MemeView, Error>(Error::ValidationError),
{
}

/// After any number of accepted donations the total has grown by exactly the
/// sum of the attached payments, and the donation log is the window onto the
/// last entries of what it held before followed by the new donations in call
/// order. Nothing else has changed.
pub proof fn lemma_donations_accumulate(meme: MemeView, calls: Seq<ContextView>)
    requires
        meme.inv(),
        meme.donate_all(calls) is Ok,
    ensures
        meme.donate_all(calls)->Ok_0 == (MemeView {
            ledger: LedgerView {
                donation_total: meme.ledger.donation_total + donations_sum(calls),
                recent_donations: window(
                    meme.ledger.recent_donations + donations_logged(calls),
                    RECENT_DONATIONS_CAPACITY as nat,
                ),
                ..meme.ledger
            },
            ..meme
        }),
    decreases calls.len(),
{
    if calls.len() == 0 {
        assert(meme.ledger.recent_donations + donations_logged(calls)
            =~= meme.ledger.recent_donations);
    } else {
        let before = calls.drop_last();
        let last = calls.last();
        let entry = DonationView { donor: last.caller, amount: last.attached, timestamp: last.now };
        lemma_donations_accumulate(meme, before);
        let history = meme.ledger.recent_donations + donations_logged(before);
        assert(history.push(entry) =~= meme.ledger.recent_donations + donations_logged(calls));
        lemma_window_push(history, entry, RECENT_DONATIONS_CAPACITY as nat);
    }
}

/// On a meme that has taken no donation yet, after any number of accepted
/// donations the total is the sum of the attached payments.
pub proof fn lemma_donations_from_fresh(meme: MemeView, calls: Seq<ContextView>)
    requires
        meme.inv(),
        meme.ledger == LedgerView::empty(),
        meme.donate_all(calls) is Ok,
    ensures
        meme.donate_all(calls)->Ok_0.ledger.donation_total == donations_sum(calls),
{
    lemma_donations_accumulate(meme, calls);
}

/// While a release is in flight a second release is refused with
/// `ConflictError`, whoever asks and whatever the target.
pub proof fn lemma_second_release_refused(
    meme: MemeView,
    first: ContextView,
    account: Seq<char>,
    second: ContextView,
    other: Seq<char>,
)
    requires
        meme.release_donations(first, account) is Ok,
    ensures
        (meme.release_donations(first, account)->Ok_0).0.release_donations(second, other) == Err::<
            (MemeView, DispatchView),
            Error,
        >(Error::ConflictError),
{
}

/// A release, then any number of accepted donations, then the callback that
/// reports success: the transfer that went out carried the total held at
/// dispatch; the callback takes exactly that amount off the total held when
/// it arrives, so that what came in meanwhile stays; no release is in flight
/// any more; and the donation log is what it was before the callback.
pub proof fn lemma_release_settles(
    meme: MemeView,
    release: ContextView,
    account: Seq<char>,
    donations: Seq<ContextView>,
    callback: ContextView,
)
    requires
        meme.inv(),
        meme.release_donations(release, account) is Ok,
        (meme.release_donations(release, account)->Ok_0).0.donate_all(donations) is Ok,
        callback.is_callback(),
    ensures
        ({
            let dispatched = meme.release_donations(release, account)->Ok_0;
            let before = dispatched.0.donate_all(donations)->Ok_0;
            let after = before.on_donations_released(callback, Outcome::Success);
            &&& dispatched.1 == (DispatchView::Transfer {
                to: account,
                amount: meme.ledger.donation_total,
            })
            &&& after is Ok
            &&& after->Ok_0.ledger.donation_total == before.ledger.donation_total
                - meme.ledger.donation_total
            &&& after->Ok_0.ledger.donation_total == donations_sum(donations)
            &&& after->Ok_0.ledger.recent_donations == before.ledger.recent_donations
            &&& !after->Ok_0.release_in_flight()
        }),
{
    let dispatched = meme.release_donations(release, account)->Ok_0;
    lemma_donations_accumulate(dispatched.0, donations);
}

/// A release, then any number of accepted donations, then the callback that
/// reports failure: the total and the donation log are what they were before
/// the callback, and no release is in flight any more.
pub proof fn lemma_release_rolls_back(
    meme: MemeView,
    release: ContextView,
    account: Seq<char>,
    donations: Seq<ContextView>,
    callback: ContextView,
)
    requires
        meme.inv(),
        meme.release_donations(release, account) is Ok,
        (meme.release_donations(release, account)->Ok_0).0.donate_all(donations) is Ok,
        callback.is_callback(),
    ensures
        ({
            let dispatched = meme.release_donations(release, account)->Ok_0;
            let before = dispatched.0.donate_all(donations)->Ok_0;
            let after = before.on_donations_released(callback, Outcome::Failure);
            &&& after is Ok
            &&& after->Ok_0.ledger == before.ledger
            &&& !after->Ok_0.release_in_flight()
        }),
{
    let dispatched = meme.release_donations(release, account)->Ok_0;
    lemma_donations_accumulate(dispatched.0, donations);
}

/// A callback that answers no release in flight is refused with `NotFound`:
/// a duplicate or stray delivery changes nothing.
pub proof fn lemma_stray_callback_refused(meme: MemeView, callback: ContextView, outcome: Outcome)
    requires
        callback.is_callback(),
        !meme.release_in_flight(),
    ensures
        meme.on_donations_released(callback, outcome) == Err::<MemeView, Error>(Error::NotFound),
{
}

/// One call of a mutating entry point of a meme, with its arguments.
pub enum MemeCall {
    Vote { value: int },
    BatchVote { value: int, is_batch: bool },
    AddComment { text: Seq<char> },
    Donate,
    ReleaseDonations { account: Seq<char> },
    OnDonationsReleased { outcome: Outcome },
    Teardown,
    Restore { lifecycle: Lifecycle },
}

/// A call together with the context in which it is made.
pub struct MemeStep {
    pub ctx: ContextView,
    pub call: MemeCall,
}

impl MemeView {
    /// The meme after one call: changed as the call says where the call is
    /// accepted, and as it was where the call is refused.
    pub open spec fn step(self, ctx: ContextView, call: MemeCall) -> MemeView {
        match call {
            MemeCall::Vote { value } => match self.vote(ctx, value) {
                Ok(after) => after,
                Err(_) => self,
            },
            MemeCall::BatchVote { value, is_batch } => match self.vote(ctx, value) {
                Ok(after) => after,
                Err(_) => self,
            },
            MemeCall::AddComment { text } => match self.add_comment(ctx, text) {
                Ok(after) => after,
                Err(_) => self,
            },
            MemeCall::Donate => match self.donate(ctx) {
                Ok(after) => after,
                Err(_) => self,
            },
            MemeCall::ReleaseDonations { account } => match self.release_donations(ctx, account) {
                Ok(after) => after.0,
                Err(_) => self,
            },
            MemeCall::OnDonationsReleased { outcome } => match self.on_donations_released(
                ctx,
                outcome,
            ) {
                Ok(after) => after,
                Err(_) => self,
            },
            MemeCall::Teardown => match self.teardown(ctx) {
                Ok(after) => after.0,
                Err(_) => self,
            },
            MemeCall::Restore { lifecycle } => match self.restore(ctx, lifecycle) {
                Ok(after) => after,
                Err(_) => self,
            },
        }
    }

    /// The meme after a series of calls, in order.
    pub open spec fn run(self, steps: Seq<MemeStep>) -> MemeView
        decreases steps.len(),
    {
        if steps.len() == 0 {
            self
        } else {
            self.run(steps.drop_last()).step(steps.last().ctx, steps.last().call)
        }
    }

    /// What one call adds to the score: the value of a vote that is
    /// accepted, and nothing otherwise.
    pub open spec fn voted(self, ctx: ContextView, call: MemeCall) -> int {
        match call {
            MemeCall::Vote { value } => if self.vote(ctx, value) is Ok {
                value
            } else {
                0
            },
            MemeCall::BatchVote { value, is_batch } => if self.vote(ctx, value) is Ok {
                value
            } else {
                0
            },
            _ => 0,
        }
    }

    /// What one call brings in: the payment of a donation that is accepted,
    /// and nothing otherwise.
    pub open spec fn donated(self, ctx: ContextView, call: MemeCall) -> nat {
        match call {
            MemeCall::Donate => if self.donate(ctx) is Ok {
                ctx.attached
            } else {
                0
            },
            _ => 0,
        }
    }

    /// What one call sends away for good: the amount in flight when the
    /// callback that reports a successful release is accepted, and nothing
    /// otherwise.
    pub open spec fn released(self, ctx: ContextView, call: MemeCall) -> nat {
        match call {
            MemeCall::OnDonationsReleased { outcome } => if outcome == Outcome::Success
                && self.on_donations_released(ctx, outcome) is Ok {
                self.in_flight()
            } else {
                0
            },
            _ => 0,
        }
    }

    /// The sum of the values of the votes accepted in a series of calls.
    pub open spec fn voted_in(self, steps: Seq<MemeStep>) -> int
        decreases steps.len(),
    {
        if steps.len() == 0 {
            0
        } else {
            self.voted_in(steps.drop_last()) + self.run(steps.drop_last()).voted(
                steps.last().ctx,
                steps.last().call,
            )
        }
    }

    /// The sum of the donations accepted in a series of calls.
    pub open spec fn donated_in(self, steps: Seq<MemeStep>) -> nat
        decreases steps.len(),
    {
        if steps.len() == 0 {
            0
        } else {
            self.donated_in(steps.drop_last()) + self.run(steps.drop_last()).donated(
                steps.last().ctx,
                steps.last().call,
            )
        }
    }

    /// The sum of the amounts released with success in a series of calls.
    pub open spec fn released_in(self, steps: Seq<MemeStep>) -> nat
        decreases steps.len(),
    {
        if steps.len() == 0 {
            0
        } else {
            self.released_in(steps.drop_last()) + self.run(steps.drop_last()).released(
                steps.last().ctx,
                steps.last().call,
            )
        }
    }
}

/// One call, accepted or refused, keeps the invariant of a meme, moves the
/// score by the vote it carries and the total by what it brings in less what
/// it releases, and leaves the identity of the meme alone.
pub proof fn lemma_meme_step_balances(meme: MemeView, ctx: ContextView, call: MemeCall)
    requires
        meme.inv(),
    ensures
        meme.step(ctx, call).inv(),
        meme.step(ctx, call).ledger.vote_score == meme.ledger.vote_score + meme.voted(ctx, call),
        meme.step(ctx, call).ledger.donation_total + meme.released(ctx, call)
            == meme.ledger.donation_total + meme.donated(ctx, call),
        meme.step(ctx, call).name == meme.name,
        meme.step(ctx, call).creator == meme.creator,
{
    match call {
        MemeCall::Vote { value } => {
            lemma_meme_inv_kept(meme, ctx, value, seq![], seq![], Outcome::Success, meme.lifecycle);
        },
        MemeCall::BatchVote { value, is_batch } => {
            lemma_meme_inv_kept(meme, ctx, value, seq![], seq![], Outcome::Success, meme.lifecycle);
        },
        MemeCall::AddComment { text } => {
            lemma_meme_inv_kept(meme, ctx, 0, text, seq![], Outcome::Success, meme.lifecycle);
        },
        MemeCall::Donate => {
            lemma_meme_inv_kept(meme, ctx, 0, seq![], seq![], Outcome::Success, meme.lifecycle);
        },
        MemeCall::ReleaseDonations { account } => {
            lemma_meme_inv_kept(meme, ctx, 0, seq![], account, Outcome::Success, meme.lifecycle);
        },
        MemeCall::OnDonationsReleased { outcome } => {
            lemma_meme_inv_kept(meme, ctx, 0, seq![], seq![], outcome, meme.lifecycle);
        },
        MemeCall::Teardown => {
            lemma_meme_inv_kept(meme, ctx, 0, seq![], seq![], Outcome::Success, meme.lifecycle);
        },
        MemeCall::Restore { lifecycle } => {
            lemma_meme_inv_kept(meme, ctx, 0, seq![], seq![], Outcome::Success, lifecycle);
        },
    }
}

/// Through any series of calls, in any order, whoever makes them and whether
/// they are accepted or refused: the invariant holds, the score is what it
/// was plus the sum of the votes accepted, and the total is what it was plus
/// the donations accepted less the amounts released with success.
pub proof fn lemma_meme_ledger_balances(meme: MemeView, steps: Seq<MemeStep>)
    requires
        meme.inv(),
    ensures
        meme.run(steps).inv(),
        meme.run(steps).ledger.vote_score == meme.ledger.vote_score + meme.voted_in(steps),
        meme.run(steps).ledger.donation_total + meme.released_in(steps)
            == meme.ledger.donation_total + meme.donated_in(steps),
    decreases steps.len(),
{
    if steps.len() > 0 {
        lemma_meme_ledger_balances(meme, steps.drop_last());
        lemma_meme_step_balances(
            meme.run(steps.drop_last()),
            steps.last().ctx,
            steps.last().call,
        );
    }
}

/// A callback that the host delivers for the release in flight is always
/// accepted, whatever its outcome: a pending release is never left
/// unresolved.
pub proof fn lemma_delivered_callback_resolves(
    meme: MemeView,
    callback: ContextView,
    outcome: Outcome,
)
    requires
        meme.inv(),
        meme.release_in_flight(),
        callback.is_callback(),
    ensures
        meme.on_donations_released(callback, outcome) is Ok,
        !meme.on_donations_released(callback, outcome)->Ok_0.release_in_flight(),
{
}

} // verus!
