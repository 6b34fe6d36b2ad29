//! A meme: one exhibit of a museum, with its votes, its comments and its
//! donations.
//!
//! A meme is a state machine of its own. It takes votes, comments and
//! donations while it is active, releases what it holds in two phases (a
//! transfer goes out, a callback settles or undoes it), and refuses every
//! mutating call once its removal is under way.

use vstd::prelude::*;
use vstd::string::*;

use crate::context::{Context, ContextView};
use crate::dispatch::{Dispatch, DispatchView, ViewFn};
use crate::error::Error;
use crate::ledger::{
    views, Comment, Donation, Ledger, LedgerView, Vote, VOTE_LIMIT,
};
use crate::pending::{OpId, OpKind, PendingOps, Snapshot, SnapshotView};
use crate::state::{Category, Lifecycle, Outcome};

verus! {

/// The state of one meme.
#[derive(Debug)]
pub struct Meme {
    name: String,
    title: String,
    data: String,
    category: Category,
    creator: String,
    ledger: Ledger,
    lifecycle: Lifecycle,
    release_in_flight: bool,
    pending: PendingOps,
}

/// The mathematical content of a [`Meme`].
pub struct MemeView {
    /// The meme's own address.
    pub name: Seq<char>,
    pub title: Seq<char>,
    /// Where the picture is.
    pub data: Seq<char>,
    pub category: Category,
    /// The account that initialized the meme.
    pub creator: Seq<char>,
    pub ledger: LedgerView,
    pub lifecycle: Lifecycle,
    /// The release of donations that awaits its callback, if one does.
    pub release: Option<ReleaseView>,
}

/// A release of donations that is in flight.
pub struct ReleaseView {
    /// The account that the transfer goes to.
    pub account: Seq<char>,
    /// The total that the meme held when the transfer went out.
    pub amount: nat,
}

/// What a meme shows of itself: everything but the bookkeeping of pending
/// requests.
#[derive(Debug, PartialEq, Eq)]
pub struct MemeInfo {
    pub name: String,
    pub title: String,
    pub data: String,
    pub category: Category,
    pub creator: String,
    pub vote_score: i64,
    pub recent_votes: Vec<Vote>,
    pub recent_comments: Vec<Comment>,
    pub donation_total: u128,
    pub recent_donations: Vec<Donation>,
    pub lifecycle: Lifecycle,
    pub release_in_flight: bool,
}

/// The mathematical content of a [`MemeInfo`].
pub struct MemeInfoView {
    pub name: Seq<char>,
    pub title: Seq<char>,
    pub data: Seq<char>,
    pub category: Category,
    pub creator: Seq<char>,
    pub ledger: LedgerView,
    pub lifecycle: Lifecycle,
    pub release_in_flight: bool,
}

impl View for MemeInfo {
    type V = MemeInfoView;

    open spec fn view(&self) -> MemeInfoView {
        MemeInfoView {
            name: self.name@,
            title: self.title@,
            data: self.data@,
            category: self.category,
            creator: self.creator@,
            ledger: LedgerView {
                vote_score: self.vote_score as int,
                recent_votes: views(self.recent_votes@),
                recent_comments: views(self.recent_comments@),
                donation_total: self.donation_total as nat,
                recent_donations: views(self.recent_donations@),
            },
            lifecycle: self.lifecycle,
            release_in_flight: self.release_in_flight,
        }
    }
}

/// The answer of a meme to a forwarded query.
#[derive(Debug, PartialEq, Eq)]
pub enum ViewResult {
    Meme(MemeInfo),
    RecentVotes(Vec<Vote>),
    VoteScore(i64),
    RecentComments(Vec<Comment>),
    DonationsTotal(u128),
    RecentDonations(Vec<Donation>),
}

impl MemeView {
    /// Whether a release of donations awaits its callback.
    pub open spec fn release_in_flight(self) -> bool {
        self.release is Some
    }

    /// The amount that went out with the release in flight; zero if none is.
    pub open spec fn in_flight(self) -> nat {
        match self.release {
            Some(release) => release.amount,
            None => 0,
        }
    }

    /// What holds of every meme: the ledgers are in order, and the amount
    /// that went out with a release in flight does not exceed what the
    /// ledger holds.
    pub open spec fn inv(self) -> bool {
        &&& self.ledger.inv()
        &&& self.in_flight() <= self.ledger.donation_total
    }

    /// What the meme shows of itself.
    pub open spec fn info(self) -> MemeInfoView {
        MemeInfoView {
            name: self.name,
            title: self.title,
            data: self.data,
            category: self.category,
            creator: self.creator,
            ledger: self.ledger,
            lifecycle: self.lifecycle,
            release_in_flight: self.release_in_flight(),
        }
    }

    /// Initialization: refused with `OnceOnly` where a meme already exists,
    /// and with `ValidationError` where the category code stands for no
    /// category. The new meme is named by its own address, created by the
    /// caller, active, and its ledgers are empty.
    pub open spec fn init(
        initialized: bool,
        ctx: ContextView,
        title: Seq<char>,
        data: Seq<char>,
        category: int,
    ) -> Result<MemeView, Error> {
        if initialized {
            Err(Error::OnceOnly)
        } else {
            match Category::of_code(category) {
                None => Err(Error::ValidationError),
                Some(c) => Ok(
                    MemeView {
                        name: ctx.current,
                        title,
                        data,
                        category: c,
                        creator: ctx.caller,
                        ledger: LedgerView::empty(),
                        lifecycle: Lifecycle::Active,
                        release: None,
                    },
                ),
            }
        }
    }

    /// A vote: refused with `ConflictError` unless the meme is active, with
    /// `ValidationError` when the value is outside `-VOTE_LIMIT..=VOTE_LIMIT`,
    /// and otherwise recorded in the ledger under the caller's name.
    pub open spec fn vote(self, ctx: ContextView, value: int) -> Result<MemeView, Error> {
        if self.lifecycle != Lifecycle::Active {
            Err(Error::ConflictError)
        } else if value < -VOTE_LIMIT || value > VOTE_LIMIT {
            Err(Error::ValidationError)
        } else {
            match self.ledger.record_vote(ctx.caller, value, ctx.now) {
                Ok(ledger) => Ok(MemeView { ledger, ..self }),
                Err(e) => Err(e),
            }
        }
    }

    /// A comment: refused with `ConflictError` unless the meme is active, and
    /// otherwise recorded in the ledger under the caller's name.
    pub open spec fn add_comment(self, ctx: ContextView, text: Seq<char>) -> Result<
        MemeView,
        Error,
    > {
        if self.lifecycle != Lifecycle::Active {
            Err(Error::ConflictError)
        } else {
            match self.ledger.record_comment(ctx.caller, text, ctx.now) {
                Ok(ledger) => Ok(MemeView { ledger, ..self }),
                Err(e) => Err(e),
            }
        }
    }

    /// A donation of the attached payment: refused with `ConflictError`
    /// unless the meme is active, and otherwise recorded in the ledger under
    /// the caller's name.
    pub open spec fn donate(self, ctx: ContextView) -> Result<MemeView, Error> {
        if self.lifecycle != Lifecycle::Active {
            Err(Error::ConflictError)
        } else {
            match self.ledger.record_donation(ctx.caller, ctx.attached, ctx.now) {
                Ok(ledger) => Ok(MemeView { ledger, ..self }),
                Err(e) => Err(e),
            }
        }
    }

    /// The first phase of a release: refused with `ConflictError` unless the
    /// meme is active and no release is in flight. Otherwise the release is
    /// marked as in flight, the total held at this moment is noted down under
    /// the target account, and a transfer of that total to the target goes
    /// out.
    pub open spec fn release_donations(self, ctx: ContextView, account: Seq<char>) -> Result<
        (MemeView, DispatchView),
        Error,
    > {
        if self.lifecycle != Lifecycle::Active || self.release_in_flight() {
            Err(Error::ConflictError)
        } else {
            Ok(
                (
                    MemeView {
                        release: Some(
                            ReleaseView { account, amount: self.ledger.donation_total },
                        ),
                        ..self
                    },
                    DispatchView::Transfer { to: account, amount: self.ledger.donation_total },
                ),
            )
        }
    }

    /// The second phase of a release: refused with `PermissionDenied` unless
    /// the call is a callback, and with `NotFound` when no release is in
    /// flight. On success the amount that was noted down at dispatch leaves
    /// the total; on failure the total stays. Either way the release is no
    /// longer in flight, and the logs are untouched. (Under the invariant
    /// the amount noted down never exceeds the total, so settling is never
    /// refused.)
    pub open spec fn on_donations_released(self, ctx: ContextView, outcome: Outcome) -> Result<
        MemeView,
        Error,
    > {
        if !ctx.is_callback() {
            Err(Error::PermissionDenied)
        } else if !self.release_in_flight() {
            Err(Error::NotFound)
        } else if outcome == Outcome::Success {
            match self.ledger.settle(self.in_flight()) {
                Ok(ledger) => Ok(MemeView { ledger, release: None, ..self }),
                Err(e) => Err(e),
            }
        } else {
            Ok(MemeView { release: None, ..self })
        }
    }

    /// The answer to a pending request, by the request's identity. The only
    /// request a meme ever has pending is the release in flight, known by
    /// its kind and the target account: that one is settled or undone as
    /// [`MemeView::on_donations_released`] says. Any other identity is
    /// refused with `NotFound`, and a call that is no callback with
    /// `PermissionDenied`.
    pub open spec fn resolve(
        self,
        ctx: ContextView,
        kind: OpKind,
        key: Seq<char>,
        outcome: Outcome,
    ) -> Result<MemeView, Error> {
        if !ctx.is_callback() {
            Err(Error::PermissionDenied)
        } else if kind == OpKind::ReleaseDonations && self.release_in_flight()
            && self.release->Some_0.account == key {
            self.on_donations_released(ctx, outcome)
        } else {
            Err(Error::NotFound)
        }
    }

    /// The museum's request to cease operating: refused with
    /// `PermissionDenied` unless it comes from the meme's creator, and with
    /// `ConflictError` unless the meme is active. Otherwise the meme starts
    /// removing, and what it holds and has not sent out goes back to the
    /// caller.
    pub open spec fn teardown(self, ctx: ContextView) -> Result<(MemeView, DispatchView), Error> {
        if ctx.caller != self.creator {
            Err(Error::PermissionDenied)
        } else if self.lifecycle != Lifecycle::Active {
            Err(Error::ConflictError)
        } else {
            Ok(
                (
                    MemeView { lifecycle: Lifecycle::Removing, ..self },
                    DispatchView::Transfer {
                        to: ctx.caller,
                        amount: (self.ledger.donation_total - self.in_flight()) as nat,
                    },
                ),
            )
        }
    }

    /// The museum's request to go back to an earlier lifecycle state, after a
    /// removal that failed: refused with `PermissionDenied` unless it comes
    /// from the meme's creator.
    pub open spec fn restore(self, ctx: ContextView, lifecycle: Lifecycle) -> Result<
        MemeView,
        Error,
    > {
        if ctx.caller != self.creator {
            Err(Error::PermissionDenied)
        } else {
            Ok(MemeView { lifecycle, ..self })
        }
    }
}

impl View for Meme {
    type V = MemeView;

    closed spec fn view(&self) -> MemeView {
        MemeView {
            name: self.name@,
            title: self.title@,
            data: self.data@,
            category: self.category,
            creator: self.creator@,
            ledger: self.ledger@,
            lifecycle: self.lifecycle,
            release: if self.release_in_flight {
                Some(
                    ReleaseView {
                        account: self.release_id().key,
                        amount: self.pending@[self.release_id()].amount,
                    },
                )
            } else {
                None
            },
        }
    }
}

impl Meme {
    spec fn release_id(&self) -> OpId {
        choose|id: OpId| self.pending@.contains_key(id)
    }

    /// The representation is sound and the meme's invariant holds: a request
    /// is pending exactly while a release is in flight, and it is that
    /// release and the only one.
    pub closed spec fn wf(&self) -> bool {
        &&& self.pending.wf()
        &&& self.release_in_flight ==> self.pending@.contains_key(self.release_id())
        &&& !self.release_in_flight ==> self.pending@ =~= Map::<OpId, SnapshotView>::empty()
        &&& forall|id: OpId| #[trigger]
            self.pending@.contains_key(id) ==> id == self.release_id() && id.kind
                == OpKind::ReleaseDonations
        &&& self@.inv()
    }

    /// A meme that is well formed satisfies the invariant of its model.
    pub proof fn lemma_wf_inv(&self)
        requires
            self.wf(),
        ensures
            self@.inv(),
    {
    }

    /// The target and the amount of the release in flight, if one is.
    fn release(&self) -> (r: Option<(String, u128)>)
        requires
            self.wf(),
        ensures
            match r {
                Some((account, amount)) => {
                    &&& self@.release == Some(
                        ReleaseView { account: account@, amount: amount as nat },
                    )
                    &&& self.pending@.contains_key(
                        OpId { kind: OpKind::ReleaseDonations, key: account@ },
                    )
                },
                None => self@.release is None,
            },
    {
        if !self.release_in_flight {
            return None;
        }
        match self.pending.find_kind(OpKind::ReleaseDonations) {
            None => None,
            Some(account) => match self.pending.amount_of(
                OpKind::ReleaseDonations,
                account.as_str(),
            ) {
                None => None,
                Some(amount) => Some((account, amount)),
            },
        }
    }

    /// Initializes a meme. `existing` is the meme that the host already
    /// keeps under this address, if it keeps one.
    pub fn init(
        existing: Option<&Meme>,
        ctx: &Context,
        title: &str,
        data: &str,
        category: u8,
    ) -> (r: Result<Meme, Error>)
        ensures
            match r {
                Ok(meme) => {
                    &&& meme.wf()
                    &&& MemeView::init(existing.is_some(), ctx@, title@, data@, category as int)
                        == Ok::<MemeView, Error>(meme@)
                },
                Err(e) => MemeView::init(existing.is_some(), ctx@, title@, data@, category as int)
                    == Err::<MemeView, Error>(e),
            },
    {
        if existing.is_some() {
            return Err(Error::OnceOnly);
        }
        match Category::from_code(category) {
            None => Err(Error::ValidationError),
            Some(c) => Ok(
                Meme {
                    name: ctx.current.clone(),
                    title: title.to_owned(),
                    data: data.to_owned(),
                    category: c,
                    creator: ctx.caller.clone(),
                    ledger: Ledger::new(),
                    lifecycle: Lifecycle::Active,
                    release_in_flight: false,
                    pending: PendingOps::new(),
                },
            ),
        }
    }

    /// Everything the meme shows of itself.
    pub fn get_meme(&self) -> (info: MemeInfo)
        ensures
            info@ == self@.info(),
    {
        MemeInfo {
            name: self.name.clone(),
            title: self.title.clone(),
            data: self.data.clone(),
            category: self.category,
            creator: self.creator.clone(),
            vote_score: self.ledger.vote_score(),
            recent_votes: self.ledger.recent_votes(),
            recent_comments: self.ledger.recent_comments(),
            donation_total: self.ledger.donation_total(),
            recent_donations: self.ledger.recent_donations(),
            lifecycle: self.lifecycle,
            release_in_flight: self.release_in_flight,
        }
    }

    /// Casts a vote of `value` points in the caller's name.
    pub fn vote(&mut self, ctx: &Context, value: i8) -> (r: Result<(), Error>)
        requires
            old(self).wf(),
        ensures
            final(self).wf(),
            match r {
                Ok(()) => old(self)@.vote(ctx@, value as int) == Ok::<MemeView, Error>(
                    final(self)@,
                ),
                Err(e) => old(self)@.vote(ctx@, value as int) == Err::<MemeView, Error>(e)
                    && final(self)@ == old(self)@,
            },
    {
        if self.lifecycle != Lifecycle::Active {
            return Err(Error::ConflictError);
        }
        if value < -VOTE_LIMIT || value > VOTE_LIMIT {
            return Err(Error::ValidationError);
        }
        self.ledger.record_vote(ctx.caller.as_str(), value, ctx.now)
    }

    /// Casts a vote that may stand for several votes gathered elsewhere. The
    /// rule is that of [`Meme::vote`], bound included, whether or not
    /// `is_batch` is set.
    pub fn batch_vote(&mut self, ctx: &Context, value: i8, is_batch: bool) -> (r: Result<
        (),
        Error,
    >)
        requires
            old(self).wf(),
        ensures
            final(self).wf(),
            match r {
                Ok(()) => old(self)@.vote(ctx@, value as int) == Ok::<MemeView, Error>(
                    final(self)@,
                ),
                Err(e) => old(self)@.vote(ctx@, value as int) == Err::<MemeView, Error>(e)
                    && final(self)@ == old(self)@,
            },
    {
        self.vote(ctx, value)
    }

    /// The most recent votes, oldest first.
    pub fn get_recent_votes(&self) -> (r: Vec<Vote>)
        ensures
            views(r@) == self@.ledger.recent_votes,
    {
        self.ledger.recent_votes()
    }

    /// The sum of all votes ever accepted.
    pub fn get_vote_score(&self) -> (r: i64)
        ensures
            r == self@.ledger.vote_score,
    {
        self.ledger.vote_score()
    }

    /// Adds a comment in the caller's name.
    pub fn add_comment(&mut self, ctx: &Context, text: &str) -> (r: Result<(), Error>)
        requires
            old(self).wf(),
        ensures
            final(self).wf(),
            match r {
                Ok(()) => old(self)@.add_comment(ctx@, text@) == Ok::<MemeView, Error>(
                    final(self)@,
                ),
                Err(e) => old(self)@.add_comment(ctx@, text@) == Err::<MemeView, Error>(e)
                    && final(self)@ == old(self)@,
            },
    {
        if self.lifecycle != Lifecycle::Active {
            return Err(Error::ConflictError);
        }
        self.ledger.record_comment(ctx.caller.as_str(), text, ctx.now)
    }

    /// The most recent comments, oldest first.
    pub fn get_recent_comments(&self) -> (r: Vec<Comment>)
        ensures
            views(r@) == self@.ledger.recent_comments,
    {
        self.ledger.recent_comments()
    }

    /// Donates the payment attached to the call, in the caller's name.
    pub fn donate(&mut self, ctx: &Context) -> (r: Result<(), Error>)
        requires
            old(self).wf(),
        ensures
            final(self).wf(),
            match r {
                Ok(()) => old(self)@.donate(ctx@) == Ok::<MemeView, Error>(final(self)@),
                Err(e) => old(self)@.donate(ctx@) == Err::<MemeView, Error>(e) && final(self)@
                    == old(self)@,
            },
    {
        if self.lifecycle != Lifecycle::Active {
            return Err(Error::ConflictError);
        }
        self.ledger.record_donation(ctx.caller.as_str(), ctx.attached, ctx.now)
    }

    /// What the meme holds in donations.
    pub fn get_donations_total(&self) -> (r: u128)
        ensures
            r == self@.ledger.donation_total,
    {
        self.ledger.donation_total()
    }

    /// The most recent donations, oldest first.
    pub fn get_recent_donations(&self) -> (r: Vec<Donation>)
        ensures
            views(r@) == self@.ledger.recent_donations,
    {
        self.ledger.recent_donations()
    }

    /// Starts the release of everything the meme holds to `account`. The
    /// call returns at once with the transfer to deliver; the answer comes
    /// through [`Meme::on_donations_released`].
    pub fn release_donations(&mut self, ctx: &Context, account: &str) -> (r: Result<
        Dispatch,
        Error,
    >)
        requires
            old(self).wf(),
        ensures
            final(self).wf(),
            match r {
                Ok(d) => old(self)@.release_donations(ctx@, account@) == Ok::<
                    (MemeView, DispatchView),
                    Error,
                >((final(self)@, d@)),
                Err(e) => old(self)@.release_donations(ctx@, account@) == Err::<
                    (MemeView, DispatchView),
                    Error,
                >(e) && final(self)@ == old(self)@,
            },
    {
        if self.lifecycle != Lifecycle::Active || self.release_in_flight {
            return Err(Error::ConflictError);
        }
        let amount: u128 = self.ledger.donation_total();
        let snapshot = Snapshot { account: account.to_owned(), amount, lifecycle: self.lifecycle };
        match self.pending.begin(OpKind::ReleaseDonations, account, snapshot) {
            Err(e) => Err(e),
            Ok(()) => {
                self.release_in_flight = true;
                proof {
                    let id = OpId { kind: OpKind::ReleaseDonations, key: account@ };
                    assert(self.pending@.contains_key(id));
                }
                Ok(Dispatch::Transfer { to: account.to_owned(), amount })
            },
        }
    }

    /// Settles or undoes the release in flight, as the host reports its
    /// outcome.
    pub fn on_donations_released(&mut self, ctx: &Context, outcome: Outcome) -> (r: Result<
        (),
        Error,
    >)
        requires
            old(self).wf(),
        ensures
            final(self).wf(),
            match r {
                Ok(()) => old(self)@.on_donations_released(ctx@, outcome) == Ok::<
                    MemeView,
                    Error,
                >(final(self)@),
                Err(e) => old(self)@.on_donations_released(ctx@, outcome) == Err::<
                    MemeView,
                    Error,
                >(e) && final(self)@ == old(self)@,
            },
    {
        if !ctx.is_callback() {
            return Err(Error::PermissionDenied);
        }
        let (key, amount) = match self.release() {
            Some(release) => release,
            None => {
                return Err(Error::NotFound);
            },
        };
        match outcome {
            Outcome::Success => match self.ledger.settle(amount) {
                Err(e) => {
                    return Err(e);
                },
                Ok(()) => {},
            },
            Outcome::Failure => {},
        }
        match self.pending.resolve(OpKind::ReleaseDonations, key.as_str()) {
            Err(e) => Err(e),
            Ok(_) => {
                self.release_in_flight = false;
                proof {
                    assert(self.pending@ =~= Map::<OpId, SnapshotView>::empty());
                }
                Ok(())
            },
        }
    }

    /// Settles or undoes the pending request with the given identity, as
    /// the host reports its outcome.
    pub fn resolve(&mut self, ctx: &Context, kind: OpKind, key: &str, outcome: Outcome) -> (r:
        Result<(), Error>)
        requires
            old(self).wf(),
        ensures
            final(self).wf(),
            match r {
                Ok(()) => old(self)@.resolve(ctx@, kind, key@, outcome) == Ok::<MemeView, Error>(
                    final(self)@,
                ),
                Err(e) => old(self)@.resolve(ctx@, kind, key@, outcome) == Err::<MemeView, Error>(
                    e,
                ) && final(self)@ == old(self)@,
            },
    {
        if !ctx.is_callback() {
            return Err(Error::PermissionDenied);
        }
        match kind {
            OpKind::ReleaseDonations => {
                if self.pending.is_pending(OpKind::ReleaseDonations, key) {
                    self.on_donations_released(ctx, outcome)
                } else {
                    Err(Error::NotFound)
                }
            },
            OpKind::CreateExhibit => Err(Error::NotFound),
            OpKind::RemoveExhibit => Err(Error::NotFound),
        }
    }

    /// Answers the museum's request to cease operating.
    pub fn teardown(&mut self, ctx: &Context) -> (r: Result<Dispatch, Error>)
        requires
            old(self).wf(),
        ensures
            final(self).wf(),
            match r {
                Ok(d) => old(self)@.teardown(ctx@) == Ok::<(MemeView, DispatchView), Error>(
                    (final(self)@, d@),
                ),
                Err(e) => old(self)@.teardown(ctx@) == Err::<(MemeView, DispatchView), Error>(e)
                    && final(self)@ == old(self)@,
            },
    {
        if ctx.caller != self.creator {
            return Err(Error::PermissionDenied);
        }
        if self.lifecycle != Lifecycle::Active {
            return Err(Error::ConflictError);
        }
        let total: u128 = self.ledger.donation_total();
        let in_flight: u128 = match self.release() {
            Some((_, amount)) => amount,
            None => 0,
        };
        self.lifecycle = Lifecycle::Removing;
        Ok(Dispatch::Transfer { to: ctx.caller.clone(), amount: total - in_flight })
    }

    /// Answers the museum's request to go back to an earlier lifecycle state.
    pub fn restore(&mut self, ctx: &Context, lifecycle: Lifecycle) -> (r: Result<(), Error>)
        requires
            old(self).wf(),
        ensures
            final(self).wf(),
            match r {
                Ok(()) => old(self)@.restore(ctx@, lifecycle) == Ok::<MemeView, Error>(
                    final(self)@,
                ),
                Err(e) => old(self)@.restore(ctx@, lifecycle) == Err::<MemeView, Error>(e)
                    && final(self)@ == old(self)@,
            },
    {
        if ctx.caller != self.creator {
            return Err(Error::PermissionDenied);
        }
        self.lifecycle = lifecycle;
        Ok(())
    }

    /// Answers a query that a museum forwarded.
    pub fn view_of(&self, view: ViewFn) -> (r: ViewResult)
        ensures
            match view {
                ViewFn::GetMeme => r matches ViewResult::Meme(info) && info@ == self@.info(),
                ViewFn::GetRecentVotes => r matches ViewResult::RecentVotes(v) && views(v@)
                    == self@.ledger.recent_votes,
                ViewFn::GetVoteScore => r matches ViewResult::VoteScore(s) && s
                    == self@.ledger.vote_score,
                ViewFn::GetRecentComments => r matches ViewResult::RecentComments(v) && views(v@)
                    == self@.ledger.recent_comments,
                ViewFn::GetDonationsTotal => r matches ViewResult::DonationsTotal(t) && t
                    == self@.ledger.donation_total,
                ViewFn::GetRecentDonations => r matches ViewResult::RecentDonations(v) && views(
                    v@,
                ) == self@.ledger.recent_donations,
            },
    {
        match view {
            ViewFn::GetMeme => ViewResult::Meme(self.get_meme()),
            ViewFn::GetRecentVotes => ViewResult::RecentVotes(self.get_recent_votes()),
            ViewFn::GetVoteScore => ViewResult::VoteScore(self.get_vote_score()),
            ViewFn::GetRecentComments => ViewResult::RecentComments(self.get_recent_comments()),
            ViewFn::GetDonationsTotal => ViewResult::DonationsTotal(self.get_donations_total()),
            ViewFn::GetRecentDonations => ViewResult::RecentDonations(self.get_recent_donations()),
        }
    }
}

} // verus!
