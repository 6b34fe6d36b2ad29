//! The museum: the registry that owns the permissions and the collection of
//! memes.
//!
//! Owners administer the museum; contributors, and owners, may add memes.
//! Memes live elsewhere, each under an address derived from its name, so
//! adding and removing one takes two phases: the entry point reserves the
//! name (or marks the removal) and returns the request to deliver, and the
//! matching callback commits the change or rolls it back.

use vstd::prelude::*;
use vstd::string::*;

use crate::access::{
    copy_names, find_name, lemma_names_push, lemma_names_remove, names, require_member,
    AccountSet,
};
use crate::context::{Context, ContextView};
use crate::dispatch::{address_of, exhibit_address, Dispatch, DispatchView, ViewFn};
use crate::error::Error;
use crate::pending::{OpId, OpKind, PendingOps, Snapshot, SnapshotView};
use crate::seq_facts::{lemma_index_of_unique, lemma_push_contains, lemma_remove_contains};
use crate::state::{Lifecycle, Outcome};

verus! {

/// The state of a museum.
#[derive(Debug)]
pub struct Museum {
    name: String,
    owners: AccountSet,
    contributors: AccountSet,
    exhibits: Vec<String>,
    pending: PendingOps,
}

/// The mathematical content of a [`Museum`].
pub struct MuseumView {
    pub name: Seq<char>,
    /// The accounts that administer the museum. Never empty.
    pub owners: Set<Seq<char>>,
    /// The accounts that may add memes.
    pub contributors: Set<Seq<char>>,
    /// The names of the memes, each once, in the order of their creation.
    pub exhibits: Seq<Seq<char>>,
    /// The requests that await their callback.
    pub pending: Map<OpId, SnapshotView>,
}

/// What a museum shows of itself: everything but the bookkeeping of pending
/// requests.
#[derive(Debug, PartialEq, Eq)]
pub struct MuseumInfo {
    pub name: String,
    pub owners: Vec<String>,
    pub contributors: Vec<String>,
    pub exhibits: Vec<String>,
}

/// The mathematical content of a [`MuseumInfo`].
pub struct MuseumInfoView {
    pub name: Seq<char>,
    pub owners: Set<Seq<char>>,
    pub contributors: Set<Seq<char>>,
    pub exhibits: Seq<Seq<char>>,
}

impl View for MuseumInfo {
    type V = MuseumInfoView;

    open spec fn view(&self) -> MuseumInfoView {
        MuseumInfoView {
            name: self.name@,
            owners: names(self.owners@).to_set(),
            contributors: names(self.contributors@).to_set(),
            exhibits: names(self.exhibits@),
        }
    }
}

/// The character sequences of a list of string slices, in the list's order.
pub open spec fn slices(v: Seq<&str>) -> Seq<Seq<char>> {
    v.map_values(|s: &str| s@)
}

impl MuseumView {
    /// The identity of the creation of the meme called `name`.
    pub open spec fn creation(name: Seq<char>) -> OpId {
        OpId { kind: OpKind::CreateExhibit, key: name }
    }

    /// The identity of the removal of the meme called `name`.
    pub open spec fn removal(name: Seq<char>) -> OpId {
        OpId { kind: OpKind::RemoveExhibit, key: name }
    }

    /// The names that are reserved by a creation in flight.
    pub open spec fn pending_creations(self) -> Set<Seq<char>> {
        Set::new(|name: Seq<char>| self.pending.contains_key(Self::creation(name)))
    }

    /// The lifecycle state in which the museum holds the meme called `name`:
    /// removing while a removal is in flight, active otherwise.
    pub open spec fn lifecycle_of(self, name: Seq<char>) -> Lifecycle {
        if self.pending.contains_key(Self::removal(name)) {
            Lifecycle::Removing
        } else {
            Lifecycle::Active
        }
    }

    pub open spec fn is_owner(self, account: Seq<char>) -> bool {
        self.owners.contains(account)
    }

    pub open spec fn is_contributor(self, account: Seq<char>) -> bool {
        self.contributors.contains(account)
    }

    /// What holds of every museum: there is an owner; no meme is listed
    /// twice; a name reserved by a creation in flight is not listed; a
    /// removal in flight is that of a listed meme and remembers that the
    /// meme was active; and nothing else is pending.
    pub open spec fn inv(self) -> bool {
        &&& self.owners.contains(self.owners.choose())
        &&& self.exhibits.no_duplicates()
        &&& forall|id: OpId| #[trigger]
            self.pending.contains_key(id) ==> match id.kind {
                OpKind::CreateExhibit => !self.exhibits.contains(id.key),
                OpKind::RemoveExhibit => self.exhibits.contains(id.key) && self.pending[id].lifecycle
                    == Lifecycle::Active,
                OpKind::ReleaseDonations => false,
            }
    }

    /// What the museum shows of itself.
    pub open spec fn info(self) -> MuseumInfoView {
        MuseumInfoView {
            name: self.name,
            owners: self.owners,
            contributors: self.contributors,
            exhibits: self.exhibits,
        }
    }

    /// Initialization: refused with `OnceOnly` where a museum already
    /// exists, and with `ValidationError` where no owner is given. The new
    /// museum has the given owners, no contributors and no memes.
    pub open spec fn init(
        initialized: bool,
        ctx: ContextView,
        name: Seq<char>,
        owners: Seq<Seq<char>>,
    ) -> Result<MuseumView, Error> {
        if initialized {
            Err(Error::OnceOnly)
        } else if owners.len() == 0 {
            Err(Error::ValidationError)
        } else {
            Ok(
                MuseumView {
                    name,
                    owners: owners.to_set(),
                    contributors: Set::empty(),
                    exhibits: Seq::empty(),
                    pending: Map::empty(),
                },
            )
        }
    }

    /// The caller joins the contributors; nothing changes if it is one.
    pub open spec fn add_myself_as_contributor(self, ctx: ContextView) -> MuseumView {
        MuseumView { contributors: self.contributors.insert(ctx.caller), ..self }
    }

    /// The caller leaves the contributors; nothing changes if it is none.
    pub open spec fn remove_myself_as_contributor(self, ctx: ContextView) -> MuseumView {
        MuseumView { contributors: self.contributors.remove(ctx.caller), ..self }
    }

    /// An owner makes `account` a contributor. Refused with
    /// `PermissionDenied` unless the caller is an owner.
    pub open spec fn add_contributor(self, ctx: ContextView, account: Seq<char>) -> Result<
        MuseumView,
        Error,
    > {
        if !self.is_owner(ctx.caller) {
            Err(Error::PermissionDenied)
        } else {
            Ok(MuseumView { contributors: self.contributors.insert(account), ..self })
        }
    }

    /// An owner takes `account` out of the contributors. Refused with
    /// `PermissionDenied` unless the caller is an owner.
    pub open spec fn remove_contributor(self, ctx: ContextView, account: Seq<char>) -> Result<
        MuseumView,
        Error,
    > {
        if !self.is_owner(ctx.caller) {
            Err(Error::PermissionDenied)
        } else {
            Ok(MuseumView { contributors: self.contributors.remove(account), ..self })
        }
    }

    /// An owner makes `account` an owner. Refused with `PermissionDenied`
    /// unless the caller is an owner.
    pub open spec fn add_owner(self, ctx: ContextView, account: Seq<char>) -> Result<
        MuseumView,
        Error,
    > {
        if !self.is_owner(ctx.caller) {
            Err(Error::PermissionDenied)
        } else {
            Ok(MuseumView { owners: self.owners.insert(account), ..self })
        }
    }

    /// An owner takes `account` out of the owners. Refused with
    /// `PermissionDenied` unless the caller is an owner, and with
    /// `InvariantViolation` when no owner would be left.
    pub open spec fn remove_owner(self, ctx: ContextView, account: Seq<char>) -> Result<
        MuseumView,
        Error,
    > {
        if !self.is_owner(ctx.caller) {
            Err(Error::PermissionDenied)
        } else if self.owners.remove(account) =~= Set::<Seq<char>>::empty() {
            Err(Error::InvariantViolation)
        } else {
            Ok(MuseumView { owners: self.owners.remove(account), ..self })
        }
    }

    /// The first phase of adding a meme. Refused with `PermissionDenied`
    /// unless the caller is a contributor or an owner, and with
    /// `DuplicateName` when the name is listed or reserved. Otherwise the
    /// name is reserved, the caller and the attached payment are noted down
    /// for a refund, and a creation request with the payment goes out to the
    /// meme's address.
    pub open spec fn add_meme(
        self,
        ctx: ContextView,
        name: Seq<char>,
        title: Seq<char>,
        data: Seq<char>,
        category: int,
    ) -> Result<(MuseumView, DispatchView), Error> {
        if !self.is_contributor(ctx.caller) && !self.is_owner(ctx.caller) {
            Err(Error::PermissionDenied)
        } else if self.exhibits.contains(name) || self.pending.contains_key(Self::creation(name)) {
            Err(Error::DuplicateName)
        } else {
            Ok(
                (
                    MuseumView {
                        pending: self.pending.insert(
                            Self::creation(name),
                            SnapshotView {
                                account: ctx.caller,
                                amount: ctx.attached,
                                lifecycle: Lifecycle::Active,
                            },
                        ),
                        ..self
                    },
                    DispatchView::CreateExhibit {
                        target: address_of(ctx.current, name),
                        title,
                        data,
                        category,
                        payment: ctx.attached,
                    },
                ),
            )
        }
    }

    /// The second phase of adding a meme. Refused with `PermissionDenied`
    /// unless the call is a callback, and with `NotFound` when no creation
    /// of that name is in flight. On success the name joins the list; on
    /// failure it does not, and the payment goes back to the account that
    /// attached it. Either way the reservation ends.
    pub open spec fn on_meme_created(self, ctx: ContextView, name: Seq<char>, outcome: Outcome)
        -> Result<(MuseumView, Option<DispatchView>), Error> {
        if !ctx.is_callback() {
            Err(Error::PermissionDenied)
        } else if !self.pending.contains_key(Self::creation(name)) {
            Err(Error::NotFound)
        } else if outcome == Outcome::Success {
            Ok(
                (
                    MuseumView {
                        exhibits: self.exhibits.push(name),
                        pending: self.pending.remove(Self::creation(name)),
                        ..self
                    },
                    None,
                ),
            )
        } else {
            Ok(
                (
                    MuseumView { pending: self.pending.remove(Self::creation(name)), ..self },
                    Some(
                        DispatchView::Transfer {
                            to: self.pending[Self::creation(name)].account,
                            amount: self.pending[Self::creation(name)].amount,
                        },
                    ),
                ),
            )
        }
    }

    /// The first phase of removing a meme. Refused with `PermissionDenied`
    /// unless the caller is an owner, with `NotFound` when the name is not
    /// listed, and with `ConflictError` when its removal is already in
    /// flight. Otherwise the meme counts as removing, its earlier lifecycle
    /// state is noted down, and a teardown request goes out to its address.
    pub open spec fn remove_meme(self, ctx: ContextView, name: Seq<char>) -> Result<
        (MuseumView, DispatchView),
        Error,
    > {
        if !self.is_owner(ctx.caller) {
            Err(Error::PermissionDenied)
        } else if !self.exhibits.contains(name) {
            Err(Error::NotFound)
        } else if self.pending.contains_key(Self::removal(name)) {
            Err(Error::ConflictError)
        } else {
            Ok(
                (
                    MuseumView {
                        pending: self.pending.insert(
                            Self::removal(name),
                            SnapshotView {
                                account: ctx.caller,
                                amount: 0,
                                lifecycle: self.lifecycle_of(name),
                            },
                        ),
                        ..self
                    },
                    DispatchView::Teardown { target: address_of(ctx.current, name) },
                ),
            )
        }
    }

    /// The second phase of removing a meme. Refused with `PermissionDenied`
    /// unless the call is a callback, and with `NotFound` when no removal of
    /// that name is in flight. On success the name leaves the list and the
    /// other names keep their order; on failure the name stays and a request
    /// goes out to put the meme back into the state noted down. Either way
    /// the removal is no longer in flight.
    pub open spec fn on_meme_removed(self, ctx: ContextView, name: Seq<char>, outcome: Outcome)
        -> Result<(MuseumView, Option<DispatchView>), Error> {
        if !ctx.is_callback() {
            Err(Error::PermissionDenied)
        } else if !self.pending.contains_key(Self::removal(name)) {
            Err(Error::NotFound)
        } else if outcome == Outcome::Success {
            Ok(
                (
                    MuseumView {
                        exhibits: self.exhibits.remove(self.exhibits.index_of(name)),
                        pending: self.pending.remove(Self::removal(name)),
                        ..self
                    },
                    None,
                ),
            )
        } else {
            Ok(
                (
                    MuseumView { pending: self.pending.remove(Self::removal(name)), ..self },
                    Some(
                        DispatchView::Restore {
                            target: address_of(ctx.current, name),
                            lifecycle: self.pending[Self::removal(name)].lifecycle,
                        },
                    ),
                ),
            )
        }
    }

    /// The answer to a pending request, by the request's identity: a
    /// creation is answered as [`MuseumView::on_meme_created`] says, a
    /// removal as [`MuseumView::on_meme_removed`] says. A museum has no
    /// release of donations pending, so that kind finds nothing.
    pub open spec fn resolve(
        self,
        ctx: ContextView,
        kind: OpKind,
        key: Seq<char>,
        outcome: Outcome,
    ) -> Result<(MuseumView, Option<DispatchView>), Error> {
        match kind {
            OpKind::CreateExhibit => self.on_meme_created(ctx, key, outcome),
            OpKind::RemoveExhibit => self.on_meme_removed(ctx, key, outcome),
            OpKind::ReleaseDonations => if !ctx.is_callback() {
                Err(Error::PermissionDenied)
            } else {
                Err(Error::NotFound)
            },
        }
    }

    /// A query to pass on to a meme. Refused with `NotFound` when the name
    /// is not listed, and with `ValidationError` when `view_fn` names no
    /// read-only operation of a meme. The museum itself does not change.
    pub open spec fn museum_to_meme_proxy(
        self,
        ctx: ContextView,
        name: Seq<char>,
        view_fn: Seq<char>,
    ) -> Result<DispatchView, Error> {
        if !self.exhibits.contains(name) {
            Err(Error::NotFound)
        } else {
            match ViewFn::of_name(view_fn) {
                None => Err(Error::ValidationError),
                Some(view) => Ok(
                    DispatchView::Query { target: address_of(ctx.current, name), view },
                ),
            }
        }
    }
}

impl View for Museum {
    type V = MuseumView;

    closed spec fn view(&self) -> MuseumView {
        MuseumView {
            name: self.name@,
            owners: self.owners@,
            contributors: self.contributors@,
            exhibits: names(self.exhibits@),
            pending: self.pending@,
        }
    }
}

impl Museum {
    /// The representation is sound and the museum's invariant holds.
    pub closed spec fn wf(&self) -> bool {
        &&& self.owners.wf()
        &&& self.contributors.wf()
        &&& self.pending.wf()
        &&& self@.inv()
    }

    /// A museum that is well formed satisfies the invariant of its model.
    pub proof fn lemma_wf_inv(&self)
        requires
            self.wf(),
        ensures
            self@.inv(),
    {
    }

    /// Initializes a museum. `existing` is the museum that the host already
    /// keeps under this address, if it keeps one.
    pub fn init(existing: Option<&Museum>, ctx: &Context, name: &str, owners: Vec<&str>) -> (r:
        Result<Museum, Error>)
        ensures
            match r {
                Ok(museum) => {
                    &&& museum.wf()
                    &&& MuseumView::init(existing.is_some(), ctx@, name@, slices(owners@)) == Ok::<
                        MuseumView,
                        Error,
                    >(museum@)
                },
                Err(e) => MuseumView::init(existing.is_some(), ctx@, name@, slices(owners@))
                    == Err::<MuseumView, Error>(e),
            },
    {
        if existing.is_some() {
            return Err(Error::OnceOnly);
        }
        if owners.len() == 0 {
            return Err(Error::ValidationError);
        }
        let mut set = AccountSet::new();
        let mut i: usize = 0;
        while i < owners.len()
            invariant
                i <= owners@.len(),
                set.wf(),
                set@ == slices(owners@).take(i as int).to_set(),
            decreases owners@.len() - i,
        {
            proof {
                let before = slices(owners@).take(i as int);
                assert(slices(owners@).take(i + 1) =~= before.push(owners@[i as int]@));
                lemma_push_contains(before, owners@[i as int]@);
                assert(before.push(owners@[i as int]@).to_set() =~= before.to_set().insert(
                    owners@[i as int]@,
                ));
            }
            set.insert(owners[i]);
            i += 1;
        }
        proof {
            assert(slices(owners@).take(i as int) =~= slices(owners@));
            assert(slices(owners@)[0] == owners@[0]@);
            assert(slices(owners@).contains(owners@[0]@));
        }
        let museum = Museum {
            name: name.to_owned(),
            owners: set,
            contributors: AccountSet::new(),
            exhibits: Vec::new(),
            pending: PendingOps::new(),
        };
        proof {
            assert(museum@.exhibits =~= Seq::<Seq<char>>::empty());
            assert(museum@.owners.contains(owners@[0]@));
        }
        Ok(museum)
    }

    /// Everything the museum shows of itself.
    pub fn get_museum(&self) -> (info: MuseumInfo)
        requires
            self.wf(),
        ensures
            info@ == self@.info(),
            names(info.owners@).no_duplicates(),
            names(info.contributors@).no_duplicates(),
    {
        MuseumInfo {
            name: self.name.clone(),
            owners: self.owners.to_vec(),
            contributors: self.contributors.to_vec(),
            exhibits: copy_names(&self.exhibits),
        }
    }

    /// The owners, each once.
    pub fn get_owner_list(&self) -> (r: Vec<String>)
        requires
            self.wf(),
        ensures
            names(r@).no_duplicates(),
            names(r@).to_set() == self@.owners,
    {
        self.owners.to_vec()
    }

    /// The contributors, each once.
    pub fn get_contributor_list(&self) -> (r: Vec<String>)
        requires
            self.wf(),
        ensures
            names(r@).no_duplicates(),
            names(r@).to_set() == self@.contributors,
    {
        self.contributors.to_vec()
    }

    /// The names of the memes, in the order of their creation.
    pub fn get_meme_list(&self) -> (r: Vec<String>)
        ensures
            names(r@) == self@.exhibits,
    {
        copy_names(&self.exhibits)
    }

    /// The number of memes.
    pub fn get_meme_count(&self) -> (r: usize)
        ensures
            r == self@.exhibits.len(),
    {
        self.exhibits.len()
    }

    /// Whether `account` is an owner.
    pub fn is_owner(&self, account: &str) -> (r: bool)
        ensures
            r == self@.is_owner(account@),
    {
        self.owners.contains(account)
    }

    /// Whether `account` is a contributor.
    pub fn is_contributor(&self, account: &str) -> (r: bool)
        ensures
            r == self@.is_contributor(account@),
    {
        self.contributors.contains(account)
    }

    /// Passes when the caller is an owner; refuses with `PermissionDenied`
    /// when it is not.
    pub fn require_owner(&self, ctx: &Context) -> (r: Result<(), Error>)
        ensures
            r == if self@.is_owner(ctx@.caller) {
                Ok::<(), Error>(())
            } else {
                Err::<(), Error>(Error::PermissionDenied)
            },
    {
        require_member(&self.owners, ctx)
    }

    /// Passes when the caller is a contributor; refuses with
    /// `PermissionDenied` when it is not.
    pub fn require_contributor(&self, ctx: &Context) -> (r: Result<(), Error>)
        ensures
            r == if self@.is_contributor(ctx@.caller) {
                Ok::<(), Error>(())
            } else {
                Err::<(), Error>(Error::PermissionDenied)
            },
    {
        require_member(&self.contributors, ctx)
    }

    /// The lifecycle state in which the museum holds a meme.
    pub fn lifecycle_of(&self, meme: &str) -> (r: Lifecycle)
        requires
            self.wf(),
        ensures
            r == self@.lifecycle_of(meme@),
    {
        if self.pending.is_pending(OpKind::RemoveExhibit, meme) {
            Lifecycle::Removing
        } else {
            Lifecycle::Active
        }
    }

    /// The caller joins the contributors.
    pub fn add_myself_as_contributor(&mut self, ctx: &Context)
        requires
            old(self).wf(),
        ensures
            final(self).wf(),
            final(self)@ == old(self)@.add_myself_as_contributor(ctx@),
    {
        self.contributors.insert(ctx.caller.as_str());
    }

    /// The caller leaves the contributors.
    pub fn remove_myself_as_contributor(&mut self, ctx: &Context)
        requires
            old(self).wf(),
        ensures
            final(self).wf(),
            final(self)@ == old(self)@.remove_myself_as_contributor(ctx@),
    {
        self.contributors.remove(ctx.caller.as_str());
    }

    /// An owner makes `account` a contributor.
    pub fn add_contributor(&mut self, ctx: &Context, account: &str) -> (r: Result<(), Error>)
        requires
            old(self).wf(),
        ensures
            final(self).wf(),
            match r {
                Ok(()) => old(self)@.add_contributor(ctx@, account@) == Ok::<MuseumView, Error>(
                    final(self)@,
                ),
                Err(e) => old(self)@.add_contributor(ctx@, account@) == Err::<MuseumView, Error>(e)
                    && final(self)@ == old(self)@,
            },
    {
        match self.require_owner(ctx) {
            Err(e) => Err(e),
            Ok(()) => {
                self.contributors.insert(account);
                Ok(())
            },
        }
    }

    /// An owner takes `account` out of the contributors.
    pub fn remove_contributor(&mut self, ctx: &Context, account: &str) -> (r: Result<(), Error>)
        requires
            old(self).wf(),
        ensures
            final(self).wf(),
            match r {
                Ok(()) => old(self)@.remove_contributor(ctx@, account@) == Ok::<
                    MuseumView,
                    Error,
                >(final(self)@),
                Err(e) => old(self)@.remove_contributor(ctx@, account@) == Err::<
                    MuseumView,
                    Error,
                >(e) && final(self)@ == old(self)@,
            },
    {
        match self.require_owner(ctx) {
            Err(e) => Err(e),
            Ok(()) => {
                self.contributors.remove(account);
                Ok(())
            },
        }
    }

    /// An owner makes `account` an owner.
    pub fn add_owner(&mut self, ctx: &Context, account: &str) -> (r: Result<(), Error>)
        requires
            old(self).wf(),
        ensures
            final(self).wf(),
            match r {
                Ok(()) => old(self)@.add_owner(ctx@, account@) == Ok::<MuseumView, Error>(
                    final(self)@,
                ),
                Err(e) => old(self)@.add_owner(ctx@, account@) == Err::<MuseumView, Error>(e)
                    && final(self)@ == old(self)@,
            },
    {
        match self.require_owner(ctx) {
            Err(e) => Err(e),
            Ok(()) => {
                self.owners.insert(account);
                proof {
                    assert(self@.owners.contains(account@));
                }
                Ok(())
            },
        }
    }

    /// An owner takes `account` out of the owners, unless it is the last.
    pub fn remove_owner(&mut self, ctx: &Context, account: &str) -> (r: Result<(), Error>)
        requires
            old(self).wf(),
        ensures
            final(self).wf(),
            match r {
                Ok(()) => old(self)@.remove_owner(ctx@, account@) == Ok::<MuseumView, Error>(
                    final(self)@,
                ),
                Err(e) => old(self)@.remove_owner(ctx@, account@) == Err::<MuseumView, Error>(e)
                    && final(self)@ == old(self)@,
            },
    {
        match self.require_owner(ctx) {
            Err(e) => Err(e),
            Ok(()) => {
                let last = self.owners.is_only(account);
                proof {
                    let owners = self@.owners;
                    if last {
                        assert(owners.remove(account@) =~= Set::<Seq<char>>::empty());
                    } else if owners.remove(account@) =~= Set::<Seq<char>>::empty() {
                        assert(owners.contains(ctx@.caller));
                        assert(!owners.remove(account@).contains(ctx@.caller));
                        assert forall|a: Seq<char>| owners.contains(a) implies a == account@ by {
                            assert(!owners.remove(account@).contains(a));
                        }
                        assert(owners =~= set![account@]);
                    }
                }
                if last {
                    return Err(Error::InvariantViolation);
                }
                self.owners.remove(account);
                proof {
                    let left = choose|a: Seq<char>| old(self)@.owners.remove(account@).contains(a);
                    assert(self@.owners.contains(left));
                }
                Ok(())
            },
        }
    }

    /// Starts the creation of a meme. The call returns at once with the
    /// request to deliver; the answer comes through
    /// [`Museum::on_meme_created`].
    pub fn add_meme(&mut self, ctx: &Context, meme: &str, title: &str, data: &str, category: u8)
        -> (r: Result<Dispatch, Error>)
        requires
            old(self).wf(),
        ensures
            final(self).wf(),
            match r {
                Ok(d) => old(self)@.add_meme(ctx@, meme@, title@, data@, category as int) == Ok::<
                    (MuseumView, DispatchView),
                    Error,
                >((final(self)@, d@)),
                Err(e) => old(self)@.add_meme(ctx@, meme@, title@, data@, category as int)
                    == Err::<(MuseumView, DispatchView), Error>(e) && final(self)@ == old(self)@,
            },
    {
        if !self.contributors.contains(ctx.caller.as_str()) && !self.owners.contains(
            ctx.caller.as_str(),
        ) {
            return Err(Error::PermissionDenied);
        }
        let name = meme.to_owned();
        if find_name(&self.exhibits, &name).is_some() || self.pending.is_pending(
            OpKind::CreateExhibit,
            meme,
        ) {
            return Err(Error::DuplicateName);
        }
        let snapshot = Snapshot {
            account: ctx.caller.clone(),
            amount: ctx.attached,
            lifecycle: Lifecycle::Active,
        };
        match self.pending.begin(OpKind::CreateExhibit, meme, snapshot) {
            Err(e) => Err(e),
            Ok(()) => Ok(
                Dispatch::CreateExhibit {
                    target: exhibit_address(ctx.current.as_str(), meme),
                    title: title.to_owned(),
                    data: data.to_owned(),
                    category,
                    payment: ctx.attached,
                },
            ),
        }
    }

    /// Commits or rolls back the creation of a meme, as the host reports its
    /// outcome.
    pub fn on_meme_created(&mut self, ctx: &Context, meme: &str, outcome: Outcome) -> (r: Result<
        Option<Dispatch>,
        Error,
    >)
        requires
            old(self).wf(),
        ensures
            final(self).wf(),
            match r {
                Ok(d) => old(self)@.on_meme_created(ctx@, meme@, outcome) == Ok::<
                    (MuseumView, Option<DispatchView>),
                    Error,
                >(
                    (
                        final(self)@,
                        match d {
                            Some(d) => Some(d@),
                            None => None,
                        },
                    ),
                ),
                Err(e) => old(self)@.on_meme_created(ctx@, meme@, outcome) == Err::<
                    (MuseumView, Option<DispatchView>),
                    Error,
                >(e) && final(self)@ == old(self)@,
            },
    {
        if !ctx.is_callback() {
            return Err(Error::PermissionDenied);
        }
        match self.pending.resolve(OpKind::CreateExhibit, meme) {
            Err(e) => Err(e),
            Ok(snapshot) => {
                match outcome {
                    Outcome::Success => {
                        let name = meme.to_owned();
                        proof {
                            lemma_names_push(self.exhibits@, name);
                            lemma_push_contains(names(self.exhibits@), name@);
                        }
                        self.exhibits.push(name);
                        Ok(None)
                    },
                    Outcome::Failure => Ok(
                        Some(Dispatch::Transfer { to: snapshot.account, amount: snapshot.amount }),
                    ),
                }
            },
        }
    }

    /// Starts the removal of a meme. The call returns at once with the
    /// request to deliver; the answer comes through
    /// [`Museum::on_meme_removed`].
    pub fn remove_meme(&mut self, ctx: &Context, meme: &str) -> (r: Result<Dispatch, Error>)
        requires
            old(self).wf(),
        ensures
            final(self).wf(),
            match r {
                Ok(d) => old(self)@.remove_meme(ctx@, meme@) == Ok::<
                    (MuseumView, DispatchView),
                    Error,
                >((final(self)@, d@)),
                Err(e) => old(self)@.remove_meme(ctx@, meme@) == Err::<
                    (MuseumView, DispatchView),
                    Error,
                >(e) && final(self)@ == old(self)@,
            },
    {
        if !self.owners.contains(ctx.caller.as_str()) {
            return Err(Error::PermissionDenied);
        }
        let name = meme.to_owned();
        if find_name(&self.exhibits, &name).is_none() {
            return Err(Error::NotFound);
        }
        let snapshot = Snapshot {
            account: ctx.caller.clone(),
            amount: 0,
            lifecycle: Lifecycle::Active,
        };
        match self.pending.begin(OpKind::RemoveExhibit, meme, snapshot) {
            Err(e) => Err(e),
            Ok(()) => Ok(Dispatch::Teardown { target: exhibit_address(ctx.current.as_str(), meme) }),
        }
    }

    /// Commits or rolls back the removal of a meme, as the host reports its
    /// outcome.
    pub fn on_meme_removed(&mut self, ctx: &Context, meme: &str, outcome: Outcome) -> (r: Result<
        Option<Dispatch>,
        Error,
    >)
        requires
            old(self).wf(),
        ensures
            final(self).wf(),
            match r {
                Ok(d) => old(self)@.on_meme_removed(ctx@, meme@, outcome) == Ok::<
                    (MuseumView, Option<DispatchView>),
                    Error,
                >(
                    (
                        final(self)@,
                        match d {
                            Some(d) => Some(d@),
                            None => None,
                        },
                    ),
                ),
                Err(e) => old(self)@.on_meme_removed(ctx@, meme@, outcome) == Err::<
                    (MuseumView, Option<DispatchView>),
                    Error,
                >(e) && final(self)@ == old(self)@,
            },
    {
        if !ctx.is_callback() {
            return Err(Error::PermissionDenied);
        }
        match self.pending.resolve(OpKind::RemoveExhibit, meme) {
            Err(e) => Err(e),
            Ok(snapshot) => {
                match outcome {
                    Outcome::Success => {
                        let name = meme.to_owned();
                        match find_name(&self.exhibits, &name) {
                            Some(i) => {
                                proof {
                                    lemma_names_remove(self.exhibits@, i as int);
                                    lemma_remove_contains(names(self.exhibits@), i as int);
                                    lemma_index_of_unique(names(self.exhibits@), i as int);
                                }
                                self.exhibits.remove(i);
                            },
                            None => {},
                        }
                        Ok(None)
                    },
                    Outcome::Failure => Ok(
                        Some(
                            Dispatch::Restore {
                                target: exhibit_address(ctx.current.as_str(), meme),
                                lifecycle: snapshot.lifecycle,
                            },
                        ),
                    ),
                }
            },
        }
    }

    /// Commits or rolls back the pending request with the given identity, as
    /// the host reports its outcome.
    pub fn resolve(&mut self, ctx: &Context, kind: OpKind, key: &str, outcome: Outcome) -> (r:
        Result<Option<Dispatch>, Error>)
        requires
            old(self).wf(),
        ensures
            final(self).wf(),
            match r {
                Ok(d) => old(self)@.resolve(ctx@, kind, key@, outcome) == Ok::<
                    (MuseumView, Option<DispatchView>),
                    Error,
                >(
                    (
                        final(self)@,
                        match d {
                            Some(d) => Some(d@),
                            None => None,
                        },
                    ),
                ),
                Err(e) => old(self)@.resolve(ctx@, kind, key@, outcome) == Err::<
                    (MuseumView, Option<DispatchView>),
                    Error,
                >(e) && final(self)@ == old(self)@,
            },
    {
        match kind {
            OpKind::CreateExhibit => self.on_meme_created(ctx, key, outcome),
            OpKind::RemoveExhibit => self.on_meme_removed(ctx, key, outcome),
            OpKind::ReleaseDonations => {
                if !ctx.is_callback() {
                    Err(Error::PermissionDenied)
                } else {
                    Err(Error::NotFound)
                }
            },
        }
    }

    /// Prepares the query that passes a read-only call on to a meme. The
    /// host relays the meme's answer to the caller as it is.
    pub fn museum_to_meme_proxy(&self, ctx: &Context, meme: &str, view_fn: &str) -> (r: Result<
        Dispatch,
        Error,
    >)
        ensures
            match r {
                Ok(d) => self@.museum_to_meme_proxy(ctx@, meme@, view_fn@) == Ok::<
                    DispatchView,
                    Error,
                >(d@),
                Err(e) => self@.museum_to_meme_proxy(ctx@, meme@, view_fn@) == Err::<
                    DispatchView,
                    Error,
                >(e),
            },
    {
        let name = meme.to_owned();
        if find_name(&self.exhibits, &name).is_none() {
            return Err(Error::NotFound);
        }
        match ViewFn::parse(view_fn) {
            None => Err(Error::ValidationError),
            Some(view) => Ok(
                Dispatch::Query { target: exhibit_address(ctx.current.as_str(), meme), view },
            ),
        }
    }
}

} // verus!
