//! What follows from the rules of a museum, over any number of calls.

use vstd::prelude::*;

use crate::context::ContextView;
use crate::dispatch::{address_of, DispatchView};
use crate::error::Error;
use crate::museum::MuseumView;
use crate::seq_facts::{lemma_index_of_unique, lemma_push_contains, lemma_remove_contains};
use crate::state::{Lifecycle, Outcome};

verus! {

/// One call of a mutating entry point of a museum, with its arguments.
pub enum MuseumCall {
    AddMyselfAsContributor,
    RemoveMyselfAsContributor,
    AddContributor { account: Seq<char> },
    RemoveContributor { account: Seq<char> },
    AddOwner { account: Seq<char> },
    RemoveOwner { account: Seq<char> },
    AddMeme { name: Seq<char>, title: Seq<char>, data: Seq<char>, category: int },
    OnMemeCreated { name: Seq<char>, outcome: Outcome },
    RemoveMeme { name: Seq<char> },
    OnMemeRemoved { name: Seq<char>, outcome: Outcome },
}

/// A call together with the context in which it is made.
pub struct MuseumStep {
    pub ctx: ContextView,
    pub call: MuseumCall,
}

impl MuseumView {
    /// The museum after one call: changed as the call says where the call is
    /// accepted, and as it was where the call is refused.
    pub open spec fn step(self, ctx: ContextView, call: MuseumCall) -> MuseumView {
        match call {
            MuseumCall::AddMyselfAsContributor => self.add_myself_as_contributor(ctx),
            MuseumCall::RemoveMyselfAsContributor => self.remove_myself_as_contributor(ctx),
            MuseumCall::AddContributor { account } => match self.add_contributor(ctx, account) {
                Ok(after) => after,
                Err(_) => self,
            },
            MuseumCall::RemoveContributor { account } => match self.remove_contributor(
                ctx,
                account,
            ) {
                Ok(after) => after,
                Err(_) => self,
            },
            MuseumCall::AddOwner { account } => match self.add_owner(ctx, account) {
                Ok(after) => after,
                Err(_) => self,
            },
            MuseumCall::RemoveOwner { account } => match self.remove_owner(ctx, account) {
                Ok(after) => after,
                Err(_) => self,
            },
            MuseumCall::AddMeme { name, title, data, category } => match self.add_meme(
                ctx,
                name,
                title,
                data,
                category,
            ) {
                Ok(after) => after.0,
                Err(_) => self,
            },
            MuseumCall::OnMemeCreated { name, outcome } => match self.on_meme_created(
                ctx,
                name,
                outcome,
            ) {
                Ok(after) => after.0,
                Err(_) => self,
            },
            MuseumCall::RemoveMeme { name } => match self.remove_meme(ctx, name) {
                Ok(after) => after.0,
                Err(_) => self,
            },
            MuseumCall::OnMemeRemoved { name, outcome } => match self.on_meme_removed(
                ctx,
                name,
                outcome,
            ) {
                Ok(after) => after.0,
                Err(_) => self,
            },
        }
    }

    /// The museum after a series of calls, in order.
    pub open spec fn run(self, steps: Seq<MuseumStep>) -> MuseumView
        decreases steps.len(),
    {
        if steps.len() == 0 {
            self
        } else {
            self.run(steps.drop_last()).step(steps.last().ctx, steps.last().call)
        }
    }
}

/// A freshly initialized museum satisfies the invariant.
pub proof fn lemma_init_establishes_inv(ctx: ContextView, name: Seq<char>, owners: Seq<Seq<char>>)
    requires
        MuseumView::init(false, ctx, name, owners) is Ok,
    ensures
        MuseumView::init(false, ctx, name, owners)->Ok_0.inv(),
{
    let museum = MuseumView::init(false, ctx, name, owners)->Ok_0;
    assert(owners.contains(owners[0]));
    assert(museum.owners.contains(owners[0]));
}

/// One call, accepted or refused, keeps the invariant of a museum.
pub proof fn lemma_step_keeps_inv(museum: MuseumView, ctx: ContextView, call: MuseumCall)
    requires
        museum.inv(),
    ensures
        museum.step(ctx, call).inv(),
{
    let after = museum.step(ctx, call);
    let witness = museum.owners.choose();
    match call {
        MuseumCall::AddOwner { account } => {
            assert(after.owners.contains(witness));
        },
        MuseumCall::RemoveOwner { account } => {
            if museum.remove_owner(ctx, account) is Ok {
                let left = choose|a: Seq<char>| museum.owners.remove(account).contains(a);
                assert(after.owners.contains(left));
            }
        },
        MuseumCall::OnMemeCreated { name, outcome } => {
            lemma_push_contains(museum.exhibits, name);
        },
        MuseumCall::OnMemeRemoved { name, outcome } => {
            if museum.on_meme_removed(ctx, name, outcome) is Ok && outcome == Outcome::Success {
                let i = museum.exhibits.index_of(name);
                assert(museum.pending.contains_key(MuseumView::removal(name)));
                assert(museum.exhibits[i] == name);
                lemma_remove_contains(museum.exhibits, i);
            }
        },
        _ => {},
    }
}

/// Through any series of calls, whoever makes them and whether they are
/// accepted or refused, the invariant of a museum holds; in particular the
/// museum is never left without an owner.
pub proof fn lemma_inv_holds_throughout(museum: MuseumView, steps: Seq<MuseumStep>)
    requires
        museum.inv(),
    ensures
        museum.run(steps).inv(),
        exists|account: Seq<char>| museum.run(steps).owners.contains(account),
    decreases steps.len(),
{
    if steps.len() > 0 {
        lemma_inv_holds_throughout(museum, steps.drop_last());
        lemma_step_keeps_inv(museum.run(steps.drop_last()), steps.last().ctx, steps.last().call);
    }
    assert(museum.run(steps).owners.contains(museum.run(steps).owners.choose()));
}

/// The last owner cannot be removed: the call is refused with
/// `InvariantViolation`.
pub proof fn lemma_last_owner_stays(museum: MuseumView, ctx: ContextView, account: Seq<char>)
    requires
        museum.is_owner(ctx.caller),
        museum.owners == set![account],
    ensures
        museum.remove_owner(ctx, account) == Err::<MuseumView, Error>(Error::InvariantViolation),
{
    assert(museum.owners.remove(account) =~= Set::<Seq<char>>::empty());
}

/// An owner who is not the last one can be removed by any owner.
pub proof fn lemma_other_owner_leaves(
    museum: MuseumView,
    ctx: ContextView,
    account: Seq<char>,
    other: Seq<char>,
)
    requires
        museum.is_owner(ctx.caller),
        museum.is_owner(other),
        other != account,
    ensures
        museum.remove_owner(ctx, account) is Ok,
        !museum.remove_owner(ctx, account)->Ok_0.is_owner(account),
        museum.remove_owner(ctx, account)->Ok_0.is_owner(other),
{
    assert(museum.owners.remove(account).contains(other));
}

/// Only an owner changes the owners or the contributors of others, and only
/// an owner starts a removal: from anyone else these calls are refused with
/// `PermissionDenied`.
pub proof fn lemma_strangers_refused(
    museum: MuseumView,
    ctx: ContextView,
    account: Seq<char>,
    name: Seq<char>,
)
    requires
        !museum.is_owner(ctx.caller),
    ensures
        museum.add_owner(ctx, account) == Err::<MuseumView, Error>(Error::PermissionDenied),
        museum.remove_owner(ctx, account) == Err::<MuseumView, Error>(Error::PermissionDenied),
        museum.add_contributor(ctx, account) == Err::<MuseumView, Error>(Error::PermissionDenied),
        museum.remove_contributor(ctx, account) == Err::<MuseumView, Error>(
            Error::PermissionDenied,
        ),
        museum.remove_meme(ctx, name) == Err::<(MuseumView, DispatchView), Error>(
            Error::PermissionDenied,
        ),
        museum.step(ctx, MuseumCall::RemoveMeme { name }) == museum,
{
}

/// A name that is listed, or reserved by a creation in flight, is refused
/// with `DuplicateName` before anything is dispatched, and the museum stays
/// as it was.
pub proof fn lemma_taken_name_refused(
    museum: MuseumView,
    ctx: ContextView,
    name: Seq<char>,
    title: Seq<char>,
    data: Seq<char>,
    category: int,
)
    requires
        museum.is_contributor(ctx.caller) || museum.is_owner(ctx.caller),
        museum.exhibits.contains(name) || museum.pending_creations().contains(name),
    ensures
        museum.add_meme(ctx, name, title, data, category) == Err::<
            (MuseumView, DispatchView),
            Error,
        >(Error::DuplicateName),
        museum.step(ctx, MuseumCall::AddMeme { name, title, data, category }) == museum,
{
}

/// Once a creation is accepted its name is reserved: it does not join the
/// list before the callback, and the list is as long as before.
pub proof fn lemma_accepted_name_reserved(
    museum: MuseumView,
    ctx: ContextView,
    name: Seq<char>,
    title: Seq<char>,
    data: Seq<char>,
    category: int,
)
    requires
        museum.add_meme(ctx, name, title, data, category) is Ok,
    ensures
        ({
            let after = museum.add_meme(ctx, name, title, data, category)->Ok_0.0;
            &&& after.pending_creations().contains(name)
            &&& after.exhibits == museum.exhibits
        }),
{
}

/// A creation that succeeds puts the name at the end of the list and ends
/// the reservation; nothing goes out.
pub proof fn lemma_creation_commits(
    museum: MuseumView,
    ctx: ContextView,
    name: Seq<char>,
    title: Seq<char>,
    data: Seq<char>,
    category: int,
    callback: ContextView,
)
    requires
        museum.inv(),
        museum.add_meme(ctx, name, title, data, category) is Ok,
        callback.is_callback(),
    ensures
        ({
            let reserved = museum.add_meme(ctx, name, title, data, category)->Ok_0.0;
            let after = reserved.on_meme_created(callback, name, Outcome::Success);
            &&& after is Ok
            &&& after->Ok_0.1 is None
            &&& after->Ok_0.0.exhibits == museum.exhibits.push(name)
            &&& after->Ok_0.0.pending == museum.pending
            &&& !after->Ok_0.0.pending_creations().contains(name)
        }),
{
    let reserved = museum.add_meme(ctx, name, title, data, category)->Ok_0.0;
    let after = reserved.on_meme_created(callback, name, Outcome::Success);
    assert(after->Ok_0.0.pending =~= museum.pending);
}

/// A creation that fails leaves the museum as it was before the call that
/// started it, and sends the attached payment back to the account that made
/// that call.
pub proof fn lemma_creation_rolls_back(
    museum: MuseumView,
    ctx: ContextView,
    name: Seq<char>,
    title: Seq<char>,
    data: Seq<char>,
    category: int,
    callback: ContextView,
)
    requires
        museum.add_meme(ctx, name, title, data, category) is Ok,
        callback.is_callback(),
    ensures
        ({
            let reserved = museum.add_meme(ctx, name, title, data, category)->Ok_0.0;
            let after = reserved.on_meme_created(callback, name, Outcome::Failure);
            &&& after is Ok
            &&& after->Ok_0.0 == museum
            &&& after->Ok_0.1 == Some(
                DispatchView::Transfer { to: ctx.caller, amount: ctx.attached },
            )
        }),
{
    let reserved = museum.add_meme(ctx, name, title, data, category)->Ok_0.0;
    let after = reserved.on_meme_created(callback, name, Outcome::Failure);
    assert(after->Ok_0.0.pending =~= museum.pending);
}

/// While a removal is in flight the museum holds the meme as removing, and
/// a second removal of it is refused with `ConflictError`.
pub proof fn lemma_removal_marks(
    museum: MuseumView,
    ctx: ContextView,
    name: Seq<char>,
    second: ContextView,
)
    requires
        museum.remove_meme(ctx, name) is Ok,
        museum.is_owner(second.caller),
    ensures
        ({
            let marked = museum.remove_meme(ctx, name)->Ok_0.0;
            &&& museum.lifecycle_of(name) == Lifecycle::Active
            &&& marked.lifecycle_of(name) == Lifecycle::Removing
            &&& marked.exhibits == museum.exhibits
            &&& marked.remove_meme(second, name) == Err::<(MuseumView, DispatchView), Error>(
                Error::ConflictError,
            )
        }),
{
}

/// A removal that succeeds takes the name off the list and keeps the other
/// names in their order; nothing goes out.
pub proof fn lemma_removal_commits(
    museum: MuseumView,
    ctx: ContextView,
    name: Seq<char>,
    callback: ContextView,
)
    requires
        museum.inv(),
        museum.remove_meme(ctx, name) is Ok,
        callback.is_callback(),
    ensures
        ({
            let marked = museum.remove_meme(ctx, name)->Ok_0.0;
            let after = marked.on_meme_removed(callback, name, Outcome::Success);
            let at = museum.exhibits.index_of(name);
            &&& after is Ok
            &&& after->Ok_0.1 is None
            &&& !after->Ok_0.0.exhibits.contains(name)
            &&& after->Ok_0.0.exhibits.len() == museum.exhibits.len() - 1
            &&& forall|i: int|
                0 <= i < at ==> after->Ok_0.0.exhibits[i] == museum.exhibits[i]
            &&& forall|i: int|
                at <= i < after->Ok_0.0.exhibits.len() ==> after->Ok_0.0.exhibits[i]
                    == museum.exhibits[i + 1]
            &&& after->Ok_0.0.pending == museum.pending
            &&& after->Ok_0.0.lifecycle_of(name) == Lifecycle::Active
        }),
{
    let marked = museum.remove_meme(ctx, name)->Ok_0.0;
    let after = marked.on_meme_removed(callback, name, Outcome::Success);
    let at = museum.exhibits.index_of(name);
    assert(museum.exhibits[at] == name);
    lemma_remove_contains(museum.exhibits, at);
    assert(after->Ok_0.0.pending =~= museum.pending);
}

/// A removal that fails leaves the museum as it was before the call that
/// started it, and asks the meme to go back to being active.
pub proof fn lemma_removal_rolls_back(
    museum: MuseumView,
    ctx: ContextView,
    name: Seq<char>,
    callback: ContextView,
)
    requires
        museum.remove_meme(ctx, name) is Ok,
        callback.is_callback(),
    ensures
        ({
            let marked = museum.remove_meme(ctx, name)->Ok_0.0;
            let after = marked.on_meme_removed(callback, name, Outcome::Failure);
            &&& after is Ok
            &&& after->Ok_0.0 == museum
            &&& after->Ok_0.1 == Some(
                DispatchView::Restore {
                    target: address_of(callback.current, name),
                    lifecycle: Lifecycle::Active,
                },
            )
        }),
{
    let marked = museum.remove_meme(ctx, name)->Ok_0.0;
    let after = marked.on_meme_removed(callback, name, Outcome::Failure);
    assert(after->Ok_0.0.pending =~= museum.pending);
}

/// A callback that answers nothing in flight is refused with `NotFound`, and
/// the museum stays as it was: a duplicate or stray delivery does no harm.
pub proof fn lemma_stray_callback_refused(
    museum: MuseumView,
    callback: ContextView,
    name: Seq<char>,
    outcome: Outcome,
)
    requires
        callback.is_callback(),
    ensures
        !museum.pending_creations().contains(name) ==> museum.on_meme_created(
            callback,
            name,
            outcome,
        ) == Err::<(MuseumView, Option<DispatchView>), Error>(Error::NotFound),
        museum.lifecycle_of(name) == Lifecycle::Active ==> museum.on_meme_removed(
            callback,
            name,
            outcome,
        ) == Err::<(MuseumView, Option<DispatchView>), Error>(Error::NotFound),
        museum.on_meme_created(callback, name, outcome) is Ok ==> museum.step(
            callback,
            MuseumCall::OnMemeCreated { name, outcome },
        ).on_meme_created(callback, name, outcome) == Err::<
            (MuseumView, Option<DispatchView>),
            Error,
        >(Error::NotFound),
        museum.on_meme_removed(callback, name, outcome) is Ok ==> museum.step(
            callback,
            MuseumCall::OnMemeRemoved { name, outcome },
        ).on_meme_removed(callback, name, outcome) == Err::<
            (MuseumView, Option<DispatchView>),
            Error,
        >(Error::NotFound),
{
}

/// The callbacks of two creations of different names may arrive in either
/// order: the museum ends up with the same reservations either way, and with
/// the same names listed.
pub proof fn lemma_creation_callbacks_commute(
    museum: MuseumView,
    callback: ContextView,
    first: Seq<char>,
    first_outcome: Outcome,
    second: Seq<char>,
    second_outcome: Outcome,
)
    requires
        museum.inv(),
        callback.is_callback(),
        first != second,
        museum.pending_creations().contains(first),
        museum.pending_creations().contains(second),
    ensures
        ({
            let one = MuseumCall::OnMemeCreated { name: first, outcome: first_outcome };
            let two = MuseumCall::OnMemeCreated { name: second, outcome: second_outcome };
            let a = museum.step(callback, one).step(callback, two);
            let b = museum.step(callback, two).step(callback, one);
            &&& a.pending == b.pending
            &&& a.exhibits.to_set() == b.exhibits.to_set()
            &&& a.owners == b.owners
            &&& a.contributors == b.contributors
        }),
{
    let one = MuseumCall::OnMemeCreated { name: first, outcome: first_outcome };
    let two = MuseumCall::OnMemeCreated { name: second, outcome: second_outcome };
    let a = museum.step(callback, one).step(callback, two);
    let b = museum.step(callback, two).step(callback, one);
    assert(a.pending =~= b.pending);
    lemma_push_contains(museum.exhibits, first);
    lemma_push_contains(museum.exhibits, second);
    lemma_push_contains(museum.exhibits.push(first), second);
    lemma_push_contains(museum.exhibits.push(second), first);
    assert(a.exhibits.to_set() =~= b.exhibits.to_set());
}

/// The callback of a removal and the callback of a creation may arrive in
/// either order: the museum ends up the same.
pub proof fn lemma_removal_and_creation_commute(
    museum: MuseumView,
    callback: ContextView,
    removed: Seq<char>,
    removed_outcome: Outcome,
    created: Seq<char>,
    created_outcome: Outcome,
)
    requires
        museum.inv(),
        callback.is_callback(),
        museum.lifecycle_of(removed) == Lifecycle::Removing,
        museum.pending_creations().contains(created),
    ensures
        ({
            let one = MuseumCall::OnMemeRemoved { name: removed, outcome: removed_outcome };
            let two = MuseumCall::OnMemeCreated { name: created, outcome: created_outcome };
            museum.step(callback, one).step(callback, two) == museum.step(callback, two).step(
                callback,
                one,
            )
        }),
{
    let one = MuseumCall::OnMemeRemoved { name: removed, outcome: removed_outcome };
    let two = MuseumCall::OnMemeCreated { name: created, outcome: created_outcome };
    let a = museum.step(callback, one).step(callback, two);
    let b = museum.step(callback, two).step(callback, one);
    assert(museum.pending.contains_key(MuseumView::removal(removed)));
    assert(museum.pending.contains_key(MuseumView::creation(created)));
    assert(museum.exhibits.contains(removed));
    assert(!museum.exhibits.contains(created));
    let at = museum.exhibits.index_of(removed);
    assert(museum.exhibits[at] == removed);
    lemma_push_contains(museum.exhibits, created);
    assert(museum.exhibits.push(created)[at] == removed);
    lemma_index_of_unique(museum.exhibits.push(created), at);
    assert(a.pending =~= b.pending);
    assert(a.exhibits =~= b.exhibits);
}

/// Joining or leaving the contributors twice is the same as doing it once.
pub proof fn lemma_self_service_idempotent(museum: MuseumView, ctx: ContextView)
    ensures
        museum.add_myself_as_contributor(ctx).add_myself_as_contributor(ctx)
            == museum.add_myself_as_contributor(ctx),
        museum.remove_myself_as_contributor(ctx).remove_myself_as_contributor(ctx)
            == museum.remove_myself_as_contributor(ctx),
        museum.add_myself_as_contributor(ctx).is_contributor(ctx.caller),
        !museum.remove_myself_as_contributor(ctx).is_contributor(ctx.caller),
{
    assert(museum.contributors.insert(ctx.caller).insert(ctx.caller)
        =~= museum.contributors.insert(ctx.caller));
    assert(museum.contributors.remove(ctx.caller).remove(ctx.caller)
        =~= museum.contributors.remove(ctx.caller));
}

/// A callback that the host delivers for a creation or a removal in flight
/// is always accepted, whatever its outcome, and ends what was in flight: a
/// pending request is never left unresolved.
pub proof fn lemma_delivered_callback_resolves(
    museum: MuseumView,
    callback: ContextView,
    name: Seq<char>,
    outcome: Outcome,
)
    requires
        callback.is_callback(),
    ensures
        museum.pending_creations().contains(name) ==> {
            &&& museum.on_meme_created(callback, name, outcome) is Ok
            &&& !museum.on_meme_created(callback, name, outcome)->Ok_0.0.pending_creations().contains(
                name,
            )
        },
        museum.lifecycle_of(name) == Lifecycle::Removing ==> {
            &&& museum.on_meme_removed(callback, name, outcome) is Ok
            &&& museum.on_meme_removed(callback, name, outcome)->Ok_0.0.lifecycle_of(name)
                == Lifecycle::Active
        },
{
}

/// The callbacks of two removals of different memes may arrive in either
/// order: the museum ends up the same.
pub proof fn lemma_removal_callbacks_commute(
    museum: MuseumView,
    callback: ContextView,
    first: Seq<char>,
    first_outcome: Outcome,
    second: Seq<char>,
    second_outcome: Outcome,
)
    requires
        museum.inv(),
        callback.is_callback(),
        first != second,
        museum.lifecycle_of(first) == Lifecycle::Removing,
        museum.lifecycle_of(second) == Lifecycle::Removing,
    ensures
        ({
            let one = MuseumCall::OnMemeRemoved { name: first, outcome: first_outcome };
            let two = MuseumCall::OnMemeRemoved { name: second, outcome: second_outcome };
            museum.step(callback, one).step(callback, two) == museum.step(callback, two).step(
                callback,
                one,
            )
        }),
{
    let one = MuseumCall::OnMemeRemoved { name: first, outcome: first_outcome };
    let two = MuseumCall::OnMemeRemoved { name: second, outcome: second_outcome };
    let a = museum.step(callback, one).step(callback, two);
    let b = museum.step(callback, two).step(callback, one);
    assert(museum.pending.contains_key(MuseumView::removal(first)));
    assert(museum.pending.contains_key(MuseumView::removal(second)));
    let list = museum.exhibits;
    let i = list.index_of(first);
    let j = list.index_of(second);
    assert(list[i] == first);
    assert(list[j] == second);
    lemma_remove_contains(list, i);
    lemma_remove_contains(list, j);
    let j_after = if j < i {
        j
    } else {
        j - 1
    };
    let i_after = if i < j {
        i
    } else {
        i - 1
    };
    assert(list.remove(i)[j_after] == second);
    assert(list.remove(j)[i_after] == first);
    lemma_index_of_unique(list.remove(i), j_after);
    lemma_index_of_unique(list.remove(j), i_after);
    assert(list.remove(i).remove(j_after) =~= list.remove(j).remove(i_after));
    assert(a.pending =~= b.pending);
    assert(a.exhibits =~= b.exhibits);
}

} // verus!
