//! What follows when the requests of a museum are delivered to a meme: the
//! two state machines, each on its side, carry a creation or a removal
//! through both of its phases.

use vstd::prelude::*;

use crate::context::ContextView;
use crate::dispatch::{address_of, DispatchView};
use crate::error::Error;
use crate::ledger::LedgerView;
use crate::meme::MemeView;
use crate::museum::MuseumView;
use crate::state::{Category, Lifecycle, Outcome};

verus! {

/// The context in which the host delivers a request of the museum at
/// `registry` to the entity at `target`.
pub open spec fn delivery(registry: Seq<char>, target: Seq<char>, payment: nat, now: nat)
    -> ContextView {
    ContextView { caller: registry, current: target, attached: payment, now }
}

/// The creation request that a museum sends out, once delivered, initializes
/// a meme exactly when its category code stands for a category. The meme is
/// then named by the address derived from the museum and the name, created
/// by the museum, and carries the title and the data that were asked for.
pub proof fn lemma_creation_delivered(
    museum: MuseumView,
    ctx: ContextView,
    name: Seq<char>,
    title: Seq<char>,
    data: Seq<char>,
    category: int,
    now: nat,
)
    requires
        museum.add_meme(ctx, name, title, data, category) is Ok,
    ensures
        ({
            let request = museum.add_meme(ctx, name, title, data, category)->Ok_0.1;
            &&& request matches DispatchView::CreateExhibit {
                target,
                title: t,
                data: d,
                category: c,
                payment,
            }
            &&& target == address_of(ctx.current, name)
            &&& payment == ctx.attached
            &&& MemeView::init(false, delivery(ctx.current, target, payment, now), t, d, c) is Ok
                <==> Category::of_code(category) is Some
            &&& MemeView::init(false, delivery(ctx.current, target, payment, now), t, d, c)
                matches Ok(meme) ==> {
                &&& meme.inv()
                &&& meme.name == address_of(ctx.current, name)
                &&& meme.creator == ctx.current
                &&& meme.title == title
                &&& meme.data == data
                &&& Category::of_code(category) == Some(meme.category)
                &&& meme.ledger == LedgerView::empty()
                &&& meme.lifecycle == Lifecycle::Active
            }
        }),
{
}

/// The teardown request of the museum that created a meme is accepted by the
/// meme while it is active, and from then on the meme refuses votes,
/// comments, donations and releases.
pub proof fn lemma_teardown_delivered(
    meme: MemeView,
    from_museum: ContextView,
    later: ContextView,
    value: int,
    text: Seq<char>,
    account: Seq<char>,
)
    requires
        meme.lifecycle == Lifecycle::Active,
        from_museum.caller == meme.creator,
    ensures
        meme.teardown(from_museum) is Ok,
        ({
            let after = meme.teardown(from_museum)->Ok_0.0;
            &&& after.lifecycle == Lifecycle::Removing
            &&& after.ledger == meme.ledger
            &&& after.vote(later, value) == Err::<MemeView, Error>(Error::ConflictError)
            &&& after.add_comment(later, text) == Err::<MemeView, Error>(Error::ConflictError)
            &&& after.donate(later) == Err::<MemeView, Error>(Error::ConflictError)
            &&& after.release_donations(later, account) == Err::<(MemeView, DispatchView), Error>(
                Error::ConflictError,
            )
        }),
{
}

/// A removal that fails leaves both sides as they were: the museum is what
/// it was before the removal started, and the restore request that it sends
/// out, once delivered, puts the meme back into the state it had before the
/// teardown.
pub proof fn lemma_failed_removal_undone(
    museum: MuseumView,
    owner: ContextView,
    name: Seq<char>,
    callback: ContextView,
    meme: MemeView,
    from_museum: ContextView,
)
    requires
        museum.remove_meme(owner, name) is Ok,
        callback.is_callback(),
        meme.teardown(from_museum) is Ok,
    ensures
        ({
            let marked = museum.remove_meme(owner, name)->Ok_0.0;
            let stopped = meme.teardown(from_museum)->Ok_0.0;
            let answered = marked.on_meme_removed(callback, name, Outcome::Failure);
            &&& answered is Ok
            &&& answered->Ok_0.0 == museum
            &&& answered->Ok_0.1 matches Some(DispatchView::Restore { target, lifecycle })
            &&& stopped.restore(from_museum, lifecycle) == Ok::<MemeView, Error>(meme)
        }),
{
    let marked = museum.remove_meme(owner, name)->Ok_0.0;
    let answered = marked.on_meme_removed(callback, name, Outcome::Failure);
    assert(answered->Ok_0.0.pending =~= museum.pending);
}

} // verus!
