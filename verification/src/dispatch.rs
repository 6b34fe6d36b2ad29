//! The requests that an entity hands to the host for delivery, and the
//! addressing of memes.
//!
//! No entity reaches into another. An entry point that needs something done
//! elsewhere returns a [`Dispatch`]; the host delivers it and, where the
//! request spans two phases, later calls the matching callback of the entity
//! that made it, exactly once.

use vstd::prelude::*;
use vstd::string::*;

use crate::state::Lifecycle;

verus! {

/// The read-only operations of a meme that a museum can forward a query to.
#[derive(Clone, Copy, Debug, PartialEq, Eq, Structural)]
pub enum ViewFn {
    GetMeme,
    GetRecentVotes,
    GetVoteScore,
    GetRecentComments,
    GetDonationsTotal,
    GetRecentDonations,
}

impl ViewFn {
    /// The read-only operation that goes by `name`, if there is one.
    pub open spec fn of_name(name: Seq<char>) -> Option<ViewFn> {
        if name == "get_meme"@ {
            Some(ViewFn::GetMeme)
        } else if name == "get_recent_votes"@ {
            Some(ViewFn::GetRecentVotes)
        } else if name == "get_vote_score"@ {
            Some(ViewFn::GetVoteScore)
        } else if name == "get_recent_comments"@ {
            Some(ViewFn::GetRecentComments)
        } else if name == "get_donations_total"@ {
            Some(ViewFn::GetDonationsTotal)
        } else if name == "get_recent_donations"@ {
            Some(ViewFn::GetRecentDonations)
        } else {
            None
        }
    }

    /// Looks a read-only operation up by its name.
    pub fn parse(name: &str) -> (r: Option<ViewFn>)
        ensures
            r == ViewFn::of_name(name@),
    {
        let name = name.to_owned();
        if name == "get_meme".to_owned() {
            Some(ViewFn::GetMeme)
        } else if name == "get_recent_votes".to_owned() {
            Some(ViewFn::GetRecentVotes)
        } else if name == "get_vote_score".to_owned() {
            Some(ViewFn::GetVoteScore)
        } else if name == "get_recent_comments".to_owned() {
            Some(ViewFn::GetRecentComments)
        } else if name == "get_donations_total".to_owned() {
            Some(ViewFn::GetDonationsTotal)
        } else if name == "get_recent_donations".to_owned() {
            Some(ViewFn::GetRecentDonations)
        } else {
            None
        }
    }
}

/// A request for the host to deliver.
#[derive(Debug, PartialEq, Eq)]
pub enum Dispatch {
    /// Create the meme at `target`, initialize it with the given title, data
    /// and category code, and fund it with `payment`.
    CreateExhibit { target: String, title: String, data: String, category: u8, payment: u128 },
    /// Tell the meme at `target` to hand back what it holds and to cease
    /// operating.
    Teardown { target: String },
    /// Put the meme at `target` back into the given lifecycle state.
    Restore { target: String, lifecycle: Lifecycle },
    /// Move `amount` to the account `to`.
    Transfer { to: String, amount: u128 },
    /// Ask the meme at `target` for one of its read-only views and relay the
    /// answer to the caller as it is.
    Query { target: String, view: ViewFn },
}

/// The mathematical content of a [`Dispatch`].
pub enum DispatchView {
    CreateExhibit {
        target: Seq<char>,
        title: Seq<char>,
        data: Seq<char>,
        category: int,
        payment: nat,
    },
    Teardown { target: Seq<char> },
    Restore { target: Seq<char>, lifecycle: Lifecycle },
    Transfer { to: Seq<char>, amount: nat },
    Query { target: Seq<char>, view: ViewFn },
}

impl View for Dispatch {
    type V = DispatchView;

    open spec fn view(&self) -> DispatchView {
        match self {
            Dispatch::CreateExhibit { target, title, data, category, payment } => {
                DispatchView::CreateExhibit {
                    target: target@,
                    title: title@,
                    data: data@,
                    category: *category as int,
                    payment: *payment as nat,
                }
            },
            Dispatch::Teardown { target } => DispatchView::Teardown { target: target@ },
            Dispatch::Restore { target, lifecycle } => DispatchView::Restore {
                target: target@,
                lifecycle: *lifecycle,
            },
            Dispatch::Transfer { to, amount } => DispatchView::Transfer {
                to: to@,
                amount: *amount as nat,
            },
            Dispatch::Query { target, view } => DispatchView::Query { target: target@, view: *view },
        }
    }
}

/// The address of the meme called `name` in the museum at `registry`: the
/// name, a dot, and the museum's own address.
pub open spec fn address_of(registry: Seq<char>, name: Seq<char>) -> Seq<char> {
    name + seq!['.'] + registry
}

/// Computes the address of a meme from the address of its museum and its
/// name. No table is kept: the address is a function of the two.
pub fn exhibit_address(registry: &str, name: &str) -> (address: String)
    ensures
        address@ == address_of(registry@, name@),
{
    proof {
        reveal_strlit(".");
        assert("."@ =~= seq!['.']);
    }
    String::from_str(name).concat(".").concat(registry)
}

/// Within one museum, two names that lead to the same address are the same
/// name.
pub proof fn lemma_address_injective(registry: Seq<char>, a: Seq<char>, b: Seq<char>)
    requires
        address_of(registry, a) == address_of(registry, b),
    ensures
        a == b,
{
    let x = address_of(registry, a);
    let y = address_of(registry, b);
    assert(x.len() == a.len() + 1 + registry.len());
    assert(y.len() == b.len() + 1 + registry.len());
    assert forall|i: int| 0 <= i < a.len() implies a[i] == b[i] by {
        assert(x[i] == a[i]);
        assert(y[i] == b[i]);
    }
    assert(a =~= b);
}

} // verus!
