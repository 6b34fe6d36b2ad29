//! The tracker of requests that were handed to the host and whose answer has
//! not come back yet.
//!
//! A request is known by its kind and its key (the name of a meme, or an
//! account). At most one request is pending under one identity, and the
//! tracker keeps with it what the entity needs to commit or to roll back when
//! the answer arrives. Answers are matched by identity alone: the order in
//! which requests were made plays no part.

use vstd::prelude::*;
use vstd::string::*;

use crate::error::Error;
use crate::state::Lifecycle;

verus! {

/// The kinds of request that span a dispatch and a later callback.
#[derive(Clone, Copy, Debug, PartialEq, Eq, Structural)]
pub enum OpKind {
    CreateExhibit,
    RemoveExhibit,
    ReleaseDonations,
}

/// What an entity notes down when it dispatches a request, so that the
/// callback can commit or undo.
#[derive(Debug, PartialEq, Eq)]
pub struct Snapshot {
    /// The account that the request is about: the one to refund for a
    /// creation, the one that asked for a removal, the target of a release.
    pub account: String,
    /// The amount that went out with the request.
    pub amount: u128,
    /// The lifecycle state that held before the request.
    pub lifecycle: Lifecycle,
}

/// The mathematical content of a [`Snapshot`].
pub struct SnapshotView {
    pub account: Seq<char>,
    pub amount: nat,
    pub lifecycle: Lifecycle,
}

impl View for Snapshot {
    type V = SnapshotView;

    open spec fn view(&self) -> SnapshotView {
        SnapshotView {
            account: self.account@,
            amount: self.amount as nat,
            lifecycle: self.lifecycle,
        }
    }
}

/// The identity of a pending request.
pub struct OpId {
    pub kind: OpKind,
    pub key: Seq<char>,
}

#[derive(Debug)]
struct PendingOp {
    kind: OpKind,
    key: String,
    snapshot: Snapshot,
}

impl PendingOp {
    spec fn id(self) -> OpId {
        OpId { kind: self.kind, key: self.key@ }
    }
}

/// The pending requests of one entity.
#[derive(Debug)]
pub struct PendingOps {
    ops: Vec<PendingOp>,
}

spec fn ids(ops: Seq<PendingOp>) -> Seq<OpId> {
    ops.map_values(|op: PendingOp| op.id())
}

spec fn model(ops: Seq<PendingOp>) -> Map<OpId, SnapshotView> {
    Map::new(|id: OpId| ids(ops).contains(id), |id: OpId| ops[ids(ops).index_of(id)].snapshot@)
}

proof fn lemma_model_at(ops: Seq<PendingOp>, i: int)
    requires
        ids(ops).no_duplicates(),
        0 <= i < ops.len(),
    ensures
        model(ops).contains_key(ops[i].id()),
        model(ops)[ops[i].id()] == ops[i].snapshot@,
{
    let id = ops[i].id();
    assert(ids(ops)[i] == id);
    let j = ids(ops).index_of(id);
    assert(ids(ops)[j] == id);
    assert(j == i);
}

proof fn lemma_model_push(ops: Seq<PendingOp>, op: PendingOp)
    requires
        ids(ops).no_duplicates(),
        !ids(ops).contains(op.id()),
    ensures
        ids(ops.push(op)).no_duplicates(),
        model(ops.push(op)) == model(ops).insert(op.id(), op.snapshot@),
{
    let after = ops.push(op);
    assert(ids(after) =~= ids(ops).push(op.id()));
    assert(ids(after).no_duplicates());
    assert forall|id: OpId| #[trigger]
        ids(after).contains(id) <==> (ids(ops).contains(id) || id == op.id()) by {
        if ids(ops).contains(id) {
            let i = ids(ops).index_of(id);
            assert(ids(after)[i] == id);
        }
        if id == op.id() {
            assert(ids(after)[ops.len() as int] == id);
        }
        if ids(after).contains(id) {
            let i = ids(after).index_of(id);
            if i < ops.len() {
                assert(ids(ops)[i] == id);
            }
        }
    }
    assert forall|id: OpId| #[trigger] model(after).contains_key(id) implies model(after)[id]
        == model(ops).insert(op.id(), op.snapshot@)[id] by {
        let i = ids(after).index_of(id);
        lemma_model_at(after, i);
        if i < ops.len() {
            lemma_model_at(ops, i);
        }
    }
    assert(model(after) =~= model(ops).insert(op.id(), op.snapshot@));
}

proof fn lemma_model_remove(ops: Seq<PendingOp>, i: int)
    requires
        ids(ops).no_duplicates(),
        0 <= i < ops.len(),
    ensures
        ids(ops.remove(i)).no_duplicates(),
        model(ops.remove(i)) == model(ops).remove(ops[i].id()),
{
    let after = ops.remove(i);
    assert(ids(after) =~= ids(ops).remove(i));
    assert(ids(after).no_duplicates());
    assert forall|id: OpId| #[trigger]
        ids(after).contains(id) <==> (ids(ops).contains(id) && id != ops[i].id()) by {
        if ids(after).contains(id) {
            let j = ids(after).index_of(id);
            let k = if j < i {
                j
            } else {
                j + 1
            };
            assert(ids(ops)[k] == id);
            assert(ids(ops)[i] == ops[i].id());
        }
        if ids(ops).contains(id) && id != ops[i].id() {
            let k = ids(ops).index_of(id);
            assert(ids(ops)[i] == ops[i].id());
            let j = if k < i {
                k
            } else {
                k - 1
            };
            assert(ids(after)[j] == id);
        }
    }
    assert forall|id: OpId| #[trigger] model(after).contains_key(id) implies model(after)[id]
        == model(ops).remove(ops[i].id())[id] by {
        let j = ids(after).index_of(id);
        let k = if j < i {
            j
        } else {
            j + 1
        };
        lemma_model_at(after, j);
        lemma_model_at(ops, k);
    }
    assert(model(after) =~= model(ops).remove(ops[i].id()));
}

impl View for PendingOps {
    type V = Map<OpId, SnapshotView>;

    closed spec fn view(&self) -> Map<OpId, SnapshotView> {
        model(self.ops@)
    }
}

impl PendingOps {
    /// No two pending requests share an identity.
    pub closed spec fn wf(&self) -> bool {
        ids(self.ops@).no_duplicates()
    }

    /// A tracker with nothing pending.
    pub fn new() -> (tracker: PendingOps)
        ensures
            tracker.wf(),
            tracker@ == Map::<OpId, SnapshotView>::empty(),
    {
        let tracker = PendingOps { ops: Vec::new() };
        assert(tracker@ =~= Map::<OpId, SnapshotView>::empty());
        tracker
    }

    fn position(&self, kind: OpKind, key: &String) -> (r: Option<usize>)
        requires
            self.wf(),
        ensures
            match r {
                Some(i) => i < self.ops@.len() && self.ops@[i as int].id() == (OpId {
                    kind,
                    key: key@,
                }),
                None => !self@.contains_key(OpId { kind, key: key@ }),
            },
    {
        let ghost id = OpId { kind, key: key@ };
        let mut i: usize = 0;
        while i < self.ops.len()
            invariant
                i <= self.ops@.len(),
                id == (OpId { kind, key: key@ }),
                forall|j: int| 0 <= j < i ==> ids(self.ops@)[j] != id,
            decreases self.ops@.len() - i,
        {
            if self.ops[i].kind == kind && self.ops[i].key == *key {
                return Some(i);
            }
            i += 1;
        }
        None
    }

    /// Whether a request of this kind is pending under this key.
    pub fn is_pending(&self, kind: OpKind, key: &str) -> (r: bool)
        requires
            self.wf(),
        ensures
            r == self@.contains_key(OpId { kind, key: key@ }),
    {
        let key = key.to_owned();
        match self.position(kind, &key) {
            Some(i) => {
                proof {
                    lemma_model_at(self.ops@, i as int);
                }
                true
            },
            None => false,
        }
    }

    /// Whether nothing is pending.
    pub fn is_empty(&self) -> (r: bool)
        requires
            self.wf(),
        ensures
            r == (self@ == Map::<OpId, SnapshotView>::empty()),
    {
        proof {
            if self.ops@.len() > 0 {
                lemma_model_at(self.ops@, 0);
            } else {
                assert(self@ =~= Map::<OpId, SnapshotView>::empty());
            }
        }
        self.ops.len() == 0
    }

    /// The key of a pending request of the given kind, if there is one.
    pub fn find_kind(&self, kind: OpKind) -> (r: Option<String>)
        requires
            self.wf(),
        ensures
            match r {
                Some(key) => self@.contains_key(OpId { kind, key: key@ }),
                None => forall|id: OpId| self@.contains_key(id) ==> id.kind != kind,
            },
    {
        let mut i: usize = 0;
        while i < self.ops.len()
            invariant
                i <= self.ops@.len(),
                self.wf(),
                forall|j: int| 0 <= j < i ==> (#[trigger] ids(self.ops@)[j]).kind != kind,
            decreases self.ops@.len() - i,
        {
            if self.ops[i].kind == kind {
                proof {
                    lemma_model_at(self.ops@, i as int);
                }
                return Some(self.ops[i].key.clone());
            }
            i += 1;
        }
        proof {
            assert forall|id: OpId| self@.contains_key(id) implies id.kind != kind by {
                let j = ids(self.ops@).index_of(id);
                assert(ids(self.ops@)[j] == id);
            }
        }
        None
    }

    /// The amount noted down with a pending request, if the request is
    /// pending.
    pub fn amount_of(&self, kind: OpKind, key: &str) -> (r: Option<u128>)
        requires
            self.wf(),
        ensures
            match r {
                Some(amount) => {
                    &&& self@.contains_key(OpId { kind, key: key@ })
                    &&& amount == self@[OpId { kind, key: key@ }].amount
                },
                None => !self@.contains_key(OpId { kind, key: key@ }),
            },
    {
        let key = key.to_owned();
        match self.position(kind, &key) {
            Some(i) => {
                proof {
                    lemma_model_at(self.ops@, i as int);
                }
                Some(self.ops[i].snapshot.amount)
            },
            None => None,
        }
    }

    /// Registers a request. Refused with `ConflictError` when a request with
    /// the same identity is already pending.
    pub fn begin(&mut self, kind: OpKind, key: &str, snapshot: Snapshot) -> (r: Result<(), Error>)
        requires
            old(self).wf(),
        ensures
            final(self).wf(),
            match r {
                Ok(()) => {
                    &&& !old(self)@.contains_key(OpId { kind, key: key@ })
                    &&& final(self)@ == old(self)@.insert(OpId { kind, key: key@ }, snapshot@)
                },
                Err(e) => {
                    &&& e == Error::ConflictError
                    &&& old(self)@.contains_key(OpId { kind, key: key@ })
                    &&& final(self)@ == old(self)@
                },
            },
    {
        let key = key.to_owned();
        match self.position(kind, &key) {
            Some(i) => {
                proof {
                    lemma_model_at(self.ops@, i as int);
                }
                Err(Error::ConflictError)
            },
            None => {
                let op = PendingOp { kind, key, snapshot };
                proof {
                    lemma_model_push(self.ops@, op);
                }
                self.ops.push(op);
                Ok(())
            },
        }
    }

    /// Takes a pending request out of the tracker and hands back what was
    /// noted down with it. An identity under which nothing is pending gives
    /// `NotFound` and leaves the tracker as it was.
    pub fn resolve(&mut self, kind: OpKind, key: &str) -> (r: Result<Snapshot, Error>)
        requires
            old(self).wf(),
        ensures
            final(self).wf(),
            match r {
                Ok(snapshot) => {
                    &&& old(self)@.contains_key(OpId { kind, key: key@ })
                    &&& snapshot@ == old(self)@[OpId { kind, key: key@ }]
                    &&& final(self)@ == old(self)@.remove(OpId { kind, key: key@ })
                },
                Err(e) => {
                    &&& e == Error::NotFound
                    &&& !old(self)@.contains_key(OpId { kind, key: key@ })
                    &&& final(self)@ == old(self)@
                },
            },
    {
        let key = key.to_owned();
        match self.position(kind, &key) {
            None => Err(Error::NotFound),
            Some(i) => {
                proof {
                    lemma_model_at(self.ops@, i as int);
                    lemma_model_remove(self.ops@, i as int);
                }
                let op = self.ops.remove(i);
                Ok(op.snapshot)
            },
        }
    }
}

} // verus!
