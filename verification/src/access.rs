//! Sets of accounts, and the permission checks that are made against them.
//!
//! A museum knows two such sets, its owners and its contributors. The checks
//! are pure: they read a set and the calling context and change nothing.

use vstd::prelude::*;
use vstd::string::*;

use crate::context::Context;
use crate::error::Error;
use crate::seq_facts::{lemma_push_contains, lemma_remove_contains};

verus! {

/// The character sequences of a list of strings, in the list's order.
pub open spec fn names(v: Seq<String>) -> Seq<Seq<char>> {
    v.map_values(|s: String| s@)
}

/// A finite set of accounts.
#[derive(Debug)]
pub struct AccountSet {
    members: Vec<String>,
}

impl View for AccountSet {
    type V = Set<Seq<char>>;

    closed spec fn view(&self) -> Set<Seq<char>> {
        names(self.members@).to_set()
    }
}

/// Taking names commutes with appending.
pub proof fn lemma_names_push(v: Seq<String>, s: String)
    ensures
        names(v.push(s)) == names(v).push(s@),
{
    assert(names(v.push(s)) =~= names(v).push(s@));
}

/// Taking names commutes with taking the element at one place out.
pub proof fn lemma_names_remove(v: Seq<String>, i: int)
    requires
        0 <= i < v.len(),
    ensures
        names(v.remove(i)) == names(v).remove(i),
{
    assert(names(v.remove(i)) =~= names(v).remove(i));
}

/// The first place at which `account` stands in `list`, if it stands there.
pub fn find_name(list: &Vec<String>, account: &String) -> (r: Option<usize>)
    ensures
        match r {
            Some(i) => {
                &&& i < list@.len()
                &&& names(list@)[i as int] == account@
                &&& forall|j: int| 0 <= j < i ==> names(list@)[j] != account@
            },
            None => !names(list@).contains(account@),
        },
{
    let mut i: usize = 0;
    while i < list.len()
        invariant
            i <= list@.len(),
            forall|j: int| 0 <= j < i ==> names(list@)[j] != account@,
        decreases list@.len() - i,
    {
        if list[i] == *account {
            return Some(i);
        }
        i += 1;
    }
    None
}

/// A copy of a list of strings.
pub fn copy_names(list: &Vec<String>) -> (r: Vec<String>)
    ensures
        names(r@) == names(list@),
{
    let mut r: Vec<String> = Vec::new();
    let mut i: usize = 0;
    while i < list.len()
        invariant
            i <= list@.len(),
            r@.len() == i,
            forall|j: int| 0 <= j < i ==> r@[j]@ == list@[j]@,
        decreases list@.len() - i,
    {
        r.push(list[i].clone());
        i += 1;
    }
    assert(names(r@) =~= names(list@));
    r
}

impl AccountSet {
    /// No account is held twice.
    pub closed spec fn wf(&self) -> bool {
        names(self.members@).no_duplicates()
    }

    /// The empty set.
    pub fn new() -> (set: AccountSet)
        ensures
            set.wf(),
            set@ == Set::<Seq<char>>::empty(),
    {
        let set = AccountSet { members: Vec::new() };
        assert(set@ =~= Set::<Seq<char>>::empty());
        set
    }

    /// Whether `account` is a member.
    pub fn contains(&self, account: &str) -> (r: bool)
        ensures
            r == self@.contains(account@),
    {
        let account = account.to_owned();
        find_name(&self.members, &account).is_some()
    }

    /// Whether `account` is a member and the only one.
    pub fn is_only(&self, account: &str) -> (r: bool)
        requires
            self.wf(),
        ensures
            r == (self@ == set![account@]),
    {
        let account = account.to_owned();
        let r = self.members.len() == 1 && self.members[0] == account;
        proof {
            let list = names(self.members@);
            if r {
                assert(list[0] == account@);
                assert(list.to_set() =~= set![account@]);
            } else if self@ == set![account@] {
                assert(self@.contains(account@));
                let i = list.index_of(account@);
                assert(list[i] == account@);
                if list.len() > 1 {
                    let j = if i == 0 {
                        1int
                    } else {
                        0int
                    };
                    assert(list.contains(list[j]));
                    assert(self@.contains(list[j]));
                }
            }
        }
        r
    }

    /// Makes `account` a member. Nothing changes if it is one already.
    pub fn insert(&mut self, account: &str)
        requires
            old(self).wf(),
        ensures
            final(self).wf(),
            final(self)@ == old(self)@.insert(account@),
    {
        let account = account.to_owned();
        if find_name(&self.members, &account).is_none() {
            proof {
                lemma_names_push(self.members@, account);
                lemma_push_contains(names(self.members@), account@);
                assert(names(self.members@).push(account@).to_set() =~= self@.insert(account@));
            }
            self.members.push(account);
        } else {
            assert(self@ =~= self@.insert(account@));
        }
    }

    /// Takes `account` out of the set. Nothing changes if it is no member.
    pub fn remove(&mut self, account: &str)
        requires
            old(self).wf(),
        ensures
            final(self).wf(),
            final(self)@ == old(self)@.remove(account@),
    {
        let account = account.to_owned();
        match find_name(&self.members, &account) {
            Some(i) => {
                proof {
                    lemma_names_remove(self.members@, i as int);
                    lemma_remove_contains(names(self.members@), i as int);
                    assert(names(self.members@).remove(i as int).to_set() =~= self@.remove(
                        account@,
                    ));
                }
                self.members.remove(i);
            },
            None => {
                assert(self@ =~= self@.remove(account@));
            },
        }
    }

    /// The members, each once, in the order in which they joined.
    pub fn to_vec(&self) -> (r: Vec<String>)
        requires
            self.wf(),
        ensures
            names(r@).no_duplicates(),
            names(r@).to_set() == self@,
    {
        copy_names(&self.members)
    }
}

/// Passes when the caller is a member of `set`, and refuses with
/// `PermissionDenied` when it is not.
pub fn require_member(set: &AccountSet, ctx: &Context) -> (r: Result<(), Error>)
    ensures
        r == if set@.contains(ctx@.caller) {
            Ok::<(), Error>(())
        } else {
            Err::<(), Error>(Error::PermissionDenied)
        },
{
    if set.contains(ctx.caller.as_str()) {
        Ok(())
    } else {
        Err(Error::PermissionDenied)
    }
}

} // verus!
