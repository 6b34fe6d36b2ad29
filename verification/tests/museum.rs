use meme_museum::context::Context;
use meme_museum::dispatch::{Dispatch, ViewFn};
use meme_museum::error::Error;
use meme_museum::museum::Museum;
use meme_museum::pending::OpKind;
use meme_museum::state::{Lifecycle, Outcome};

const DEPOSIT: u128 = 3_000_000_000_000_000_000_000_000;

fn call(caller: &str, attached: u128) -> Context {
    Context::new(caller, "museum", attached, 1)
}

fn callback() -> Context {
    Context::new("museum", "museum", 0, 2)
}

fn museum_of(owners: Vec<&str>) -> Museum {
    Museum::init(None, &call("master", 0), "meme museum", owners).unwrap()
}

fn museum_with_usain() -> Museum {
    let mut museum = museum_of(vec!["alice"]);
    museum
        .add_meme(&call("alice", 0), "usain", "usain refrain", "https://9gag.com/gag/ayMDG8Y", 0)
        .unwrap();
    museum.on_meme_created(&callback(), "usain", Outcome::Success).unwrap();
    museum
}

#[test]
fn test_add_meme() {
    // an owner will be able to manage the museum
    let owner_account = "alice".to_string();
    // a contributor can add their own memes
    let contributor_account = "bob".to_string();

    let name = "meme museum";

    // initialize museum
    let res = Museum::init(
        None,
        &Context::new("master", "museum", DEPOSIT, 0),
        name,
        vec![&owner_account],
    );
    println!("{:#?}\n", res);
    assert!(res.is_ok()); // museum has been initialized
    let mut museum = res.unwrap();

    // add contributor to museum
    let res = museum.add_contributor(&call(&owner_account, 0), &contributor_account);
    println!("{:#?}\n", res);
    assert!(res.is_ok());

    // switch signer to contributor
    let name = "usain";
    let title = "usain refrain";
    let data = "https://9gag.com/gag/ayMDG8Y";
    let category = 0; // Category.A

    let res = museum.add_meme(&call(&contributor_account, DEPOSIT), name, title, data, category);
    println!("{:#?}\n", res);
    assert_eq!(
        res,
        Ok(Dispatch::CreateExhibit {
            target: "usain.museum".to_string(),
            title: "usain refrain".to_string(),
            data: "https://9gag.com/gag/ayMDG8Y".to_string(),
            category: 0,
            payment: DEPOSIT,
        })
    );
}

#[test]
fn init_sets_name_and_owners_and_nothing_else() {
    let museum = museum_of(vec!["alice", "carol"]);
    let info = museum.get_museum();
    assert_eq!(info.name, "meme museum");
    assert_eq!(info.owners, vec!["alice".to_string(), "carol".to_string()]);
    assert!(info.contributors.is_empty());
    assert!(info.exhibits.is_empty());
    assert_eq!(museum.get_meme_count(), 0);
}

#[test]
fn init_keeps_each_owner_once() {
    let museum = museum_of(vec!["alice", "bob", "alice"]);
    assert_eq!(museum.get_owner_list(), vec!["alice".to_string(), "bob".to_string()]);
}

#[test]
fn init_without_owners_is_a_validation_error() {
    let res = Museum::init(None, &call("master", 0), "meme museum", vec![]);
    assert_eq!(res.err(), Some(Error::ValidationError));
}

#[test]
fn init_twice_is_once_only() {
    let museum = museum_of(vec!["alice"]);
    let res = Museum::init(Some(&museum), &call("master", 0), "other", vec!["bob"]);
    assert_eq!(res.err(), Some(Error::OnceOnly));
    // the check for an existing museum comes before the check of the owners
    let res = Museum::init(Some(&museum), &call("master", 0), "other", vec![]);
    assert_eq!(res.err(), Some(Error::OnceOnly));
}

#[test]
fn self_service_is_idempotent() {
    let mut museum = museum_of(vec!["alice"]);
    museum.add_myself_as_contributor(&call("bob", 0));
    museum.add_myself_as_contributor(&call("bob", 0));
    assert_eq!(museum.get_contributor_list(), vec!["bob".to_string()]);
    assert!(museum.is_contributor("bob"));
    museum.remove_myself_as_contributor(&call("bob", 0));
    museum.remove_myself_as_contributor(&call("bob", 0));
    assert!(museum.get_contributor_list().is_empty());
    assert!(!museum.is_contributor("bob"));
}

#[test]
fn owner_manages_contributors() {
    let mut museum = museum_of(vec!["alice"]);
    assert_eq!(museum.add_contributor(&call("alice", 0), "bob"), Ok(()));
    assert_eq!(museum.add_contributor(&call("alice", 0), "bob"), Ok(()));
    assert_eq!(museum.add_contributor(&call("alice", 0), "carol"), Ok(()));
    assert_eq!(museum.get_contributor_list(), vec!["bob".to_string(), "carol".to_string()]);
    assert_eq!(museum.remove_contributor(&call("alice", 0), "bob"), Ok(()));
    assert_eq!(museum.remove_contributor(&call("alice", 0), "nobody"), Ok(()));
    assert_eq!(museum.get_contributor_list(), vec!["carol".to_string()]);
}

#[test]
fn strangers_cannot_administer() {
    let mut museum = museum_with_usain();
    museum.add_myself_as_contributor(&call("bob", 0));
    let bob = call("bob", 0);
    assert_eq!(museum.add_contributor(&bob, "carol"), Err(Error::PermissionDenied));
    assert_eq!(museum.remove_contributor(&bob, "bob"), Err(Error::PermissionDenied));
    assert_eq!(museum.add_owner(&bob, "bob"), Err(Error::PermissionDenied));
    assert_eq!(museum.remove_owner(&bob, "alice"), Err(Error::PermissionDenied));
    assert_eq!(museum.require_owner(&bob), Err(Error::PermissionDenied));
    assert_eq!(museum.require_contributor(&bob), Ok(()));
    assert_eq!(museum.require_owner(&call("alice", 0)), Ok(()));
    assert_eq!(museum.require_contributor(&call("alice", 0)), Err(Error::PermissionDenied));
    assert_eq!(museum.get_owner_list(), vec!["alice".to_string()]);
    assert_eq!(museum.get_contributor_list(), vec!["bob".to_string()]);
}

#[test]
fn remove_meme_by_a_non_owner_changes_nothing() {
    let mut museum = museum_with_usain();
    museum.add_myself_as_contributor(&call("bob", 0));
    assert_eq!(museum.remove_meme(&call("bob", 0), "usain"), Err(Error::PermissionDenied));
    assert_eq!(museum.get_meme_list(), vec!["usain".to_string()]);
    assert_eq!(museum.lifecycle_of("usain"), Lifecycle::Active);
    // permission is checked before the name
    assert_eq!(museum.remove_meme(&call("bob", 0), "nothing"), Err(Error::PermissionDenied));
}

#[test]
fn the_last_owner_cannot_be_removed() {
    let mut museum = museum_of(vec!["alice"]);
    let alice = call("alice", 0);
    assert_eq!(museum.remove_owner(&alice, "alice"), Err(Error::InvariantViolation));
    assert_eq!(museum.get_owner_list(), vec!["alice".to_string()]);
    // removing somebody who is no owner is no error and changes nothing
    assert_eq!(museum.remove_owner(&alice, "bob"), Ok(()));
    assert_eq!(museum.get_owner_list(), vec!["alice".to_string()]);
    assert_eq!(museum.add_owner(&alice, "bob"), Ok(()));
    assert_eq!(museum.add_owner(&alice, "bob"), Ok(()));
    assert_eq!(museum.get_owner_list(), vec!["alice".to_string(), "bob".to_string()]);
    // a new owner may remove the first one, and is then the last
    let bob = call("bob", 0);
    assert_eq!(museum.remove_owner(&bob, "alice"), Ok(()));
    assert_eq!(museum.remove_owner(&bob, "bob"), Err(Error::InvariantViolation));
    assert_eq!(museum.get_owner_list(), vec!["bob".to_string()]);
    assert!(museum.is_owner("bob"));
    assert!(!museum.is_owner("alice"));
}

#[test]
fn owners_never_run_out() {
    let mut museum = museum_of(vec!["a"]);
    let accounts = ["a", "b", "c"];
    // every owner tries to remove everybody, again and again
    for round in 0..4 {
        for caller in accounts {
            for target in accounts {
                let _ = museum.remove_owner(&call(caller, 0), target);
                assert!(!museum.get_owner_list().is_empty());
                if round % 2 == 0 {
                    let _ = museum.add_owner(&call(caller, 0), target);
                    assert!(!museum.get_owner_list().is_empty());
                }
            }
        }
    }
    assert_eq!(museum.get_owner_list().len(), 1);
}

#[test]
fn add_meme_needs_a_contributor_or_an_owner() {
    let mut museum = museum_of(vec!["alice"]);
    let res = museum.add_meme(&call("bob", 5), "usain", "t", "d", 0);
    assert_eq!(res, Err(Error::PermissionDenied));
    museum.add_myself_as_contributor(&call("bob", 0));
    assert!(museum.add_meme(&call("bob", 5), "usain", "t", "d", 0).is_ok());
    assert!(museum.add_meme(&call("alice", 5), "grumpy", "t", "d", 1).is_ok());
    // nothing is listed before the callbacks
    assert_eq!(museum.get_meme_count(), 0);
}

#[test]
fn a_reserved_name_is_a_duplicate() {
    let mut museum = museum_of(vec!["alice"]);
    let alice = call("alice", 7);
    assert!(museum.add_meme(&alice, "usain", "t", "d", 0).is_ok());
    assert_eq!(museum.add_meme(&alice, "usain", "t2", "d2", 1), Err(Error::DuplicateName));
    assert_eq!(museum.get_meme_count(), 0);
    // the reservation is still the first one: its callback is accepted once
    assert_eq!(museum.on_meme_created(&callback(), "usain", Outcome::Success), Ok(None));
    assert_eq!(
        museum.on_meme_created(&callback(), "usain", Outcome::Success),
        Err(Error::NotFound)
    );
    assert_eq!(museum.get_meme_list(), vec!["usain".to_string()]);
}

#[test]
fn a_listed_name_is_a_duplicate() {
    let mut museum = museum_with_usain();
    let res = museum.add_meme(&call("alice", 1), "usain", "t", "d", 0);
    assert_eq!(res, Err(Error::DuplicateName));
    assert_eq!(museum.get_meme_count(), 1);
    assert_eq!(museum.get_meme_list(), vec!["usain".to_string()]);
}

#[test]
fn a_failed_creation_refunds_and_frees_the_name() {
    let mut museum = museum_of(vec!["alice"]);
    museum.add_myself_as_contributor(&call("bob", 0));
    assert!(museum.add_meme(&call("bob", 42), "usain", "t", "d", 0).is_ok());
    let res = museum.on_meme_created(&callback(), "usain", Outcome::Failure);
    assert_eq!(res, Ok(Some(Dispatch::Transfer { to: "bob".to_string(), amount: 42 })));
    assert_eq!(museum.get_meme_count(), 0);
    // the name can be asked for again
    assert!(museum.add_meme(&call("bob", 1), "usain", "t", "d", 0).is_ok());
}

#[test]
fn callbacks_come_from_the_host_only() {
    let mut museum = museum_with_usain();
    assert!(museum.add_meme(&call("alice", 0), "grumpy", "t", "d", 0).is_ok());
    assert!(museum.remove_meme(&call("alice", 0), "usain").is_ok());
    let forged = call("alice", 0);
    assert_eq!(
        museum.on_meme_created(&forged, "grumpy", Outcome::Success),
        Err(Error::PermissionDenied)
    );
    assert_eq!(
        museum.on_meme_removed(&forged, "usain", Outcome::Success),
        Err(Error::PermissionDenied)
    );
    assert_eq!(museum.get_meme_list(), vec!["usain".to_string()]);
    assert_eq!(museum.lifecycle_of("usain"), Lifecycle::Removing);
}

#[test]
fn memes_are_listed_in_creation_order() {
    let mut museum = museum_of(vec!["alice"]);
    let alice = call("alice", 0);
    for name in ["c", "a", "b"] {
        assert!(museum.add_meme(&alice, name, "t", "d", 0).is_ok());
    }
    // the callbacks arrive in another order than the requests
    for name in ["a", "b", "c"] {
        assert_eq!(museum.on_meme_created(&callback(), name, Outcome::Success), Ok(None));
    }
    assert_eq!(
        museum.get_meme_list(),
        vec!["a".to_string(), "b".to_string(), "c".to_string()]
    );
    assert_eq!(museum.get_meme_count(), 3);
}

#[test]
fn remove_meme_dispatches_a_teardown() {
    let mut museum = museum_with_usain();
    let res = museum.remove_meme(&call("alice", 0), "usain");
    assert_eq!(res, Ok(Dispatch::Teardown { target: "usain.museum".to_string() }));
    assert_eq!(museum.lifecycle_of("usain"), Lifecycle::Removing);
    assert_eq!(museum.get_meme_list(), vec!["usain".to_string()]);
    // a second removal has to wait for the first
    assert_eq!(museum.remove_meme(&call("alice", 0), "usain"), Err(Error::ConflictError));
}

#[test]
fn remove_meme_of_an_unknown_name_is_not_found() {
    let mut museum = museum_with_usain();
    assert_eq!(museum.remove_meme(&call("alice", 0), "grumpy"), Err(Error::NotFound));
    // a name that is only reserved is not listed yet
    assert!(museum.add_meme(&call("alice", 0), "grumpy", "t", "d", 0).is_ok());
    assert_eq!(museum.remove_meme(&call("alice", 0), "grumpy"), Err(Error::NotFound));
}

#[test]
fn a_successful_removal_deletes_the_name_and_keeps_the_order() {
    let mut museum = museum_of(vec!["alice"]);
    let alice = call("alice", 0);
    for name in ["a", "b", "c"] {
        assert!(museum.add_meme(&alice, name, "t", "d", 0).is_ok());
        assert_eq!(museum.on_meme_created(&callback(), name, Outcome::Success), Ok(None));
    }
    assert!(museum.remove_meme(&alice, "b").is_ok());
    assert_eq!(museum.on_meme_removed(&callback(), "b", Outcome::Success), Ok(None));
    assert_eq!(museum.get_meme_list(), vec!["a".to_string(), "c".to_string()]);
    assert_eq!(museum.lifecycle_of("b"), Lifecycle::Active);
    // a second delivery of the same callback finds nothing
    assert_eq!(
        museum.on_meme_removed(&callback(), "b", Outcome::Success),
        Err(Error::NotFound)
    );
    assert_eq!(museum.get_meme_list(), vec!["a".to_string(), "c".to_string()]);
    // the name is free again
    assert!(museum.add_meme(&alice, "b", "t", "d", 0).is_ok());
}

#[test]
fn a_failed_removal_restores_the_meme() {
    let mut museum = museum_with_usain();
    assert!(museum.remove_meme(&call("alice", 0), "usain").is_ok());
    let res = museum.on_meme_removed(&callback(), "usain", Outcome::Failure);
    assert_eq!(
        res,
        Ok(Some(Dispatch::Restore {
            target: "usain.museum".to_string(),
            lifecycle: Lifecycle::Active,
        }))
    );
    assert_eq!(museum.get_meme_list(), vec!["usain".to_string()]);
    assert_eq!(museum.lifecycle_of("usain"), Lifecycle::Active);
    // and the removal can be tried again
    assert!(museum.remove_meme(&call("alice", 0), "usain").is_ok());
}

#[test]
fn a_removal_callback_without_a_removal_is_not_found() {
    let mut museum = museum_with_usain();
    assert_eq!(
        museum.on_meme_removed(&callback(), "usain", Outcome::Success),
        Err(Error::NotFound)
    );
    assert_eq!(
        museum.on_meme_created(&callback(), "usain", Outcome::Success),
        Err(Error::NotFound)
    );
    assert_eq!(museum.get_meme_list(), vec!["usain".to_string()]);
}

#[test]
fn unrelated_callbacks_arrive_in_any_order() {
    let run = |removal_first: bool| {
        let mut museum = museum_with_usain();
        assert!(museum.add_meme(&call("alice", 9), "grumpy", "t", "d", 0).is_ok());
        assert!(museum.remove_meme(&call("alice", 0), "usain").is_ok());
        if removal_first {
            museum.on_meme_removed(&callback(), "usain", Outcome::Success).unwrap();
            museum.on_meme_created(&callback(), "grumpy", Outcome::Success).unwrap();
        } else {
            museum.on_meme_created(&callback(), "grumpy", Outcome::Success).unwrap();
            museum.on_meme_removed(&callback(), "usain", Outcome::Success).unwrap();
        }
        museum.get_museum()
    };
    assert_eq!(run(true), run(false));
    assert_eq!(run(true).exhibits, vec!["grumpy".to_string()]);
}

#[test]
fn the_proxy_prepares_a_query() {
    let museum = museum_with_usain();
    let ctx = call("anyone", 0);
    assert_eq!(
        museum.museum_to_meme_proxy(&ctx, "usain", "get_vote_score"),
        Ok(Dispatch::Query { target: "usain.museum".to_string(), view: ViewFn::GetVoteScore })
    );
    assert_eq!(
        museum.museum_to_meme_proxy(&ctx, "usain", "get_meme"),
        Ok(Dispatch::Query { target: "usain.museum".to_string(), view: ViewFn::GetMeme })
    );
    assert_eq!(museum.museum_to_meme_proxy(&ctx, "grumpy", "get_meme"), Err(Error::NotFound));
    assert_eq!(museum.museum_to_meme_proxy(&ctx, "usain", "vote"), Err(Error::ValidationError));
    // an unknown name is reported before an unknown operation
    assert_eq!(museum.museum_to_meme_proxy(&ctx, "grumpy", "vote"), Err(Error::NotFound));
    assert_eq!(museum.get_meme_list(), vec!["usain".to_string()]);
}

#[test]
fn resolve_goes_by_the_kind_of_the_request() {
    let mut museum = museum_with_usain();
    assert!(museum.add_meme(&call("alice", 4), "grumpy", "t", "d", 0).is_ok());
    assert!(museum.remove_meme(&call("alice", 0), "usain").is_ok());
    // a museum has no release pending, whatever the key
    assert_eq!(
        museum.resolve(&callback(), OpKind::ReleaseDonations, "usain", Outcome::Success),
        Err(Error::NotFound)
    );
    assert_eq!(
        museum.resolve(&call("alice", 0), OpKind::ReleaseDonations, "usain", Outcome::Success),
        Err(Error::PermissionDenied)
    );
    // the kinds do not answer for each other
    assert_eq!(
        museum.resolve(&callback(), OpKind::CreateExhibit, "usain", Outcome::Success),
        Err(Error::NotFound)
    );
    assert_eq!(
        museum.resolve(&callback(), OpKind::RemoveExhibit, "grumpy", Outcome::Success),
        Err(Error::NotFound)
    );
    assert_eq!(
        museum.resolve(&callback(), OpKind::CreateExhibit, "grumpy", Outcome::Failure),
        Ok(Some(Dispatch::Transfer { to: "alice".to_string(), amount: 4 }))
    );
    assert_eq!(
        museum.resolve(&callback(), OpKind::RemoveExhibit, "usain", Outcome::Success),
        Ok(None)
    );
    assert!(museum.get_meme_list().is_empty());
}
