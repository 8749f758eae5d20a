use todo_render::account::Account;
use todo_render::contract::{DataKey, TodoContract, TodoError};
use todo_render::task::{AccountId, Task};

fn owner(name: &str) -> AccountId {
    AccountId::new(name.as_bytes().to_vec())
}

fn stored(contract: &TodoContract, accounts: &[&AccountId]) -> u32 {
    let mut sum: u32 = 0;
    for account in accounts {
        sum += contract.get_tasks(account).len() as u32;
    }
    sum
}

fn task(id: u32, text: &str, completed: bool, of: &AccountId) -> Task {
    Task { id, description: text.as_bytes().to_vec(), completed, owner: of.clone() }
}

#[test]
fn new_store_is_empty() {
    let contract = TodoContract::new();
    let alice = owner("alice");
    assert_eq!(contract.get_stats(), (0, 0));
    assert!(contract.get_tasks(&alice).is_empty());
    assert!(contract.get_task(1, &alice).is_none());
    assert!(contract.account(&alice).is_none());
}

#[test]
fn init_changes_nothing() {
    let mut contract = TodoContract::new();
    let alice = owner("alice");
    contract.add_task(b"one".to_vec(), &alice, true).unwrap();
    contract.init();
    assert_eq!(contract.get_stats(), (1, 1));
    assert_eq!(contract.get_tasks(&alice).len(), 1);
}

#[test]
fn total_tasks_matches_collections_after_every_mutation() {
    let mut contract = TodoContract::new();
    let alice = owner("alice");
    let bob = owner("bob");
    let carol = owner("carol");
    let all = [&alice, &bob, &carol];

    assert_eq!(contract.get_stats().0, stored(&contract, &all));
    contract.add_task(b"a1".to_vec(), &alice, true).unwrap();
    assert_eq!(contract.get_stats().0, stored(&contract, &all));
    contract.add_task(b"b1".to_vec(), &bob, true).unwrap();
    assert_eq!(contract.get_stats().0, stored(&contract, &all));
    contract.add_task(b"a2".to_vec(), &alice, true).unwrap();
    assert_eq!(contract.get_stats().0, stored(&contract, &all));
    assert_eq!(contract.get_stats().0, 3);
    contract.complete_task(1, &alice, true).unwrap();
    assert_eq!(contract.get_stats().0, stored(&contract, &all));
    contract.delete_task(1, &alice, true).unwrap();
    assert_eq!(contract.get_stats().0, stored(&contract, &all));
    assert_eq!(contract.get_stats().0, 2);
    contract.delete_task(9, &bob, true).unwrap();
    assert_eq!(contract.get_stats().0, stored(&contract, &all));
    contract.delete_task(1, &carol, true).unwrap();
    assert_eq!(contract.get_stats().0, stored(&contract, &all));
    contract.delete_task(1, &bob, true).unwrap();
    contract.delete_task(2, &alice, true).unwrap();
    assert_eq!(contract.get_stats().0, stored(&contract, &all));
    assert_eq!(contract.get_stats(), (0, 2));
}

#[test]
fn user_count_grows_once_per_account() {
    let mut contract = TodoContract::new();
    let alice = owner("alice");
    let bob = owner("bob");

    assert_eq!(contract.get_stats().1, 0);
    contract.add_task(b"first".to_vec(), &alice, true).unwrap();
    assert_eq!(contract.get_stats().1, 1);
    contract.add_task(b"second".to_vec(), &alice, true).unwrap();
    assert_eq!(contract.get_stats().1, 1);
    contract.add_task(b"first".to_vec(), &bob, true).unwrap();
    assert_eq!(contract.get_stats().1, 2);
    contract.add_task(b"third".to_vec(), &alice, true).unwrap();
    assert_eq!(contract.get_stats().1, 2);

    // It never shrinks, not even when an account deletes all it has.
    contract.delete_task(1, &bob, true).unwrap();
    assert_eq!(contract.get_stats().1, 2);
    contract.add_task(b"again".to_vec(), &bob, true).unwrap();
    assert_eq!(contract.get_stats().1, 2);
}

#[test]
fn deleting_a_missing_id_changes_nothing() {
    let mut contract = TodoContract::new();
    let alice = owner("alice");
    let bob = owner("bob");
    contract.add_task(b"one".to_vec(), &alice, true).unwrap();
    contract.add_task(b"two".to_vec(), &alice, true).unwrap();

    let before = contract.get_tasks(&alice);
    assert_eq!(contract.delete_task(7, &alice, true), Ok(()));
    assert_eq!(contract.get_tasks(&alice), before);
    assert_eq!(contract.get_stats(), (2, 1));

    // An account that never wrote has nothing to delete either.
    assert_eq!(contract.delete_task(1, &bob, true), Ok(()));
    assert_eq!(contract.get_stats(), (2, 1));
    assert!(contract.account(&bob).is_none());
    assert_eq!(contract.get_tasks(&alice), before);
}

#[test]
fn completing_a_missing_id_changes_nothing() {
    let mut contract = TodoContract::new();
    let alice = owner("alice");
    let bob = owner("bob");
    contract.add_task(b"one".to_vec(), &alice, true).unwrap();

    let before = contract.get_tasks(&alice);
    assert_eq!(contract.complete_task(2, &alice, true), Ok(()));
    assert_eq!(contract.get_tasks(&alice), before);
    assert!(contract.get_task(2, &alice).is_none());
    assert_eq!(contract.get_stats(), (1, 1));

    assert_eq!(contract.complete_task(1, &bob, true), Ok(()));
    assert!(contract.account(&bob).is_none());
    assert!(contract.get_tasks(&bob).is_empty());
    assert_eq!(contract.get_stats(), (1, 1));
    assert_eq!(contract.get_task(1, &alice).unwrap().completed, false);
}

#[test]
fn added_task_round_trips() {
    let mut contract = TodoContract::new();
    let alice = owner("alice");
    let id = contract.add_task(b"X".to_vec(), &alice, true).unwrap();
    let found = contract.get_task(id, &alice).unwrap();
    assert_eq!(found, task(id, "X", false, &alice));
    assert_eq!(found.description, b"X".to_vec());
    assert_eq!(found.completed, false);
    assert_eq!(found.owner, alice);
}

#[test]
fn accounts_are_isolated_with_overlapping_ids() {
    let mut contract = TodoContract::new();
    let alice = owner("alice");
    let bob = owner("bob");
    assert_eq!(contract.add_task(b"alice 1".to_vec(), &alice, true), Ok(1));
    assert_eq!(contract.add_task(b"alice 2".to_vec(), &alice, true), Ok(2));
    assert_eq!(contract.add_task(b"bob 1".to_vec(), &bob, true), Ok(1));

    assert_eq!(
        contract.get_tasks(&bob),
        vec![task(1, "bob 1", false, &bob)]
    );
    assert_eq!(
        contract.get_tasks(&alice),
        vec![task(1, "alice 1", false, &alice), task(2, "alice 2", false, &alice)]
    );
    assert!(contract.get_task(2, &bob).is_none());

    // What alice does to her id 1 leaves bob's id 1 alone.
    contract.complete_task(1, &alice, true).unwrap();
    assert_eq!(contract.get_task(1, &bob).unwrap().completed, false);
    contract.delete_task(1, &alice, true).unwrap();
    assert_eq!(contract.get_tasks(&bob), vec![task(1, "bob 1", false, &bob)]);
    for t in contract.get_tasks(&bob) {
        assert_eq!(t.owner, bob);
    }
}

#[test]
fn ids_are_never_reused() {
    let mut contract = TodoContract::new();
    let alice = owner("alice");
    assert_eq!(contract.add_task(b"one".to_vec(), &alice, true), Ok(1));
    assert_eq!(contract.add_task(b"two".to_vec(), &alice, true), Ok(2));
    contract.delete_task(2, &alice, true).unwrap();
    assert_eq!(contract.add_task(b"three".to_vec(), &alice, true), Ok(3));
    contract.delete_task(1, &alice, true).unwrap();
    contract.delete_task(3, &alice, true).unwrap();
    assert!(contract.get_tasks(&alice).is_empty());
    assert_eq!(contract.add_task(b"four".to_vec(), &alice, true), Ok(4));
    assert_eq!(contract.account(&alice).unwrap().next_id(), 5);
}

#[test]
fn tasks_stay_in_order_of_insertion() {
    let mut contract = TodoContract::new();
    let alice = owner("alice");
    for text in ["a", "b", "c", "d"] {
        contract.add_task(text.as_bytes().to_vec(), &alice, true).unwrap();
    }
    contract.delete_task(2, &alice, true).unwrap();
    contract.complete_task(3, &alice, true).unwrap();
    assert_eq!(
        contract.get_tasks(&alice),
        vec![task(1, "a", false, &alice), task(3, "c", true, &alice), task(4, "d", false, &alice)]
    );
}

#[test]
fn completing_twice_is_the_same_as_once() {
    let mut contract = TodoContract::new();
    let alice = owner("alice");
    contract.add_task(b"one".to_vec(), &alice, true).unwrap();
    contract.complete_task(1, &alice, true).unwrap();
    let once = contract.get_tasks(&alice);
    contract.complete_task(1, &alice, true).unwrap();
    assert_eq!(contract.get_tasks(&alice), once);
    assert_eq!(contract.get_stats(), (1, 1));
}

#[test]
fn unauthenticated_calls_fail_and_write_nothing() {
    let mut contract = TodoContract::new();
    let alice = owner("alice");
    let mallory = owner("mallory");
    contract.add_task(b"one".to_vec(), &alice, true).unwrap();

    assert_eq!(contract.add_task(b"spam".to_vec(), &alice, false), Err(TodoError::Unauthorized));
    assert_eq!(contract.add_task(b"spam".to_vec(), &mallory, false), Err(TodoError::Unauthorized));
    assert_eq!(contract.complete_task(1, &alice, false), Err(TodoError::Unauthorized));
    assert_eq!(contract.delete_task(1, &alice, false), Err(TodoError::Unauthorized));

    assert_eq!(contract.get_stats(), (1, 1));
    assert_eq!(contract.get_tasks(&alice), vec![task(1, "one", false, &alice)]);
    assert!(contract.account(&mallory).is_none());
    assert_eq!(contract.account(&alice).unwrap().next_id(), 2);
}

#[test]
fn reading_needs_no_authentication() {
    let mut contract = TodoContract::new();
    let alice = owner("alice");
    contract.add_task(b"public".to_vec(), &alice, true).unwrap();
    // Any reader may name any account.
    assert_eq!(contract.get_tasks(&owner("alice")).len(), 1);
    assert_eq!(contract.get_task(1, &owner("alice")).unwrap().description, b"public".to_vec());
}

#[test]
fn account_restore_accepts_a_valid_state() {
    let alice = owner("alice");
    let tasks = vec![task(1, "a", true, &alice), task(4, "d", false, &alice)];
    let account = Account::restore(alice.clone(), tasks.clone(), 5, true).unwrap();
    assert_eq!(account.owner(), &alice);
    assert_eq!(account.tasks(), &tasks);
    assert_eq!(account.next_id(), 5);
    assert!(account.has_tasks());
    assert_eq!(account.get(4), Some(task(4, "d", false, &alice)));
    assert_eq!(account.get(2), None);
    assert_eq!(account.list(), tasks);

    let fresh = Account::restore(alice.clone(), Vec::new(), 1, false).unwrap();
    assert_eq!(fresh, Account::new(alice.clone()));
}

#[test]
fn account_restore_rejects_invalid_states() {
    let alice = owner("alice");
    let bob = owner("bob");
    // next id 0
    assert!(Account::restore(alice.clone(), Vec::new(), 0, false).is_none());
    // flag and next id disagree
    assert!(Account::restore(alice.clone(), Vec::new(), 1, true).is_none());
    assert!(Account::restore(alice.clone(), Vec::new(), 2, false).is_none());
    // an id that was not handed out yet
    assert!(Account::restore(alice.clone(), vec![task(3, "x", false, &alice)], 3, true).is_none());
    // id 0
    assert!(Account::restore(alice.clone(), vec![task(0, "x", false, &alice)], 3, true).is_none());
    // ids out of order, and an id twice
    assert!(Account::restore(
        alice.clone(),
        vec![task(2, "x", false, &alice), task(1, "y", false, &alice)],
        3,
        true
    )
    .is_none());
    assert!(Account::restore(
        alice.clone(),
        vec![task(1, "x", false, &alice), task(1, "y", false, &alice)],
        3,
        true
    )
    .is_none());
    // a task of somebody else
    assert!(Account::restore(alice.clone(), vec![task(1, "x", false, &bob)], 2, true).is_none());
}

#[test]
fn account_operations() {
    let alice = owner("alice");
    let mut account = Account::new(alice.clone());
    assert_eq!(account.next_id(), 1);
    assert!(!account.has_tasks());
    assert_eq!(account.add(b"one".to_vec()), 1);
    assert_eq!(account.add(b"two".to_vec()), 2);
    assert!(account.has_tasks());
    assert!(account.complete(2));
    assert!(!account.complete(3));
    assert!(account.remove(1));
    assert!(!account.remove(1));
    assert_eq!(account.list(), vec![task(2, "two", true, &alice)]);
    assert_eq!(account.next_id(), 3);
}

#[test]
fn store_restore_keeps_parts_and_rejects_duplicates() {
    let alice = owner("alice");
    let bob = owner("bob");
    let a = Account::restore(alice.clone(), vec![task(2, "x", false, &alice)], 3, true).unwrap();
    let b = Account::new(bob.clone());
    let contract = TodoContract::restore(vec![a, b], 7, 4).unwrap();
    assert_eq!(contract.get_stats(), (7, 4));
    assert_eq!(contract.get_tasks(&alice), vec![task(2, "x", false, &alice)]);
    assert_eq!(contract.account(&bob).unwrap().next_id(), 1);

    let twice = vec![Account::new(alice.clone()), Account::new(bob.clone()), Account::new(alice.clone())];
    assert!(TodoContract::restore(twice, 0, 0).is_none());
}

#[test]
fn total_tasks_never_goes_below_zero() {
    let alice = owner("alice");
    let a = Account::restore(alice.clone(), vec![task(1, "x", false, &alice)], 2, true).unwrap();
    // A counter that lags behind the records is left at zero, not wrapped.
    let mut contract = TodoContract::restore(vec![a], 0, 1).unwrap();
    assert_eq!(contract.delete_task(1, &alice, true), Ok(()));
    assert_eq!(contract.get_stats(), (0, 1));
    assert!(contract.get_tasks(&alice).is_empty());
}

#[test]
fn a_part_of_the_store_counts_like_the_whole() {
    // The counters cover accounts that are not loaded.
    let alice = owner("alice");
    let a = Account::restore(alice.clone(), vec![task(1, "x", false, &alice)], 2, true).unwrap();
    let mut contract = TodoContract::restore(vec![a], 10, 3).unwrap();
    assert_eq!(contract.add_task(b"y".to_vec(), &alice, true), Ok(2));
    assert_eq!(contract.get_stats(), (11, 3));
    contract.delete_task(1, &alice, true).unwrap();
    assert_eq!(contract.get_stats(), (10, 3));
    let bob = owner("bob");
    assert_eq!(contract.add_task(b"z".to_vec(), &bob, true), Ok(1));
    assert_eq!(contract.get_stats(), (11, 4));
}

#[test]
fn can_add_tells_when_a_counter_is_full() {
    let alice = owner("alice");
    let bob = owner("bob");

    let contract = TodoContract::new();
    assert!(contract.can_add(&alice));

    let full_total = TodoContract::restore(Vec::new(), u32::MAX, 0).unwrap();
    assert!(!full_total.can_add(&alice));

    let a = Account::restore(alice.clone(), Vec::new(), u32::MAX, true).unwrap();
    let full_ids = TodoContract::restore(vec![a], 0, 1).unwrap();
    assert!(!full_ids.can_add(&alice));
    assert!(full_ids.can_add(&bob));

    let a = Account::restore(alice.clone(), Vec::new(), 5, true).unwrap();
    let full_users = TodoContract::restore(vec![a], 0, u32::MAX).unwrap();
    assert!(full_users.can_add(&alice));
    assert!(!full_users.can_add(&bob));
}

#[test]
fn account_identities_compare_byte_for_byte() {
    assert!(owner("alice").same_as(&owner("alice")));
    assert!(!owner("alice").same_as(&owner("alicf")));
    assert!(!owner("alice").same_as(&owner("alic")));
    assert!(owner("").same_as(&owner("")));
    assert_eq!(owner("alice").clone(), owner("alice"));
}

#[test]
fn additions_report_the_records_they_write() {
    let mut contract = TodoContract::new();
    let alice = owner("alice");
    let bob = owner("bob");
    assert!(contract.writes().is_empty());

    contract.add_task(b"one".to_vec(), &alice, true).unwrap();
    assert_eq!(
        contract.writes(),
        &vec![
            DataKey::Tasks(alice.clone()),
            DataKey::NextId(alice.clone()),
            DataKey::TotalTasks,
            DataKey::HasTasks(alice.clone()),
            DataKey::UserCount,
        ]
    );

    // A later task of the same account touches neither flag nor user count.
    contract.add_task(b"two".to_vec(), &alice, true).unwrap();
    assert_eq!(
        contract.writes()[5..],
        [DataKey::Tasks(alice.clone()), DataKey::NextId(alice.clone()), DataKey::TotalTasks]
    );

    contract.add_task(b"one".to_vec(), &bob, true).unwrap();
    assert_eq!(
        contract.writes()[8..],
        [
            DataKey::Tasks(bob.clone()),
            DataKey::NextId(bob.clone()),
            DataKey::TotalTasks,
            DataKey::HasTasks(bob.clone()),
            DataKey::UserCount,
        ]
    );
}

#[test]
fn completion_and_deletion_report_the_records_they_write() {
    let alice = owner("alice");
    let a = Account::restore(
        alice.clone(),
        vec![task(1, "x", false, &alice), task(2, "y", false, &alice)],
        3,
        true,
    )
    .unwrap();
    let mut contract = TodoContract::restore(vec![a], 1, 1).unwrap();
    assert!(contract.writes().is_empty());

    contract.complete_task(1, &alice, true).unwrap();
    assert_eq!(contract.writes(), &vec![DataKey::Tasks(alice.clone())]);

    contract.delete_task(1, &alice, true).unwrap();
    assert_eq!(contract.writes()[1..], [DataKey::Tasks(alice.clone()), DataKey::TotalTasks]);
    assert_eq!(contract.get_stats().0, 0);

    // The counter is at zero now: the list is written, the counter is not.
    contract.delete_task(2, &alice, true).unwrap();
    assert_eq!(contract.writes()[3..], [DataKey::Tasks(alice.clone())]);
    assert_eq!(contract.writes().len(), 4);
}

#[test]
fn calls_that_change_nothing_write_nothing() {
    let mut contract = TodoContract::new();
    let alice = owner("alice");
    let bob = owner("bob");
    contract.add_task(b"one".to_vec(), &alice, true).unwrap();
    let written = contract.writes().len();

    contract.complete_task(5, &alice, true).unwrap();
    contract.delete_task(5, &alice, true).unwrap();
    contract.complete_task(1, &bob, true).unwrap();
    contract.delete_task(1, &bob, true).unwrap();
    contract.init();
    assert_eq!(contract.add_task(b"x".to_vec(), &alice, false), Err(TodoError::Unauthorized));
    assert_eq!(contract.complete_task(1, &alice, false), Err(TodoError::Unauthorized));
    assert_eq!(contract.delete_task(1, &alice, false), Err(TodoError::Unauthorized));
    let _ = contract.get_tasks(&alice);
    let _ = contract.get_task(1, &alice);
    let _ = contract.get_stats();
    let _ = contract.render(Some(b"/tasks".as_slice()), Some(&alice));
    assert_eq!(contract.writes().len(), written);
}

#[test]
fn absent_records_stand_for_their_defaults() {
    let alice = owner("alice");
    let fresh = Account::load(alice.clone(), None, None, None).unwrap();
    assert_eq!(fresh, Account::new(alice.clone()));
    assert_eq!(fresh.next_id(), 1);
    assert!(!fresh.has_tasks());
    assert!(fresh.tasks().is_empty());

    let stored = Account::load(
        alice.clone(),
        Some(vec![task(2, "x", true, &alice)]),
        Some(3),
        Some(true),
    )
    .unwrap();
    assert_eq!(
        stored,
        Account::restore(alice.clone(), vec![task(2, "x", true, &alice)], 3, true).unwrap()
    );
    // A list without the counter that handed out its ids does not fit.
    assert!(Account::load(alice.clone(), Some(vec![task(2, "x", true, &alice)]), None, Some(true))
        .is_none());
    assert!(Account::load(alice.clone(), None, Some(3), None).is_none());

    let contract = TodoContract::load(Vec::new(), None, None).unwrap();
    assert_eq!(contract.get_stats(), (0, 0));
    assert_eq!(contract, TodoContract::new());
    let contract = TodoContract::load(vec![fresh], Some(4), None).unwrap();
    assert_eq!(contract.get_stats(), (4, 0));
    let twice = vec![Account::new(alice.clone()), Account::new(alice.clone())];
    assert!(TodoContract::load(twice, Some(1), Some(1)).is_none());
}
