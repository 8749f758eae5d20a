//! General properties of the task store, of the filter and of the text
//! helpers, proved over their mathematical models: each holds of every valid
//! store and every input.

use vstd::prelude::*;
use crate::account::{lemma_transitions_keep_wf, mark_completed, without_id};
use crate::contract::{
    lemma_counts_push,
    lemma_counts_update,
    lemma_position,
    lemma_with_account,
    position,
    stored_tasks,
    ContractView,
};
use crate::task::{keeps, lemma_select_members, lemma_task_with_id_at, select, task_with_id, TaskView};
use crate::text::{
    all_digits,
    decimal,
    escape_json,
    lemma_decimal_is_digits,
    lemma_escape_json_concat,
    lemma_escape_json_single,
    lemma_parse_decimal_round_trip,
    parse_decimal,
    BACKSLASH,
    NEWLINE,
    QUOTE,
    ZERO,
};

verus! {

/// The empty store is valid, and its counters agree with its records.
pub proof fn law_empty_store_is_consistent()
    ensures
        ContractView::empty().wf(),
        ContractView::empty().consistent(),
{
}

/// Adding a task keeps the store valid, and keeps `total_tasks` equal to
/// the number of tasks over all accounts and `user_count` equal to the
/// number of accounts that have ever added one.
pub proof fn law_add_keeps_counters(state: ContractView, description: Seq<u8>, caller: Seq<u8>)
    requires
        state.wf(),
        state.can_add(caller),
    ensures
        state.add_task(description, caller).wf(),
        state.consistent() ==> state.add_task(description, caller).consistent(),
        stored_tasks(state.add_task(description, caller).accounts) == stored_tasks(state.accounts)
            + 1,
{
    let before = state.account(caller);
    let after = before.added(description);
    lemma_position(state.accounts, caller);
    lemma_transitions_keep_wf(before, description, 0);
    lemma_with_account(state, after);
    match position(state.accounts, caller) {
        Some(i) => {
            lemma_counts_update(state.accounts, i, after);
        },
        None => {
            lemma_counts_push(state.accounts, after);
        },
    }
}

/// Completing a task keeps the store valid and its counters in agreement
/// with its records; it changes neither counter.
pub proof fn law_complete_keeps_counters(state: ContractView, id: u32, caller: Seq<u8>)
    requires
        state.wf(),
    ensures
        state.complete_task(id, caller).wf(),
        state.consistent() ==> state.complete_task(id, caller).consistent(),
        state.complete_task(id, caller).total_tasks == state.total_tasks,
        state.complete_task(id, caller).user_count == state.user_count,
        stored_tasks(state.complete_task(id, caller).accounts) == stored_tasks(state.accounts),
{
    lemma_position(state.accounts, caller);
    match position(state.accounts, caller) {
        Some(i) => {
            let after = state.accounts[i].completed(id);
            lemma_transitions_keep_wf(state.accounts[i], Seq::empty(), id);
            lemma_with_account(state, after);
            lemma_counts_update(state.accounts, i, after);
        },
        None => {},
    }
}

/// Deleting a task keeps the store valid and its counters in agreement
/// with its records; it never changes `user_count`.
pub proof fn law_delete_keeps_counters(state: ContractView, id: u32, caller: Seq<u8>)
    requires
        state.wf(),
    ensures
        state.delete_task(id, caller).wf(),
        state.consistent() ==> state.delete_task(id, caller).consistent(),
        state.delete_task(id, caller).user_count == state.user_count,
        stored_tasks(state.delete_task(id, caller).accounts) == if state.account(caller).holds(id) {
            stored_tasks(state.accounts) - 1
        } else {
            stored_tasks(state.accounts) as int
        },
{
    lemma_position(state.accounts, caller);
    match position(state.accounts, caller) {
        Some(i) => {
            let after = state.accounts[i].removed(id);
            lemma_transitions_keep_wf(state.accounts[i], Seq::empty(), id);
            lemma_with_account(state, after);
            lemma_counts_update(state.accounts, i, after);
        },
        None => {},
    }
}

/// `user_count` grows by exactly one with the first task that an account
/// adds, and not at all with any later one: an account has added a task
/// before exactly when ids have been handed out to it, and after an
/// addition that is so.
pub proof fn law_user_count_counts_first_add(state: ContractView, description: Seq<u8>, caller: Seq<u8>)
    requires
        state.wf(),
        state.can_add(caller),
    ensures
        state.account(caller).has_tasks == (state.account(caller).next_id > 1),
        state.add_task(description, caller).user_count == if state.account(caller).has_tasks {
            state.user_count as int
        } else {
            state.user_count + 1
        },
        state.add_task(description, caller).account(caller).has_tasks,
{
    let before = state.account(caller);
    lemma_position(state.accounts, caller);
    lemma_transitions_keep_wf(before, description, 0);
    lemma_with_account(state, before.added(description));
}

/// An account that has added a task stays counted, whatever it or anybody
/// else does afterwards: no addition, completion or deletion unsets its
/// flag, so none of its later additions makes `user_count` grow.
pub proof fn law_counted_accounts_stay_counted(
    state: ContractView,
    description: Seq<u8>,
    id: u32,
    actor: Seq<u8>,
    account: Seq<u8>,
)
    requires
        state.wf(),
        state.account(account).has_tasks,
    ensures
        state.can_add(actor) ==> state.add_task(description, actor).account(account).has_tasks,
        state.complete_task(id, actor).account(account).has_tasks,
        state.delete_task(id, actor).account(account).has_tasks,
        state.can_add(account) ==> state.add_task(description, account).user_count
            == state.user_count,
{
    let before = state.account(actor);
    lemma_position(state.accounts, actor);
    lemma_transitions_keep_wf(before, description, id);
    if state.can_add(actor) {
        lemma_with_account(state, before.added(description));
    }
    lemma_with_account(state, before.completed(id));
    lemma_with_account(state, before.removed(id));
}

/// A second task of the same account, added right after its first, leaves
/// `user_count` as the first left it.
pub proof fn law_second_add_keeps_user_count(
    state: ContractView,
    first: Seq<u8>,
    second: Seq<u8>,
    caller: Seq<u8>,
)
    requires
        state.wf(),
        state.can_add(caller),
        state.add_task(first, caller).can_add(caller),
    ensures
        state.add_task(first, caller).add_task(second, caller).user_count == state.add_task(
            first,
            caller,
        ).user_count,
{
    law_user_count_counts_first_add(state, first, caller);
    law_add_keeps_counters(state, first, caller);
    law_user_count_counts_first_add(state.add_task(first, caller), second, caller);
}

/// Deleting an id that the caller's list does not hold changes nothing:
/// not the list, not its size, not a counter.
pub proof fn law_delete_missing_changes_nothing(state: ContractView, id: u32, caller: Seq<u8>)
    requires
        state.wf(),
        !state.account(caller).holds(id),
    ensures
        state.delete_task(id, caller) == state,
{
}

/// Completing an id that the caller's list does not hold changes nothing:
/// no record comes into being, no task and no counter changes.
pub proof fn law_complete_missing_changes_nothing(state: ContractView, id: u32, caller: Seq<u8>)
    requires
        state.wf(),
        !state.account(caller).holds(id),
    ensures
        state.complete_task(id, caller) == state,
{
    lemma_position(state.accounts, caller);
    match position(state.accounts, caller) {
        Some(i) => {
            lemma_transitions_keep_wf(state.accounts[i], Seq::empty(), id);
        },
        None => {},
    }
}

/// A task that was added is found under the id that the addition returned,
/// with the description given, pending, and owned by the caller.
pub proof fn law_added_task_is_found(state: ContractView, description: Seq<u8>, caller: Seq<u8>)
    requires
        state.wf(),
        state.can_add(caller),
    ensures
        task_with_id(
            state.add_task(description, caller).account(caller).tasks,
            state.account(caller).next_id,
        ) == Some(
            TaskView {
                id: state.account(caller).next_id,
                description,
                completed: false,
                owner: caller,
            },
        ),
{
    let before = state.account(caller);
    let after = before.added(description);
    lemma_position(state.accounts, caller);
    lemma_with_account(state, after);
    assert forall|k: int| 0 <= k < before.tasks.len() implies after.tasks[k].id
        != before.next_id by {}
    lemma_task_with_id_at(after.tasks, before.next_id, before.tasks.len() as int);
}

/// What one account does never shows in the list of another: adding,
/// completing and deleting leave the state of every other account as it
/// was, even where both use the same ids; and every task of a list belongs
/// to the owner of the list.
pub proof fn law_accounts_are_isolated(
    state: ContractView,
    description: Seq<u8>,
    id: u32,
    actor: Seq<u8>,
    other: Seq<u8>,
)
    requires
        state.wf(),
        actor != other,
    ensures
        state.can_add(actor) ==> state.add_task(description, actor).account(other)
            == state.account(other),
        state.complete_task(id, actor).account(other) == state.account(other),
        state.delete_task(id, actor).account(other) == state.account(other),
        forall|k: int|
            0 <= k < state.account(other).tasks.len() ==> (#[trigger] state.account(other).tasks[k]).owner
                == other,
{
    let before = state.account(actor);
    lemma_position(state.accounts, actor);
    lemma_position(state.accounts, other);
    lemma_transitions_keep_wf(before, description, id);
    if state.can_add(actor) {
        lemma_with_account(state, before.added(description));
    }
    lemma_with_account(state, before.removed(id));
    match position(state.accounts, actor) {
        Some(i) => {
            lemma_with_account(state, state.accounts[i].completed(id));
        },
        None => {},
    }
}

/// Inside a JSON string a double quote stands as `\"` and a line feed as
/// `\n`, wherever in the text they occur.
pub proof fn law_quote_and_newline_are_escaped(before: Seq<u8>, between: Seq<u8>, after: Seq<u8>)
    ensures
        escape_json(before + seq![QUOTE] + between + seq![NEWLINE] + after) == escape_json(before)
            + seq![BACKSLASH, QUOTE] + escape_json(between) + seq![BACKSLASH, 110u8] + escape_json(
            after,
        ),
{
    lemma_escape_json_single(QUOTE);
    lemma_escape_json_single(NEWLINE);
    lemma_escape_json_concat(before, seq![QUOTE]);
    lemma_escape_json_concat(before + seq![QUOTE], between);
    lemma_escape_json_concat(before + seq![QUOTE] + between, seq![NEWLINE]);
    lemma_escape_json_concat(before + seq![QUOTE] + between + seq![NEWLINE], after);
}

/// A filter selects exactly the tasks that pass it, in their order: every
/// selected task passes and is one of the tasks given, every task that
/// passes is selected, and the filter `None` selects all.
pub proof fn law_selection_is_exact(tasks: Seq<TaskView>, filter: Option<bool>)
    ensures
        forall|i: int|
            0 <= i < select(tasks, filter).len() ==> keeps(filter, #[trigger] select(tasks, filter)[i])
                && tasks.contains(select(tasks, filter)[i]),
        forall|i: int|
            0 <= i < tasks.len() && keeps(filter, tasks[i]) ==> select(tasks, filter).contains(
                #[trigger] tasks[i],
            ),
        select(tasks, None) == tasks,
        select(tasks, filter).len() <= tasks.len(),
    decreases tasks.len(),
{
    assert forall|i: int| 0 <= i < select(tasks, filter).len() implies keeps(
        filter,
        #[trigger] select(tasks, filter)[i],
    ) && tasks.contains(select(tasks, filter)[i]) by {
        lemma_select_members(tasks, filter, i);
    }
    if tasks.len() > 0 {
        let shorter = tasks.drop_last();
        law_selection_is_exact(shorter, filter);
        let kept = select(tasks, filter);
        let rest = select(shorter, filter);
        assert forall|i: int| 0 <= i < tasks.len() && keeps(filter, tasks[i]) implies kept.contains(
            #[trigger] tasks[i],
        ) by {
            if i == tasks.len() - 1 {
                assert(kept[kept.len() - 1] == tasks[i]);
            } else {
                let j = choose|j: int| 0 <= j < rest.len() && rest[j] == shorter[i];
                assert(kept[j] == tasks[i]);
            }
        }
    }
}

/// Numbers are written in decimal without leading zeros, zero as the single
/// digit `0`, and what is written reads back as the number.
pub proof fn law_decimal_numerals(n: nat)
    ensures
        decimal(n).len() > 0,
        all_digits(decimal(n)),
        decimal(n)[0] == ZERO <==> n == 0,
        n == 0 ==> decimal(n) == seq![ZERO],
        n <= u32::MAX ==> parse_decimal(decimal(n)) == Some(n as u32),
    decreases n,
{
    lemma_decimal_is_digits(n);
    if n >= 10 {
        law_decimal_numerals(n / 10);
    }
    if n <= u32::MAX {
        lemma_parse_decimal_round_trip(n as u32);
    }
}

/// Removing by id goes through the list from either end alike.
proof fn lemma_without_from_front(tasks: Seq<TaskView>, id: u32)
    requires
        tasks.len() > 0,
    ensures
        without_id(tasks, id) == if tasks[0].id == id {
            without_id(tasks.drop_first(), id)
        } else {
            seq![tasks[0]] + without_id(tasks.drop_first(), id)
        },
    decreases tasks.len(),
{
    let front = tasks.drop_first();
    let back = tasks.drop_last();
    if tasks.len() == 1 {
        assert(back =~= Seq::<TaskView>::empty());
        assert(front =~= Seq::<TaskView>::empty());
        assert(without_id(tasks, id) =~= if tasks[0].id == id {
            without_id(front, id)
        } else {
            seq![tasks[0]] + without_id(front, id)
        });
    } else {
        lemma_without_from_front(back, id);
        assert(back.drop_first() =~= front.drop_last());
        let middle = without_id(front.drop_last(), id);
        if tasks.last().id != id {
            assert((seq![tasks[0]] + middle).push(tasks.last()) =~= seq![tasks[0]] + middle.push(
                tasks.last(),
            ));
        }
    }
}

/// Looking up an id after one id was marked completed.
proof fn lemma_lookup_marked(tasks: Seq<TaskView>, id: u32, wanted: u32)
    ensures
        task_with_id(mark_completed(tasks, id), wanted) == match task_with_id(tasks, wanted) {
            Some(t) => Some(
                TaskView {
                    id: t.id,
                    description: t.description,
                    completed: t.completed || wanted == id,
                    owner: t.owner,
                },
            ),
            None => None,
        },
    decreases tasks.len(),
{
    if tasks.len() > 0 {
        assert(mark_completed(tasks, id).drop_first() =~= mark_completed(tasks.drop_first(), id));
        lemma_lookup_marked(tasks.drop_first(), id, wanted);
    }
}

/// Looking up an id after one id was removed.
proof fn lemma_lookup_without(tasks: Seq<TaskView>, id: u32, wanted: u32)
    ensures
        task_with_id(without_id(tasks, id), wanted) == if wanted == id {
            None
        } else {
            task_with_id(tasks, wanted)
        },
    decreases tasks.len(),
{
    if tasks.len() > 0 {
        lemma_without_from_front(tasks, id);
        lemma_lookup_without(tasks.drop_first(), id, wanted);
        if tasks[0].id != id {
            let kept = seq![tasks[0]] + without_id(tasks.drop_first(), id);
            assert(kept.drop_first() =~= without_id(tasks.drop_first(), id));
        }
    }
}

/// After a task was completed it is found completed, with its id,
/// description and owner as before; every other task is found as it was.
pub proof fn law_completed_task_is_found_completed(state: ContractView, id: u32, caller: Seq<u8>, wanted: u32)
    requires
        state.wf(),
    ensures
        task_with_id(state.complete_task(id, caller).account(caller).tasks, wanted) == match task_with_id(
            state.account(caller).tasks,
            wanted,
        ) {
            Some(t) => Some(
                TaskView {
                    id: t.id,
                    description: t.description,
                    completed: t.completed || wanted == id,
                    owner: t.owner,
                },
            ),
            None => None,
        },
{
    let before = state.account(caller);
    lemma_position(state.accounts, caller);
    lemma_transitions_keep_wf(before, Seq::empty(), id);
    lemma_with_account(state, before.completed(id));
    lemma_lookup_marked(before.tasks, id, wanted);
}

/// After a task was deleted it is found no more; every other task is found
/// as it was.
pub proof fn law_deleted_task_is_gone(state: ContractView, id: u32, caller: Seq<u8>, wanted: u32)
    requires
        state.wf(),
    ensures
        task_with_id(state.delete_task(id, caller).account(caller).tasks, wanted) == if wanted == id {
            None
        } else {
            task_with_id(state.account(caller).tasks, wanted)
        },
{
    let before = state.account(caller);
    lemma_position(state.accounts, caller);
    lemma_transitions_keep_wf(before, Seq::empty(), id);
    lemma_with_account(state, before.removed(id));
    lemma_lookup_without(before.tasks, id, wanted);
}

} // verus!
