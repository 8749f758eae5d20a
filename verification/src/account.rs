//! One account's share of the task store: its task list, the id that its
//! next task will get, and the flag that records that it has added a task.
//!
//! Ids start at 1, grow by one with every added task and are never used
//! again, so the list is always in ascending order of id, which is also the
//! order of insertion.

use vstd::prelude::*;
use crate::task::{find_task, task_with_id, views, AccountId, Task, TaskView};

verus! {

/// The mathematical value of an account's state.
pub struct AccountView {
    pub owner: Seq<u8>,
    pub tasks: Seq<TaskView>,
    pub next_id: u32,
    pub has_tasks: bool,
}

/// The tasks of a list with the one called `id` marked completed.
pub open spec fn mark_completed(tasks: Seq<TaskView>, id: u32) -> Seq<TaskView> {
    tasks.map_values(
        |t: TaskView|
            if t.id == id {
                TaskView { id: t.id, description: t.description, completed: true, owner: t.owner }
            } else {
                t
            },
    )
}

/// The tasks of a list without the one called `id`.
pub open spec fn without_id(tasks: Seq<TaskView>, id: u32) -> Seq<TaskView>
    decreases tasks.len(),
{
    if tasks.len() == 0 {
        Seq::empty()
    } else if tasks.last().id == id {
        without_id(tasks.drop_last(), id)
    } else {
        without_id(tasks.drop_last(), id).push(tasks.last())
    }
}

impl AccountView {
    /// The state of an account that has never written: no tasks, first id 1.
    pub open spec fn fresh(owner: Seq<u8>) -> AccountView {
        AccountView { owner, tasks: Seq::empty(), next_id: 1, has_tasks: false }
    }

    /// Validity of an account's state: ids begin at 1 and stay below the next
    /// id to hand out, every task belongs to the owner, the list is in
    /// strictly ascending order of id, and the flag is set exactly when an
    /// id has been handed out.
    pub open spec fn wf(self) -> bool {
        &&& self.next_id >= 1
        &&& self.has_tasks == (self.next_id > 1)
        &&& forall|i: int|
            0 <= i < self.tasks.len() ==> {
                &&& (#[trigger] self.tasks[i]).owner == self.owner
                &&& 1 <= self.tasks[i].id < self.next_id
            }
        &&& forall|i: int, j: int|
            0 <= i < j < self.tasks.len() ==> (#[trigger] self.tasks[i]).id < (
            #[trigger] self.tasks[j]).id
    }

    /// Whether the list holds a task called `id`.
    pub open spec fn holds(self, id: u32) -> bool {
        task_with_id(self.tasks, id) is Some
    }

    /// The task that the next addition creates.
    pub open spec fn next_task(self, description: Seq<u8>) -> TaskView {
        TaskView { id: self.next_id, description, completed: false, owner: self.owner }
    }

    /// The state after a task with this description was added.
    pub open spec fn added(self, description: Seq<u8>) -> AccountView {
        AccountView {
            owner: self.owner,
            tasks: self.tasks.push(self.next_task(description)),
            next_id: (self.next_id + 1) as u32,
            has_tasks: true,
        }
    }

    /// The state after the task called `id` was marked completed.
    pub open spec fn completed(self, id: u32) -> AccountView {
        AccountView {
            owner: self.owner,
            tasks: mark_completed(self.tasks, id),
            next_id: self.next_id,
            has_tasks: self.has_tasks,
        }
    }

    /// The state after the task called `id` was removed.
    pub open spec fn removed(self, id: u32) -> AccountView {
        AccountView {
            owner: self.owner,
            tasks: without_id(self.tasks, id),
            next_id: self.next_id,
            has_tasks: self.has_tasks,
        }
    }
}

/// The state that an account's stored records denote, each record standing
/// for its default where it is absent.
pub open spec fn stored_state(
    owner: Seq<u8>,
    tasks: Option<Vec<Task>>,
    next_id: Option<u32>,
    has_tasks: Option<bool>,
) -> AccountView {
    AccountView {
        owner,
        tasks: match tasks {
            Some(list) => views(list@),
            None => Seq::empty(),
        },
        next_id: match next_id {
            Some(n) => n,
            None => 1,
        },
        has_tasks: match has_tasks {
            Some(flag) => flag,
            None => false,
        },
    }
}

/// An account's state.
#[derive(Debug, PartialEq, Eq)]
pub struct Account {
    owner: AccountId,
    tasks: Vec<Task>,
    next_id: u32,
    has_tasks: bool,
}

impl View for Account {
    type V = AccountView;

    closed spec fn view(&self) -> AccountView {
        AccountView {
            owner: self.owner@,
            tasks: views(self.tasks@),
            next_id: self.next_id,
            has_tasks: self.has_tasks,
        }
    }
}

/// Where no task is called `id`, nothing is removed.
pub proof fn lemma_without_absent(tasks: Seq<TaskView>, id: u32)
    requires
        forall|k: int| 0 <= k < tasks.len() ==> tasks[k].id != id,
    ensures
        without_id(tasks, id) == tasks,
    decreases tasks.len(),
{
    if tasks.len() > 0 {
        lemma_without_absent(tasks.drop_last(), id);
    }
}

/// Where exactly the task at position `i` is called `id`, removing by id
/// removes that position.
pub proof fn lemma_without_at(tasks: Seq<TaskView>, id: u32, i: int)
    requires
        0 <= i < tasks.len(),
        tasks[i].id == id,
        forall|k: int| 0 <= k < tasks.len() && k != i ==> tasks[k].id != id,
    ensures
        without_id(tasks, id) == tasks.remove(i),
    decreases tasks.len(),
{
    let shorter = tasks.drop_last();
    if i == tasks.len() - 1 {
        lemma_without_absent(shorter, id);
    } else {
        lemma_without_at(shorter, id, i);
    }
}

/// Where no task is called `id`, nothing is marked.
pub proof fn lemma_mark_absent(tasks: Seq<TaskView>, id: u32)
    requires
        forall|k: int| 0 <= k < tasks.len() ==> tasks[k].id != id,
    ensures
        mark_completed(tasks, id) == tasks,
{
}

/// In a valid account the first task called `id` is the only one, and a
/// list that `task_with_id` finds nothing in holds no such task.
pub proof fn lemma_lookup(account: AccountView, id: u32)
    requires
        account.wf(),
    ensures
        account.holds(id) <==> exists|k: int|
            0 <= k < account.tasks.len() && account.tasks[k].id == id,
        !account.holds(id) ==> forall|k: int|
            0 <= k < account.tasks.len() ==> account.tasks[k].id != id,
{
    if exists|k: int| 0 <= k < account.tasks.len() && account.tasks[k].id == id {
        let k = choose|k: int| 0 <= k < account.tasks.len() && account.tasks[k].id == id;
        crate::task::lemma_task_with_id_at(account.tasks, id, k);
    } else {
        crate::task::lemma_task_with_id_absent(account.tasks, id);
    }
}

/// Adding, completing and removing keep an account's state valid; the last
/// two never change the id to hand out next.
pub proof fn lemma_transitions_keep_wf(account: AccountView, description: Seq<u8>, id: u32)
    requires
        account.wf(),
    ensures
        account.next_id < u32::MAX ==> account.added(description).wf(),
        account.completed(id).wf(),
        account.removed(id).wf(),
        account.removed(id).tasks.len() == if account.holds(id) {
            account.tasks.len() - 1
        } else {
            account.tasks.len() as int
        },
        account.completed(id).tasks.len() == account.tasks.len(),
        !account.holds(id) ==> account.completed(id) == account && account.removed(id) == account,
{
    lemma_lookup(account, id);
    if account.holds(id) {
        let k = choose|k: int| 0 <= k < account.tasks.len() && account.tasks[k].id == id;
        lemma_without_at(account.tasks, id, k);
    } else {
        lemma_without_absent(account.tasks, id);
        lemma_mark_absent(account.tasks, id);
    }
}

impl Account {
    /// Validity of the account's state.
    pub open spec fn wf(&self) -> bool {
        self@.wf()
    }

    /// The state of an account that has never written.
    pub fn new(owner: AccountId) -> (account: Account)
        ensures
            account.wf(),
            account@ == AccountView::fresh(owner@),
    {
        let account = Account { owner, tasks: Vec::new(), next_id: 1, has_tasks: false };
        assert(account@.tasks =~= Seq::<TaskView>::empty());
        account
    }

    /// Rebuilds an account from stored parts, if they form a valid state.
    pub fn restore(owner: AccountId, tasks: Vec<Task>, next_id: u32, has_tasks: bool) -> (account:
        Option<Account>)
        ensures
            match account {
                Some(a) => a.wf() && a@ == (AccountView {
                    owner: owner@,
                    tasks: views(tasks@),
                    next_id,
                    has_tasks,
                }),
                None => !(AccountView { owner: owner@, tasks: views(tasks@), next_id, has_tasks }).wf(),
            },
    {
        let ghost state = AccountView { owner: owner@, tasks: views(tasks@), next_id, has_tasks };
        if next_id < 1 || has_tasks != (next_id > 1) {
            return None;
        }
        let mut i: usize = 0;
        while i < tasks.len()
            invariant
                i <= tasks.len(),
                state == (AccountView { owner: owner@, tasks: views(tasks@), next_id, has_tasks }),
                forall|k: int|
                    0 <= k < i ==> {
                        &&& (#[trigger] state.tasks[k]).owner == state.owner
                        &&& 1 <= state.tasks[k].id < state.next_id
                    },
                forall|a: int, b: int|
                    0 <= a < b < i ==> (#[trigger] state.tasks[a]).id < (
                    #[trigger] state.tasks[b]).id,
            decreases tasks.len() - i,
        {
            let task = &tasks[i];
            assert(state.tasks[i as int] == task@);
            if !task.owner.same_as(&owner) || task.id < 1 || task.id >= next_id {
                return None;
            }
            if i > 0 {
                assert(state.tasks[i - 1] == tasks@[i - 1]@);
                if tasks[i - 1].id >= task.id {
                    return None;
                }
            }
            i = i + 1;
        }
        Some(Account { owner, tasks, next_id, has_tasks })
    }

    /// Rebuilds an account from its stored records, any of which may be
    /// absent: an absent list is empty, an absent next id is 1, an absent
    /// flag is unset.
    pub fn load(
        owner: AccountId,
        tasks: Option<Vec<Task>>,
        next_id: Option<u32>,
        has_tasks: Option<bool>,
    ) -> (account: Option<Account>)
        ensures
            match account {
                Some(a) => a.wf() && a@ == stored_state(owner@, tasks, next_id, has_tasks),
                None => !stored_state(owner@, tasks, next_id, has_tasks).wf(),
            },
    {
        let ghost state = stored_state(owner@, tasks, next_id, has_tasks);
        let list: Vec<Task> = match tasks {
            Some(list) => list,
            None => Vec::new(),
        };
        let next: u32 = match next_id {
            Some(n) => n,
            None => 1,
        };
        let flag: bool = match has_tasks {
            Some(flag) => flag,
            None => false,
        };
        assert(views(list@) =~= state.tasks);
        Account::restore(owner, list, next, flag)
    }

    /// The account that this state belongs to.
    pub fn owner(&self) -> (owner: &AccountId)
        ensures
            owner@ == self@.owner,
    {
        &self.owner
    }

    /// The tasks, in ascending order of id.
    pub fn tasks(&self) -> (tasks: &Vec<Task>)
        ensures
            views(tasks@) == self@.tasks,
    {
        &self.tasks
    }

    /// The id that the next added task will get.
    pub fn next_id(&self) -> (next_id: u32)
        ensures
            next_id == self@.next_id,
    {
        self.next_id
    }

    /// Whether the account has ever added a task.
    pub fn has_tasks(&self) -> (has_tasks: bool)
        ensures
            has_tasks == self@.has_tasks,
    {
        self.has_tasks
    }

    /// Appends a new pending task and hands out its id.
    pub fn add(&mut self, description: Vec<u8>) -> (id: u32)
        requires
            old(self).wf(),
            old(self)@.next_id < u32::MAX,
        ensures
            final(self).wf(),
            final(self)@ == old(self)@.added(description@),
            id == old(self)@.next_id,
    {
        let id: u32 = self.next_id;
        let task = Task { id, description, completed: false, owner: self.owner.clone() };
        self.tasks.push(task);
        self.next_id = id + 1;
        self.has_tasks = true;
        proof {
            assert(self@.tasks =~= old(self)@.tasks.push(old(self)@.next_task(description@)));
            lemma_transitions_keep_wf(old(self)@, description@, id);
        }
        id
    }

    /// Marks the task called `id` completed; tells whether there is one.
    pub fn complete(&mut self, id: u32) -> (found: bool)
        requires
            old(self).wf(),
        ensures
            final(self).wf(),
            final(self)@ == old(self)@.completed(id),
            found == old(self)@.holds(id),
    {
        proof {
            lemma_transitions_keep_wf(self@, Seq::empty(), id);
            lemma_lookup(self@, id);
        }
        match find_task(self.tasks.as_slice(), id) {
            Some(i) => {
                let mut task = self.tasks[i].clone();
                task.completed = true;
                self.tasks.set(i, task);
                proof {
                    assert forall|k: int| 0 <= k < self@.tasks.len() implies self@.tasks[k]
                        == mark_completed(old(self)@.tasks, id)[k] by {
                        if k != i {
                            if k < i {
                                assert(old(self)@.tasks[k].id < old(self)@.tasks[i as int].id);
                            }
                        }
                    }
                    assert(self@.tasks =~= mark_completed(old(self)@.tasks, id));
                }
                true
            },
            None => false,
        }
    }

    /// Removes the task called `id`; tells whether there was one.
    pub fn remove(&mut self, id: u32) -> (found: bool)
        requires
            old(self).wf(),
        ensures
            final(self).wf(),
            final(self)@ == old(self)@.removed(id),
            found == old(self)@.holds(id),
    {
        proof {
            lemma_transitions_keep_wf(self@, Seq::empty(), id);
            lemma_lookup(self@, id);
        }
        match find_task(self.tasks.as_slice(), id) {
            Some(i) => {
                let _ = self.tasks.remove(i);
                proof {
                    assert forall|k: int|
                        0 <= k < old(self)@.tasks.len() && k != i implies old(self)@.tasks[k].id
                        != id by {
                        if k < i {
                            assert(old(self)@.tasks[k].id < old(self)@.tasks[i as int].id);
                        }
                    }
                    lemma_without_at(old(self)@.tasks, id, i as int);
                    assert(self@.tasks =~= old(self)@.tasks.remove(i as int));
                }
                true
            },
            None => false,
        }
    }

    /// A copy of the task called `id`, if the list holds one.
    pub fn get(&self, id: u32) -> (task: Option<Task>)
        ensures
            match task {
                Some(t) => task_with_id(self@.tasks, id) == Some(t@),
                None => task_with_id(self@.tasks, id) is None,
            },
    {
        match find_task(self.tasks.as_slice(), id) {
            Some(i) => Some(self.tasks[i].clone()),
            None => None,
        }
    }

    /// Copies of the tasks, in ascending order of id.
    pub fn list(&self) -> (tasks: Vec<Task>)
        ensures
            views(tasks@) == self@.tasks,
    {
        let mut copies: Vec<Task> = Vec::new();
        let mut i: usize = 0;
        while i < self.tasks.len()
            invariant
                i <= self.tasks.len(),
                copies.len() == i,
                forall|k: int| 0 <= k < i ==> copies@[k]@ == self.tasks@[k]@,
            decreases self.tasks.len() - i,
        {
            copies.push(self.tasks[i].clone());
            i = i + 1;
        }
        copies
    }
}

} // verus!
