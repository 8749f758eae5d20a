//! The shared data model: accounts, tasks, and the completion-status filter
//! that both serializers apply.

use vstd::prelude::*;
use crate::text::bytes_eq;

verus! {

/// The identity of an account: an opaque byte string, compared byte for byte.
#[derive(Debug, PartialEq, Eq)]
pub struct AccountId {
    pub key: Vec<u8>,
}

impl View for AccountId {
    type V = Seq<u8>;

    open spec fn view(&self) -> Seq<u8> {
        self.key@
    }
}

impl AccountId {
    /// The account named by `key`.
    pub fn new(key: Vec<u8>) -> (account: AccountId)
        ensures
            account@ == key@,
    {
        AccountId { key }
    }

    /// Whether two identities name the same account.
    pub fn same_as(&self, other: &AccountId) -> (same: bool)
        ensures
            same == (self@ == other@),
    {
        bytes_eq(self.key.as_slice(), other.key.as_slice())
    }
}

impl Clone for AccountId {
    fn clone(&self) -> (copy: AccountId)
        ensures
            copy@ == self@,
    {
        AccountId { key: self.key.clone() }
    }
}

/// One entry of an account's task list.
#[derive(Debug, PartialEq, Eq)]
pub struct Task {
    pub id: u32,
    pub description: Vec<u8>,
    pub completed: bool,
    pub owner: AccountId,
}

/// The mathematical value of a task.
pub struct TaskView {
    pub id: u32,
    pub description: Seq<u8>,
    pub completed: bool,
    pub owner: Seq<u8>,
}

impl View for Task {
    type V = TaskView;

    open spec fn view(&self) -> TaskView {
        TaskView {
            id: self.id,
            description: self.description@,
            completed: self.completed,
            owner: self.owner@,
        }
    }
}

impl Clone for Task {
    fn clone(&self) -> (copy: Task)
        ensures
            copy@ == self@,
    {
        Task {
            id: self.id,
            description: self.description.clone(),
            completed: self.completed,
            owner: self.owner.clone(),
        }
    }
}

/// The values of a sequence of tasks, in order.
pub open spec fn views(tasks: Seq<Task>) -> Seq<TaskView> {
    tasks.map_values(|t: Task| t@)
}

/// Whether a task passes a completion-status filter: `None` lets every task
/// pass, `Some(c)` those whose `completed` flag is `c`.
pub open spec fn keeps(filter: Option<bool>, task: TaskView) -> bool {
    match filter {
        Some(wanted) => task.completed == wanted,
        None => true,
    }
}

/// The tasks that pass a filter, in their order in `tasks`.
pub open spec fn select(tasks: Seq<TaskView>, filter: Option<bool>) -> Seq<TaskView>
    decreases tasks.len(),
{
    if tasks.len() == 0 {
        Seq::empty()
    } else if keeps(filter, tasks.last()) {
        select(tasks.drop_last(), filter).push(tasks.last())
    } else {
        select(tasks.drop_last(), filter)
    }
}

/// The first task with the given id, if there is one.
pub open spec fn task_with_id(tasks: Seq<TaskView>, id: u32) -> Option<TaskView>
    decreases tasks.len(),
{
    if tasks.len() == 0 {
        None
    } else if tasks[0].id == id {
        Some(tasks[0])
    } else {
        task_with_id(tasks.drop_first(), id)
    }
}

/// Whether `task` passes `filter`.
pub fn passes(filter: Option<bool>, task: &Task) -> (kept: bool)
    ensures
        kept == keeps(filter, task@),
{
    match filter {
        Some(wanted) => task.completed == wanted,
        None => true,
    }
}

/// Every selected task passes the filter and is one of the given tasks.
pub proof fn lemma_select_members(tasks: Seq<TaskView>, filter: Option<bool>, i: int)
    requires
        0 <= i < select(tasks, filter).len(),
    ensures
        keeps(filter, select(tasks, filter)[i]),
        tasks.contains(select(tasks, filter)[i]),
    decreases tasks.len(),
{
    let rest = select(tasks.drop_last(), filter);
    if !keeps(filter, tasks.last()) || i != rest.len() {
        lemma_select_members(tasks.drop_last(), filter, i);
    }
}

/// One more task at the end either joins the selection or leaves it as it was.
pub proof fn lemma_select_step(tasks: Seq<Task>, i: int, filter: Option<bool>)
    requires
        0 <= i < tasks.len(),
    ensures
        views(tasks.take(i + 1)) == views(tasks.take(i)).push(tasks[i]@),
        select(views(tasks.take(i + 1)), filter) == if keeps(filter, tasks[i]@) {
            select(views(tasks.take(i)), filter).push(tasks[i]@)
        } else {
            select(views(tasks.take(i)), filter)
        },
{
    let longer = views(tasks.take(i + 1));
    assert(longer.drop_last() =~= views(tasks.take(i)));
}

/// The task at a position known to hold the first task with the given id.
pub proof fn lemma_task_with_id_at(tasks: Seq<TaskView>, id: u32, i: int)
    requires
        0 <= i < tasks.len(),
        tasks[i].id == id,
        forall|k: int| 0 <= k < i ==> tasks[k].id != id,
    ensures
        task_with_id(tasks, id) == Some(tasks[i]),
    decreases tasks.len(),
{
    if i > 0 {
        let rest = tasks.drop_first();
        assert forall|k: int| 0 <= k < i - 1 implies rest[k].id != id by {}
        lemma_task_with_id_at(rest, id, i - 1);
    }
}

/// No task is found where no task has the given id.
pub proof fn lemma_task_with_id_absent(tasks: Seq<TaskView>, id: u32)
    requires
        forall|k: int| 0 <= k < tasks.len() ==> tasks[k].id != id,
    ensures
        task_with_id(tasks, id) is None,
    decreases tasks.len(),
{
    if tasks.len() > 0 {
        let rest = tasks.drop_first();
        assert forall|k: int| 0 <= k < rest.len() implies rest[k].id != id by {}
        lemma_task_with_id_absent(rest, id);
    }
}

/// Position of the first task with the given id.
pub fn find_task(tasks: &[Task], id: u32) -> (found: Option<usize>)
    ensures
        match found {
            Some(i) => i < tasks.len() && task_with_id(views(tasks@), id) == Some(tasks@[i as int]@)
                && tasks@[i as int].id == id
                && forall|k: int| 0 <= k < i ==> tasks@[k].id != id,
            None => task_with_id(views(tasks@), id) is None
                && forall|k: int| 0 <= k < tasks.len() ==> tasks@[k].id != id,
        },
{
    let mut i: usize = 0;
    while i < tasks.len()
        invariant
            i <= tasks.len(),
            forall|k: int| 0 <= k < i ==> tasks@[k].id != id,
        decreases tasks.len() - i,
    {
        if tasks[i].id == id {
            proof {
                lemma_task_with_id_at(views(tasks@), id, i as int);
            }
            return Some(i);
        }
        i = i + 1;
    }
    proof {
        lemma_task_with_id_absent(views(tasks@), id);
    }
    None
}

} // verus!
