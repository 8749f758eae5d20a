//! The JSON serializer: a self-describing document made of typed components.
//!
//! A connected viewer gets the add-task form, the filter navigation with the
//! selected filter flagged, a pie chart of completed against pending tasks
//! (when there is any task), and a container with one `task` component per
//! task that passes the filter. A viewer without an account gets only the
//! heading and a request to connect.

use vstd::prelude::*;
use vstd::slice::slice_to_vec;
use crate::task::{passes, select, views, Task, TaskView};
use crate::text::{decimal, escape_json, is_text, push_bytes, push_decimal, push_escaped, push_text, text};

verus! {

/// Opening of the document, up to and including the top heading.
pub const DOCUMENT_OPEN: &'static str =
    "{\"format\":\"soroban-render-json-v1\",\"title\":\"Todo List\",\"components\":[{\"type\":\"heading\",\"level\":1,\"text\":\"Todo List\"},";

/// What a viewer without an account sees in place of the task components.
pub const CONNECT_NOTICE: &'static str =
    "{\"type\":\"heading\",\"level\":2,\"text\":\"Connect Your Wallet\"},{\"type\":\"text\",\"content\":\"Please connect your wallet to view and manage your personal todo list.\"},{\"type\":\"text\",\"content\":\"Each user has their own private task list that only they can see and modify.\"},";

/// The form that adds a task.
pub const ADD_FORM: &'static str =
    "{\"type\":\"form\",\"action\":\"add_task\",\"fields\":[{\"name\":\"description\",\"type\":\"text\",\"placeholder\":\"Enter task description\",\"required\":true}],\"submitLabel\":\"Add Task\"},";

/// Opening of the navigation component and of its first item.
pub const NAV_ALL: &'static str = "{\"type\":\"navigation\",\"items\":[{\"label\":\"All\",\"path\":\"/json\"";

/// End of the first navigation item and opening of the second.
pub const NAV_PENDING: &'static str = "},{\"label\":\"Pending\",\"path\":\"/json/pending\"";

/// End of the second navigation item and opening of the third.
pub const NAV_COMPLETED: &'static str = "},{\"label\":\"Completed\",\"path\":\"/json/completed\"";

/// End of the third navigation item and of the navigation component.
pub const NAV_CLOSE: &'static str = "}]},";

/// The flag carried by the navigation item of the selected filter.
pub const ACTIVE_FLAG: &'static str = ",\"active\":true";

/// Opening of the chart, up to the number of completed tasks.
pub const CHART_OPEN: &'static str =
    "{\"type\":\"chart\",\"chartType\":\"pie\",\"title\":\"Task Status\",\"data\":[{\"label\":\"Completed\",\"value\":";

/// Between the two numbers of the chart.
pub const CHART_MIDDLE: &'static str = ",\"color\":\"#22c55e\"},{\"label\":\"Pending\",\"value\":";

/// End of the chart, after the number of pending tasks.
pub const CHART_CLOSE: &'static str = ",\"color\":\"#eab308\"}]},";

/// The heading above the tasks and the opening of their container.
pub const CONTAINER_OPEN: &'static str =
    "{\"type\":\"heading\",\"level\":2,\"text\":\"Your Tasks\"},{\"type\":\"container\",\"className\":\"task-list\",\"components\":[";

/// End of the task container.
pub const CONTAINER_CLOSE: &'static str = "]},";

/// Content of the container when a filter is selected and no task passes it.
pub const NO_MATCHING_TASKS: &'static str = "{\"type\":\"text\",\"content\":\"No matching tasks.\"}";

/// Content of the container when no filter is selected and there is no task.
pub const NO_TASKS_YET: &'static str = "{\"type\":\"text\",\"content\":\"No tasks yet. Add one above!\"}";

/// Opening of a task component, up to its id.
pub const TASK_OPEN: &'static str = "{\"type\":\"task\",\"id\":";

/// Between the id of a task and its escaped description.
pub const TASK_TEXT: &'static str = ",\"text\":\"";

/// After the description of a completed task, up to its action list.
pub const TASK_IS_COMPLETED: &'static str = "\",\"completed\":true,\"actions\":[";

/// After the description of a pending task, up to its action list.
pub const TASK_IS_PENDING: &'static str = "\",\"completed\":false,\"actions\":[";

/// Opening of the action that completes a task, up to the id.
pub const COMPLETE_ACTION_OPEN: &'static str =
    "{\"type\":\"tx\",\"method\":\"complete_task\",\"args\":{\"id\":";

/// End of the action that completes a task, with the comma before the next.
pub const COMPLETE_ACTION_CLOSE: &'static str = "},\"label\":\"Done\"},";

/// Opening of the action that deletes a task, up to the id.
pub const DELETE_ACTION_OPEN: &'static str =
    "{\"type\":\"tx\",\"method\":\"delete_task\",\"args\":{\"id\":";

/// End of the action that deletes a task, of the action list and of the
/// task component.
pub const DELETE_ACTION_CLOSE: &'static str = "},\"label\":\"Delete\"}]}";

/// Separator between two components of a list.
pub const COMMA: &'static str = ",";

/// The divider, the closing line, and the end of the document.
pub const DOCUMENT_CLOSE: &'static str =
    "{\"type\":\"divider\"},{\"type\":\"text\",\"content\":\"Powered by Soroban Render\"}]}";

/// Remainder of a JSON path that selects the pending tasks.
pub const PENDING_SUBPATH: &'static str = "/pending";

/// Remainder of a JSON path that selects the completed tasks.
pub const COMPLETED_SUBPATH: &'static str = "/completed";

/// The parts of a list, with a separator between each two neighbours.
pub open spec fn joined(parts: Seq<Seq<u8>>, separator: Seq<u8>) -> Seq<u8>
    decreases parts.len(),
{
    if parts.len() == 0 {
        Seq::empty()
    } else if parts.len() == 1 {
        parts[0]
    } else {
        joined(parts.drop_last(), separator) + separator + parts.last()
    }
}

/// The filter that the remainder of a JSON path selects: `/pending` the
/// pending tasks, `/completed` the completed ones, anything else (or no
/// remainder) all tasks.
pub open spec fn subpath_filter(subpath: Option<Seq<u8>>) -> Option<bool> {
    match subpath {
        Some(rest) => if rest == text(PENDING_SUBPATH) {
            Some(false)
        } else if rest == text(COMPLETED_SUBPATH) {
            Some(true)
        } else {
            None
        },
        None => None,
    }
}

/// The flag of a navigation item: present on the selected item only.
pub open spec fn active_flag(selected: bool) -> Seq<u8> {
    if selected {
        text(ACTIVE_FLAG)
    } else {
        Seq::empty()
    }
}

/// The navigation component: one item per filter, the selected one flagged.
pub open spec fn navigation(filter: Option<bool>) -> Seq<u8> {
    text(NAV_ALL) + active_flag(filter is None) + text(NAV_PENDING) + active_flag(
        filter == Some(false),
    ) + text(NAV_COMPLETED) + active_flag(filter == Some(true)) + text(NAV_CLOSE)
}

/// The chart component: absent without tasks, else the two counts.
pub open spec fn chart(completed: nat, pending: nat) -> Seq<u8> {
    if completed == 0 && pending == 0 {
        Seq::empty()
    } else {
        text(CHART_OPEN) + decimal(completed) + text(CHART_MIDDLE) + decimal(pending) + text(
            CHART_CLOSE,
        )
    }
}

/// The component of one task: id, escaped description, status, and the
/// actions open to it (a pending task can be completed or deleted, a
/// completed one only deleted).
pub open spec fn task_component(task: TaskView) -> Seq<u8> {
    if task.completed {
        text(TASK_OPEN) + decimal(task.id as nat) + text(TASK_TEXT) + escape_json(task.description)
            + text(TASK_IS_COMPLETED) + text(DELETE_ACTION_OPEN) + decimal(task.id as nat) + text(
            DELETE_ACTION_CLOSE,
        )
    } else {
        text(TASK_OPEN) + decimal(task.id as nat) + text(TASK_TEXT) + escape_json(task.description)
            + text(TASK_IS_PENDING) + text(COMPLETE_ACTION_OPEN) + decimal(task.id as nat) + text(
            COMPLETE_ACTION_CLOSE,
        ) + text(DELETE_ACTION_OPEN) + decimal(task.id as nat) + text(DELETE_ACTION_CLOSE)
    }
}

/// The components of a sequence of tasks, in order.
pub open spec fn task_components(tasks: Seq<TaskView>) -> Seq<Seq<u8>> {
    tasks.map_values(|t: TaskView| task_component(t))
}

/// What stands inside the task container: the components of the tasks that
/// pass the filter, separated by commas, or a line of text when none does.
pub open spec fn container_content(tasks: Seq<TaskView>, filter: Option<bool>) -> Seq<u8> {
    let shown = select(tasks, filter);
    if shown.len() > 0 {
        joined(task_components(shown), text(COMMA))
    } else if filter is Some {
        text(NO_MATCHING_TASKS)
    } else {
        text(NO_TASKS_YET)
    }
}

/// The part of the document that only a connected viewer gets.
pub open spec fn task_section(tasks: Seq<TaskView>, filter: Option<bool>) -> Seq<u8> {
    text(ADD_FORM) + navigation(filter) + chart(
        select(tasks, Some(true)).len(),
        select(tasks, Some(false)).len(),
    ) + text(CONTAINER_OPEN) + container_content(tasks, filter) + text(CONTAINER_CLOSE)
}

/// The whole JSON document for a list of tasks, a filter, and a viewer who
/// is or is not connected.
pub open spec fn json_document(tasks: Seq<TaskView>, filter: Option<bool>, connected: bool) -> Seq<
    u8,
> {
    if connected {
        text(DOCUMENT_OPEN) + task_section(tasks, filter) + text(DOCUMENT_CLOSE)
    } else {
        text(DOCUMENT_OPEN) + text(CONNECT_NOTICE) + text(DOCUMENT_CLOSE)
    }
}

/// Joining one more part appends it, after a separator unless it is the first.
pub proof fn lemma_joined_push(parts: Seq<Seq<u8>>, separator: Seq<u8>, part: Seq<u8>)
    ensures
        joined(parts.push(part), separator) == if parts.len() == 0 {
            part
        } else {
            joined(parts, separator) + separator + part
        },
{
    assert(parts.push(part).drop_last() =~= parts);
}

/// The filter selected by the remainder of a JSON path.
pub fn filter_of_subpath(subpath: Option<&[u8]>) -> (filter: Option<bool>)
    ensures
        filter == subpath_filter(
            match subpath {
                Some(rest) => Some(rest@),
                None => None,
            },
        ),
{
    match subpath {
        Some(rest) => {
            if is_text(rest, PENDING_SUBPATH) {
                Some(false)
            } else if is_text(rest, COMPLETED_SUBPATH) {
                Some(true)
            } else {
                None
            }
        },
        None => None,
    }
}

/// The number of tasks that pass a filter.
pub fn count_selected(tasks: &[Task], filter: Option<bool>) -> (count: usize)
    ensures
        count == select(views(tasks@), filter).len(),
{
    let mut count: usize = 0;
    let mut i: usize = 0;
    while i < tasks.len()
        invariant
            i <= tasks.len(),
            count <= i,
            count == select(views(tasks@.take(i as int)), filter).len(),
        decreases tasks.len() - i,
    {
        proof {
            crate::task::lemma_select_step(tasks@, i as int, filter);
        }
        if passes(filter, &tasks[i]) {
            count = count + 1;
        }
        i = i + 1;
    }
    assert(tasks@.take(i as int) =~= tasks@);
    count
}

/// Renders the navigation component.
pub fn render_navigation(filter: Option<bool>) -> (out: Vec<u8>)
    ensures
        out@ == navigation(filter),
{
    let mut out: Vec<u8> = slice_to_vec(NAV_ALL.as_bytes());
    if filter.is_none() {
        push_text(&mut out, ACTIVE_FLAG);
    }
    push_text(&mut out, NAV_PENDING);
    if matches!(filter, Some(false)) {
        push_text(&mut out, ACTIVE_FLAG);
    }
    push_text(&mut out, NAV_COMPLETED);
    if matches!(filter, Some(true)) {
        push_text(&mut out, ACTIVE_FLAG);
    }
    push_text(&mut out, NAV_CLOSE);
    out
}

/// Renders the chart component for the two counts.
pub fn render_chart(completed: usize, pending: usize) -> (out: Vec<u8>)
    ensures
        out@ == chart(completed as nat, pending as nat),
{
    if completed == 0 && pending == 0 {
        return Vec::new();
    }
    let mut out: Vec<u8> = slice_to_vec(CHART_OPEN.as_bytes());
    push_decimal(&mut out, completed as u64);
    push_text(&mut out, CHART_MIDDLE);
    push_decimal(&mut out, pending as u64);
    push_text(&mut out, CHART_CLOSE);
    out
}

/// Renders the component of one task.
pub fn render_task_component(task: &Task) -> (out: Vec<u8>)
    ensures
        out@ == task_component(task@),
{
    let mut out: Vec<u8> = slice_to_vec(TASK_OPEN.as_bytes());
    push_decimal(&mut out, task.id as u64);
    push_text(&mut out, TASK_TEXT);
    push_escaped(&mut out, task.description.as_slice());
    if task.completed {
        push_text(&mut out, TASK_IS_COMPLETED);
    } else {
        push_text(&mut out, TASK_IS_PENDING);
        push_text(&mut out, COMPLETE_ACTION_OPEN);
        push_decimal(&mut out, task.id as u64);
        push_text(&mut out, COMPLETE_ACTION_CLOSE);
    }
    push_text(&mut out, DELETE_ACTION_OPEN);
    push_decimal(&mut out, task.id as u64);
    push_text(&mut out, DELETE_ACTION_CLOSE);
    out
}

/// Renders what stands inside the task container.
pub fn render_container_content(tasks: &[Task], filter: Option<bool>) -> (out: Vec<u8>)
    ensures
        out@ == container_content(views(tasks@), filter),
{
    let mut out: Vec<u8> = Vec::new();
    let mut shown: usize = 0;
    let mut i: usize = 0;
    while i < tasks.len()
        invariant
            i <= tasks.len(),
            shown <= i,
            shown == select(views(tasks@.take(i as int)), filter).len(),
            out@ == joined(
                task_components(select(views(tasks@.take(i as int)), filter)),
                text(COMMA),
            ),
        decreases tasks.len() - i,
    {
        let ghost before = select(views(tasks@.take(i as int)), filter);
        proof {
            crate::task::lemma_select_step(tasks@, i as int, filter);
        }
        if passes(filter, &tasks[i]) {
            if shown > 0 {
                push_text(&mut out, COMMA);
            }
            let component = render_task_component(&tasks[i]);
            push_bytes(&mut out, component.as_slice());
            shown = shown + 1;
            proof {
                let part = task_component(tasks@[i as int]@);
                assert(task_components(before.push(tasks@[i as int]@)) =~= task_components(
                    before,
                ).push(part));
                lemma_joined_push(task_components(before), text(COMMA), part);
            }
        }
        i = i + 1;
    }
    assert(tasks@.take(i as int) =~= tasks@);
    if shown == 0 {
        if filter.is_some() {
            push_text(&mut out, NO_MATCHING_TASKS);
        } else {
            push_text(&mut out, NO_TASKS_YET);
        }
    }
    out
}

/// Renders the JSON document for a list of tasks under a given filter.
pub fn render_json_document(tasks: &[Task], filter: Option<bool>, wallet_connected: bool) -> (out:
    Vec<u8>)
    ensures
        out@ == json_document(views(tasks@), filter, wallet_connected),
{
    let mut out: Vec<u8> = slice_to_vec(DOCUMENT_OPEN.as_bytes());
    if !wallet_connected {
        push_text(&mut out, CONNECT_NOTICE);
    } else {
        let mut section: Vec<u8> = slice_to_vec(ADD_FORM.as_bytes());
        let nav = render_navigation(filter);
        push_bytes(&mut section, nav.as_slice());
        let completed = count_selected(tasks, Some(true));
        let pending = count_selected(tasks, Some(false));
        let pie = render_chart(completed, pending);
        push_bytes(&mut section, pie.as_slice());
        push_text(&mut section, CONTAINER_OPEN);
        let content = render_container_content(tasks, filter);
        push_bytes(&mut section, content.as_slice());
        push_text(&mut section, CONTAINER_CLOSE);
        push_bytes(&mut out, section.as_slice());
    }
    push_text(&mut out, DOCUMENT_CLOSE);
    out
}

/// Renders the JSON document for a list of tasks; the filter is taken from
/// what follows `/json` in the path, if anything does.
pub fn render_json(tasks: &[Task], subpath: Option<&[u8]>, wallet_connected: bool) -> (out: Vec<u8>)
    ensures
        out@ == json_document(
            views(tasks@),
            subpath_filter(
                match subpath {
                    Some(rest) => Some(rest@),
                    None => None,
                },
            ),
            wallet_connected,
        ),
{
    let filter = filter_of_subpath(subpath);
    render_json_document(tasks, filter, wallet_connected)
}

} // verus!
