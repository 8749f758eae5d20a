//! The structured-text serializer: the home page, the about page with the
//! live counters, the task list with its form and filter links, and the
//! detail page of a single task.
//!
//! Navigation links point to `render:` paths, links that change state to a
//! `tx:` target with its JSON arguments, and the form to a `form:` target
//! that names the method.

use vstd::prelude::*;
use vstd::slice::slice_to_vec;
use crate::task::{find_task, passes, select, task_with_id, views, Task, TaskView};
use crate::text::{decimal, push_bytes, push_decimal, push_text, text};

verus! {

/// Top of every full page: the shared header, the site navigation, a rule.
pub const PAGE_TOP: &'static str =
    "{{include contract=CCYEOY2JTOQ2JIMLLERAFNHAVKEKMEJDBOTLN6DIIWBHWEIMUA2T2VY4 func=\"header\"}}\n[Home](render:/) | [Tasks](render:/tasks) | [About](render:/about)\n\n---\n\n";

/// Bottom of every full page: the shared footer.
pub const PAGE_BOTTOM: &'static str =
    "{{include contract=CCYEOY2JTOQ2JIMLLERAFNHAVKEKMEJDBOTLN6DIIWBHWEIMUA2T2VY4 func=\"footer\"}}";

/// The introduction on the home page.
pub const HOME_INTRO: &'static str =
    "## Welcome to the Soroban Render Demo\n\nThis is a **fully functional todo application** where the entire user interface is defined by the smart contract itself.\n\n> [!TIP]\n> This entire UI is generated by the smart contract's `render()` function. The markdown you see, including this callout, comes directly from the blockchain!\n\n### What makes this special?\n\n- **Self-contained UI**: The contract's `render()` function returns this markdown you're reading\n- **Interactive elements**: Forms and buttons trigger real blockchain transactions\n- **Per-user storage**: Each wallet has its own private task list\n- **Composability**: This app includes header/footer components from a separate theme contract\n\n";

/// What the home page tells a connected viewer.
pub const HOME_CONNECTED: &'static str =
    "> [!NOTE]\n> Your wallet is connected! You're ready to create and manage tasks.\n\n### Get Started\n\nHead over to [Tasks](render:/tasks) to manage your todo list.\n\n";

/// What the home page tells a viewer without an account.
pub const HOME_DISCONNECTED: &'static str =
    "> [!WARNING]\n> Connect your wallet (button in top-right) to create and manage your personal todo list.\n\n### Get Started\n\nEach user has their own private task list stored on the blockchain.\n\n";

/// The about page, up to the number of stored tasks.
pub const ABOUT_INTRO: &'static str =
    "## About Soroban Render\n\nSoroban Render is a community convention for building **self-contained, renderable dApps** on Stellar's Soroban smart contract platform.\n\n> [!INFO]\n> Inspired by [Gno.land's Render() function](https://docs.gno.land/users/explore-with-gnoweb/#viewing-rendered-content), Soroban Render allows smart contracts to define their own user interface.\n\n### Live Stats\n\n:::columns\n**Total Tasks**\n\n# ";

/// The about page, between the two counters.
pub const ABOUT_BETWEEN: &'static str = "\n\ntasks stored on-chain\n|||\n**Unique Users**\n\n# ";

/// The about page, after the number of accounts.
pub const ABOUT_REST: &'static str =
    "\n\nwallets with tasks\n:::\n\n### How It Works\n\n:::columns\n**1. Contract Renders UI**\n\nThe `render(path, viewer)` function returns markdown or JSON describing the interface.\n|||\n**2. Special Protocols**\n\n`render:` for navigation, `tx:` for transactions, `form:` for form submissions.\n|||\n**3. Universal Viewer**\n\nAny contract implementing `render()` can be viewed with the same generic viewer.\n:::\n\n### Learn More\n\n- [View the source code on GitHub](https://github.com/wyhaines/soroban-render)\n- [Soroban Documentation](https://soroban.stellar.org/docs)\n- [Stellar Developer Portal](https://developers.stellar.org)\n\n";

/// What the task list tells a viewer without an account.
pub const CONNECT_NOTICE: &'static str =
    "## Connect Your Wallet\n\n**Please connect your wallet** to view and manage your personal todo list.\n\nEach user has their own private task list that only they can see and modify.\n\n";

/// The add-task form, the filter links, and the heading above the tasks.
pub const LIST_INTRO: &'static str =
    "## Add Task\n\n<textarea name=\"description\" rows=\"2\" placeholder=\"What needs to be done?\"></textarea>\n\n[Add Task](form:add_task)\n\n## Filter\n\n[All](render:/tasks) | [Pending](render:/tasks/pending) | [Completed](render:/tasks/completed)\n\n## Your Tasks\n\n";

/// Start of the line of a completed task: ticked box, struck-through text.
pub const DONE_LINE_OPEN: &'static str = "- [x] ~~";

/// After the description of a completed task, up to its id.
pub const DONE_LINE_ID: &'static str = "~~ (#";

/// Start of the line of a pending task: empty box.
pub const PENDING_LINE_OPEN: &'static str = "- [ ] ";

/// After the description of a pending task, up to its id.
pub const PENDING_LINE_ID: &'static str = " (#";

/// After the id of a completed task, up to the id in the delete link.
pub const DELETE_LINK: &'static str = ") [Delete](tx:delete_task {\"id\":";

/// After the id of a pending task, up to the id in the mark-complete link.
pub const DONE_LINK: &'static str = ") [Done](tx:complete_task {\"id\":";

/// After the mark-complete link, up to the id in the delete link.
pub const THEN_DELETE_LINK: &'static str = "}) [Delete](tx:delete_task {\"id\":";

/// End of a task line.
pub const LINE_CLOSE: &'static str = "})\n";

/// Shown when a filter is selected and no task passes it.
pub const NO_MATCHING_TASKS: &'static str = "*No matching tasks.*\n\n";

/// Shown when no filter is selected and there is no task.
pub const NO_TASKS_YET: &'static str = "*No tasks yet. Add one above!*\n\n";

/// The detail page, up to the id of the task.
pub const DETAIL_OPEN: &'static str = "# Task Details\n\n**ID:** ";

/// The detail page, between id and description.
pub const DETAIL_DESCRIPTION: &'static str = "\n\n**Description:** ";

/// The detail page of a completed task, after the description.
pub const DETAIL_COMPLETED: &'static str =
    "\n\n**Status:** Completed\n\n[Delete](tx:delete_task {\"id\":";

/// The detail page of a pending task, after the description.
pub const DETAIL_PENDING: &'static str =
    "\n\n**Status:** Pending\n\n[Mark Complete](tx:complete_task {\"id\":";

/// The detail page of a pending task, between its two links.
pub const DETAIL_THEN_DELETE: &'static str = "}) | [Delete](tx:delete_task {\"id\":";

/// End of the detail page.
pub const DETAIL_CLOSE: &'static str = "})\n\n[Back to list](render:/)\n";

/// The detail page for an id that the viewer's list does not hold.
pub const DETAIL_NOT_FOUND: &'static str =
    "# Task Details\n\n*Task not found*\n\n[Back to list](render:/)\n";

/// The header component, for inclusion in other pages.
pub const HEADER: &'static str = "# Todo List\n\n*A demo app showcasing Soroban Render*\n\n---\n\n";

/// The footer component, for inclusion in other pages.
pub const FOOTER: &'static str =
    "\n---\n\n*Powered by [Soroban Render](https://github.com/wyhaines/soroban-render)*\n";

/// The home page.
pub open spec fn home_page(connected: bool) -> Seq<u8> {
    if connected {
        text(PAGE_TOP) + text(HOME_INTRO) + text(HOME_CONNECTED) + text(PAGE_BOTTOM)
    } else {
        text(PAGE_TOP) + text(HOME_INTRO) + text(HOME_DISCONNECTED) + text(PAGE_BOTTOM)
    }
}

/// The about page with the two aggregate counters.
pub open spec fn about_page(total_tasks: u32, user_count: u32) -> Seq<u8> {
    text(PAGE_TOP) + text(ABOUT_INTRO) + decimal(total_tasks as nat) + text(ABOUT_BETWEEN)
        + decimal(user_count as nat) + text(ABOUT_REST) + text(PAGE_BOTTOM)
}

/// The line of one task in the list: checkbox, description (struck through
/// once completed), id, and the links: mark-complete only while the task is
/// pending, delete always.
pub open spec fn task_line(task: TaskView) -> Seq<u8> {
    if task.completed {
        text(DONE_LINE_OPEN) + task.description + text(DONE_LINE_ID) + decimal(task.id as nat)
            + text(DELETE_LINK) + decimal(task.id as nat) + text(LINE_CLOSE)
    } else {
        text(PENDING_LINE_OPEN) + task.description + text(PENDING_LINE_ID) + decimal(
            task.id as nat,
        ) + text(DONE_LINK) + decimal(task.id as nat) + text(THEN_DELETE_LINK) + decimal(
            task.id as nat,
        ) + text(LINE_CLOSE)
    }
}

/// The lines of a sequence of tasks, one after the other.
pub open spec fn task_lines(tasks: Seq<TaskView>) -> Seq<u8>
    decreases tasks.len(),
{
    if tasks.len() == 0 {
        Seq::empty()
    } else {
        task_lines(tasks.drop_last()) + task_line(tasks.last())
    }
}

/// What stands under the heading of the task list: the lines of the tasks
/// that pass the filter, or a message when none does, which tells an empty
/// list from a filter that nothing passes.
pub open spec fn list_body(tasks: Seq<TaskView>, filter: Option<bool>) -> Seq<u8> {
    let shown = select(tasks, filter);
    if shown.len() > 0 {
        task_lines(shown)
    } else if filter is Some {
        text(NO_MATCHING_TASKS)
    } else {
        text(NO_TASKS_YET)
    }
}

/// The task list page.
pub open spec fn task_list_page(tasks: Seq<TaskView>, filter: Option<bool>, connected: bool) -> Seq<
    u8,
> {
    if connected {
        text(PAGE_TOP) + text(LIST_INTRO) + list_body(tasks, filter) + text(PAGE_BOTTOM)
    } else {
        text(PAGE_TOP) + text(CONNECT_NOTICE) + text(PAGE_BOTTOM)
    }
}

/// The detail page of one task.
pub open spec fn task_details(task: TaskView) -> Seq<u8> {
    if task.completed {
        text(DETAIL_OPEN) + decimal(task.id as nat) + text(DETAIL_DESCRIPTION) + task.description
            + text(DETAIL_COMPLETED) + decimal(task.id as nat) + text(DETAIL_CLOSE)
    } else {
        text(DETAIL_OPEN) + decimal(task.id as nat) + text(DETAIL_DESCRIPTION) + task.description
            + text(DETAIL_PENDING) + decimal(task.id as nat) + text(DETAIL_THEN_DELETE) + decimal(
            task.id as nat,
        ) + text(DETAIL_CLOSE)
    }
}

/// The detail page for the task with the given id among `tasks`, or the
/// not-found page where there is none.
pub open spec fn single_task_page(tasks: Seq<TaskView>, id: u32) -> Seq<u8> {
    match task_with_id(tasks, id) {
        Some(task) => task_details(task),
        None => text(DETAIL_NOT_FOUND),
    }
}

/// Renders the home page.
pub fn render_home(wallet_connected: bool) -> (out: Vec<u8>)
    ensures
        out@ == home_page(wallet_connected),
{
    let mut out: Vec<u8> = slice_to_vec(PAGE_TOP.as_bytes());
    push_text(&mut out, HOME_INTRO);
    if wallet_connected {
        push_text(&mut out, HOME_CONNECTED);
    } else {
        push_text(&mut out, HOME_DISCONNECTED);
    }
    push_text(&mut out, PAGE_BOTTOM);
    out
}

/// Renders the about page with the two aggregate counters.
pub fn render_about(total_tasks: u32, user_count: u32) -> (out: Vec<u8>)
    ensures
        out@ == about_page(total_tasks, user_count),
{
    let mut out: Vec<u8> = slice_to_vec(PAGE_TOP.as_bytes());
    push_text(&mut out, ABOUT_INTRO);
    push_decimal(&mut out, total_tasks as u64);
    push_text(&mut out, ABOUT_BETWEEN);
    push_decimal(&mut out, user_count as u64);
    push_text(&mut out, ABOUT_REST);
    push_text(&mut out, PAGE_BOTTOM);
    out
}

/// Renders the line of one task.
pub fn render_task_line(task: &Task) -> (out: Vec<u8>)
    ensures
        out@ == task_line(task@),
{
    if task.completed {
        let mut out: Vec<u8> = slice_to_vec(DONE_LINE_OPEN.as_bytes());
        push_bytes(&mut out, task.description.as_slice());
        push_text(&mut out, DONE_LINE_ID);
        push_decimal(&mut out, task.id as u64);
        push_text(&mut out, DELETE_LINK);
        push_decimal(&mut out, task.id as u64);
        push_text(&mut out, LINE_CLOSE);
        out
    } else {
        let mut out: Vec<u8> = slice_to_vec(PENDING_LINE_OPEN.as_bytes());
        push_bytes(&mut out, task.description.as_slice());
        push_text(&mut out, PENDING_LINE_ID);
        push_decimal(&mut out, task.id as u64);
        push_text(&mut out, DONE_LINK);
        push_decimal(&mut out, task.id as u64);
        push_text(&mut out, THEN_DELETE_LINK);
        push_decimal(&mut out, task.id as u64);
        push_text(&mut out, LINE_CLOSE);
        out
    }
}

/// Renders what stands under the heading of the task list.
pub fn render_list_body(tasks: &[Task], filter: Option<bool>) -> (out: Vec<u8>)
    ensures
        out@ == list_body(views(tasks@), filter),
{
    let mut out: Vec<u8> = Vec::new();
    let mut has_tasks: bool = false;
    let mut i: usize = 0;
    while i < tasks.len()
        invariant
            i <= tasks.len(),
            has_tasks == (select(views(tasks@.take(i as int)), filter).len() > 0),
            out@ == task_lines(select(views(tasks@.take(i as int)), filter)),
        decreases tasks.len() - i,
    {
        let ghost before = select(views(tasks@.take(i as int)), filter);
        proof {
            crate::task::lemma_select_step(tasks@, i as int, filter);
        }
        if passes(filter, &tasks[i]) {
            has_tasks = true;
            let line = render_task_line(&tasks[i]);
            push_bytes(&mut out, line.as_slice());
            assert(before.push(tasks@[i as int]@).drop_last() =~= before);
        }
        i = i + 1;
    }
    assert(tasks@.take(i as int) =~= tasks@);
    if !has_tasks {
        if filter.is_some() {
            push_text(&mut out, NO_MATCHING_TASKS);
        } else {
            push_text(&mut out, NO_TASKS_YET);
        }
    }
    out
}

/// Renders the task list page.
pub fn render_task_list(tasks: &[Task], filter: Option<bool>, wallet_connected: bool) -> (out: Vec<
    u8,
>)
    ensures
        out@ == task_list_page(views(tasks@), filter, wallet_connected),
{
    let mut out: Vec<u8> = slice_to_vec(PAGE_TOP.as_bytes());
    if !wallet_connected {
        push_text(&mut out, CONNECT_NOTICE);
    } else {
        push_text(&mut out, LIST_INTRO);
        let body = render_list_body(tasks, filter);
        push_bytes(&mut out, body.as_slice());
    }
    push_text(&mut out, PAGE_BOTTOM);
    out
}

/// Renders the detail page for the task with the given id.
pub fn render_single_task(tasks: &[Task], id: u32) -> (out: Vec<u8>)
    ensures
        out@ == single_task_page(views(tasks@), id),
{
    match find_task(tasks, id) {
        Some(i) => {
            let task = &tasks[i];
            let mut out: Vec<u8> = slice_to_vec(DETAIL_OPEN.as_bytes());
            push_decimal(&mut out, task.id as u64);
            push_text(&mut out, DETAIL_DESCRIPTION);
            push_bytes(&mut out, task.description.as_slice());
            if task.completed {
                push_text(&mut out, DETAIL_COMPLETED);
            } else {
                push_text(&mut out, DETAIL_PENDING);
                push_decimal(&mut out, task.id as u64);
                push_text(&mut out, DETAIL_THEN_DELETE);
            }
            push_decimal(&mut out, task.id as u64);
            push_text(&mut out, DETAIL_CLOSE);
            out
        },
        None => slice_to_vec(DETAIL_NOT_FOUND.as_bytes()),
    }
}

/// Renders the header component.
pub fn render_header() -> (out: Vec<u8>)
    ensures
        out@ == text(HEADER),
{
    slice_to_vec(HEADER.as_bytes())
}

/// Renders the footer component.
pub fn render_footer() -> (out: Vec<u8>)
    ensures
        out@ == text(FOOTER),
{
    slice_to_vec(FOOTER.as_bytes())
}

} // verus!
