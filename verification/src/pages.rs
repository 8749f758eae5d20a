//! The route table of the task list and the dispatch from a matched route to
//! the page that it shows.
//!
//! | path                                | page                              |
//! |-------------------------------------|-----------------------------------|
//! | `/`                                 | home                              |
//! | `/about`                            | about, with the counters          |
//! | `/tasks`                            | task list, all tasks              |
//! | `/tasks/pending`, `/pending`        | task list, pending tasks          |
//! | `/tasks/completed`, `/completed`    | task list, completed tasks        |
//! | `/task/{id}`                        | detail of one task                |
//! | `/json`                             | JSON document, all tasks          |
//! | `/json/*`                           | JSON document, filter from the remainder |
//! | anything else                       | home                              |
//!
//! A `/task/{id}` path whose id is not an unsigned 32-bit decimal number
//! shows the home page as well.

use vstd::prelude::*;
use crate::json::{filter_of_subpath, json_document, render_json_document, subpath_filter};
use crate::markdown::{
    about_page,
    home_page,
    render_about,
    render_home,
    render_single_task,
    render_task_list,
    single_task_page,
    task_list_page,
};
use crate::route::{bound_number, first_match, parse_pattern, MatchView, RouteMatch, Router, SegmentView};
use crate::task::{views, Task, TaskView};
use crate::text::text;

verus! {

/// Pattern of the home page.
pub const ROUTE_HOME: &'static str = "/";

/// Pattern of the about page.
pub const ROUTE_ABOUT: &'static str = "/about";

/// Pattern of the unfiltered task list.
pub const ROUTE_TASKS: &'static str = "/tasks";

/// Pattern of the list of pending tasks.
pub const ROUTE_TASKS_PENDING: &'static str = "/tasks/pending";

/// Short pattern of the list of pending tasks.
pub const ROUTE_PENDING: &'static str = "/pending";

/// Pattern of the list of completed tasks.
pub const ROUTE_TASKS_COMPLETED: &'static str = "/tasks/completed";

/// Short pattern of the list of completed tasks.
pub const ROUTE_COMPLETED: &'static str = "/completed";

/// Pattern of the detail page of one task.
pub const ROUTE_TASK: &'static str = "/task/{id}";

/// Pattern of the unfiltered JSON document.
pub const ROUTE_JSON: &'static str = "/json";

/// Pattern of the JSON document with a filter in the remainder.
pub const ROUTE_JSON_ANY: &'static str = "/json/*";

/// Name of the variable of the detail route.
pub const ID_PARAM: &'static str = "id";

/// The path that stands for an absent one.
pub const DEFAULT_PATH: &'static str = "/";

/// The sub-view that a path selects.
#[derive(Debug, PartialEq, Eq, Clone, Copy)]
pub enum Page {
    /// The home page.
    Home,
    /// The about page with the aggregate counters.
    About,
    /// The task list under a completion-status filter.
    TaskList(Option<bool>),
    /// The detail page of the task with this id.
    TaskDetail(u32),
    /// The JSON document under a completion-status filter.
    Json(Option<bool>),
}

/// The route table, in registration order.
pub open spec fn todo_routes() -> Seq<Seq<SegmentView>> {
    seq![
        parse_pattern(text(ROUTE_HOME)),
        parse_pattern(text(ROUTE_ABOUT)),
        parse_pattern(text(ROUTE_TASKS)),
        parse_pattern(text(ROUTE_TASKS_PENDING)),
        parse_pattern(text(ROUTE_PENDING)),
        parse_pattern(text(ROUTE_TASKS_COMPLETED)),
        parse_pattern(text(ROUTE_COMPLETED)),
        parse_pattern(text(ROUTE_TASK)),
        parse_pattern(text(ROUTE_JSON)),
        parse_pattern(text(ROUTE_JSON_ANY)),
    ]
}

/// The page of the route at position `index` of the table, given what the
/// route extracted from the path.
pub open spec fn page_of(index: int, found: MatchView) -> Page {
    if index == 1 {
        Page::About
    } else if index == 2 {
        Page::TaskList(None)
    } else if index == 3 || index == 4 {
        Page::TaskList(Some(false))
    } else if index == 5 || index == 6 {
        Page::TaskList(Some(true))
    } else if index == 7 {
        match bound_number(found.bindings, text(ID_PARAM)) {
            Some(id) => Page::TaskDetail(id),
            None => Page::Home,
        }
    } else if index == 8 {
        Page::Json(None)
    } else if index == 9 {
        Page::Json(subpath_filter(found.remainder))
    } else {
        Page::Home
    }
}

/// The page that a path selects: that of the first route that matches it,
/// and the home page where none does.
pub open spec fn resolve(path: Seq<u8>) -> Page {
    match first_match(todo_routes(), path) {
        Some((index, found)) => page_of(index, found),
        None => Page::Home,
    }
}

/// The path to route: the one given, or `/` in its absence.
pub open spec fn effective_path(path: Option<Seq<u8>>) -> Seq<u8> {
    match path {
        Some(p) => p,
        None => text(DEFAULT_PATH),
    }
}

/// The bytes of a page for a viewer's tasks and the aggregate counters.
pub open spec fn page_bytes(
    page: Page,
    tasks: Seq<TaskView>,
    connected: bool,
    total_tasks: u32,
    user_count: u32,
) -> Seq<u8> {
    match page {
        Page::Home => home_page(connected),
        Page::About => about_page(total_tasks, user_count),
        Page::TaskList(filter) => task_list_page(tasks, filter, connected),
        Page::TaskDetail(id) => single_task_page(tasks, id),
        Page::Json(filter) => json_document(tasks, filter, connected),
    }
}

/// Builds the router that holds the route table.
pub fn todo_router() -> (router: Router)
    ensures
        router@ == todo_routes(),
{
    let mut router = Router::new();
    router.handle(ROUTE_HOME.as_bytes());
    router.handle(ROUTE_ABOUT.as_bytes());
    router.handle(ROUTE_TASKS.as_bytes());
    router.handle(ROUTE_TASKS_PENDING.as_bytes());
    router.handle(ROUTE_PENDING.as_bytes());
    router.handle(ROUTE_TASKS_COMPLETED.as_bytes());
    router.handle(ROUTE_COMPLETED.as_bytes());
    router.handle(ROUTE_TASK.as_bytes());
    router.handle(ROUTE_JSON.as_bytes());
    router.handle(ROUTE_JSON_ANY.as_bytes());
    router
}

/// The page of the route at position `index`, given its match.
pub fn page_for(index: usize, found: &RouteMatch) -> (page: Page)
    ensures
        page == page_of(index as int, found@),
{
    if index == 1 {
        Page::About
    } else if index == 2 {
        Page::TaskList(None)
    } else if index == 3 || index == 4 {
        Page::TaskList(Some(false))
    } else if index == 5 || index == 6 {
        Page::TaskList(Some(true))
    } else if index == 7 {
        match found.get_var_u32(ID_PARAM.as_bytes()) {
            Some(id) => Page::TaskDetail(id),
            None => Page::Home,
        }
    } else if index == 8 {
        Page::Json(None)
    } else if index == 9 {
        match found.get_wildcard() {
            Some(rest) => Page::Json(filter_of_subpath(Some(rest.as_slice()))),
            None => Page::Json(filter_of_subpath(None)),
        }
    } else {
        Page::Home
    }
}

/// Routes a path to the page that it selects.
pub fn route(path: &[u8]) -> (page: Page)
    ensures
        page == resolve(path@),
{
    let router = todo_router();
    match router.first_match(path) {
        Some((index, found)) => page_for(index, &found),
        None => Page::Home,
    }
}

/// Renders a page for a viewer's tasks and the aggregate counters.
pub fn render_page(
    page: Page,
    tasks: &[Task],
    wallet_connected: bool,
    total_tasks: u32,
    user_count: u32,
) -> (out: Vec<u8>)
    ensures
        out@ == page_bytes(page, views(tasks@), wallet_connected, total_tasks, user_count),
{
    match page {
        Page::Home => render_home(wallet_connected),
        Page::About => render_about(total_tasks, user_count),
        Page::TaskList(filter) => render_task_list(tasks, filter, wallet_connected),
        Page::TaskDetail(id) => render_single_task(tasks, id),
        Page::Json(filter) => render_json_document(tasks, filter, wallet_connected),
    }
}

} // verus!
