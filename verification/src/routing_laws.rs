//! General properties of the route table: which page each kind of path
//! selects, for every path of that kind.

use vstd::prelude::*;
use crate::contract::ContractView;
use crate::json::{json_document, subpath_filter, COMPLETED_SUBPATH, PENDING_SUBPATH};
use crate::markdown::{single_task_page, task_list_page};
use crate::pages::{
    effective_path,
    resolve,
    todo_routes,
    Page,
    ID_PARAM,
    ROUTE_ABOUT,
    ROUTE_COMPLETED,
    ROUTE_HOME,
    ROUTE_JSON,
    ROUTE_JSON_ANY,
    ROUTE_PENDING,
    ROUTE_TASK,
    ROUTE_TASKS,
    ROUTE_TASKS_COMPLETED,
    ROUTE_TASKS_PENDING,
};
use crate::route::{
    empty_match,
    first_segment,
    lemma_first_match_at,
    lemma_literal_pattern,
    lemma_segment_len,
    match_segments,
    parse_pattern,
    plain,
    segments_of,
    with_bindings,
    BindingView,
    MatchView,
    SegmentView,
    SLASH,
};
use crate::task::{lemma_select_members, select};
use crate::text::{decimal, lemma_decimal_is_digits, lemma_parse_decimal_round_trip, text};

verus! {

/// The start of every path to the detail page of a task.
pub const TASK_PREFIX: &'static str = "/task/";

/// The bytes of the literal patterns of the route table.
proof fn lemma_route_texts()
    ensures
        text(ROUTE_HOME) == seq![47u8],
        text(ROUTE_ABOUT) == seq![47u8, 97u8, 98u8, 111u8, 117u8, 116u8],
        text(ROUTE_TASKS) == seq![47u8, 116u8, 97u8, 115u8, 107u8, 115u8],
        text(ROUTE_TASKS_PENDING) == seq![
            47u8, 116u8, 97u8, 115u8, 107u8, 115u8, 47u8, 112u8, 101u8, 110u8, 100u8, 105u8, 110u8,
            103u8,
        ],
        text(ROUTE_PENDING) == seq![47u8, 112u8, 101u8, 110u8, 100u8, 105u8, 110u8, 103u8],
        text(ROUTE_TASKS_COMPLETED) == seq![
            47u8, 116u8, 97u8, 115u8, 107u8, 115u8, 47u8, 99u8, 111u8, 109u8, 112u8, 108u8, 101u8,
            116u8, 101u8, 100u8,
        ],
        text(ROUTE_COMPLETED) == seq![
            47u8, 99u8, 111u8, 109u8, 112u8, 108u8, 101u8, 116u8, 101u8, 100u8,
        ],
{
    reveal_strlit("/");
    reveal_strlit("/about");
    reveal_strlit("/tasks");
    reveal_strlit("/tasks/pending");
    reveal_strlit("/pending");
    reveal_strlit("/tasks/completed");
    reveal_strlit("/completed");
    vstd::string::is_ascii_spec_bytes(ROUTE_HOME);
    vstd::string::is_ascii_spec_bytes(ROUTE_ABOUT);
    vstd::string::is_ascii_spec_bytes(ROUTE_TASKS);
    vstd::string::is_ascii_spec_bytes(ROUTE_TASKS_PENDING);
    vstd::string::is_ascii_spec_bytes(ROUTE_PENDING);
    vstd::string::is_ascii_spec_bytes(ROUTE_TASKS_COMPLETED);
    vstd::string::is_ascii_spec_bytes(ROUTE_COMPLETED);
    assert(text(ROUTE_TASKS_PENDING) =~= seq![
        47u8, 116u8, 97u8, 115u8, 107u8, 115u8, 47u8, 112u8, 101u8, 110u8, 100u8, 105u8, 110u8,
        103u8,
    ]);
    assert(text(ROUTE_TASKS_COMPLETED) =~= seq![
        47u8, 116u8, 97u8, 115u8, 107u8, 115u8, 47u8, 99u8, 111u8, 109u8, 112u8, 108u8, 101u8,
        116u8, 101u8, 100u8,
    ]);
    assert(text(ROUTE_COMPLETED) =~= seq![
        47u8, 99u8, 111u8, 109u8, 112u8, 108u8, 101u8, 116u8, 101u8, 100u8,
    ]);
}

/// A literal pattern of the route table matches its own text and nothing
/// else.
proof fn lemma_literal_route(pattern_text: Seq<u8>)
    requires
        pattern_text.len() > 0,
        pattern_text[0] == SLASH,
        plain(pattern_text),
    ensures
        forall|path: Seq<u8>|
            #![trigger match_segments(parse_pattern(pattern_text), path)]
            match_segments(parse_pattern(pattern_text), path) is Some <==> path == pattern_text,
{
    assert forall|path: Seq<u8>|
        #![trigger match_segments(parse_pattern(pattern_text), path)]
        match_segments(parse_pattern(pattern_text), path) is Some <==> path == pattern_text by {
        lemma_literal_pattern(pattern_text, path);
    }
}

/// Each literal path of the route table selects the page that the table
/// gives it, and so does the absent path, which stands for `/`.
pub proof fn law_literal_paths_select_their_pages()
    ensures
        resolve(effective_path(None)) == Page::Home,
        resolve(text(ROUTE_HOME)) == Page::Home,
        resolve(text(ROUTE_ABOUT)) == Page::About,
        resolve(text(ROUTE_TASKS)) == Page::TaskList(None),
        resolve(text(ROUTE_TASKS_PENDING)) == Page::TaskList(Some(false)),
        resolve(text(ROUTE_PENDING)) == Page::TaskList(Some(false)),
        resolve(text(ROUTE_TASKS_COMPLETED)) == Page::TaskList(Some(true)),
        resolve(text(ROUTE_COMPLETED)) == Page::TaskList(Some(true)),
{
    lemma_route_texts();
    let table = todo_routes();
    lemma_literal_route(text(ROUTE_HOME));
    lemma_literal_route(text(ROUTE_ABOUT));
    lemma_literal_route(text(ROUTE_TASKS));
    lemma_literal_route(text(ROUTE_TASKS_PENDING));
    lemma_literal_route(text(ROUTE_PENDING));
    lemma_literal_route(text(ROUTE_TASKS_COMPLETED));
    lemma_literal_route(text(ROUTE_COMPLETED));
    lemma_first_match_at(table, text(ROUTE_HOME), 0);
    lemma_first_match_at(table, text(ROUTE_ABOUT), 1);
    lemma_first_match_at(table, text(ROUTE_TASKS), 2);
    lemma_first_match_at(table, text(ROUTE_TASKS_PENDING), 3);
    lemma_first_match_at(table, text(ROUTE_PENDING), 4);
    lemma_first_match_at(table, text(ROUTE_TASKS_COMPLETED), 5);
    lemma_first_match_at(table, text(ROUTE_COMPLETED), 6);
}

/// The paths `/tasks/pending` and `/pending` both render the task list of
/// the viewer under the filter that lets only pending tasks pass, and the
/// paths `/tasks/completed` and `/completed` the one under the filter for
/// completed tasks: no task of the other status is among those shown.
pub proof fn law_filter_paths_show_filtered_tasks(state: ContractView, viewer: Option<Seq<u8>>)
    ensures
        state.render(Some(text(ROUTE_TASKS_PENDING)), viewer) == task_list_page(
            state.viewer_tasks(viewer),
            Some(false),
            viewer is Some,
        ),
        state.render(Some(text(ROUTE_PENDING)), viewer) == state.render(
            Some(text(ROUTE_TASKS_PENDING)),
            viewer,
        ),
        state.render(Some(text(ROUTE_TASKS_COMPLETED)), viewer) == task_list_page(
            state.viewer_tasks(viewer),
            Some(true),
            viewer is Some,
        ),
        state.render(Some(text(ROUTE_COMPLETED)), viewer) == state.render(
            Some(text(ROUTE_TASKS_COMPLETED)),
            viewer,
        ),
        forall|i: int|
            0 <= i < select(state.viewer_tasks(viewer), Some(false)).len() ==> !(#[trigger] select(
                state.viewer_tasks(viewer),
                Some(false),
            )[i]).completed,
        forall|i: int|
            0 <= i < select(state.viewer_tasks(viewer), Some(true)).len() ==> (#[trigger] select(
                state.viewer_tasks(viewer),
                Some(true),
            )[i]).completed,
{
    law_literal_paths_select_their_pages();
    let tasks = state.viewer_tasks(viewer);
    assert forall|i: int| 0 <= i < select(tasks, Some(false)).len() implies !(#[trigger] select(
        tasks,
        Some(false),
    )[i]).completed by {
        lemma_select_members(tasks, Some(false), i);
    }
    assert forall|i: int| 0 <= i < select(tasks, Some(true)).len() implies (#[trigger] select(
        tasks,
        Some(true),
    )[i]).completed by {
        lemma_select_members(tasks, Some(true), i);
    }
}

/// The word of the detail route.
spec fn word_task() -> Seq<u8> {
    seq![116u8, 97u8, 115u8, 107u8]
}

/// The word of the JSON routes.
spec fn word_json() -> Seq<u8> {
    seq![106u8, 115u8, 111u8, 110u8]
}

/// The name of the variable of the detail route.
spec fn word_id() -> Seq<u8> {
    seq![105u8, 100u8]
}

/// The bytes of the patterns that hold a variable or a wildcard, and of the
/// texts that the laws below build paths from.
proof fn lemma_pattern_texts()
    ensures
        text(ROUTE_TASK) == seq![
            47u8, 116u8, 97u8, 115u8, 107u8, 47u8, 123u8, 105u8, 100u8, 125u8,
        ],
        text(ROUTE_JSON) == seq![47u8, 106u8, 115u8, 111u8, 110u8],
        text(ROUTE_JSON_ANY) == seq![47u8, 106u8, 115u8, 111u8, 110u8, 47u8, 42u8],
        text(ID_PARAM) == word_id(),
        text(TASK_PREFIX) == seq![47u8, 116u8, 97u8, 115u8, 107u8, 47u8],
        text(PENDING_SUBPATH) == text(ROUTE_PENDING),
        text(COMPLETED_SUBPATH) == text(ROUTE_COMPLETED),
{
    reveal_strlit("/task/{id}");
    reveal_strlit("/json");
    reveal_strlit("/json/*");
    reveal_strlit("id");
    reveal_strlit("/task/");
    vstd::string::is_ascii_spec_bytes(ROUTE_TASK);
    vstd::string::is_ascii_spec_bytes(ROUTE_JSON);
    vstd::string::is_ascii_spec_bytes(ROUTE_JSON_ANY);
    vstd::string::is_ascii_spec_bytes(ID_PARAM);
    vstd::string::is_ascii_spec_bytes(TASK_PREFIX);
    assert(text(ROUTE_TASK) =~= seq![
        47u8, 116u8, 97u8, 115u8, 107u8, 47u8, 123u8, 105u8, 100u8, 125u8,
    ]);
}

/// The detail route is the word `task` and then the variable `id`.
proof fn lemma_task_pattern()
    ensures
        parse_pattern(text(ROUTE_TASK)) == seq![
            SegmentView::Literal(word_task()),
            SegmentView::Param(word_id()),
        ],
{
    lemma_pattern_texts();
    let body = text(ROUTE_TASK).drop_first();
    lemma_segment_len(body, 4);
    let first = first_segment(body);
    assert(first =~= word_task());
    let rest = body.skip(5);
    lemma_segment_len(rest, 4);
    let second = first_segment(rest);
    assert(second.subrange(1, 3) =~= word_id());
    assert(segments_of(rest) =~= seq![SegmentView::Param(word_id())]);
    assert(segments_of(body) =~= seq![
        SegmentView::Literal(word_task()),
        SegmentView::Param(word_id()),
    ]);
}

/// The filtered JSON route is the word `json` and then the wildcard.
proof fn lemma_json_pattern()
    ensures
        parse_pattern(text(ROUTE_JSON_ANY)) == seq![
            SegmentView::Literal(word_json()),
            SegmentView::Wildcard,
        ],
{
    lemma_pattern_texts();
    let body = text(ROUTE_JSON_ANY).drop_first();
    lemma_segment_len(body, 4);
    let first = first_segment(body);
    assert(first =~= word_json());
    let rest = body.skip(5);
    lemma_segment_len(rest, 1);
    assert(segments_of(rest) =~= seq![SegmentView::Wildcard]);
}

/// A path that is none of the seven literal route texts is matched by none
/// of the seven literal routes.
proof fn lemma_literal_routes_miss(path: Seq<u8>)
    requires
        path != text(ROUTE_HOME),
        path != text(ROUTE_ABOUT),
        path != text(ROUTE_TASKS),
        path != text(ROUTE_TASKS_PENDING),
        path != text(ROUTE_PENDING),
        path != text(ROUTE_TASKS_COMPLETED),
        path != text(ROUTE_COMPLETED),
    ensures
        forall|j: int| 0 <= j < 7 ==> match_segments(#[trigger] todo_routes()[j], path) is None,
{
    lemma_route_texts();
    lemma_literal_pattern(text(ROUTE_HOME), path);
    lemma_literal_pattern(text(ROUTE_ABOUT), path);
    lemma_literal_pattern(text(ROUTE_TASKS), path);
    lemma_literal_pattern(text(ROUTE_TASKS_PENDING), path);
    lemma_literal_pattern(text(ROUTE_PENDING), path);
    lemma_literal_pattern(text(ROUTE_TASKS_COMPLETED), path);
    lemma_literal_pattern(text(ROUTE_COMPLETED), path);
}

/// The detail route matches no path whose first segment is not `task`.
proof fn lemma_task_route_misses(path: Seq<u8>)
    requires
        path.len() > 0,
        first_segment(path.drop_first()) != word_task(),
    ensures
        match_segments(todo_routes()[7], path) is None,
{
    lemma_task_pattern();
}

/// The path `/task/` followed by the decimal numeral of an id selects the
/// detail page of the task with that id, whatever the id.
pub proof fn law_task_path_selects_the_task(id: u32)
    ensures
        resolve(text(TASK_PREFIX) + decimal(id as nat)) == Page::TaskDetail(id),
{
    lemma_route_texts();
    lemma_pattern_texts();
    lemma_task_pattern();
    lemma_decimal_is_digits(id as nat);
    lemma_parse_decimal_round_trip(id);
    let digits = decimal(id as nat);
    let path = text(TASK_PREFIX) + digits;
    let table = todo_routes();
    let segments = table[7];
    lemma_literal_routes_miss(path);

    let tail = path.drop_first();
    lemma_segment_len(tail, 4);
    assert(first_segment(tail) =~= word_task());

    let rest = path.skip(5);
    assert(rest.drop_first() =~= digits);
    assert forall|k: int| 0 <= k < digits.len() implies digits[k] != SLASH by {}
    lemma_segment_len(digits, digits.len() as int);
    assert(first_segment(digits) =~= digits);
    let end = rest.skip(1int + digits.len());

    let binding = BindingView { name: word_id(), value: digits };
    let inner = segments.drop_first();
    assert(match_segments(inner.drop_first(), end) == Some(empty_match()));
    assert(match_segments(inner, rest) == with_bindings(seq![binding], Some(empty_match())));
    lemma_first_match_at(table, path, 7);
}

/// The path `/json`, alone or followed by a remainder that begins with a
/// slash, selects the JSON document under the filter that the remainder
/// names: pending for `/pending`, completed for `/completed`, none for
/// anything else.
pub proof fn law_json_paths_select_the_document(rest: Seq<u8>)
    requires
        rest.len() == 0 || rest[0] == SLASH,
    ensures
        resolve(text(ROUTE_JSON) + rest) == Page::Json(subpath_filter(Some(rest))),
        resolve(text(ROUTE_JSON)) == Page::Json(None),
        resolve(text(ROUTE_JSON) + text(PENDING_SUBPATH)) == Page::Json(Some(false)),
        resolve(text(ROUTE_JSON) + text(COMPLETED_SUBPATH)) == Page::Json(Some(true)),
{
    lemma_route_texts();
    lemma_pattern_texts();
    lemma_json_path(rest);
    lemma_json_path(Seq::empty());
    lemma_json_path(text(PENDING_SUBPATH));
    lemma_json_path(text(COMPLETED_SUBPATH));
}

/// One path of the law above.
proof fn lemma_json_path(rest: Seq<u8>)
    requires
        rest.len() == 0 || rest[0] == SLASH,
    ensures
        resolve(text(ROUTE_JSON) + rest) == Page::Json(subpath_filter(Some(rest))),
{
    lemma_route_texts();
    lemma_pattern_texts();
    lemma_json_pattern();
    let path = text(ROUTE_JSON) + rest;
    let table = todo_routes();
    lemma_literal_routes_miss(path);

    let tail = path.drop_first();
    lemma_segment_len(tail, 4);
    assert(first_segment(tail) =~= word_json());
    assert(word_json() != word_task());
    lemma_task_route_misses(path);
    assert(path.skip(1int + word_json().len()) =~= rest);

    if rest.len() == 0 {
        lemma_literal_pattern(text(ROUTE_JSON), path);
        lemma_first_match_at(table, path, 8);
    } else {
        lemma_literal_pattern(text(ROUTE_JSON), path);
        let segments = table[9];
        let inner = segments.drop_first();
        assert(match_segments(inner, rest) == Some(
            MatchView { bindings: Seq::empty(), remainder: Some(rest) },
        ));
        lemma_first_match_at(table, path, 9);
    }
}

/// What `render` returns for the paths of the two laws above: the detail
/// page of the task with the id in the path, looked up among the viewer's
/// tasks, and the JSON document of the viewer's tasks under the filter
/// that the remainder of the path names.
pub proof fn law_task_and_json_paths_render_their_pages(
    state: ContractView,
    viewer: Option<Seq<u8>>,
    id: u32,
    rest: Seq<u8>,
)
    requires
        rest.len() == 0 || rest[0] == SLASH,
    ensures
        state.render(Some(text(TASK_PREFIX) + decimal(id as nat)), viewer) == single_task_page(
            state.viewer_tasks(viewer),
            id,
        ),
        state.render(Some(text(ROUTE_JSON) + rest), viewer) == json_document(
            state.viewer_tasks(viewer),
            subpath_filter(Some(rest)),
            viewer is Some,
        ),
{
    law_task_path_selects_the_task(id);
    law_json_paths_select_the_document(rest);
}

} // verus!
