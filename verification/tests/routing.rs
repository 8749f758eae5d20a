use todo_render::contract::TodoContract;
use todo_render::pages::{page_for, route, todo_router, Page};
use todo_render::route::{classify_word, segment_end, Binding, Pattern, RouteMatch, Router, Segment};
use todo_render::task::AccountId;

fn lit(word: &str) -> Segment {
    Segment::Literal(word.as_bytes().to_vec())
}

fn param(name: &str) -> Segment {
    Segment::Param(name.as_bytes().to_vec())
}

fn bound(name: &str, value: &str) -> Binding {
    Binding { name: name.as_bytes().to_vec(), value: value.as_bytes().to_vec() }
}

fn nothing() -> RouteMatch {
    RouteMatch { bindings: Vec::new(), remainder: None }
}

#[test]
fn pattern_texts_compile_to_segments() {
    assert_eq!(Pattern::parse(b"/").segments, vec![lit("")]);
    assert_eq!(Pattern::parse(b"").segments, Vec::<Segment>::new());
    assert_eq!(Pattern::parse(b"/tasks").segments, vec![lit("tasks")]);
    assert_eq!(Pattern::parse(b"tasks").segments, vec![lit("tasks")]);
    assert_eq!(Pattern::parse(b"/tasks/pending").segments, vec![lit("tasks"), lit("pending")]);
    assert_eq!(Pattern::parse(b"/task/{id}").segments, vec![lit("task"), param("id")]);
    assert_eq!(Pattern::parse(b"/json/*").segments, vec![lit("json"), Segment::Wildcard]);
    assert_eq!(
        Pattern::parse(b"/users/{user}/posts/{post}").segments,
        vec![lit("users"), param("user"), lit("posts"), param("post")]
    );
    assert_eq!(Pattern::parse(b"/a/").segments, vec![lit("a"), lit("")]);
    assert_eq!(Pattern::parse(b"/a//b").segments, vec![lit("a"), lit(""), lit("b")]);
}

#[test]
fn words_are_classified() {
    assert_eq!(classify_word(b"*"), Segment::Wildcard);
    assert_eq!(classify_word(b"**"), lit("**"));
    assert_eq!(classify_word(b"{id}"), param("id"));
    assert_eq!(classify_word(b"{x}"), param("x"));
    // Braces around nothing name no variable.
    assert_eq!(classify_word(b"{}"), lit("{}"));
    assert_eq!(classify_word(b"{id"), lit("{id"));
    assert_eq!(classify_word(b"id}"), lit("id}"));
    assert_eq!(classify_word(b""), lit(""));
    assert_eq!(classify_word(b"tasks"), lit("tasks"));
}

#[test]
fn segments_end_at_a_slash_or_at_the_end() {
    assert_eq!(segment_end(b"/task/12", 1), 5);
    assert_eq!(segment_end(b"/task/12", 6), 8);
    assert_eq!(segment_end(b"/task/12", 5), 5);
    assert_eq!(segment_end(b"/task/12", 8), 8);
    assert_eq!(segment_end(b"", 0), 0);
}

#[test]
fn literal_patterns_match_byte_for_byte() {
    let tasks = Pattern::parse(b"/tasks");
    assert_eq!(tasks.matches(b"/tasks"), Some(nothing()));
    assert_eq!(tasks.matches(b"/task"), None);
    assert_eq!(tasks.matches(b"/tasks/"), None);
    assert_eq!(tasks.matches(b"/tasksx"), None);
    assert_eq!(tasks.matches(b"/Tasks"), None);
    assert_eq!(tasks.matches(b"tasks"), None);
    assert_eq!(tasks.matches(b"//tasks"), None);
    assert_eq!(tasks.matches(b""), None);
    assert_eq!(tasks.matches(b"/tasks/pending"), None);

    let home = Pattern::parse(b"/");
    assert_eq!(home.matches(b"/"), Some(nothing()));
    assert_eq!(home.matches(b""), None);
    assert_eq!(home.matches(b"//"), None);
    assert_eq!(home.matches(b"/x"), None);

    let empty = Pattern::parse(b"");
    assert_eq!(empty.matches(b""), Some(nothing()));
    assert_eq!(empty.matches(b"/"), None);

    let deep = Pattern::parse(b"/tasks/pending");
    assert_eq!(deep.matches(b"/tasks/pending"), Some(nothing()));
    assert_eq!(deep.matches(b"/tasks"), None);
    assert_eq!(deep.matches(b"/tasks/pendin"), None);
    assert_eq!(deep.matches(b"/tasks/pending/x"), None);
}

#[test]
fn variables_bind_one_segment() {
    let detail = Pattern::parse(b"/task/{id}");
    let found = detail.matches(b"/task/123").unwrap();
    assert_eq!(found, RouteMatch { bindings: vec![bound("id", "123")], remainder: None });
    assert_eq!(found.get_var(b"id"), Some(&b"123".to_vec()));
    assert_eq!(found.get_var(b"other"), None);
    assert_eq!(found.get_var_u32(b"id"), Some(123));
    assert_eq!(found.get_var_u32(b"other"), None);
    assert_eq!(found.get_wildcard(), None);

    // Any one segment, but exactly one, and not an empty one.
    assert_eq!(detail.matches(b"/task/abc").unwrap().get_var(b"id"), Some(&b"abc".to_vec()));
    assert_eq!(detail.matches(b"/task/abc").unwrap().get_var_u32(b"id"), None);
    assert_eq!(detail.matches(b"/task/"), None);
    assert_eq!(detail.matches(b"/task"), None);
    assert_eq!(detail.matches(b"/task/1/2"), None);
    assert_eq!(detail.matches(b"/task/1/"), None);
    assert_eq!(detail.matches(b"/tasks/1"), None);

    let two = Pattern::parse(b"/users/{user}/posts/{post}");
    let found = two.matches(b"/users/ann/posts/7").unwrap();
    assert_eq!(found.bindings, vec![bound("user", "ann"), bound("post", "7")]);
    assert_eq!(found.get_var(b"user"), Some(&b"ann".to_vec()));
    assert_eq!(found.get_var_u32(b"post"), Some(7));
    assert_eq!(two.matches(b"/users/ann/post/7"), None);
}

#[test]
fn numbers_in_variables_must_fit() {
    let detail = Pattern::parse(b"/task/{id}");
    assert_eq!(detail.matches(b"/task/0").unwrap().get_var_u32(b"id"), Some(0));
    assert_eq!(detail.matches(b"/task/007").unwrap().get_var_u32(b"id"), Some(7));
    assert_eq!(detail.matches(b"/task/4294967295").unwrap().get_var_u32(b"id"), Some(u32::MAX));
    assert_eq!(detail.matches(b"/task/4294967296").unwrap().get_var_u32(b"id"), None);
    assert_eq!(detail.matches(b"/task/99999999999999999999").unwrap().get_var_u32(b"id"), None);
    assert_eq!(detail.matches(b"/task/-1").unwrap().get_var_u32(b"id"), None);
    assert_eq!(detail.matches(b"/task/1x").unwrap().get_var_u32(b"id"), None);
    assert_eq!(detail.matches(b"/task/+1").unwrap().get_var_u32(b"id"), None);
}

#[test]
fn the_wildcard_takes_the_raw_remainder() {
    let json = Pattern::parse(b"/json/*");
    let rest = |path: &[u8]| json.matches(path).map(|m| m.remainder.unwrap());
    assert_eq!(rest(b"/json/pending"), Some(b"/pending".to_vec()));
    assert_eq!(rest(b"/json/a/b/c"), Some(b"/a/b/c".to_vec()));
    assert_eq!(rest(b"/json/"), Some(b"/".to_vec()));
    assert_eq!(rest(b"/json"), Some(b"".to_vec()));
    assert_eq!(rest(b"/jsonx"), None);
    assert_eq!(rest(b"/jso"), None);
    assert_eq!(rest(b"/"), None);

    let found = json.matches(b"/json/completed").unwrap();
    assert_eq!(found.get_wildcard(), Some(&b"/completed".to_vec()));
    assert!(found.bindings.is_empty());

    let all = Pattern::parse(b"/*");
    assert_eq!(all.matches(b"/anything/at/all").unwrap().remainder, Some(b"/anything/at/all".to_vec()));
    assert_eq!(all.matches(b"").unwrap().remainder, Some(b"".to_vec()));

    let mixed = Pattern::parse(b"/files/{owner}/*");
    let found = mixed.matches(b"/files/ann/a/b.txt").unwrap();
    assert_eq!(found.bindings, vec![bound("owner", "ann")]);
    assert_eq!(found.remainder, Some(b"/a/b.txt".to_vec()));
}

#[test]
fn first_matching_route_wins() {
    let mut router = Router::new();
    assert_eq!(router.first_match(b"/"), None);
    router.handle(b"/task/new");
    router.handle(b"/task/{id}");
    router.handle(b"/task/*");
    router.handle(b"/{page}");
    assert_eq!(router.routes.len(), 4);

    assert_eq!(router.first_match(b"/task/new").unwrap().0, 0);
    let (index, found) = router.first_match(b"/task/5").unwrap();
    assert_eq!(index, 1);
    assert_eq!(found.get_var_u32(b"id"), Some(5));
    let (index, found) = router.first_match(b"/task/5/edit").unwrap();
    assert_eq!(index, 2);
    assert_eq!(found.get_wildcard(), Some(&b"/5/edit".to_vec()));
    assert_eq!(router.first_match(b"/task").unwrap().0, 2);
    assert_eq!(router.first_match(b"/about").unwrap().0, 3);
    assert_eq!(router.first_match(b"/a/b"), None);
    assert_eq!(router.first_match(b""), None);
}

#[test]
fn route_table_has_ten_routes_in_order() {
    let router = todo_router();
    let texts: [&[u8]; 10] = [
        b"/",
        b"/about",
        b"/tasks",
        b"/tasks/pending",
        b"/pending",
        b"/tasks/completed",
        b"/completed",
        b"/task/{id}",
        b"/json",
        b"/json/*",
    ];
    assert_eq!(router.routes.len(), 10);
    for (i, text) in texts.iter().enumerate() {
        assert_eq!(router.routes[i], Pattern::parse(text));
    }
}

#[test]
fn paths_select_their_pages() {
    assert_eq!(route(b"/"), Page::Home);
    assert_eq!(route(b"/about"), Page::About);
    assert_eq!(route(b"/tasks"), Page::TaskList(None));
    assert_eq!(route(b"/tasks/pending"), Page::TaskList(Some(false)));
    assert_eq!(route(b"/pending"), Page::TaskList(Some(false)));
    assert_eq!(route(b"/tasks/completed"), Page::TaskList(Some(true)));
    assert_eq!(route(b"/completed"), Page::TaskList(Some(true)));
    assert_eq!(route(b"/task/1"), Page::TaskDetail(1));
    assert_eq!(route(b"/task/12"), Page::TaskDetail(12));
    assert_eq!(route(b"/task/0"), Page::TaskDetail(0));
    assert_eq!(route(b"/task/4294967295"), Page::TaskDetail(u32::MAX));
    assert_eq!(route(b"/json"), Page::Json(None));
    assert_eq!(route(b"/json/pending"), Page::Json(Some(false)));
    assert_eq!(route(b"/json/completed"), Page::Json(Some(true)));
    assert_eq!(route(b"/json/"), Page::Json(None));
    assert_eq!(route(b"/json/other"), Page::Json(None));
    assert_eq!(route(b"/json/pending/"), Page::Json(None));
    assert_eq!(route(b"/json/pending/x"), Page::Json(None));
}

#[test]
fn anything_else_is_the_home_page() {
    let paths: [&[u8]; 16] = [
        b"",
        b"//",
        b"/nowhere",
        b"/about/",
        b"/About",
        b"/tasks/",
        b"/tasks/done",
        b"/task",
        b"/task/",
        b"/task/abc",
        b"/task/1x",
        b"/task/4294967296",
        b"/task/1/2",
        b"/jsonx",
        b"json",
        b"\xff\x00/\xfe",
    ];
    for path in paths {
        assert_eq!(route(path), Page::Home);
    }
}

#[test]
fn pages_of_route_positions() {
    assert_eq!(page_for(0, &nothing()), Page::Home);
    assert_eq!(page_for(1, &nothing()), Page::About);
    assert_eq!(page_for(4, &nothing()), Page::TaskList(Some(false)));
    assert_eq!(page_for(6, &nothing()), Page::TaskList(Some(true)));
    assert_eq!(page_for(7, &nothing()), Page::Home);
    let id = RouteMatch { bindings: vec![bound("id", "31")], remainder: None };
    assert_eq!(page_for(7, &id), Page::TaskDetail(31));
    let rest = RouteMatch { bindings: Vec::new(), remainder: Some(b"/completed".to_vec()) };
    assert_eq!(page_for(9, &rest), Page::Json(Some(true)));
    assert_eq!(page_for(9, &nothing()), Page::Json(None));
    assert_eq!(page_for(10, &nothing()), Page::Home);
}

#[test]
fn pending_paths_show_only_pending_tasks() {
    let mut contract = TodoContract::new();
    let viewer = AccountId::new(b"viewer".to_vec());
    contract.add_task(b"wash the car".to_vec(), &viewer, true).unwrap();
    contract.add_task(b"water plants".to_vec(), &viewer, true).unwrap();
    contract.add_task(b"write letter".to_vec(), &viewer, true).unwrap();
    contract.complete_task(2, &viewer, true).unwrap();

    let long = contract.render(Some(b"/tasks/pending".as_slice()), Some(&viewer));
    let short = contract.render(Some(b"/pending".as_slice()), Some(&viewer));
    assert_eq!(long, short);
    let page = String::from_utf8(long).unwrap();
    assert!(page.contains("- [ ] wash the car (#1) "));
    assert!(page.contains("- [ ] write letter (#3) "));
    assert!(!page.contains("water plants"));
    assert!(!page.contains("[x]"));

    let long = contract.render(Some(b"/tasks/completed".as_slice()), Some(&viewer));
    let short = contract.render(Some(b"/completed".as_slice()), Some(&viewer));
    assert_eq!(long, short);
    let page = String::from_utf8(long).unwrap();
    assert!(page.contains("- [x] ~~water plants~~ (#2) "));
    assert!(!page.contains("wash the car"));
    assert!(!page.contains("write letter"));
    assert!(!page.contains("[ ]"));
}

#[test]
fn absent_path_is_the_home_page() {
    let contract = TodoContract::new();
    let viewer = AccountId::new(b"viewer".to_vec());
    assert_eq!(contract.render(None, None), contract.render(Some(b"/".as_slice()), None));
    assert_eq!(
        contract.render(None, Some(&viewer)),
        contract.render(Some(b"/".as_slice()), Some(&viewer))
    );
    assert_eq!(
        contract.render(Some(b"/no/such/page".as_slice()), Some(&viewer)),
        contract.render(None, Some(&viewer))
    );
    assert_ne!(contract.render(None, None), contract.render(None, Some(&viewer)));
}
