use todo_tracker::{Description, Index, SearchParams, SearchWord, Tag, TodoList};

fn params(words: Vec<&str>, tags: Vec<&str>) -> SearchParams {
    SearchParams {
        words: words.into_iter().map(SearchWord::new).collect(),
        tags: Tag::from_strings(tags),
    }
}

#[test]
fn add_assigns_sequential_identifiers() {
    let mut tl = TodoList::new();
    let a = tl.push(Description::new("first"), vec![]);
    let _ = tl.search(params(vec![], vec![]));
    let b = tl.push(Description::new("second"), vec![]);
    let _ = tl.done_with_index(a.index);
    let c = tl.push(Description::new("third"), vec![]);
    assert_eq!(a.index.value(), 0);
    assert_eq!(b.index.value(), 1);
    assert_eq!(c.index.value(), 2);
}

#[test]
fn new_task_starts_open() {
    let mut tl = TodoList::new();
    let t = tl.push(Description::new("task"), vec![Tag::new("x")]);
    assert!(!t.done);
    assert_eq!(t.description.value(), "task");
    assert_eq!(t.tags.len(), 1);
    assert_eq!(t.tags[0].value(), "x");
}

#[test]
fn complete_succeeds_once_then_fails() {
    let mut tl = TodoList::new();
    let t = tl.push(Description::new("task"), vec![]);
    let first = tl.done_with_index(t.index);
    assert_eq!(first.map(|i| i.value()), Some(0));
    let second = tl.done_with_index(t.index);
    assert!(second.is_none());
}

#[test]
fn complete_of_unknown_identifier_fails() {
    let mut tl = TodoList::new();
    assert!(tl.done_with_index(Index::new(0)).is_none());
    let _ = tl.push(Description::new("task"), vec![]);
    assert!(tl.done_with_index(Index::new(7)).is_none());
}

#[test]
fn search_excludes_done_tasks() {
    let mut tl = TodoList::new();
    let a = tl.push(Description::new("buy milk"), vec![Tag::new("shopping")]);
    let _b = tl.push(Description::new("buy bread"), vec![Tag::new("shopping")]);
    assert!(tl.done_with_index(a.index).is_some());
    for sp in [
        params(vec![], vec![]),
        params(vec!["milk"], vec![]),
        params(vec![], vec!["shopping"]),
    ] {
        let found = tl.search(sp);
        assert!(found.iter().all(|t| t.index.value() != a.index.value()));
    }
}

#[test]
fn search_with_empty_params_returns_open_tasks_in_order() {
    let mut tl = TodoList::new();
    let _a = tl.push(Description::new("one"), vec![]);
    let b = tl.push(Description::new("two"), vec![Tag::new("t")]);
    let c = tl.push(Description::new("three"), vec![]);
    tl.done_with_index(_a.index).unwrap();
    let found = tl.search(params(vec![], vec![]));
    let ids: Vec<u64> = found.iter().map(|t| t.index.value()).collect();
    assert_eq!(ids, vec![b.index.value(), c.index.value()]);
}

#[test]
fn search_word_must_match_a_single_description_word() {
    let mut tl = TodoList::new();
    let _ = tl.push(Description::new("buy milk"), vec![]);
    // "bk" is a subsequence of "buy milk" as a whole but of neither word
    assert!(tl.search(params(vec!["bk"], vec![])).is_empty());
    // "uy" is a subsequence of "buy"
    assert_eq!(tl.search(params(vec!["uy"], vec![])).len(), 1);
}

#[test]
fn search_requires_every_word() {
    let mut tl = TodoList::new();
    let _ = tl.push(Description::new("buy milk"), vec![]);
    assert_eq!(tl.search(params(vec!["uy", "mlk"], vec![])).len(), 1);
    assert!(tl.search(params(vec!["uy", "zz"], vec![])).is_empty());
}

#[test]
fn search_matches_tags_by_subsequence() {
    let mut tl = TodoList::new();
    let _ = tl.push(
        Description::new("buy milk"),
        vec![Tag::new("shopping"), Tag::new("urgent")],
    );
    assert_eq!(tl.search(params(vec![], vec!["shop"])).len(), 1);
    assert_eq!(tl.search(params(vec![], vec!["ugt"])).len(), 1);
    assert!(tl.search(params(vec![], vec!["work"])).is_empty());
    assert_eq!(tl.search(params(vec![], vec!["shop", "ugt"])).len(), 1);
}

#[test]
fn duplicate_tags_are_kept_in_order() {
    let tags = Tag::from_strings(vec!["a", "b", "a"]);
    assert_eq!(tags.len(), 3);
    assert_eq!(tags[0].value(), "a");
    assert_eq!(tags[1].value(), "b");
    assert_eq!(tags[2].value(), "a");
}

#[test]
fn value_types_keep_their_text() {
    assert_eq!(Index::new(42).value(), 42);
    assert_eq!(Description::new("hello world").value(), "hello world");
    assert_eq!(Tag::new("home").value(), "home");
    assert_eq!(SearchWord::new("mlk").value(), "mlk");
}
