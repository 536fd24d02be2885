use todo_tracker::{
    run_query, Description, Index, Query, QueryResult, SearchParams, SearchWord, Tag, TodoList,
};

fn search_query(words: Vec<&str>, tags: Vec<&str>) -> Query {
    Query::Search(SearchParams {
        words: words.into_iter().map(SearchWord::new).collect(),
        tags: Tag::from_strings(tags),
    })
}

#[test]
fn end_to_end_scenario() {
    let mut tl = TodoList::new();

    // Add("buy milk", ["shopping"]) returns the task with identifier 0.
    let r = run_query(
        Query::Add(Description::new("buy milk"), Tag::from_strings(vec!["shopping"])),
        &mut tl,
    );
    match r {
        Ok(QueryResult::Added(task)) => {
            assert_eq!(task.index.value(), 0);
            assert!(!task.done);
        }
        other => panic!("unexpected result: {:?}", other),
    }

    // Add("write report", []) returns the task with identifier 1.
    let r = run_query(Query::Add(Description::new("write report"), vec![]), &mut tl);
    match r {
        Ok(QueryResult::Added(task)) => assert_eq!(task.index.value(), 1),
        other => panic!("unexpected result: {:?}", other),
    }

    // "mlk" is a subsequence of "milk", so the search finds task 0.
    let r = run_query(search_query(vec!["mlk"], vec![]), &mut tl);
    match r {
        Ok(QueryResult::Found(found)) => {
            assert_eq!(found.len(), 1);
            assert_eq!(found[0].index.value(), 0);
        }
        other => panic!("unexpected result: {:?}", other),
    }

    // Complete(0) succeeds.
    let r = run_query(Query::Done(Index::new(0)), &mut tl);
    assert_eq!(r, Ok(QueryResult::Done));

    // Task 0 is done now, so searching by its tag finds nothing.
    let r = run_query(search_query(vec![], vec!["shop"]), &mut tl);
    match r {
        Ok(QueryResult::Found(found)) => assert!(found.is_empty()),
        other => panic!("unexpected result: {:?}", other),
    }

    // Complete(0) again fails, carrying the textual form of the query.
    let r = run_query(Query::Done(Index::new(0)), &mut tl);
    match r {
        Err(e) => assert_eq!(e.0, "done 0"),
        other => panic!("unexpected result: {:?}", other),
    }
}

#[test]
fn failed_completion_reports_the_query_text() {
    let mut tl = TodoList::new();
    let r = run_query(Query::Done(Index::new(1234567890)), &mut tl);
    match r {
        Err(e) => assert_eq!(e.0, "done 1234567890"),
        other => panic!("unexpected result: {:?}", other),
    }
}

#[test]
fn add_then_search_through_queries() {
    let mut tl = TodoList::new();
    let _ = run_query(
        Query::Add(Description::new("pay rent"), Tag::from_strings(vec!["home", "money"])),
        &mut tl,
    );
    let _ = run_query(
        Query::Add(Description::new("call plumber"), Tag::from_strings(vec!["home"])),
        &mut tl,
    );
    let r = run_query(search_query(vec![], vec!["money"]), &mut tl);
    match r {
        Ok(QueryResult::Found(found)) => {
            assert_eq!(found.len(), 1);
            assert_eq!(found[0].description.value(), "pay rent");
        }
        other => panic!("unexpected result: {:?}", other),
    }
    let r = run_query(search_query(vec![], vec!["home"]), &mut tl);
    match r {
        Ok(QueryResult::Found(found)) => assert_eq!(found.len(), 2),
        other => panic!("unexpected result: {:?}", other),
    }
}
