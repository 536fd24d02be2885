//! Executes a structured query against a store and maps the outcome to a
//! structured result, as the external read/execute/print loop expects.

use vstd::prelude::*;
use vstd::string::StringExecFns;
use crate::query::{Query, QueryError, QueryResult};
use crate::todo_list::{add_result, added_item, complete_result, complete_succeeds, search_result,
    Index, TodoList};

verus! {

/// The decimal digits of a non-negative integer, most significant first.
pub open spec fn dec_digits(n: int) -> Seq<char>
    decreases n,
{
    if n < 10 {
        seq![digit_char(n)]
    } else {
        dec_digits(n / 10).push(digit_char(n % 10))
    }
}

/// The character for one decimal digit.
pub open spec fn digit_char(d: int) -> char {
    if d == 0 {
        '0'
    } else if d == 1 {
        '1'
    } else if d == 2 {
        '2'
    } else if d == 3 {
        '3'
    } else if d == 4 {
        '4'
    } else if d == 5 {
        '5'
    } else if d == 6 {
        '6'
    } else if d == 7 {
        '7'
    } else if d == 8 {
        '8'
    } else {
        '9'
    }
}

fn digit_str(d: u64) -> (s: &'static str)
    requires
        d < 10,
    ensures
        s@ == seq![digit_char(d as int)],
{
    let s: &'static str = if d == 0 {
        "0"
    } else if d == 1 {
        "1"
    } else if d == 2 {
        "2"
    } else if d == 3 {
        "3"
    } else if d == 4 {
        "4"
    } else if d == 5 {
        "5"
    } else if d == 6 {
        "6"
    } else if d == 7 {
        "7"
    } else if d == 8 {
        "8"
    } else {
        "9"
    };
    proof {
        reveal_strlit("0");
        reveal_strlit("1");
        reveal_strlit("2");
        reveal_strlit("3");
        reveal_strlit("4");
        reveal_strlit("5");
        reveal_strlit("6");
        reveal_strlit("7");
        reveal_strlit("8");
        reveal_strlit("9");
        assert(s@ =~= seq![digit_char(d as int)]);
    }
    s
}

/// Renders a number in decimal.
pub fn u64_to_string(n: u64) -> (s: String)
    ensures
        s@ == dec_digits(n as int),
    decreases n,
{
    if n < 10 {
        digit_str(n).to_owned()
    } else {
        let mut s = u64_to_string(n / 10);
        s.append(digit_str(n % 10));
        proof {
            assert(s@ =~= dec_digits(n as int));
        }
        s
    }
}

/// The textual form of a completion query, as the error carries it.
pub open spec fn done_query_text(idx: int) -> Seq<char> {
    seq!['d', 'o', 'n', 'e', ' '] + dec_digits(idx)
}

fn done_text(idx: Index) -> (s: String)
    ensures
        s@ == done_query_text(idx@),
{
    let mut s = String::from_str("done ");
    proof {
        reveal_strlit("done ");
        assert(s@ =~= seq!['d', 'o', 'n', 'e', ' ']);
    }
    let num = u64_to_string(idx.value());
    s.append(num.as_str());
    s
}

/// Runs one query against the store: an add appends a task and returns it,
/// a completion marks a task done or fails with the query's textual form,
/// and a search returns the matching tasks.
pub fn run_query(q: Query, tl: &mut TodoList) -> (r: Result<QueryResult, QueryError>)
    requires
        old(tl).wf(),
        q is Add ==> old(tl)@.len() < u64::MAX,
    ensures
        final(tl).wf(),
        (match q {
            Query::Add(description, tags) => {
                &&& final(tl)@ == add_result(old(tl)@, description@, tags.deep_view())
                &&& (r matches Ok(QueryResult::Added(item)) && item@ == added_item(
                    old(tl)@,
                    description@,
                    tags.deep_view(),
                ))
            },
            Query::Done(idx) => {
                if complete_succeeds(old(tl)@, idx@) {
                    &&& final(tl)@ == complete_result(old(tl)@, idx@)
                    &&& r matches Ok(QueryResult::Done)
                } else {
                    &&& *final(tl) == *old(tl)
                    &&& (r matches Err(e) && e.0@ == done_query_text(idx@))
                }
            },
            Query::Search(params) => {
                &&& *final(tl) == *old(tl)
                &&& (r matches Ok(QueryResult::Found(found)) && found.deep_view()
                    == search_result(old(tl)@, params@))
            },
        }),
{
    match q {
        Query::Add(description, tags) => {
            let item = tl.push(description, tags);
            Ok(QueryResult::Added(item))
        },
        Query::Done(idx) => {
            let outcome = tl.done_with_index(idx);
            match outcome {
                Some(_pos) => Ok(QueryResult::Done),
                None => Err(QueryError(done_text(idx))),
            }
        },
        Query::Search(params) => {
            let found = tl.search(params);
            Ok(QueryResult::Found(found))
        },
    }
}

} // verus!
