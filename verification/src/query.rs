//! The structured requests the store accepts and the structured results it
//! returns: the data interchange shapes between the external query executor
//! and the store.

use vstd::prelude::*;
use crate::todo_list::{Description, Index, Tag, TodoItem};

verus! {

/// A structured request: add a task, mark one done, or search.
#[derive(Debug, Clone, PartialEq, Eq)]
pub enum Query {
    Add(Description, Vec<Tag>),
    Done(Index),
    Search(SearchParams),
}

/// The mathematical value of a set of search parameters.
#[verifier::ext_equal]
pub ghost struct ParamsView {
    pub words: Seq<Seq<char>>,
    pub tags: Seq<Seq<char>>,
}

/// What a search requires: words that must match the description and tags
/// that must match the task's tags, each possibly empty.
#[derive(Debug, Clone, PartialEq, Eq)]
pub struct SearchParams {
    pub words: Vec<SearchWord>,
    pub tags: Vec<Tag>,
}

impl View for SearchParams {
    type V = ParamsView;

    open spec fn view(&self) -> ParamsView {
        ParamsView { words: self.words.deep_view(), tags: self.tags.deep_view() }
    }
}

/// One word a search requires to match the description.
#[derive(Debug, PartialEq, Eq)]
pub struct SearchWord(String);

impl View for SearchWord {
    type V = Seq<char>;

    closed spec fn view(&self) -> Seq<char> {
        self.0@
    }
}

impl DeepView for SearchWord {
    type V = Seq<char>;

    open spec fn deep_view(&self) -> Seq<char> {
        self@
    }
}

impl Clone for SearchWord {
    fn clone(&self) -> (r: Self)
        ensures
            r == *self,
    {
        SearchWord(self.0.clone())
    }
}

impl SearchWord {
    pub fn new(s: &str) -> (r: SearchWord)
        ensures
            r@ == s@,
    {
        SearchWord(s.to_owned())
    }

    pub fn value(&self) -> (r: &str)
        ensures
            r@ == self@,
    {
        &self.0
    }
}

/// The outcome of a query, by variant of the query that produced it.
#[derive(Debug, Clone, PartialEq, Eq)]
pub enum QueryResult {
    Added(TodoItem),
    Done,
    Found(Vec<TodoItem>),
}

/// The one error the store surfaces: a completion failed because the
/// identifier names no task or the task is already done. Carries the textual
/// form of the query that failed.
#[derive(Debug, Clone, PartialEq, Eq)]
pub struct QueryError(pub String);

} // verus!
