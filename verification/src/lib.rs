//! An in-memory task tracker: tasks are added with a description and tags,
//! marked done at most once, and searched by fuzzy subsequence matching on
//! description words and tags.

pub mod matching;
pub mod query;
pub mod runner;
pub mod todo_list;

pub use matching::check_string_involve;
pub use query::Query;
pub use query::QueryError;
pub use query::QueryResult;
pub use query::SearchParams;
pub use query::SearchWord;
pub use runner::run_query;
pub use todo_list::Description;
pub use todo_list::Index;
pub use todo_list::Tag;
pub use todo_list::TodoItem;
pub use todo_list::TodoList;
