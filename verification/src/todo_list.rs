//! The task store: value types, the task aggregate, and the list that owns
//! the tasks, assigns identifiers and runs add / complete / search.

use vstd::prelude::*;
use crate::matching::{check_string_involve, split_tokens, subseq_of, tokens};
use crate::query::{ParamsView, SearchParams};

verus! {

/// A task identifier: assigned in creation order starting at 0, never reused.
#[derive(Debug, Clone, Copy, PartialEq, Eq)]
pub struct Index(u64);

impl View for Index {
    type V = int;

    closed spec fn view(&self) -> int {
        self.0 as int
    }
}

impl Index {
    pub fn new(i: u64) -> (r: Index)
        ensures
            r@ == i as int,
    {
        Index(i)
    }

    pub fn value(&self) -> (r: u64)
        ensures
            r as int == self@,
    {
        self.0
    }
}

/// The free-form text of a task, immutable after creation.
#[derive(Debug, PartialEq, Eq)]
pub struct Description(String);

impl View for Description {
    type V = Seq<char>;

    closed spec fn view(&self) -> Seq<char> {
        self.0@
    }
}

impl Clone for Description {
    fn clone(&self) -> (r: Self)
        ensures
            r == *self,
    {
        Description(self.0.clone())
    }
}

impl Description {
    pub fn new(s: &str) -> (r: Description)
        ensures
            r@ == s@,
    {
        Description(s.to_owned())
    }

    pub fn value(&self) -> (r: &str)
        ensures
            r@ == self@,
    {
        &self.0
    }
}

/// A short text label; a task holds zero or more, in insertion order,
/// duplicates permitted.
#[derive(Debug, PartialEq, Eq)]
pub struct Tag(String);

impl View for Tag {
    type V = Seq<char>;

    closed spec fn view(&self) -> Seq<char> {
        self.0@
    }
}

impl DeepView for Tag {
    type V = Seq<char>;

    open spec fn deep_view(&self) -> Seq<char> {
        self@
    }
}

impl Clone for Tag {
    fn clone(&self) -> (r: Self)
        ensures
            r == *self,
    {
        Tag(self.0.clone())
    }
}

impl Tag {
    pub fn new(s: &str) -> (r: Tag)
        ensures
            r@ == s@,
    {
        Tag(s.to_owned())
    }

    pub fn value(&self) -> (r: &str)
        ensures
            r@ == self@,
    {
        &self.0
    }

    pub fn from_strings(ss: Vec<&str>) -> (r: Vec<Tag>)
        ensures
            r.deep_view() == ss.deep_view(),
    {
        let mut r: Vec<Tag> = Vec::new();
        let n = ss.len();
        let mut i: usize = 0;
        while i < n
            invariant
                i <= n,
                n == ss@.len(),
                r@.len() == i as int,
                forall|j: int| 0 <= j < i ==> (#[trigger] r@[j])@ == ss@[j]@,
            decreases n - i,
        {
            r.push(Tag::new(ss[i]));
            i += 1;
        }
        proof {
            assert(r.deep_view() =~= ss.deep_view());
        }
        r
    }
}

/// The mathematical value of a task.
#[verifier::ext_equal]
pub ghost struct ItemView {
    pub index: int,
    pub description: Seq<char>,
    pub tags: Seq<Seq<char>>,
    pub done: bool,
}

/// One tracked task: identifier, description, tags and the done flag.
#[derive(Debug, PartialEq, Eq)]
pub struct TodoItem {
    pub index: Index,
    pub description: Description,
    pub tags: Vec<Tag>,
    pub done: bool,
}

impl View for TodoItem {
    type V = ItemView;

    open spec fn view(&self) -> ItemView {
        ItemView {
            index: self.index@,
            description: self.description@,
            tags: self.tags.deep_view(),
            done: self.done,
        }
    }
}

impl DeepView for TodoItem {
    type V = ItemView;

    open spec fn deep_view(&self) -> ItemView {
        self@
    }
}

impl Clone for TodoItem {
    fn clone(&self) -> (r: Self)
        ensures
            r@ == self@,
    {
        let r = TodoItem {
            index: self.index,
            description: self.description.clone(),
            tags: self.tags.clone(),
            done: self.done,
        };
        proof {
            assert(r.tags.deep_view() =~= self.tags.deep_view());
        }
        r
    }
}

impl TodoItem {
    pub fn new(index: Index, description: Description, tags: Vec<Tag>, done: bool) -> (r:
        TodoItem)
        ensures
            r@ == (ItemView {
                index: index@,
                description: description@,
                tags: tags.deep_view(),
                done,
            }),
    {
        TodoItem { index, description, tags, done }
    }
}

/// The store: an ordered sequence of tasks (creation order, never reordered
/// or removed) plus the next identifier to assign.
#[derive(Debug, PartialEq, Eq)]
pub struct TodoList {
    top_index: Index,
    items: Vec<TodoItem>,
}

impl View for TodoList {
    type V = Seq<ItemView>;

    closed spec fn view(&self) -> Seq<ItemView> {
        self.items.deep_view()
    }
}

impl Clone for TodoList {
    fn clone(&self) -> (r: Self)
        ensures
            r@ == self@,
            r.next_index() == self.next_index(),
    {
        let r = TodoList { top_index: self.top_index, items: self.items.clone() };
        proof {
            assert(r@ =~= self@);
        }
        r
    }
}

/// Identifiers equal positions: the store never deletes, so the task with
/// identifier `i` sits at position `i`.
pub open spec fn indices_are_positions(tasks: Seq<ItemView>) -> bool {
    forall|i: int| 0 <= i < tasks.len() ==> #[trigger] tasks[i].index == i
}

/// The task appended by an add on a store holding `tasks`.
pub open spec fn added_item(tasks: Seq<ItemView>, description: Seq<char>, tags: Seq<Seq<char>>) -> ItemView {
    ItemView { index: tasks.len() as int, description, tags, done: false }
}

/// The store contents after an add.
pub open spec fn add_result(tasks: Seq<ItemView>, description: Seq<char>, tags: Seq<Seq<char>>) -> Seq<ItemView> {
    tasks.push(added_item(tasks, description, tags))
}

/// A completion succeeds exactly when the identifier names a task that is not
/// yet done.
pub open spec fn complete_succeeds(tasks: Seq<ItemView>, idx: int) -> bool {
    0 <= idx < tasks.len() && !tasks[idx].done
}

/// The store contents after a successful completion.
pub open spec fn complete_result(tasks: Seq<ItemView>, idx: int) -> Seq<ItemView> {
    tasks.update(
        idx,
        ItemView {
            index: tasks[idx].index,
            description: tasks[idx].description,
            tags: tasks[idx].tags,
            done: true,
        },
    )
}

/// Some word in `texts` is matched by `pattern`.
pub open spec fn any_hit(pattern: Seq<char>, texts: Seq<Seq<char>>) -> bool {
    exists|i: int| 0 <= i < texts.len() && subseq_of(pattern, #[trigger] texts[i])
}

/// A task is returned by a search: it is not done, every required word
/// matches some whitespace-delimited word of the description, and every
/// required tag matches some tag of the task.
pub open spec fn item_matches(task: ItemView, sp: ParamsView) -> bool {
    &&& !task.done
    &&& forall|k: int|
        0 <= k < sp.words.len() ==> any_hit(#[trigger] sp.words[k], tokens(task.description))
    &&& forall|k: int| 0 <= k < sp.tags.len() ==> any_hit(#[trigger] sp.tags[k], task.tags)
}

/// The tasks a search returns: the matching tasks, in creation order.
pub open spec fn search_result(tasks: Seq<ItemView>, sp: ParamsView) -> Seq<ItemView> {
    tasks.filter(|task: ItemView| item_matches(task, sp))
}

impl TodoList {
    /// The identifier the next add will assign.
    pub closed spec fn next_index(&self) -> int {
        self.top_index@
    }

    /// Well-formed store: the counter equals the number of tasks ever added,
    /// and identifiers equal positions.
    pub open spec fn wf(&self) -> bool {
        &&& self.next_index() == self@.len()
        &&& indices_are_positions(self@)
    }

    /// An empty store.
    pub fn new() -> (r: TodoList)
        ensures
            r.wf(),
            r@ == Seq::<ItemView>::empty(),
    {
        let r = TodoList { top_index: Index::new(0), items: Vec::new() };
        proof {
            assert(r@ =~= Seq::<ItemView>::empty());
        }
        r
    }

    /// Adds a task: assigns the next identifier, appends the task with
    /// `done == false`, increments the counter, and returns the new task.
    pub fn push(&mut self, description: Description, tags: Vec<Tag>) -> (r: TodoItem)
        requires
            old(self).wf(),
            old(self)@.len() < u64::MAX,
        ensures
            final(self).wf(),
            r@ == added_item(old(self)@, description@, tags.deep_view()),
            final(self)@ == add_result(old(self)@, description@, tags.deep_view()),
    {
        let newitem = TodoItem {
            index: Index::new(self.top_index.value()),
            description,
            tags,
            done: false,
        };
        let ret = newitem.clone();
        self.items.push(newitem);
        self.top_index = Index::new(self.top_index.value() + 1);
        proof {
            assert(self@ =~= add_result(old(self)@, ret@.description, ret@.tags));
        }
        ret
    }

    /// Marks the task with the given identifier done. Fails — returning
    /// `None` and leaving the store unchanged — when no task has that
    /// identifier or the task is already done; otherwise returns the position
    /// of the task, which by well-formedness equals the identifier.
    pub fn done_with_index(&mut self, idx: Index) -> (r: Option<Index>)
        requires
            old(self).wf(),
        ensures
            final(self).wf(),
            complete_succeeds(old(self)@, idx@) ==> r == Some(idx) && final(self)@
                == complete_result(old(self)@, idx@),
            !complete_succeeds(old(self)@, idx@) ==> r is None && *final(self) == *old(self),
    {
        let n = self.items.len();
        let mut pos: usize = 0;
        while pos < n
            invariant
                pos <= n,
                n == self@.len(),
                *self == *old(self),
                old(self).wf(),
                forall|k: int| 0 <= k < pos ==> #[trigger] self@[k].index != idx@,
            decreases n - pos,
        {
            if self.items[pos].index.value() == idx.value() {
                proof {
                    assert(self@[pos as int].index == pos as int);
                }
                if self.items[pos].done {
                    return None;
                }
                let updated = TodoItem {
                    index: self.items[pos].index,
                    description: self.items[pos].description.clone(),
                    tags: self.items[pos].tags.clone(),
                    done: true,
                };
                proof {
                    assert(updated.tags.deep_view() =~= self.items[pos as int].tags.deep_view());
                }
                self.items[pos] = updated;
                proof {
                    assert(self@ =~= complete_result(old(self)@, idx@));
                }
                return Some(Index::new(pos as u64));
            }
            pos += 1;
        }
        proof {
            if 0 <= idx@ < old(self)@.len() {
                assert(old(self)@[idx@].index == idx@);
            }
        }
        None
    }

    /// Returns the tasks matched by the given parameters, in creation order:
    /// the tasks that are not done, every required word matching some
    /// whitespace-delimited word of the description and every required tag
    /// matching some tag, by subsequence matching.
    pub fn search(&self, sp: SearchParams) -> (r: Vec<TodoItem>)
        ensures
            r.deep_view() == search_result(self@, sp@),
    {
        let mut result: Vec<TodoItem> = Vec::new();
        let n = self.items.len();
        let mut i: usize = 0;
        proof {
            assert(self@.take(0) =~= Seq::<ItemView>::empty());
            reveal_with_fuel(Seq::<_>::filter, 2);
            assert(result.deep_view() =~= search_result(self@.take(0), sp@));
        }
        while i < n
            invariant
                i <= n,
                n == self@.len(),
                result.deep_view() == search_result(self@.take(i as int), sp@),
            decreases n - i,
        {
            let item = &self.items[i];
            let ghost old_r = result.deep_view();
            if item_matches_exec(item, &sp) {
                result.push(item.clone());
                proof {
                    assert(result.deep_view() =~= old_r.push(self@[i as int]));
                }
            }
            proof {
                reveal_with_fuel(Seq::<_>::filter, 2);
                assert(self@.take(i + 1).drop_last() =~= self@.take(i as int));
                assert(self@.take(i + 1).last() == self@[i as int]);
            }
            i += 1;
        }
        proof {
            assert(self@.take(n as int) =~= self@);
        }
        result
    }
}

/// Identifier monotonicity: an add assigns the identifier equal to the number
/// of tasks ever added and appends one task, while a completion neither adds
/// nor removes tasks; so any sequence of N adds — with completions and
/// searches in between — is assigned exactly the identifiers 0, 1, …, N-1,
/// in call order.
pub proof fn lemma_identifier_monotonicity(
    tasks: Seq<ItemView>,
    description: Seq<char>,
    tags: Seq<Seq<char>>,
    idx: int,
)
    ensures
        added_item(tasks, description, tags).index == tasks.len(),
        add_result(tasks, description, tags).len() == tasks.len() + 1,
        complete_succeeds(tasks, idx) ==> complete_result(tasks, idx).len() == tasks.len(),
{
}

/// Identifiers are strictly increasing in sequence order: tasks are assigned
/// monotonically and never deleted.
pub proof fn lemma_identifiers_strictly_increasing(tasks: Seq<ItemView>, i: int, j: int)
    requires
        indices_are_positions(tasks),
        0 <= i < j < tasks.len(),
    ensures
        tasks[i].index < tasks[j].index,
{
}

/// Completion idempotence: completion succeeds at most once per identifier —
/// after a successful completion of `idx`, a second completion of `idx`
/// fails.
pub proof fn lemma_complete_at_most_once(tasks: Seq<ItemView>, idx: int)
    requires
        complete_succeeds(tasks, idx),
    ensures
        !complete_succeeds(complete_result(tasks, idx), idx),
{
}

/// Every task a search returns is a task of the store.
proof fn lemma_search_result_members(tasks: Seq<ItemView>, sp: ParamsView)
    ensures
        forall|j: int|
            0 <= j < search_result(tasks, sp).len() ==> tasks.contains(
                #[trigger] search_result(tasks, sp)[j],
            ),
    decreases tasks.len(),
{
    reveal_with_fuel(Seq::<_>::filter, 2);
    if tasks.len() == 0 {
    } else {
        lemma_search_result_members(tasks.drop_last(), sp);
        let prefix = search_result(tasks.drop_last(), sp);
        let whole = search_result(tasks, sp);
        assert forall|j: int| 0 <= j < whole.len() implies tasks.contains(whole[j]) by {
            if j < prefix.len() {
                assert(tasks.drop_last().contains(prefix[j]));
                let i = choose|i: int|
                    0 <= i < tasks.drop_last().len() && tasks.drop_last()[i] == prefix[j];
                assert(tasks[i] == whole[j]);
            } else {
                assert(whole[j] == tasks.last());
                assert(tasks[tasks.len() - 1] == whole[j]);
            }
        }
    }
}

/// Search excludes done tasks: after a completion of `idx` succeeds, no
/// search — with any parameters — returns the task with that identifier.
pub proof fn lemma_search_excludes_completed(tasks: Seq<ItemView>, idx: int, sp: ParamsView)
    requires
        indices_are_positions(tasks),
        complete_succeeds(tasks, idx),
    ensures
        forall|j: int|
            0 <= j < search_result(complete_result(tasks, idx), sp).len() ==> (
            #[trigger] search_result(complete_result(tasks, idx), sp)[j]).index != idx,
{
    broadcast use vstd::seq_lib::group_filter_ensures;

    let after = complete_result(tasks, idx);
    let res = search_result(after, sp);
    lemma_search_result_members(after, sp);
    assert forall|j: int| 0 <= j < res.len() implies res[j].index != idx by {
        assert(item_matches(res[j], sp));
        assert(after.contains(res[j]));
        let i = choose|i: int| 0 <= i < after.len() && after[i] == res[j];
        if i == idx {
            assert(after[idx].done);
        } else {
            assert(tasks[i].index == i);
            assert(after[i] == tasks[i]);
        }
    }
}

/// A search with empty parameters returns exactly the tasks that are not
/// done, in creation order.
pub proof fn lemma_search_empty_params(tasks: Seq<ItemView>)
    ensures
        search_result(tasks, ParamsView { words: Seq::empty(), tags: Seq::empty() })
            == tasks.filter(|task: ItemView| !task.done),
    decreases tasks.len(),
{
    reveal_with_fuel(Seq::<_>::filter, 2);
    let sp = ParamsView { words: Seq::empty(), tags: Seq::empty() };
    if tasks.len() == 0 {
        assert(search_result(tasks, sp) =~= tasks.filter(|task: ItemView| !task.done));
    } else {
        lemma_search_empty_params(tasks.drop_last());
        assert(item_matches(tasks.last(), sp) == !tasks.last().done);
    }
}

/// Decides `any_hit` over the words of a description.
fn any_token_hit(pattern: &str, texts: &Vec<String>) -> (r: bool)
    ensures
        r == any_hit(pattern@, texts.deep_view()),
{
    let n = texts.len();
    let mut i: usize = 0;
    while i < n
        invariant
            i <= n,
            n == texts@.len(),
            forall|k: int| 0 <= k < i ==> !subseq_of(pattern@, #[trigger] texts.deep_view()[k]),
        decreases n - i,
    {
        proof {
            assert(texts.deep_view()[i as int] == texts@[i as int]@);
        }
        if check_string_involve(pattern, texts[i].as_str()) {
            proof {
                assert(any_hit(pattern@, texts.deep_view()));
            }
            return true;
        }
        i += 1;
    }
    false
}

/// Decides `any_hit` over the tags of a task.
fn any_tag_hit(pattern: &str, tags: &Vec<Tag>) -> (r: bool)
    ensures
        r == any_hit(pattern@, tags.deep_view()),
{
    let n = tags.len();
    let mut i: usize = 0;
    while i < n
        invariant
            i <= n,
            n == tags@.len(),
            forall|k: int| 0 <= k < i ==> !subseq_of(pattern@, #[trigger] tags.deep_view()[k]),
        decreases n - i,
    {
        proof {
            assert(tags.deep_view()[i as int] == tags@[i as int]@);
        }
        if check_string_involve(pattern, tags[i].value()) {
            proof {
                assert(any_hit(pattern@, tags.deep_view()));
            }
            return true;
        }
        i += 1;
    }
    false
}

/// Decides `item_matches`.
fn item_matches_exec(item: &TodoItem, sp: &SearchParams) -> (r: bool)
    ensures
        r == item_matches(item@, sp@),
{
    if item.done {
        return false;
    }
    let toks = split_tokens(item.description.value());
    let nw = sp.words.len();
    let mut k: usize = 0;
    while k < nw
        invariant
            k <= nw,
            nw == sp.words@.len(),
            toks.deep_view() == tokens(item@.description),
            forall|j: int| 0 <= j < k ==> any_hit(#[trigger] sp@.words[j], tokens(item@.description)),
        decreases nw - k,
    {
        proof {
            assert(sp@.words[k as int] == sp.words@[k as int]@);
        }
        if !any_token_hit(sp.words[k].value(), &toks) {
            return false;
        }
        k += 1;
    }
    let nt = sp.tags.len();
    let mut k: usize = 0;
    while k < nt
        invariant
            k <= nt,
            nt == sp.tags@.len(),
            forall|j: int| 0 <= j < k ==> any_hit(#[trigger] sp@.tags[j], item@.tags),
        decreases nt - k,
    {
        proof {
            assert(sp@.tags[k as int] == sp.tags@[k as int]@);
            assert(item@.tags =~= item.tags.deep_view());
        }
        if !any_tag_hit(sp.tags[k].value(), &item.tags) {
            return false;
        }
        k += 1;
    }
    true
}

} // verus!
