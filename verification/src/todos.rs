//! The in-memory todo store and its management operations.

use vstd::prelude::*;
use vstd::string::StringExecFns;
use crate::errors::ApiError;
use crate::views::{
    render_count, render_item_with_count, render_list, render_remaining_todos,
    render_todo_item_with_count, render_todo_list,
};

verus! {

/// The mathematical model of one task: its identifier, its description and
/// its completion flag, as plain sequences of characters and a boolean.
pub ghost struct TodoView {
    pub id: Seq<char>,
    pub text: Seq<char>,
    pub done: bool,
}

/// One task record: an opaque unique textual identifier fixed at creation,
/// free-form description text, and a completion flag.
pub struct Todo {
    pub id: String,
    pub text: String,
    pub done: bool,
}

impl View for Todo {
    type V = TodoView;

    open spec fn view(&self) -> TodoView {
        TodoView { id: self.id@, text: self.text@, done: self.done }
    }
}

impl Clone for Todo {
    fn clone(&self) -> (r: Todo)
        ensures
            r@ == self@,
    {
        Todo { id: self.id.clone(), text: self.text.clone(), done: self.done }
    }
}

/// The models of a sequence of records.
pub open spec fn views_of(s: Seq<Todo>) -> Seq<TodoView> {
    s.map_values(|t: Todo| t@)
}

/// The same record with its completion flag flipped.
pub open spec fn flip_done(t: TodoView) -> TodoView {
    TodoView { id: t.id, text: t.text, done: !t.done }
}

/// The same record with its description replaced; identifier and completion
/// flag are untouched.
pub open spec fn with_text(t: TodoView, text: Seq<char>) -> TodoView {
    TodoView { id: t.id, text: text, done: t.done }
}

/// How many records are not yet done: the remaining count.
pub open spec fn count_active(s: Seq<TodoView>) -> nat
    decreases s.len(),
{
    if s.len() == 0 {
        0
    } else {
        count_active(s.drop_last()) + if s.last().done {
            0nat
        } else {
            1nat
        }
    }
}

/// The index of the first record with the given id, or -1 if there is none.
pub open spec fn find_index(s: Seq<TodoView>, id: Seq<char>) -> int
    decreases s.len(),
{
    if s.len() == 0 {
        -1
    } else if s[0].id == id {
        0
    } else {
        let r = find_index(s.drop_first(), id);
        if r < 0 {
            -1
        } else {
            r + 1
        }
    }
}

/// The sequence with every record carrying the given id removed; the order
/// of the others is kept.
pub open spec fn without_id(s: Seq<TodoView>, id: Seq<char>) -> Seq<TodoView>
    decreases s.len(),
{
    if s.len() == 0 {
        s
    } else {
        let rest = without_id(s.drop_last(), id);
        if s.last().id == id {
            rest
        } else {
            rest.push(s.last())
        }
    }
}

/// The sequence with every completed record removed; the order of the
/// surviving records is kept.
pub open spec fn without_done(s: Seq<TodoView>) -> Seq<TodoView>
    decreases s.len(),
{
    if s.len() == 0 {
        s
    } else {
        let rest = without_done(s.drop_last());
        if s.last().done {
            rest
        } else {
            rest.push(s.last())
        }
    }
}

/// What `find_index` says of a sequence: it is -1 exactly when no record
/// carries the id, and otherwise it is the first index that does.
pub proof fn lemma_find_index(s: Seq<TodoView>, id: Seq<char>)
    ensures
        -1 <= find_index(s, id) < s.len(),
        find_index(s, id) == -1 <==> (forall|j: int| 0 <= j < s.len() ==> s[j].id != id),
        find_index(s, id) >= 0 ==> s[find_index(s, id)].id == id,
        forall|j: int| 0 <= j < find_index(s, id) ==> s[j].id != id,
    decreases s.len(),
{
    if s.len() > 0 && s[0].id != id {
        lemma_find_index(s.drop_first(), id);
        assert forall|j: int| 0 <= j < s.len() && s[j].id == id implies find_index(s, id) >= 0 by {
            if j > 0 {
                assert(s.drop_first()[j - 1].id == id);
            }
        }
        assert forall|j: int| 0 <= j < find_index(s, id) implies s[j].id != id by {
            if j > 0 {
                assert(s[j] == s.drop_first()[j - 1]);
            }
        }
    }
}

/// Relies on uuid::Uuid::new_v4 and its display form: a fresh random
/// 128-bit identifier rendered as canonical hyphenated lowercase
/// hexadecimal text, which is always 36 characters long.
#[verifier::external_body]
fn fresh_id() -> (r: String)
    ensures
        r@.len() == 36,
{
    uuid::Uuid::new_v4().to_string()
}

/// The ordered in-memory collection of all todo records, insertion order
/// preserved. Its model is the sequence of the records' models.
pub struct TodoStore {
    todos: Vec<Todo>,
}

impl View for TodoStore {
    type V = Seq<TodoView>;

    closed spec fn view(&self) -> Seq<TodoView> {
        views_of(self.todos@)
    }
}

impl TodoStore {
    /// The store as it stands at process start: exactly the two seed
    /// entries, "Learn React" still open and "Learn Vim" already done,
    /// each under a fresh identifier.
    pub fn seed() -> (s: TodoStore)
        ensures
            s@.len() == 2,
            s@[0].text == "Learn React"@ && s@[0].done == false && s@[0].id.len() == 36,
            s@[1].text == "Learn Vim"@ && s@[1].done == true && s@[1].id.len() == 36,
    {
        let mut todos: Vec<Todo> = Vec::new();
        todos.push(Todo { id: fresh_id(), text: "Learn React".to_owned(), done: false });
        todos.push(Todo { id: fresh_id(), text: "Learn Vim".to_owned(), done: true });
        TodoStore { todos }
    }

    /// An empty store, for callers that want to start from nothing.
    pub fn new() -> (s: TodoStore)
        ensures
            s@ =~= Seq::<TodoView>::empty(),
    {
        TodoStore { todos: Vec::new() }
    }

    /// How many records the store holds.
    pub fn len(&self) -> (r: usize)
        ensures
            r == self@.len(),
    {
        self.todos.len()
    }

    /// The record at a position, in store order.
    pub fn get(&self, i: usize) -> (r: &Todo)
        requires
            i < self@.len(),
        ensures
            r@ == self@[i as int],
    {
        &self.todos[i]
    }

    /// The remaining count: how many records are not yet done, recomputed
    /// fresh from the current records.
    pub fn remaining(&self) -> (r: usize)
        ensures
            r as nat == count_active(self@),
    {
        let mut count: usize = 0;
        let mut i: usize = 0;
        while i < self.todos.len()
            invariant
                i <= self.todos.len(),
                count <= i,
                count as nat == count_active(views_of(self.todos@).take(i as int)),
            decreases self.todos.len() - i,
        {
            let active = !self.todos[i].done;
            proof {
                let vs = views_of(self.todos@);
                assert(vs.take(i + 1).drop_last() =~= vs.take(i as int));
            }
            if active {
                count = count + 1;
            }
            i = i + 1;
        }
        proof {
            assert(views_of(self.todos@).take(self.todos@.len() as int) =~= views_of(self.todos@));
        }
        count
    }

    /// Appends a new record with the given description, a fresh identifier
    /// and the completion flag cleared, and returns a copy of it.
    pub fn create(&mut self, text: String) -> (r: Todo)
        ensures
            final(self)@ == old(self)@.push(r@),
            r@.text == text@,
            r@.done == false,
            r@.id.len() == 36,
    {
        let t = Todo { id: fresh_id(), text, done: false };
        let r = t.clone();
        self.todos.push(t);
        proof {
            assert(views_of(self.todos@) =~= views_of(old(self).todos@).push(r@));
        }
        r
    }

    /// Flips the completion flag of the first record with the given id and
    /// returns a copy of the flipped record; leaves the store untouched and
    /// returns nothing when no record carries the id.
    pub fn toggle(&mut self, id: &str) -> (r: Option<Todo>)
        ensures
            ({
                let f = find_index(old(self)@, id@);
                &&& f < 0 ==> r is None && final(self)@ == old(self)@
                &&& f >= 0 ==> {
                    &&& final(self)@ == old(self)@.update(f, flip_done(old(self)@[f]))
                    &&& r matches Some(t) && t@ == flip_done(old(self)@[f])
                }
            }),
    {
        let key = id.to_owned();
        let ghost vs = views_of(old(self).todos@);
        let mut i: usize = 0;
        while i < self.todos.len()
            invariant
                i <= self.todos.len(),
                self.todos@ == old(self).todos@,
                vs == views_of(old(self).todos@),
                key@ == id@,
                forall|j: int| 0 <= j < i ==> vs[j].id != id@,
            decreases self.todos.len() - i,
        {
            if self.todos[i].id == key {
                proof {
                    lemma_find_index(vs, id@);
                    assert(vs[i as int].id == id@);
                    let f = find_index(vs, id@);
                    assert(f >= 0);
                    if 0 <= f < i as int {
                        assert(vs[f].id != id@);
                    }
                    assert(f == i as int);
                }
                let flipped = !self.todos[i].done;
                self.todos[i].done = flipped;
                let t = self.todos[i].clone();
                proof {
                    assert(views_of(self.todos@) =~= vs.update(
                        i as int,
                        flip_done(vs[i as int]),
                    ));
                }
                return Some(t);
            }
            i = i + 1;
        }
        proof {
            lemma_find_index(vs, id@);
        }
        None
    }

    /// Replaces the description of the first record with the given id and
    /// returns a copy of the edited record; its identifier and completion
    /// flag are unchanged, as is every other record. Leaves the store
    /// untouched and returns nothing when no record carries the id.
    pub fn edit(&mut self, id: &str, text: String) -> (r: Option<Todo>)
        ensures
            ({
                let f = find_index(old(self)@, id@);
                &&& f < 0 ==> r is None && final(self)@ == old(self)@
                &&& f >= 0 ==> {
                    &&& final(self)@ == old(self)@.update(f, with_text(old(self)@[f], text@))
                    &&& r matches Some(t) && t@ == with_text(old(self)@[f], text@)
                }
            }),
    {
        let key = id.to_owned();
        let ghost vs = views_of(old(self).todos@);
        let mut i: usize = 0;
        while i < self.todos.len()
            invariant
                i <= self.todos.len(),
                self.todos@ == old(self).todos@,
                vs == views_of(old(self).todos@),
                key@ == id@,
                forall|j: int| 0 <= j < i ==> vs[j].id != id@,
            decreases self.todos.len() - i,
        {
            if self.todos[i].id == key {
                proof {
                    lemma_find_index(vs, id@);
                    assert(vs[i as int].id == id@);
                    let f = find_index(vs, id@);
                    assert(f >= 0);
                    if 0 <= f < i as int {
                        assert(vs[f].id != id@);
                    }
                    assert(f == i as int);
                }
                self.todos[i].text = text;
                let t = self.todos[i].clone();
                proof {
                    assert(views_of(self.todos@) =~= vs.update(
                        i as int,
                        with_text(vs[i as int], t@.text),
                    ));
                }
                return Some(t);
            }
            i = i + 1;
        }
        proof {
            lemma_find_index(vs, id@);
        }
        None
    }

    /// Removes every record with the given id, keeping the order of the
    /// rest, and reports whether anything was removed. When no record
    /// carries the id the store is unchanged.
    pub fn delete(&mut self, id: &str) -> (found: bool)
        ensures
            final(self)@ == without_id(old(self)@, id@),
            found <==> find_index(old(self)@, id@) >= 0,
            !found ==> final(self)@ == old(self)@,
    {
        let key = id.to_owned();
        let ghost vs = views_of(old(self).todos@);
        let mut kept: Vec<Todo> = Vec::new();
        let mut found = false;
        let mut i: usize = 0;
        while i < self.todos.len()
            invariant
                i <= self.todos.len(),
                self.todos@ == old(self).todos@,
                vs == views_of(old(self).todos@),
                key@ == id@,
                views_of(kept@) == without_id(vs.take(i as int), id@),
                found <==> exists|j: int| 0 <= j < i && vs[j].id == id@,
            decreases self.todos.len() - i,
        {
            proof {
                assert(vs.take(i + 1).drop_last() =~= vs.take(i as int));
            }
            if self.todos[i].id == key {
                found = true;
                proof {
                    assert(vs[i as int].id == id@);
                }
            } else {
                kept.push(self.todos[i].clone());
                proof {
                    assert(vs[i as int].id != id@);
                    assert(views_of(kept@) =~= without_id(vs.take(i + 1), id@));
                }
            }
            i = i + 1;
        }
        proof {
            assert(vs.take(vs.len() as int) =~= vs);
            lemma_find_index(vs, id@);
        }
        self.todos = kept;
        if !found {
            proof {
                lemma_without_id_absent(vs, id@);
            }
        }
        found
    }

    /// Removes all and only the completed records; the relative order of
    /// the surviving records is unchanged.
    pub fn clear_done(&mut self)
        ensures
            final(self)@ == without_done(old(self)@),
    {
        let ghost vs = views_of(old(self).todos@);
        let mut kept: Vec<Todo> = Vec::new();
        let mut i: usize = 0;
        while i < self.todos.len()
            invariant
                i <= self.todos.len(),
                self.todos@ == old(self).todos@,
                vs == views_of(old(self).todos@),
                views_of(kept@) == without_done(vs.take(i as int)),
            decreases self.todos.len() - i,
        {
            proof {
                assert(vs.take(i + 1).drop_last() =~= vs.take(i as int));
            }
            if !self.todos[i].done {
                kept.push(self.todos[i].clone());
                proof {
                    assert(views_of(kept@) =~= without_done(vs.take(i + 1)));
                }
            }
            i = i + 1;
        }
        proof {
            assert(vs.take(vs.len() as int) =~= vs);
        }
        self.todos = kept;
    }
}

/// Lists all records in store order as a full-list fragment, together with
/// the remaining count at the moment the response is produced.
pub fn get_todos(store: &TodoStore) -> (r: String)
    ensures
        r@ == render_list(store@, count_active(store@)),
{
    let remaining = store.remaining();
    render_todo_list(&store.todos, remaining)
}

/// Creates a todo with the given text: a record with a fresh identifier and
/// the completion flag cleared is appended to the store, and its single-item
/// fragment is returned with the remaining count at the moment the response
/// is produced.
pub fn create_todo(store: &mut TodoStore, text: String) -> (r: String)
    ensures
        final(store)@.len() == old(store)@.len() + 1,
        final(store)@.drop_last() == old(store)@,
        final(store)@.last().text == text@,
        final(store)@.last().done == false,
        final(store)@.last().id.len() == 36,
        r@ == render_item_with_count(final(store)@.last(), count_active(final(store)@)),
{
    let t = store.create(text);
    proof {
        assert(store@.drop_last() =~= old(store)@);
    }
    let remaining = store.remaining();
    render_todo_item_with_count(&t, remaining)
}

/// Flips the completion flag of the first record with the given id and
/// returns its single-item fragment with the remaining count computed after
/// the flip; when no record carries the id the store is unchanged and the
/// not-found error naming the id is returned.
pub fn toggle_todo(store: &mut TodoStore, id: &str) -> (r: Result<String, ApiError>)
    ensures
        ({
            let f = find_index(old(store)@, id@);
            &&& f < 0 ==> final(store)@ == old(store)@ && (r matches Err(e) && (e matches
                ApiError::TodoNotFound(m) && m@ == id@))
            &&& f >= 0 ==> {
                &&& final(store)@ == old(store)@.update(f, flip_done(old(store)@[f]))
                &&& (r matches Ok(b) && b@ == render_item_with_count(
                    flip_done(old(store)@[f]),
                    count_active(final(store)@),
                ))
            }
        }),
{
    match store.toggle(id) {
        Some(t) => {
            let remaining = store.remaining();
            Ok(render_todo_item_with_count(&t, remaining))
        },
        None => Err(ApiError::TodoNotFound(id.to_owned())),
    }
}

/// Removes the records with the given id and returns the remaining-count
/// fragment computed after the removal; when no record carries the id the
/// store is unchanged and the not-found error naming the id is returned.
pub fn delete_todo(store: &mut TodoStore, id: &str) -> (r: Result<String, ApiError>)
    ensures
        ({
            let f = find_index(old(store)@, id@);
            &&& f < 0 ==> final(store)@ == old(store)@ && (r matches Err(e) && (e matches
                ApiError::TodoNotFound(m) && m@ == id@))
            &&& f >= 0 ==> {
                &&& final(store)@ == without_id(old(store)@, id@)
                &&& (r matches Ok(b) && b@ == render_count(count_active(final(store)@)))
            }
        }),
{
    let found = store.delete(id);
    if found {
        let remaining = store.remaining();
        Ok(render_remaining_todos(remaining))
    } else {
        Err(ApiError::TodoNotFound(id.to_owned()))
    }
}

/// Replaces the text of the first record with the given id — its identifier
/// and completion flag are untouched — and returns its single-item fragment
/// with the remaining count, which an edit never changes; when no record
/// carries the id the store is unchanged and the not-found error naming the
/// id is returned.
pub fn edit_todo(store: &mut TodoStore, id: &str, text: String) -> (r: Result<String, ApiError>)
    ensures
        ({
            let f = find_index(old(store)@, id@);
            &&& f < 0 ==> final(store)@ == old(store)@ && (r matches Err(e) && (e matches
                ApiError::TodoNotFound(m) && m@ == id@))
            &&& f >= 0 ==> {
                &&& final(store)@ == old(store)@.update(f, with_text(old(store)@[f], text@))
                &&& (r matches Ok(b) && b@ == render_item_with_count(
                    with_text(old(store)@[f], text@),
                    count_active(final(store)@),
                ))
            }
        }),
{
    match store.edit(id, text) {
        Some(t) => {
            let remaining = store.remaining();
            Ok(render_todo_item_with_count(&t, remaining))
        },
        None => Err(ApiError::TodoNotFound(id.to_owned())),
    }
}

/// Removes all and only the completed records, keeping the order of the
/// rest, and returns the full-list fragment of what survives with the
/// remaining count at the moment the response is produced.
pub fn clear_completed(store: &mut TodoStore) -> (r: String)
    ensures
        final(store)@ == without_done(old(store)@),
        r@ == render_list(final(store)@, count_active(final(store)@)),
{
    store.clear_done();
    let remaining = store.remaining();
    render_todo_list(&store.todos, remaining)
}

/// A sequence in which no record carries the id loses nothing when the
/// records with that id are removed.
pub proof fn lemma_without_id_absent(s: Seq<TodoView>, id: Seq<char>)
    requires
        forall|j: int| 0 <= j < s.len() ==> s[j].id != id,
    ensures
        without_id(s, id) == s,
    decreases s.len(),
{
    if s.len() > 0 {
        assert forall|j: int| 0 <= j < s.drop_last().len() implies s.drop_last()[j].id != id by {
            assert(s.drop_last()[j] == s[j]);
        }
        lemma_without_id_absent(s.drop_last(), id);
        assert(without_id(s, id) =~= s);
    }
}

/// Two sequences whose records carry the same ids position by position
/// agree on where an id first occurs.
pub proof fn lemma_find_index_same_ids(s1: Seq<TodoView>, s2: Seq<TodoView>, id: Seq<char>)
    requires
        s1.len() == s2.len(),
        forall|j: int| 0 <= j < s1.len() ==> s1[j].id == s2[j].id,
    ensures
        find_index(s1, id) == find_index(s2, id),
    decreases s1.len(),
{
    if s1.len() > 0 {
        assert(s1[0].id == s2[0].id);
        assert forall|j: int| 0 <= j < s1.drop_first().len() implies s1.drop_first()[j].id
            == s2.drop_first()[j].id by {
            assert(s1.drop_first()[j] == s1[j + 1]);
            assert(s2.drop_first()[j] == s2[j + 1]);
        }
        lemma_find_index_same_ids(s1.drop_first(), s2.drop_first(), id);
    }
}

/// Law: toggling is its own inverse. When a record with the given id exists,
/// flipping the first such record leaves that id at the same first position,
/// and flipping it a second time returns the store's model to what it was.
pub proof fn lemma_toggle_involutive(s: Seq<TodoView>, id: Seq<char>)
    requires
        find_index(s, id) >= 0,
    ensures
        ({
            let f = find_index(s, id);
            let once = s.update(f, flip_done(s[f]));
            &&& find_index(once, id) == f
            &&& once.update(f, flip_done(once[f])) == s
        }),
{
    let f = find_index(s, id);
    lemma_find_index(s, id);
    let once = s.update(f, flip_done(s[f]));
    lemma_find_index_same_ids(s, once, id);
    assert(once.update(f, flip_done(once[f])) =~= s);
}

/// Every record that survives a clear of the completed ones is active.
pub proof fn lemma_without_done_all_active(s: Seq<TodoView>)
    ensures
        forall|j: int| 0 <= j < without_done(s).len() ==> !without_done(s)[j].done,
    decreases s.len(),
{
    if s.len() > 0 {
        lemma_without_done_all_active(s.drop_last());
        let rest = without_done(s.drop_last());
        if !s.last().done {
            assert forall|j: int| 0 <= j < without_done(s).len() implies !without_done(
                s,
            )[j].done by {
                if j < rest.len() {
                    assert(without_done(s)[j] == rest[j]);
                }
            }
        }
    }
}

/// A sequence with no completed record loses nothing when the completed
/// ones are removed.
pub proof fn lemma_without_done_identity(s: Seq<TodoView>)
    requires
        forall|j: int| 0 <= j < s.len() ==> !s[j].done,
    ensures
        without_done(s) == s,
    decreases s.len(),
{
    if s.len() > 0 {
        assert forall|j: int| 0 <= j < s.drop_last().len() implies !s.drop_last()[j].done by {
            assert(s.drop_last()[j] == s[j]);
        }
        lemma_without_done_identity(s.drop_last());
        assert(without_done(s) =~= s);
    }
}

/// Law: replacing a record's text never changes the remaining count, so it
/// does not matter whether the count answered by an edit is computed before
/// or after the mutation.
pub proof fn lemma_edit_preserves_count(s: Seq<TodoView>, f: int, text: Seq<char>)
    requires
        0 <= f < s.len(),
    ensures
        count_active(s.update(f, with_text(s[f], text))) == count_active(s),
    decreases s.len(),
{
    let s1 = s.update(f, with_text(s[f], text));
    if f == s.len() - 1 {
        assert(s1.drop_last() =~= s.drop_last());
    } else {
        assert(s1.drop_last() =~= s.drop_last().update(f, with_text(s.drop_last()[f], text)));
        lemma_edit_preserves_count(s.drop_last(), f, text);
    }
}

/// Law: clearing completed records is idempotent. A second clear right
/// after a first one removes nothing further.
pub proof fn lemma_clear_completed_idempotent(s: Seq<TodoView>)
    ensures
        without_done(without_done(s)) == without_done(s),
{
    lemma_without_done_all_active(s);
    lemma_without_done_identity(without_done(s));
}

} // verus!
