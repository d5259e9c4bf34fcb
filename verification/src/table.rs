use indexmap::IndexSet;
use vstd::prelude::*;

verus! {

/// `IndexSet` of indexmap, a set that keeps its items in the order of their insertion.
#[verifier::external_type_specification]
#[verifier::external_body]
#[verifier::reject_recursive_types(T)]
#[verifier::reject_recursive_types(S)]
pub struct ExIndexSet<T, S>(IndexSet<T, S>);

/// The names that a set holds, in the order of their insertion.
pub uninterp spec fn set_names(set: IndexSet<String>) -> Seq<Seq<char>>;

/// `IndexSet::new` makes an empty set.
#[verifier::external_body]
fn names_new() -> (set: IndexSet<String>)
    ensures
        set_names(set) == Seq::<Seq<char>>::empty(),
{
    IndexSet::new()
}

/// `IndexSet::insert_full` puts a name at the end of the set, unless it is already there. It
/// returns the position of the name and whether it was put there now.
#[verifier::external_body]
fn names_insert(set: &mut IndexSet<String>, name: String) -> (r: (usize, bool))
    ensures
        r.1 == !set_names(*old(set)).contains(name@),
        set_names(*final(set)) == (if r.1 {
            set_names(*old(set)).push(name@)
        } else {
            set_names(*old(set))
        }),
        r.0 == set_names(*final(set)).index_of(name@),
        r.0 < set_names(*final(set)).len(),
        set_names(*final(set))[r.0 as int] == name@,
{
    set.insert_full(name)
}

/// `IndexSet::get_index_of` is the position of a name in the set, if it is there.
#[verifier::external_body]
fn names_index_of(set: &IndexSet<String>, name: &str) -> (r: Option<usize>)
    ensures
        r is Some <==> set_names(*set).contains(name@),
        r matches Some(i) ==> i == set_names(*set).index_of(name@) && i < set_names(*set).len()
            && set_names(*set)[i as int] == name@,
{
    set.get_index_of(name)
}

/// `IndexSet::get_index` is the name at a position, if there is one.
#[verifier::external_body]
fn names_get(set: &IndexSet<String>, i: usize) -> (r: Option<&String>)
    ensures
        r is Some <==> i < set_names(*set).len(),
        r matches Some(name) ==> name@ == set_names(*set)[i as int],
{
    set.get_index(i)
}

/// `IndexSet::len` is the number of names in the set.
#[verifier::external_body]
fn names_len(set: &IndexSet<String>) -> (r: usize)
    ensures
        r == set_names(*set).len(),
{
    set.len()
}

/// `IndexSet::pop` takes the last name out of the set, if there is one.
#[verifier::external_body]
fn names_pop(set: &mut IndexSet<String>) -> (r: Option<String>)
    ensures
        r is Some <==> set_names(*old(set)).len() > 0,
        r matches Some(name) ==> name@ == set_names(*old(set)).last() && set_names(*final(set))
            == set_names(*old(set)).drop_last(),
        r is None ==> set_names(*final(set)) == set_names(*old(set)),
{
    set.pop()
}

/// `IndexSet::clone` makes a set with the same names in the same order.
#[verifier::external_body]
fn names_clone(set: &IndexSet<String>) -> (r: IndexSet<String>)
    ensures
        set_names(r) == set_names(*set),
{
    set.clone()
}

/// Values with names, in the order in which the names came.
pub struct Table<V> {
    pub names: IndexSet<String>,
    pub values: Vec<V>,
}

/// The model of a table: distinct names, and a value for each of them.
pub struct TableView<V> {
    pub names: Seq<Seq<char>>,
    pub values: Seq<V>,
}

impl<V> TableView<V> {
    /// The table without names.
    pub open spec fn empty() -> TableView<V> {
        TableView { names: seq![], values: seq![] }
    }

    /// Whether a name is in the table.
    pub open spec fn has(self, name: Seq<char>) -> bool {
        self.names.contains(name)
    }

    /// The value of a name, if it is in the table.
    pub open spec fn get(self, name: Seq<char>) -> Option<V> {
        if self.has(name) && self.names.index_of(name) < self.values.len() {
            Some(self.values[self.names.index_of(name)])
        } else {
            None
        }
    }

    /// The value of a name, if it is in the table.
    pub open spec fn find(self, name: Seq<char>) -> Option<V> {
        self.get(name)
    }

    /// The table in which the name has the given value.
    pub open spec fn inserted(self, name: Seq<char>, value: V) -> TableView<V> {
        if !self.has(name) {
            TableView { names: self.names.push(name), values: self.values.push(value) }
        } else if self.names.index_of(name) < self.values.len() {
            TableView {
                names: self.names,
                values: self.values.update(self.names.index_of(name), value),
            }
        } else {
            self
        }
    }

    /// The table without its last name.
    pub open spec fn popped(self) -> TableView<V> {
        TableView {
            names: if self.names.len() > 0 {
                self.names.drop_last()
            } else {
                self.names
            },
            values: if self.values.len() > 0 {
                self.values.drop_last()
            } else {
                self.values
            },
        }
    }

    /// Whether there is one value for each name, and no name occurs twice.
    pub open spec fn wf(self) -> bool {
        self.names.len() == self.values.len() && self.names.no_duplicates()
    }
}

/// A name that was put into a table has the value that it was given, and the other names have
/// the values that they had.
pub proof fn law_table_insert<V>(t: TableView<V>, name: Seq<char>, value: V, other: Seq<char>)
    requires
        t.wf(),
    ensures
        t.inserted(name, value).wf(),
        t.inserted(name, value).get(name) == Some(value),
        other != name ==> t.inserted(name, value).get(other) == t.get(other),
{
    let next = t.inserted(name, value);
    if t.has(name) {
        let i = t.names.index_of(name);
        assert(next.names[i] == name);
        if t.has(other) {
            let j = t.names.index_of(other);
            assert(t.names[j] == other);
        }
    } else {
        let n = t.names.len() as int;
        assert(next.names[n] == name);
        assert(next.names.contains(name));
        assert(next.names[next.names.index_of(name)] == name);
        if other != name {
            if t.has(other) {
                let j = t.names.index_of(other);
                assert(t.names[j] == other);
                assert(next.names[j] == other);
                assert(next.names.contains(other));
                assert(next.names[next.names.index_of(other)] == other);
                assert(next.names.index_of(other) == j);
            } else {
                if next.has(other) {
                    let j = next.names.index_of(other);
                    assert(next.names[j] == other);
                    assert(t.names[j] == other);
                }
            }
        }
    }
}

/// Taking out the last name undoes putting in a new one.
pub proof fn law_table_pop<V>(t: TableView<V>, name: Seq<char>, value: V)
    requires
        t.wf(),
        !t.has(name),
    ensures
        t.inserted(name, value).popped() == t,
{
    assert(t.names.push(name).drop_last() == t.names);
    assert(t.values.push(value).drop_last() == t.values);
}

/// The models of several items.
pub open spec fn views<V: View>(items: Seq<V>) -> Seq<V::V> {
    Seq::new(items.len(), |i: int| items[i]@)
}

/// The models of items with one more item.
pub broadcast proof fn lemma_views_push<V: View>(items: Seq<V>, item: V)
    ensures
        #[trigger] views(items.push(item)) == views(items).push(item@),
{
    assert(views(items.push(item)) =~= views(items).push(item@));
}

/// The models of no items.
pub broadcast proof fn lemma_views_empty<V: View>()
    ensures
        #[trigger] views(Seq::<V>::empty()) == Seq::<V::V>::empty(),
{
    assert(views(Seq::<V>::empty()) =~= Seq::<V::V>::empty());
}

impl<V: View> View for Table<V> {
    type V = TableView<V::V>;

    open spec fn view(&self) -> TableView<V::V> {
        TableView { names: set_names(self.names), values: views(self.values@) }
    }
}

impl<V: View> Table<V> {
    /// A table without names.
    pub fn empty() -> (r: Self)
        ensures
            r@ == TableView::<V::V>::empty(),
    {
        let r: Table<V> = Table::new();
        assert(r@.names == TableView::<V::V>::empty().names);
        assert(r@.values =~= Seq::<V::V>::empty());
        r
    }

    /// The value of a name, if it is there.
    pub fn find(&self, name: &str) -> (r: Option<&V>)
        ensures
            match r {
                Some(v) => self@.get(name@) == Some(v@),
                None => self@.get(name@) is None,
            },
    {
        self.get(name)
    }

    /// Gives a name a value, and returns the value that it had before, if it was there.
    pub fn put(&mut self, name: String, value: V) -> (r: Option<V>)
        ensures
            final(self)@ == old(self)@.inserted(name@, value@),
            match r {
                Some(v) => old(self)@.get(name@) == Some(v@),
                None => old(self)@.get(name@) is None,
            },
    {
        let ghost before = self.table();
        let ghost view_before = self@;
        let ghost text = name@;
        let ghost given = value@;
        let r: Option<V> = self.insert(name, value);
        proof {
            assert(self@.values =~= view_before.inserted(text, given).values);
        }
        r
    }

    /// Takes out the last name, if there is one.
    pub fn drop_last(&mut self)
        ensures
            final(self)@ == old(self)@.popped(),
    {
        let ghost before = self@;
        self.pop();
        assert(self@.values =~= before.popped().values);
    }
}

impl<V> Table<V> {
    /// The model with the values as they are.
    pub open spec fn table(self) -> TableView<V> {
        TableView { names: set_names(self.names), values: self.values@ }
    }

    /// A table without names.
    pub fn new() -> (r: Self)
        ensures
            r.table() == TableView::<V>::empty(),
    {
        let r: Table<V> = Table { names: names_new(), values: Vec::new() };
        assert(r.table().values == Seq::<V>::empty());
        r
    }

    /// How many values there are.
    pub fn len(&self) -> (r: usize)
        ensures
            r == self.table().values.len(),
    {
        self.values.len()
    }

    /// Whether a name is in the table.
    pub fn has(&self, name: &str) -> (r: bool)
        ensures
            r == self.table().has(name@),
    {
        names_index_of(&self.names, name).is_some()
    }

    /// The value of a name, if it is there.
    pub fn get(&self, name: &str) -> (r: Option<&V>)
        ensures
            match r {
                Some(v) => self.table().get(name@) == Some(*v),
                None => self.table().get(name@) is None,
            },
    {
        match names_index_of(&self.names, name) {
            Some(i) => if i < self.values.len() {
                Some(&self.values[i])
            } else {
                None
            },
            None => None,
        }
    }

    /// The name at a position, if there is one.
    pub fn name_at(&self, i: usize) -> (r: Option<&String>)
        ensures
            r is Some <==> i < self.table().names.len(),
            r matches Some(name) ==> name@ == self.table().names[i as int],
    {
        names_get(&self.names, i)
    }

    /// The number of names in the table.
    pub fn name_count(&self) -> (r: usize)
        ensures
            r == self.table().names.len(),
    {
        names_len(&self.names)
    }

    /// Gives a name a value, and returns the value that it had before, if it was there.
    pub fn insert(&mut self, name: String, value: V) -> (r: Option<V>)
        ensures
            final(self).table() == old(self).table().inserted(name@, value),
            r == old(self).table().get(name@),
    {
        match names_index_of(&self.names, &name) {
            Some(i) => if i < self.values.len() {
                let mut previous: V = value;
                let ghost given = value;
                let ghost before = self.values@;
                std::mem::swap(&mut previous, &mut self.values[i]);
                assert(self.values@ == before.update(i as int, given));
                Some(previous)
            } else {
                None
            },
            None => {
                let r: (usize, bool) = names_insert(&mut self.names, name);
                self.values.push(value);
                None
            },
        }
    }

    /// Takes out the last name, if there is one.
    pub fn pop(&mut self)
        ensures
            final(self).table() == old(self).table().popped(),
    {
        let ghost before = self.table();
        let name: Option<String> = names_pop(&mut self.names);
        let value: Option<V> = self.values.pop();
        proof {
            if before.values.len() > 0 {
                assert(self.table().values == before.values.drop_last());
            } else {
                assert(self.table().values == before.values);
            }
        }
    }

    /// A table with the same names and the given values.
    pub fn renamed<W>(&self, values: Vec<W>) -> (r: Table<W>)
        ensures
            set_names(r.names) == set_names(self.names),
            r.values@ == values@,
    {
        Table { names: names_clone(&self.names), values }
    }
}

/// A table with one more entry, or another value for a name.
pub open spec fn entered<V>(table: TableView<V>, name: Seq<char>, value: V) -> TableView<V> {
    table.inserted(name, value)
}

/// A table with one more entry, or another value for a name.
pub fn with_entry<V: View>(table: Table<V>, name: String, value: V) -> (r: Table<V>)
    ensures
        r@ == entered(table@, name@, value@),
{
    let mut changed: Table<V> = table;
    let previous: Option<V> = changed.put(name, value);
    changed
}

} // verus!
