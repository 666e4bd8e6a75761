//! Configuration documents as trees of plain values.

use vstd::prelude::*;

verus! {

/// A node of a configuration document: a scalar, a list of nodes, or a table
/// of named nodes in the order in which they were written.
#[derive(Debug, PartialEq, Eq)]
pub enum Value {
    Text(String),
    Integer(i64),
    Boolean(bool),
    List(Vec<Value>),
    Table(Vec<(String, Value)>),
    /// A scalar of a kind that no configuration field takes.
    Other,
}

/// The mathematical model of a [`Value`].
pub enum ValueView {
    Text(Seq<char>),
    Integer(int),
    Boolean(bool),
    List(Seq<ValueView>),
    Table(Seq<(Seq<char>, ValueView)>),
    Other,
}

/// The models of the items of a list, in order.
pub open spec fn list_view(items: Seq<Value>) -> Seq<ValueView>
    decreases items,
{
    Seq::new(
        items.len(),
        |i: int|
            if 0 <= i < items.len() {
                items[i]@
            } else {
                ValueView::Other
            },
    )
}

/// The models of the entries of a table, in order.
pub open spec fn table_view(entries: Seq<(String, Value)>) -> Seq<(Seq<char>, ValueView)>
    decreases entries,
{
    Seq::new(
        entries.len(),
        |i: int|
            if 0 <= i < entries.len() {
                (entries[i].0@, entries[i].1@)
            } else {
                (Seq::empty(), ValueView::Other)
            },
    )
}

impl View for Value {
    type V = ValueView;

    open spec fn view(&self) -> ValueView
        decreases self,
    {
        match self {
            Value::Text(text) => ValueView::Text(text@),
            Value::Integer(number) => ValueView::Integer(*number as int),
            Value::Boolean(flag) => ValueView::Boolean(*flag),
            Value::List(items) => ValueView::List(list_view(items@)),
            Value::Table(entries) => ValueView::Table(table_view(entries@)),
            Value::Other => ValueView::Other,
        }
    }
}

/// The value of the first entry named `key`, if there is one.
pub open spec fn lookup(entries: Seq<(Seq<char>, ValueView)>, key: Seq<char>) -> Option<ValueView>
    decreases entries.len(),
{
    if entries.len() == 0 {
        None
    } else if entries[0].0 == key {
        Some(entries[0].1)
    } else {
        lookup(entries.drop_first(), key)
    }
}

impl ValueView {
    /// The field named `key` of a table; `None` for a table without it, and
    /// for a node that is no table.
    pub open spec fn field(self, key: Seq<char>) -> Option<ValueView> {
        match self {
            ValueView::Table(entries) => lookup(entries, key),
            _ => None,
        }
    }

    /// Whether the node is a table with a field named `key`.
    pub open spec fn has(self, key: Seq<char>) -> bool {
        self.field(key) is Some
    }
}

/// What a table holds under a name, for the kind of value that is asked for.
pub enum Lookup<T> {
    /// The table has no such field.
    Missing,
    /// The field holds a value of the kind asked for.
    Found(T),
    /// The field holds something else.
    Mismatch,
}

impl<T> Lookup<T> {
    /// The value that was found, or `default` for a missing field.
    pub open spec fn or(self, default: T) -> T {
        match self {
            Lookup::Found(value) => value,
            _ => default,
        }
    }

    /// The value that was found, if one was.
    pub open spec fn found(self) -> Option<T> {
        match self {
            Lookup::Found(value) => Some(value),
            _ => None,
        }
    }
}

impl ValueView {
    /// The text under `key`.
    pub open spec fn text(self, key: Seq<char>) -> Lookup<Seq<char>> {
        match self.field(key) {
            None => Lookup::Missing,
            Some(ValueView::Text(text)) => Lookup::Found(text),
            Some(_) => Lookup::Mismatch,
        }
    }

    /// The integer under `key`, which has to lie between `low` and `high`.
    pub open spec fn integer(self, key: Seq<char>, low: int, high: int) -> Lookup<int> {
        match self.field(key) {
            None => Lookup::Missing,
            Some(ValueView::Integer(number)) => if low <= number <= high {
                Lookup::Found(number)
            } else {
                Lookup::Mismatch
            },
            Some(_) => Lookup::Mismatch,
        }
    }
}

/// The first entry named `key` is the one at `at` where no entry before it
/// has that name.
pub proof fn lemma_lookup_at(entries: Seq<(Seq<char>, ValueView)>, key: Seq<char>, at: int)
    requires
        0 <= at < entries.len(),
        entries[at].0 == key,
        forall|i: int| 0 <= i < at ==> entries[i].0 != key,
    ensures
        lookup(entries, key) == Some(entries[at].1),
    decreases at,
{
    if at > 0 {
        let rest = entries.drop_first();
        assert(entries[0].0 != key);
        assert(rest[at - 1] == entries[at]);
        assert forall|i: int| 0 <= i < at - 1 implies rest[i].0 != key by {
            assert(rest[i] == entries[i + 1]);
        }
        lemma_lookup_at(rest, key, at - 1);
    }
}

/// No entry is found under a name that no entry has.
pub proof fn lemma_lookup_none(entries: Seq<(Seq<char>, ValueView)>, key: Seq<char>)
    requires
        forall|i: int| 0 <= i < entries.len() ==> entries[i].0 != key,
    ensures
        lookup(entries, key) is None,
    decreases entries.len(),
{
    if entries.len() > 0 {
        let rest = entries.drop_first();
        assert(entries[0].0 != key);
        assert forall|i: int| 0 <= i < rest.len() implies rest[i].0 != key by {
            assert(rest[i] == entries[i + 1]);
        }
        lemma_lookup_none(rest, key);
    }
}

/// The model of a node that may be absent.
pub open spec fn found_view(found: Option<&Value>) -> Option<ValueView> {
    match found {
        Some(value) => Some(value@),
        None => None,
    }
}

impl Value {
    /// An entry of a table: a name and the node that it names.
    pub fn entry(key: &str, value: Value) -> (entry: (String, Value))
        ensures
            entry.0@ == key@,
            entry.1 == value,
    {
        (String::from_str(key), value)
    }

    /// A table of the given entries, in their order.
    pub fn table(entries: Vec<(String, Value)>) -> (table: Value)
        ensures
            table@ == ValueView::Table(table_view(entries@)),
    {
        Value::Table(entries)
    }

    /// A list of the given items, in their order.
    pub fn list(items: Vec<Value>) -> (list: Value)
        ensures
            list@ == ValueView::List(list_view(items@)),
    {
        Value::List(items)
    }

    /// The field named `key` of a table.
    pub fn get(&self, key: &str) -> (found: Option<&Value>)
        ensures
            found_view(found) == self@.field(key@),
    {
        match self {
            Value::Table(entries) => {
                let wanted = String::from_str(key);
                let ghost all = table_view(entries@);
                let mut i: usize = 0;
                proof {
                    assert(self@ == ValueView::Table(all));
                    assert(all.skip(0) == all);
                }
                while i < entries.len()
                    invariant
                        i <= entries.len(),
                        wanted@ == key@,
                        all == table_view(entries@),
                        self@ == ValueView::Table(all),
                        lookup(all, key@) == lookup(all.skip(i as int), key@),
                    decreases entries.len() - i,
                {
                    if entries[i].0 == wanted {
                        proof {
                            let rest = all.skip(i as int);
                            assert(rest[0] == all[i as int]);
                            assert(all[i as int] == (entries[i as int].0@, entries[i as int].1@));
                        }
                        return Some(&entries[i].1);
                    }
                    proof {
                        let rest = all.skip(i as int);
                        assert(rest[0] == all[i as int]);
                        assert(all[i as int] == (entries[i as int].0@, entries[i as int].1@));
                    }
                    proof {
                        assert(all.skip(i as int).drop_first() == all.skip(i + 1));
                    }
                    i += 1;
                }
                None
            },
            _ => None,
        }
    }

    /// Whether the node is a table.
    pub fn is_table(&self) -> (table: bool)
        ensures
            table == (self@ is Table),
    {
        match self {
            Value::Table(_) => true,
            _ => false,
        }
    }

    /// The text under `key`.
    pub fn get_text(&self, key: &str) -> (found: Lookup<&String>)
        ensures
            match found {
                Lookup::Missing => self@.text(key@) is Missing,
                Lookup::Found(text) => self@.text(key@) == Lookup::Found(text@),
                Lookup::Mismatch => self@.text(key@) is Mismatch,
            },
    {
        match self.get(key) {
            None => Lookup::Missing,
            Some(value) => match value.as_text() {
                Some(text) => Lookup::Found(text),
                None => Lookup::Mismatch,
            },
        }
    }

    /// The integer under `key`, which has to lie between `low` and `high`.
    pub fn get_integer(&self, key: &str, low: i64, high: i64) -> (found: Lookup<i64>)
        ensures
            match found {
                Lookup::Missing => self@.integer(key@, low as int, high as int) is Missing,
                Lookup::Found(number) => self@.integer(key@, low as int, high as int)
                    == Lookup::Found(number as int),
                Lookup::Mismatch => self@.integer(key@, low as int, high as int) is Mismatch,
            },
    {
        match self.get(key) {
            None => Lookup::Missing,
            Some(value) => match value.as_integer() {
                Some(number) => if low <= number && number <= high {
                    Lookup::Found(number)
                } else {
                    Lookup::Mismatch
                },
                None => Lookup::Mismatch,
            },
        }
    }

    /// The text of a text node.
    pub fn as_text(&self) -> (text: Option<&String>)
        ensures
            match text {
                Some(held) => self@ == ValueView::Text(held@),
                None => !(self@ is Text),
            },
    {
        match self {
            Value::Text(held) => Some(held),
            _ => None,
        }
    }

    /// The number of an integer node.
    pub fn as_integer(&self) -> (number: Option<i64>)
        ensures
            match number {
                Some(held) => self@ == ValueView::Integer(held as int),
                None => !(self@ is Integer),
            },
    {
        match self {
            Value::Integer(held) => Some(*held),
            _ => None,
        }
    }

    /// The items of a list node.
    pub fn as_list(&self) -> (items: Option<&Vec<Value>>)
        ensures
            match items {
                Some(held) => self@ == ValueView::List(list_view(held@)),
                None => !(self@ is List),
            },
    {
        match self {
            Value::List(held) => Some(held),
            _ => None,
        }
    }
}

} // verus!
