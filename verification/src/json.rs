//! JSON values as the library reads and writes them. Numbers are kept as the
//! text JSON writes them, so no floating point is involved.
use vstd::prelude::*;
use crate::text::{decimal, push_decimal};

verus! {

/// A JSON value.
#[derive(Debug)]
pub enum Json {
    Null,
    Bool(bool),
    /// A number, as its JSON text.
    Number(String),
    Str(String),
    Array(Vec<Json>),
    /// The entries of an object, each a key and a value.
    Object(Vec<(String, Json)>),
}

/// The mathematical value of a `Json`.
pub enum JsonView {
    Null,
    Bool(bool),
    Number(Seq<char>),
    Str(Seq<char>),
    Array(Seq<JsonView>),
    Object(Seq<(Seq<char>, JsonView)>),
}

/// The value of a `Json`.
pub open spec fn json_view(j: Json) -> JsonView
    decreases j, 1nat,
{
    match j {
        Json::Null => JsonView::Null,
        Json::Bool(b) => JsonView::Bool(b),
        Json::Number(n) => JsonView::Number(n@),
        Json::Str(s) => JsonView::Str(s@),
        Json::Array(v) => JsonView::Array(items_view(v@)),
        Json::Object(es) => JsonView::Object(entries_view(es@)),
    }
}

/// The values of a run of array items.
pub open spec fn items_view(s: Seq<Json>) -> Seq<JsonView>
    decreases s, 0nat,
{
    if s.len() == 0 {
        Seq::empty()
    } else {
        seq![json_view(s[0])] + items_view(s.subrange(1, s.len() as int))
    }
}

/// The values of a run of object entries.
pub open spec fn entries_view(s: Seq<(String, Json)>) -> Seq<(Seq<char>, JsonView)>
    decreases s, 0nat,
{
    if s.len() == 0 {
        Seq::empty()
    } else {
        seq![(s[0].0@, json_view(s[0].1))] + entries_view(s.subrange(1, s.len() as int))
    }
}

impl View for Json {
    type V = JsonView;

    open spec fn view(&self) -> JsonView {
        json_view(*self)
    }
}

/// The value under `key` among object entries: that of the first entry with it.
pub open spec fn first_entry(es: Seq<(String, Json)>, key: Seq<char>) -> Option<Json>
    decreases es.len(),
{
    if es.len() == 0 {
        None
    } else if es[0].0@ == key {
        Some(es[0].1)
    } else {
        first_entry(es.subrange(1, es.len() as int), key)
    }
}

impl Json {
    /// The value under `key`, where `self` is an object that has one.
    pub open spec fn field(self, key: Seq<char>) -> Option<Json> {
        match self {
            Json::Object(es) => first_entry(es@, key),
            _ => None,
        }
    }

    /// Looks up `key` in an object; a value that is not an object has no field.
    pub fn get(&self, key: &String) -> (res: Option<&Json>)
        ensures
            match res {
                Some(j) => self.field(key@) == Some(*j),
                None => self.field(key@) is None,
            },
    {
        match self {
            Json::Object(es) => {
                let mut i: usize = 0;
                assert(es@.subrange(0, es@.len() as int) =~= es@);
                while i < es.len()
                    invariant
                        i <= es.len(),
                        self.field(key@) == first_entry(es@, key@),
                        first_entry(es@, key@) == first_entry(
                            es@.subrange(i as int, es@.len() as int),
                            key@,
                        ),
                    decreases es.len() - i,
                {
                    let ghost rest = es@.subrange(i as int, es@.len() as int);
                    assert(rest.subrange(1, rest.len() as int) =~= es@.subrange(
                        i + 1,
                        es@.len() as int,
                    ));
                    assert(rest[0] == es@[i as int]);
                    if es[i].0 == *key {
                        assert(first_entry(rest, key@) == Some(es@[i as int].1));
                        let found = &es[i];
                        return Some(&found.1);
                    }
                    i = i + 1;
                }
                None
            },
            _ => None,
        }
    }

    /// A number value.
    pub fn number(n: u64) -> (res: Json)
        ensures
            res@ == JsonView::Number(decimal(n as nat)),
    {
        let mut s = String::new();
        push_decimal(&mut s, n);
        Json::Number(s)
    }

    /// A string value from text.
    pub fn text(s: &str) -> (res: Json)
        ensures
            res@ == JsonView::Str(s@),
    {
        Json::Str(String::from_str(s))
    }
}

/// The text of a string value; none for any other value.
pub open spec fn string_of(j: Option<Json>) -> Option<String> {
    match j {
        Some(Json::Str(s)) => Some(s),
        _ => None,
    }
}

/// Looking up a key in an object gives the value of its first entry under
/// that key, whatever other entries the object holds.
pub proof fn lemma_field_finds_first(es: Vec<(String, Json)>, i: int, key: Seq<char>)
    requires
        0 <= i < es@.len(),
        es@[i].0@ == key,
        forall|j: int| 0 <= j < i ==> #[trigger] es@[j].0@ != key,
    ensures
        Json::Object(es).field(key) == Some(es@[i].1),
{
    lemma_first_entry_finds(es@, i, key);
}

/// Looking up a key that no entry has gives nothing.
pub proof fn lemma_field_absent(es: Vec<(String, Json)>, key: Seq<char>)
    requires
        forall|j: int| 0 <= j < es@.len() ==> #[trigger] es@[j].0@ != key,
    ensures
        Json::Object(es).field(key) is None,
{
    lemma_first_entry_absent(es@, key);
}

/// A value that is not an object has no field.
pub proof fn lemma_field_of_non_object(j: Json, key: Seq<char>)
    requires
        !(j is Object),
    ensures
        j.field(key) is None,
{
}

proof fn lemma_first_entry_finds(es: Seq<(String, Json)>, i: int, key: Seq<char>)
    requires
        0 <= i < es.len(),
        es[i].0@ == key,
        forall|j: int| 0 <= j < i ==> #[trigger] es[j].0@ != key,
    ensures
        first_entry(es, key) == Some(es[i].1),
    decreases i,
{
    if i > 0 {
        let t = es.subrange(1, es.len() as int);
        assert(es[0].0@ != key);
        assert forall|j: int| 0 <= j < i - 1 implies #[trigger] t[j].0@ != key by {
            assert(t[j] == es[j + 1]);
        }
        lemma_first_entry_finds(t, i - 1, key);
        assert(t[i - 1] == es[i]);
    }
}

proof fn lemma_first_entry_absent(es: Seq<(String, Json)>, key: Seq<char>)
    requires
        forall|j: int| 0 <= j < es.len() ==> #[trigger] es[j].0@ != key,
    ensures
        first_entry(es, key) is None,
    decreases es.len(),
{
    if es.len() > 0 {
        let t = es.subrange(1, es.len() as int);
        assert(es[0].0@ != key);
        assert forall|j: int| 0 <= j < t.len() implies #[trigger] t[j].0@ != key by {
            assert(t[j] == es[j + 1]);
        }
        lemma_first_entry_absent(t, key);
    }
}

/// Appending an entry appends its value; no entries have no values.
pub proof fn lemma_entries_view_push(s: Seq<(String, Json)>, e: (String, Json))
    ensures
        entries_view(Seq::empty()) == Seq::<(Seq<char>, JsonView)>::empty(),
        entries_view(s.push(e)) == entries_view(s).push((e.0@, json_view(e.1))),
    decreases s.len(),
{
    if s.len() == 0 {
        let rest = s.push(e).subrange(1, 1);
        assert(rest =~= Seq::<(String, Json)>::empty());
        assert(entries_view(rest) == Seq::<(Seq<char>, JsonView)>::empty());
        assert(entries_view(s) == Seq::<(Seq<char>, JsonView)>::empty());
        assert(s.push(e)[0] == e);
        assert(entries_view(s.push(e)) == seq![(e.0@, json_view(e.1))] + entries_view(rest));
        assert(entries_view(s.push(e)) =~= entries_view(s).push((e.0@, json_view(e.1))));
    } else {
        let t = s.subrange(1, s.len() as int);
        lemma_entries_view_push(t, e);
        assert(s.push(e).subrange(1, s.len() as int + 1) =~= t.push(e));
        assert(entries_view(s.push(e)) =~= entries_view(s).push((e.0@, json_view(e.1))));
    }
}

/// Appending an item appends its value; no items have no values.
pub proof fn lemma_items_view_push(s: Seq<Json>, j: Json)
    ensures
        items_view(Seq::empty()) == Seq::<JsonView>::empty(),
        items_view(s.push(j)) == items_view(s).push(json_view(j)),
    decreases s.len(),
{
    if s.len() == 0 {
        let rest = s.push(j).subrange(1, 1);
        assert(rest =~= Seq::<Json>::empty());
        assert(items_view(rest) == Seq::<JsonView>::empty());
        assert(items_view(s) == Seq::<JsonView>::empty());
        assert(s.push(j)[0] == j);
        assert(items_view(s.push(j)) == seq![json_view(j)] + items_view(rest));
        assert(items_view(s.push(j)) =~= items_view(s).push(json_view(j)));
    } else {
        let t = s.subrange(1, s.len() as int);
        lemma_items_view_push(t, j);
        assert(s.push(j).subrange(1, s.len() as int + 1) =~= t.push(j));
        assert(items_view(s.push(j)) =~= items_view(s).push(json_view(j)));
    }
}

/// Adds the entry `key: value` at the end of an object's entries.
pub fn push_entry(es: &mut Vec<(String, Json)>, key: &str, value: Json)
    ensures
        entries_view(final(es)@) == entries_view(old(es)@).push((key@, value@)),
        final(es)@.len() == old(es)@.len() + 1,
{
    let e = (String::from_str(key), value);
    proof {
        lemma_entries_view_push(es@, e);
    }
    es.push(e);
}

/// Adds `item` at the end of an array's items.
pub fn push_item(items: &mut Vec<Json>, item: Json)
    ensures
        items_view(final(items)@) == items_view(old(items)@).push(item@),
{
    proof {
        lemma_items_view_push(items@, item);
    }
    items.push(item);
}

} // verus!
