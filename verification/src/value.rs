//! JSON values as the program holds them, and what each stands for.

use vstd::prelude::*;
use crate::json::Json;
use crate::number::Number;

verus! {

/// A JSON value.
#[derive(Debug)]
pub enum Value {
    Null,
    Bool(bool),
    Number(Number),
    String(String),
    /// An array: its order counts.
    Array(Vec<Value>),
    Object(Object),
}

/// A JSON object: keys with their values, no key twice.
///
/// The entries are kept in a list, but the list's order is no part of the
/// object: its view is a map. Looking a key up walks the list.
#[derive(Debug)]
pub struct Object {
    pub(crate) entries: Vec<(String, Value)>,
}

impl Value {
    /// The value as a mathematical object.
    pub open spec fn view(&self) -> Json
        decreases self,
    {
        match self {
            Value::Null => Json::Null,
            Value::Bool(b) => Json::Bool(*b),
            Value::Number(n) => Json::Number(n@),
            Value::String(s) => Json::String(s@),
            Value::Array(a) => Json::Array(
                Seq::new(
                    a.len() as nat,
                    |i: int|
                        // Every index asked for is in range; the test lets the
                        // definition be seen to end.
                        if 0 <= i < a.len() {
                            a[i]@
                        } else {
                            Json::Null
                        },
                ),
            ),
            Value::Object(o) => Json::Object(o@),
        }
    }
}

impl Object {
    /// The object as a map from key to value.
    pub closed spec fn view(&self) -> Map<Seq<char>, Json>
        decreases self,
    {
        entries_view(self.entries@)
    }

    /// The invariant of the type: no key twice.
    #[verifier::type_invariant]
    pub(crate) open spec fn well_formed(self) -> bool {
        distinct_keys(self.entries@)
    }

    /// The object without entries.
    pub fn new() -> (r: Object)
        ensures
            r@ == Map::<Seq<char>, Json>::empty(),
    {
        let r = Object { entries: Vec::new() };
        assert(r@ =~= Map::<Seq<char>, Json>::empty());
        r
    }

    /// The value under `key`, if the object has the key.
    pub fn get(&self, key: &String) -> (r: Option<&Value>)
        ensures
            match r {
                Some(v) => self@.contains_key(key@) && self@[key@] == v@,
                None => !self@.contains_key(key@),
            },
    {
        proof {
            use_type_invariant(self);
        }
        let i = position(&self.entries, key);
        if i < self.entries.len() {
            proof {
                lemma_entry_in_view(self.entries@, i as int);
            }
            Some(&self.entries[i].1)
        } else {
            proof {
                lemma_absent_key(self.entries@, key@);
            }
            None
        }
    }

    /// Puts `value` under `key`, in place of the value that was under it, if
    /// there was one, and returns the value that left.
    pub fn insert(&mut self, key: String, value: Value) -> (r: Option<Value>)
        ensures
            final(self)@ == old(self)@.insert(key@, value@),
            match r {
                Some(v) => old(self)@.contains_key(key@) && old(self)@[key@] == v@,
                None => !old(self)@.contains_key(key@),
            },
    {
        proof {
            use_type_invariant(&*self);
        }
        // The list is taken out while it changes, so that the object is
        // well formed whenever it can be seen.
        let mut entries: Vec<(String, Value)> = Vec::new();
        std::mem::swap(&mut entries, &mut self.entries);
        let ghost before = entries@;
        let i = position(&entries, &key);
        let replaced = if i < entries.len() {
            proof {
                lemma_entry_in_view(before, i as int);
                lemma_remove_entry(before, i as int);
            }
            let gone = entries.remove(i);
            Some(gone.1)
        } else {
            proof {
                lemma_absent_key(before, key@);
                assert(entries_view(before).remove(key@) =~= entries_view(before));
            }
            None
        };
        proof {
            assert(!has_key(entries@, key@));
            lemma_push_entry(entries@, (key, value));
            assert(entries_view(before).remove(key@).insert(key@, value@) =~= entries_view(
                before,
            ).insert(key@, value@));
        }
        entries.push((key, value));
        self.entries = entries;
        replaced
    }
}

/// The place of the first entry under `key`, or the length of the list if
/// no entry is under it.
fn position(entries: &Vec<(String, Value)>, key: &String) -> (i: usize)
    ensures
        i <= entries.len(),
        i < entries.len() ==> entries[i as int].0@ == key@,
        forall|j: int| 0 <= j < i ==> entries[j].0@ != key@,
{
    let mut i: usize = 0;
    while i < entries.len() && !(entries[i].0 == *key)
        invariant
            i <= entries.len(),
            forall|j: int| 0 <= j < i ==> entries[j].0@ != key@,
        decreases entries.len() - i,
    {
        i += 1;
    }
    i
}

/// No two entries of the list have the same key.
pub(crate) open spec fn distinct_keys(s: Seq<(String, Value)>) -> bool {
    forall|i: int, j: int| 0 <= i < j < s.len() ==> s[i].0@ != s[j].0@
}

/// Whether some entry of the list has the key.
spec fn has_key(s: Seq<(String, Value)>, k: Seq<char>) -> bool {
    exists|i: int| 0 <= i < s.len() && s[i].0@ == k
}

/// The place of an entry with the key, where there is one.
spec fn index_of(s: Seq<(String, Value)>, k: Seq<char>) -> int {
    choose|i: int| 0 <= i < s.len() && s[i].0@ == k
}

/// The map that a list of entries stands for: its keys are the keys of the
/// list, each with the value of an entry under it.
spec fn entries_view(s: Seq<(String, Value)>) -> Map<Seq<char>, Json>
    decreases s,
{
    Map::new(
        |k: Seq<char>| has_key(s, k),
        |k: Seq<char>|
            {
                let i = index_of(s, k);
                // For a key of the map the index is in range; the test lets
                // the definition be seen to end.
                if 0 <= i < s.len() {
                    s[i].1@
                } else {
                    Json::Null
                }
            },
    )
}

/// Each entry of a list without repeated keys is an entry of its map.
proof fn lemma_entry_in_view(s: Seq<(String, Value)>, i: int)
    requires
        distinct_keys(s),
        0 <= i < s.len(),
    ensures
        entries_view(s).contains_key(s[i].0@),
        entries_view(s)[s[i].0@] == s[i].1@,
{
    let k = s[i].0@;
    assert(has_key(s, k));
    assert(index_of(s, k) == i);
}

/// Each key of the map is the key of an entry of the list.
proof fn lemma_key_in_entries(s: Seq<(String, Value)>, k: Seq<char>)
    requires
        entries_view(s).contains_key(k),
    ensures
        0 <= index_of(s, k) < s.len(),
        s[index_of(s, k)].0@ == k,
{
    assert(has_key(s, k));
}

/// A key that no entry of the list has is no key of the map.
proof fn lemma_absent_key(s: Seq<(String, Value)>, k: Seq<char>)
    requires
        forall|j: int| 0 <= j < s.len() ==> s[j].0@ != k,
    ensures
        !has_key(s, k),
        !entries_view(s).contains_key(k),
{
}

/// Taking an entry out of a list without repeated keys takes its key out of
/// the map.
proof fn lemma_remove_entry(s: Seq<(String, Value)>, i: int)
    requires
        distinct_keys(s),
        0 <= i < s.len(),
    ensures
        distinct_keys(s.remove(i)),
        entries_view(s.remove(i)) == entries_view(s).remove(s[i].0@),
{
    let t = s.remove(i);
    let m = entries_view(s).remove(s[i].0@);
    assert forall|k: Seq<char>| entries_view(t).contains_key(k) implies m.contains_key(k)
        && entries_view(t)[k] == m[k] by {
        lemma_key_in_entries(t, k);
        let j = index_of(t, k);
        let j0 = if j < i {
            j
        } else {
            j + 1
        };
        assert(t[j] == s[j0]);
        lemma_entry_in_view(t, j);
        lemma_entry_in_view(s, j0);
    }
    assert forall|k: Seq<char>| m.contains_key(k) implies entries_view(t).contains_key(k) by {
        lemma_key_in_entries(s, k);
        let j0 = index_of(s, k);
        let j = if j0 < i {
            j0
        } else {
            j0 - 1
        };
        assert(t[j] == s[j0]);
        lemma_entry_in_view(t, j);
    }
    assert(entries_view(t) =~= m);
}

/// Adding an entry under a new key to a list without repeated keys adds it
/// to the map.
proof fn lemma_push_entry(s: Seq<(String, Value)>, e: (String, Value))
    requires
        distinct_keys(s),
        !has_key(s, e.0@),
    ensures
        distinct_keys(s.push(e)),
        entries_view(s.push(e)) == entries_view(s).insert(e.0@, e.1@),
{
    let t = s.push(e);
    let m = entries_view(s).insert(e.0@, e.1@);
    assert(distinct_keys(t)) by {
        assert forall|i: int, j: int| 0 <= i < j < t.len() implies t[i].0@ != t[j].0@ by {
            assert(t[i] == s[i]);
            if j < s.len() {
                assert(t[j] == s[j]);
            }
        }
    }
    assert forall|k: Seq<char>| entries_view(t).contains_key(k) implies m.contains_key(k)
        && entries_view(t)[k] == m[k] by {
        lemma_key_in_entries(t, k);
        let j = index_of(t, k);
        lemma_entry_in_view(t, j);
        if j < s.len() {
            assert(t[j] == s[j]);
            lemma_entry_in_view(s, j);
        }
    }
    assert forall|k: Seq<char>| m.contains_key(k) implies entries_view(t).contains_key(k) by {
        if k == e.0@ {
            lemma_entry_in_view(t, s.len() as int);
        } else {
            lemma_key_in_entries(s, k);
            let j = index_of(s, k);
            assert(t[j] == s[j]);
            lemma_entry_in_view(t, j);
        }
    }
    assert(entries_view(t) =~= m);
}

/// The view of an array holds the view of each element at the element's
/// place, and each element is structurally smaller than the array.
pub(crate) proof fn lemma_array_element(a: Vec<Value>, i: usize)
    requires
        i < a.len(),
    ensures
        Value::Array(a)@->Array_0[i as int] == a[i as int]@,
        decreases_to!(Value::Array(a) => a[i as int]),
{
}

/// Each entry of an object's list is an entry of the object, and its value
/// is structurally smaller than the object.
pub(crate) proof fn lemma_object_entry(o: Object, i: usize)
    requires
        o.well_formed(),
        i < o.entries.len(),
    ensures
        o@.contains_key(o.entries[i as int].0@),
        o@[o.entries[i as int].0@] == o.entries[i as int].1@,
        decreases_to!(Value::Object(o) => o.entries[i as int].1),
{
    lemma_entry_in_view(o.entries@, i as int);
    let v = Value::Object(o);
    assert(decreases_to!(v => v->Object_0));
    assert(decreases_to!(o => o.entries));
    assert(decreases_to!(o.entries => o.entries[i as int]));
    assert(decreases_to!(o.entries[i as int] => o.entries[i as int].1));
}

/// Each entry of an object is an entry of its list.
pub(crate) proof fn lemma_object_key(o: Object, k: Seq<char>)
    requires
        o.well_formed(),
        o@.contains_key(k),
    ensures
        exists|j: int|
            0 <= j < o.entries.len() && (#[trigger] o.entries[j]).0@ == k && o@[k]
                == o.entries[j].1@,
{
    lemma_key_in_entries(o.entries@, k);
    let j = index_of(o.entries@, k);
    lemma_entry_in_view(o.entries@, j);
    assert(o.entries[j].0@ == k);
}

} // verus!
