//! The JSON document model: values, numbers and key-to-value objects.

use vstd::prelude::*;

use crate::strings::str_equal;

verus! {

/// A JSON number in the form its text gave it.
#[derive(Debug)]
pub enum Number {
    /// A non-negative integer.
    PosInt(u64),
    /// A negative integer.
    NegInt(i64),
    /// A number written with a fraction or an exponent, held as the bit
    /// pattern of its `f64` value.
    Float(u64),
}

/// A JSON value.
#[derive(Debug)]
pub enum Value {
    Null,
    Bool(bool),
    Number(Number),
    String(String),
    Array(Vec<Value>),
    Object(Object),
}

/// The JSON `null`, as read into Rust.
pub type Null = ();

/// A JSON array.
pub type Array = Vec<Value>;

/// A JSON object: string keys, each given once, with a value each.
#[derive(Debug)]
pub struct Object {
    entries: Vec<(String, Value)>,
}

/// No two entries share a key.
pub open spec fn keys_distinct(entries: Seq<(String, Value)>) -> bool {
    forall|i: int, j: int|
        0 <= i < entries.len() && 0 <= j < entries.len() && i != j ==> entries[i].0@
            != entries[j].0@
}

/// Some entry has the key.
pub open spec fn entries_have_key(entries: Seq<(String, Value)>, key: Seq<char>) -> bool {
    exists|i: int| 0 <= i < entries.len() && #[trigger] entries[i].0@ == key
}

/// The value of the entry with the key.
pub open spec fn entries_value_of(entries: Seq<(String, Value)>, key: Seq<char>) -> Value {
    entries[choose|i: int| 0 <= i < entries.len() && #[trigger] entries[i].0@ == key].1
}

/// The key-to-value map that the entries describe.
pub open spec fn entries_map(entries: Seq<(String, Value)>) -> Map<Seq<char>, Value> {
    Map::new(|k: Seq<char>| entries_have_key(entries, k), |k: Seq<char>| entries_value_of(entries, k))
}

/// With distinct keys, the entry at index `i` gives the value of its key.
pub proof fn lemma_entry_value(entries: Seq<(String, Value)>, i: int)
    requires
        keys_distinct(entries),
        0 <= i < entries.len(),
    ensures
        entries_have_key(entries, entries[i].0@),
        entries_value_of(entries, entries[i].0@) == entries[i].1,
        entries_map(entries).contains_key(entries[i].0@),
        entries_map(entries)[entries[i].0@] == entries[i].1,
{
    let k = entries[i].0@;
    assert(entries_have_key(entries, k));
    let j = choose|j: int| 0 <= j < entries.len() && #[trigger] entries[j].0@ == k;
    assert(j == i);
}

/// Removing the entry at `i` removes its key from the map.
proof fn lemma_remove_entry(entries: Seq<(String, Value)>, i: int)
    requires
        keys_distinct(entries),
        0 <= i < entries.len(),
    ensures
        keys_distinct(entries.remove(i)),
        entries_map(entries.remove(i)) == entries_map(entries).remove(entries[i].0@),
{
    let rest = entries.remove(i);
    let key = entries[i].0@;
    assert forall|a: int, b: int|
        0 <= a < rest.len() && 0 <= b < rest.len() && a != b implies rest[a].0@ != rest[b].0@ by {
        let a0 = if a < i { a } else { a + 1 };
        let b0 = if b < i { b } else { b + 1 };
        assert(rest[a] == entries[a0]);
        assert(rest[b] == entries[b0]);
    }
    let m = entries_map(entries).remove(key);
    let r = entries_map(rest);
    assert forall|k: Seq<char>| #[trigger] r.contains_key(k) <==> m.contains_key(k) by {
        if r.contains_key(k) {
            let a = choose|a: int| 0 <= a < rest.len() && #[trigger] rest[a].0@ == k;
            let a0 = if a < i { a } else { a + 1 };
            assert(rest[a] == entries[a0]);
            assert(entries[a0].0@ == k);
            assert(entries_have_key(entries, k));
        }
        if m.contains_key(k) {
            let a0 = choose|a: int| 0 <= a < entries.len() && #[trigger] entries[a].0@ == k;
            assert(a0 != i);
            let a = if a0 < i { a0 } else { a0 - 1 };
            assert(rest[a] == entries[a0]);
            assert(entries_have_key(rest, k));
        }
    }
    assert forall|k: Seq<char>| #[trigger] r.contains_key(k) implies r[k] == m[k] by {
        let a = choose|a: int| 0 <= a < rest.len() && #[trigger] rest[a].0@ == k;
        let a0 = if a < i { a } else { a + 1 };
        assert(rest[a] == entries[a0]);
        lemma_entry_value(rest, a);
        lemma_entry_value(entries, a0);
    }
    assert(r =~= m);
}

/// Appending an entry with a new key adds it to the map.
proof fn lemma_push_entry(entries: Seq<(String, Value)>, key: String, value: Value)
    requires
        keys_distinct(entries),
        !entries_have_key(entries, key@),
    ensures
        keys_distinct(entries.push((key, value))),
        entries_map(entries.push((key, value))) == entries_map(entries).insert(key@, value),
{
    let s = entries.push((key, value));
    let n = entries.len() as int;
    assert forall|a: int, b: int|
        0 <= a < s.len() && 0 <= b < s.len() && a != b implies s[a].0@ != s[b].0@ by {
        if a == n {
            assert(s[b] == entries[b]);
        } else if b == n {
            assert(s[a] == entries[a]);
        } else {
            assert(s[a] == entries[a]);
            assert(s[b] == entries[b]);
        }
    }
    let m = entries_map(entries).insert(key@, value);
    let r = entries_map(s);
    assert forall|k: Seq<char>| #[trigger] r.contains_key(k) <==> m.contains_key(k) by {
        if r.contains_key(k) && k != key@ {
            let a = choose|a: int| 0 <= a < s.len() && #[trigger] s[a].0@ == k;
            assert(a != n);
            assert(s[a] == entries[a]);
            assert(entries_have_key(entries, k));
        }
        if m.contains_key(k) {
            if k == key@ {
                assert(s[n].0@ == k);
            } else {
                let a = choose|a: int| 0 <= a < entries.len() && #[trigger] entries[a].0@ == k;
                assert(s[a] == entries[a]);
            }
        }
    }
    assert forall|k: Seq<char>| #[trigger] r.contains_key(k) implies r[k] == m[k] by {
        let a = choose|a: int| 0 <= a < s.len() && #[trigger] s[a].0@ == k;
        lemma_entry_value(s, a);
        if a < n {
            assert(s[a] == entries[a]);
            lemma_entry_value(entries, a);
        }
    }
    assert(r =~= m);
}

/// The index of the entry with the key, if there is one.
fn find_key(entries: &Vec<(String, Value)>, key: &str) -> (found: Option<usize>)
    ensures
        match found {
            Some(i) => i < entries@.len() && entries@[i as int].0@ == key@,
            None => !entries_have_key(entries@, key@),
        },
{
    let mut i: usize = 0;
    while i < entries.len()
        invariant
            i <= entries@.len(),
            forall|j: int| 0 <= j < i ==> #[trigger] entries@[j].0@ != key@,
        decreases entries@.len() - i,
    {
        if str_equal(entries[i].0.as_str(), key) {
            return Some(i);
        }
        i = i + 1;
    }
    None
}

impl Object {
    #[verifier::type_invariant]
    spec fn keys_are_distinct(self) -> bool {
        keys_distinct(self.entries@)
    }

    /// The entries in the order they were first inserted.
    pub closed spec fn entries(self) -> Seq<(String, Value)> {
        self.entries@
    }

    /// Creates an empty object.
    pub fn new() -> (object: Object)
        ensures
            object@ == Map::<Seq<char>, Value>::empty(),
            object.entries().len() == 0,
    {
        let object = Object { entries: Vec::new() };
        assert(object@ =~= Map::<Seq<char>, Value>::empty());
        object
    }

    /// The number of keys.
    pub fn len(&self) -> (n: usize)
        ensures
            n == self.entries().len(),
            n == self@.len(),
    {
        proof {
            use_type_invariant(self);
            self.lemma_len();
        }
        self.entries.len()
    }

    proof fn lemma_len(&self)
        requires
            keys_distinct(self.entries()),
        ensures
            self@.dom().finite(),
            self@.len() == self.entries().len(),
        decreases self.entries().len(),
    {
        lemma_map_len(self.entries());
    }

    /// The value of the key, if the object has it.
    pub fn get(&self, key: &str) -> (value: Option<&Value>)
        ensures
            value == (if self@.contains_key(key@) {
                Some(&self@[key@])
            } else {
                None
            }),
    {
        proof {
            use_type_invariant(self);
        }
        match find_key(&self.entries, key) {
            Some(i) => {
                proof {
                    lemma_entry_value(self.entries@, i as int);
                }
                Some(&self.entries[i].1)
            },
            None => None,
        }
    }

    /// Takes the key's value out of the object, if it has the key.
    pub fn remove(&mut self, key: &str) -> (value: Option<Value>)
        ensures
            value == (if old(self)@.contains_key(key@) {
                Some(old(self)@[key@])
            } else {
                None
            }),
            final(self)@ == old(self)@.remove(key@),
    {
        proof {
            use_type_invariant(&*self);
        }
        match find_key(&self.entries, key) {
            Some(i) => {
                proof {
                    lemma_entry_value(self.entries@, i as int);
                    lemma_remove_entry(self.entries@, i as int);
                }
                let mut entries = Vec::new();
                std::mem::swap(&mut entries, &mut self.entries);
                let entry = entries.remove(i);
                self.entries = entries;
                Some(entry.1)
            },
            None => {
                proof {
                    assert(self@ =~= self@.remove(key@));
                }
                None
            },
        }
    }

    /// Sets the key's value, giving back the value it replaced, if any.
    pub fn insert(&mut self, key: String, value: Value) -> (replaced: Option<Value>)
        ensures
            replaced == (if old(self)@.contains_key(key@) {
                Some(old(self)@[key@])
            } else {
                None
            }),
            final(self)@ == old(self)@.insert(key@, value),
    {
        proof {
            use_type_invariant(&*self);
        }
        let mut entries = Vec::new();
        std::mem::swap(&mut entries, &mut self.entries);
        let replaced = match find_key(&entries, key.as_str()) {
            Some(i) => {
                proof {
                    lemma_entry_value(entries@, i as int);
                    lemma_remove_entry(entries@, i as int);
                }
                let old_entry = entries.remove(i);
                Some(old_entry.1)
            },
            None => None,
        };
        proof {
            lemma_push_entry(entries@, key, value);
        }
        entries.push((key, value));
        self.entries = entries;
        proof {
            assert(self@ =~= old(self)@.insert(key@, value));
        }
        replaced
    }

    /// Gives up the object for its entries.
    pub fn into_entries(self) -> (entries: Vec<(String, Value)>)
        ensures
            entries@ == self.entries(),
            keys_distinct(entries@),
            entries_map(entries@) == self@,
    {
        proof {
            use_type_invariant(&self);
        }
        self.entries
    }
}

/// The number of keys in the map equals the number of entries.
proof fn lemma_map_len(entries: Seq<(String, Value)>)
    requires
        keys_distinct(entries),
    ensures
        entries_map(entries).dom().finite(),
        entries_map(entries).len() == entries.len(),
    decreases entries.len(),
{
    if entries.len() == 0 {
        assert(entries_map(entries) =~= Map::<Seq<char>, Value>::empty());
    } else {
        let last = entries.len() - 1;
        let init = entries.remove(last);
        lemma_remove_entry(entries, last);
        lemma_map_len(init);
        lemma_entry_value(entries, last);
        let m = entries_map(entries);
        let k = entries[last].0@;
        assert(m.remove(k).dom() == m.dom().remove(k));
        assert(m.dom() =~= m.remove(k).dom().insert(k));
    }
}

impl View for Object {
    type V = Map<Seq<char>, Value>;

    open spec fn view(&self) -> Map<Seq<char>, Value> {
        entries_map(self.entries())
    }
}

impl DeepView for Value {
    type V = Value;

    open spec fn deep_view(&self) -> Value {
        *self
    }
}

impl DeepView for Object {
    type V = Object;

    open spec fn deep_view(&self) -> Object {
        *self
    }
}

impl Number {
    /// The number as a `u64`, when it is a non-negative integer.
    pub open spec fn spec_as_u64(self) -> Option<u64> {
        match self {
            Number::PosInt(u) => Some(u),
            _ => None,
        }
    }

    /// The number as an `i64`, when it is an integer in the range of `i64`.
    pub open spec fn spec_as_i64(self) -> Option<i64> {
        match self {
            Number::PosInt(u) => if u <= i64::MAX {
                Some(u as i64)
            } else {
                None
            },
            Number::NegInt(i) => Some(i),
            Number::Float(_) => None,
        }
    }

    /// The number as a `u64`, when it is a non-negative integer.
    pub fn as_u64(&self) -> (n: Option<u64>)
        ensures
            n == self.spec_as_u64(),
    {
        match self {
            Number::PosInt(u) => Some(*u),
            _ => None,
        }
    }

    /// The number as an `i64`, when it is an integer in the range of `i64`.
    pub fn as_i64(&self) -> (n: Option<i64>)
        ensures
            n == self.spec_as_i64(),
    {
        match self {
            Number::PosInt(u) => if *u <= 9223372036854775807u64 {
                Some(*u as i64)
            } else {
                None
            },
            Number::NegInt(i) => Some(*i),
            Number::Float(_) => None,
        }
    }
}

} // verus!
