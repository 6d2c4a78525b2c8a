//! JSON values, as far as decisions look at them.

use crate::text::same_text;
use vstd::prelude::*;

verus! {

/// A JSON number: an integer, or the bits of a floating-point number, which are
/// carried and never looked at.
#[derive(Clone, Copy, Debug, PartialEq, Eq, Structural)]
pub enum JsonNumber {
    Unsigned(u64),
    Negative(i64),
    FloatBits(u64),
}

/// A JSON value.
pub enum Json {
    Null,
    Bool(bool),
    Number(JsonNumber),
    Text(String),
    Array(Vec<Json>),
    Object(JsonObject),
}

/// A JSON object: keys with their values, each key once.
pub struct JsonObject {
    entries: Vec<(String, Json)>,
}

impl JsonObject {
    #[verifier::type_invariant]
    spec fn keys_are_distinct(self) -> bool {
        distinct_keys(self.entries@)
    }
}

spec fn distinct_keys(entries: Seq<(String, Json)>) -> bool {
    forall|i: int, j: int|
        0 <= i < entries.len() && 0 <= j < entries.len() && i != j ==> (#[trigger] entries[i]).0@
            != (#[trigger] entries[j]).0@
}

spec fn key_at(entries: Seq<(String, Json)>, key: Seq<char>, i: int) -> bool {
    0 <= i < entries.len() && entries[i].0@ == key
}

spec fn entry_map(entries: Seq<(String, Json)>) -> Map<Seq<char>, Json> {
    Map::new(
        |key: Seq<char>| exists|i: int| key_at(entries, key, i),
        |key: Seq<char>| entries[choose|i: int| key_at(entries, key, i)].1,
    )
}

impl View for JsonObject {
    type V = Map<Seq<char>, Json>;

    closed spec fn view(&self) -> Map<Seq<char>, Json> {
        entry_map(self.entries@)
    }
}

proof fn lemma_entry(entries: Seq<(String, Json)>, i: int)
    requires
        distinct_keys(entries),
        0 <= i < entries.len(),
    ensures
        entry_map(entries).contains_key(entries[i].0@),
        entry_map(entries)[entries[i].0@] == entries[i].1,
{
    let key = entries[i].0@;
    assert(key_at(entries, key, i));
    let j = choose|j: int| key_at(entries, key, j);
    assert(key_at(entries, key, j));
    if i != j {
        assert(entries[i].0@ != entries[j].0@);
    }
}

/// Removing an entry removes its key and nothing else.
proof fn lemma_without_entry(entries: Seq<(String, Json)>, i: int)
    requires
        distinct_keys(entries),
        0 <= i < entries.len(),
    ensures
        distinct_keys(entries.remove(i)),
        entry_map(entries.remove(i)) == entry_map(entries).remove(entries[i].0@),
{
    let rest = entries.remove(i);
    let key = entries[i].0@;
    assert forall|a: int, b: int| 0 <= a < rest.len() && 0 <= b < rest.len() && a != b implies (
    #[trigger] rest[a]).0@ != (#[trigger] rest[b]).0@ by {
        let x = if a < i { a } else { a + 1 };
        let y = if b < i { b } else { b + 1 };
        assert(entries[x].0@ != entries[y].0@);
    }
    assert forall|k: Seq<char>| entry_map(rest).contains_key(k) == entry_map(entries).remove(
        key,
    ).contains_key(k) by {
        if exists|a: int| key_at(rest, k, a) {
            let a = choose|a: int| key_at(rest, k, a);
            let x = if a < i { a } else { a + 1 };
            assert(key_at(entries, k, x));
            assert(entries[x].0@ != entries[i].0@);
        }
        if k != key && exists|x: int| key_at(entries, k, x) {
            let x = choose|x: int| key_at(entries, k, x);
            let a = if x < i { x } else { x - 1 };
            assert(key_at(rest, k, a));
        }
    }
    assert forall|k: Seq<char>| entry_map(rest).contains_key(k) implies entry_map(rest)[k]
        == entry_map(entries).remove(key)[k] by {
        let a = choose|a: int| key_at(rest, k, a);
        let x = if a < i { a } else { a + 1 };
        lemma_entry(rest, a);
        lemma_entry(entries, x);
        assert(entries[x].0@ != entries[i].0@);
    }
    assert(entry_map(rest) =~= entry_map(entries).remove(key));
}

/// An entry with a new key adds the key and nothing else.
proof fn lemma_with_entry(entries: Seq<(String, Json)>, entry: (String, Json))
    requires
        distinct_keys(entries),
        !entry_map(entries).contains_key(entry.0@),
    ensures
        distinct_keys(entries.push(entry)),
        entry_map(entries.push(entry)) == entry_map(entries).insert(entry.0@, entry.1),
{
    let more = entries.push(entry);
    let n = entries.len() as int;
    assert forall|a: int| 0 <= a < n implies (#[trigger] entries[a]).0@ != entry.0@ by {
        assert(key_at(entries, entries[a].0@, a));
    }
    assert forall|a: int, b: int| 0 <= a < more.len() && 0 <= b < more.len() && a != b implies (
    #[trigger] more[a]).0@ != (#[trigger] more[b]).0@ by {
        if a < n && b < n {
            assert(entries[a].0@ != entries[b].0@);
        } else if a < n {
            assert(entries[a].0@ != entry.0@);
        } else {
            assert(entries[b].0@ != entry.0@);
        }
    }
    assert forall|k: Seq<char>| entry_map(more).contains_key(k) == entry_map(entries).insert(
        entry.0@,
        entry.1,
    ).contains_key(k) by {
        if exists|a: int| key_at(more, k, a) {
            let a = choose|a: int| key_at(more, k, a);
            if a < n {
                assert(key_at(entries, k, a));
            }
        }
        if exists|a: int| key_at(entries, k, a) {
            let a = choose|a: int| key_at(entries, k, a);
            assert(key_at(more, k, a));
        }
        if k == entry.0@ {
            assert(key_at(more, k, n));
        }
    }
    assert forall|k: Seq<char>| entry_map(more).contains_key(k) implies entry_map(more)[k]
        == entry_map(entries).insert(entry.0@, entry.1)[k] by {
        let a = choose|a: int| key_at(more, k, a);
        lemma_entry(more, a);
        if a < n {
            lemma_entry(entries, a);
            assert(entries[a].0@ != entry.0@);
        }
    }
    assert(entry_map(more) =~= entry_map(entries).insert(entry.0@, entry.1));
}

fn find_key(entries: &Vec<(String, Json)>, key: &str) -> (r: Option<usize>)
    ensures
        match r {
            Some(i) => key_at(entries@, key@, i as int),
            None => !entry_map(entries@).contains_key(key@),
        },
{
    let mut i: usize = 0;
    while i < entries.len()
        invariant
            i <= entries.len(),
            forall|j: int| 0 <= j < i ==> (#[trigger] entries@[j]).0@ != key@,
        decreases entries.len() - i,
    {
        if same_text(&entries[i].0, key) {
            return Some(i);
        }
        i += 1;
    }
    assert forall|j: int| !key_at(entries@, key@, j) by {}
    None
}

impl JsonObject {
    /// The object without any key.
    pub fn new() -> (r: JsonObject)
        ensures
            r@ == Map::<Seq<char>, Json>::empty(),
    {
        let r = JsonObject { entries: Vec::new() };
        assert(r@ =~= Map::<Seq<char>, Json>::empty());
        r
    }

    /// The value of a key.
    pub fn get(&self, key: &str) -> (r: Option<&Json>)
        ensures
            match r {
                Some(value) => self@.contains_key(key@) && *value == self@[key@],
                None => !self@.contains_key(key@),
            },
    {
        proof {
            use_type_invariant(self);
        }
        match find_key(&self.entries, key) {
            Some(i) => {
                proof {
                    lemma_entry(self.entries@, i as int);
                }
                Some(&self.entries[i].1)
            },
            None => None,
        }
    }

    /// Takes a key and its value out of the object.
    pub fn remove(&mut self, key: &str) -> (r: Option<Json>)
        ensures
            final(self)@ == old(self)@.remove(key@),
            match r {
                Some(value) => old(self)@.contains_key(key@) && value == old(self)@[key@],
                None => !old(self)@.contains_key(key@),
            },
    {
        proof {
            use_type_invariant(&*self);
        }
        let mut entries: Vec<(String, Json)> = Vec::new();
        std::mem::swap(&mut entries, &mut self.entries);
        match find_key(&entries, key) {
            Some(i) => {
                proof {
                    lemma_entry(entries@, i as int);
                    lemma_without_entry(entries@, i as int);
                }
                let (_, value) = entries.remove(i);
                self.entries = entries;
                Some(value)
            },
            None => {
                self.entries = entries;
                assert(self@ =~= old(self)@.remove(key@));
                None
            },
        }
    }

    /// Gives a key its value, in place of the one that it had.
    pub fn insert(&mut self, key: String, value: Json)
        ensures
            final(self)@ == old(self)@.insert(key@, value),
    {
        let ghost before = self@;
        let _ = self.remove(&key);
        proof {
            use_type_invariant(&*self);
        }
        let mut entries: Vec<(String, Json)> = Vec::new();
        std::mem::swap(&mut entries, &mut self.entries);
        proof {
            lemma_with_entry(entries@, (key, value));
            assert(before.remove(key@).insert(key@, value) =~= before.insert(key@, value));
        }
        entries.push((key, value));
        self.entries = entries;
    }

    /// The keys with their values.
    pub fn into_entries(self) -> (r: Vec<(String, Json)>)
        ensures
            forall|i: int|
                0 <= i < r@.len() ==> self@.contains_key((#[trigger] r@[i]).0@) && self@[r@[i].0@]
                    == r@[i].1,
            forall|key: Seq<char>| self@.contains_key(key) ==> exists|i: int|
                0 <= i < r@.len() && (#[trigger] r@[i]).0@ == key,
            forall|i: int, j: int|
                0 <= i < r@.len() && 0 <= j < r@.len() && i != j ==> (#[trigger] r@[i]).0@ != (
                #[trigger] r@[j]).0@,
    {
        proof {
            use_type_invariant(&self);
            assert forall|i: int| 0 <= i < self.entries@.len() implies self@.contains_key(
                (#[trigger] self.entries@[i]).0@,
            ) && self@[self.entries@[i].0@] == self.entries@[i].1 by {
                lemma_entry(self.entries@, i);
            }
            assert forall|key: Seq<char>| self@.contains_key(key) implies exists|i: int|
                0 <= i < self.entries@.len() && (#[trigger] self.entries@[i]).0@ == key by {
                let i = choose|i: int| key_at(self.entries@, key, i);
                assert(self.entries@[i].0@ == key);
            }
        }
        self.entries
    }
}

/// The keys and values of an object; none for any other value.
pub open spec fn fields(value: Json) -> Map<Seq<char>, Json> {
    match value {
        Json::Object(object) => object@,
        _ => Map::empty(),
    }
}

/// The value of a key, where the value is an object that has it.
pub open spec fn field(value: Json, key: Seq<char>) -> Option<Json> {
    if fields(value).contains_key(key) {
        Some(fields(value)[key])
    } else {
        None
    }
}

/// The text under a key.
pub open spec fn text_field(value: Json, key: Seq<char>) -> Option<Seq<char>> {
    match field(value, key) {
        Some(Json::Text(text)) => Some(text@),
        _ => None,
    }
}

/// The flag under a key.
pub open spec fn flag_field(value: Json, key: Seq<char>) -> Option<bool> {
    match field(value, key) {
        Some(Json::Bool(flag)) => Some(flag),
        _ => None,
    }
}

impl Json {
    /// The value of a key, where this is an object that has it.
    pub fn get(&self, key: &str) -> (r: Option<&Json>)
        ensures
            match r {
                Some(value) => field(*self, key@) == Some(*value),
                None => field(*self, key@) is None,
            },
    {
        match self {
            Json::Object(object) => object.get(key),
            _ => None,
        }
    }

    /// Tells whether this is `null`.
    pub fn is_null(&self) -> (r: bool)
        ensures
            r == (*self is Null),
    {
        match self {
            Json::Null => true,
            _ => false,
        }
    }
}

} // verus!
