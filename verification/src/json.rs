//! A JSON value model: the request body that the library assembles before it
//! is serialised.

use vstd::prelude::*;
use crate::text::str_equal;

verus! {

/// A JSON value. Numbers keep the text that a JSON serialiser writes for
/// them, so that no precision is lost on the way through.
#[derive(Debug)]
pub enum JsonValue {
    Null,
    Bool(bool),
    Number(String),
    String(String),
    Array(Vec<JsonValue>),
    Object(JsonMap),
}

/// A JSON object: a map from distinct keys to values.
#[derive(Debug)]
pub struct JsonMap {
    entries: Vec<(String, JsonValue)>,
}

/// The map that the entries `s` denote, a later entry overriding an earlier
/// one with the same key.
pub open spec fn entries_map(s: Seq<(String, JsonValue)>) -> Map<Seq<char>, JsonValue>
    decreases s.len(),
{
    if s.len() == 0 {
        Map::empty()
    } else {
        entries_map(s.drop_last()).insert(s.last().0@, s.last().1)
    }
}

/// Whether the keys of the entries `s` are pairwise distinct.
pub open spec fn keys_distinct(s: Seq<(String, JsonValue)>) -> bool {
    forall|i: int, j: int| 0 <= i < j < s.len() ==> s[i].0@ != s[j].0@
}

proof fn lemma_entries_map_dom(s: Seq<(String, JsonValue)>, k: Seq<char>)
    ensures
        entries_map(s).dom().contains(k) <==> exists|i: int| 0 <= i < s.len() && s[i].0@ == k,
    decreases s.len(),
{
    if s.len() > 0 {
        lemma_entries_map_dom(s.drop_last(), k);
        if entries_map(s).dom().contains(k) && s.last().0@ != k {
            let i = choose|i: int| 0 <= i < s.len() - 1 && s.drop_last()[i].0@ == k;
            assert(s[i].0@ == k);
        }
        if exists|i: int| 0 <= i < s.len() && s[i].0@ == k {
            let i = choose|i: int| 0 <= i < s.len() && s[i].0@ == k;
            if i < s.len() - 1 {
                assert(s.drop_last()[i].0@ == k);
            }
        }
    }
}

proof fn lemma_entries_map_at(s: Seq<(String, JsonValue)>, i: int)
    requires
        keys_distinct(s),
        0 <= i < s.len(),
    ensures
        entries_map(s).dom().contains(s[i].0@),
        entries_map(s)[s[i].0@] == s[i].1,
    decreases s.len(),
{
    if i < s.len() - 1 {
        assert(s.drop_last()[i] == s[i]);
        lemma_entries_map_at(s.drop_last(), i);
    }
}

proof fn lemma_entries_map_remove(s: Seq<(String, JsonValue)>, i: int)
    requires
        keys_distinct(s),
        0 <= i < s.len(),
    ensures
        entries_map(s.remove(i)) == entries_map(s).remove(s[i].0@),
    decreases s.len(),
{
    let k = s[i].0@;
    if i == s.len() - 1 {
        assert(s.remove(i) =~= s.drop_last());
        lemma_entries_map_dom(s.drop_last(), k);
        assert(!entries_map(s.drop_last()).dom().contains(k));
        assert(entries_map(s.remove(i)) =~= entries_map(s).remove(k));
    } else {
        let d = s.drop_last();
        assert(d[i] == s[i]);
        lemma_entries_map_remove(d, i);
        assert(s.remove(i) =~= d.remove(i).push(s.last()));
        assert(s.remove(i).drop_last() =~= d.remove(i));
        assert(entries_map(s.remove(i)) =~= entries_map(s).remove(k));
    }
}

/// The position of the entry of `entries` with the key `key`, if there is one.
fn find_key(entries: &Vec<(String, JsonValue)>, key: &str) -> (r: Option<usize>)
    ensures
        match r {
            Some(i) => i < entries@.len() && entries@[i as int].0@ == key@,
            None => forall|i: int| 0 <= i < entries@.len() ==> entries@[i].0@ != key@,
        },
{
    let mut i: usize = 0;
    while i < entries.len()
        invariant
            i <= entries@.len(),
            forall|j: int| 0 <= j < i ==> entries@[j].0@ != key@,
        decreases entries@.len() - i,
    {
        if str_equal(entries[i].0.as_str(), key) {
            return Some(i);
        }
        i = i + 1;
    }
    None
}

proof fn lemma_entries_map_len(s: Seq<(String, JsonValue)>)
    requires
        keys_distinct(s),
    ensures
        entries_map(s).dom().finite(),
        entries_map(s).dom().len() == s.len(),
    decreases s.len(),
{
    if s.len() > 0 {
        let d = s.drop_last();
        lemma_entries_map_len(d);
        lemma_entries_map_dom(d, s.last().0@);
        assert(!entries_map(d).dom().contains(s.last().0@));
    }
}

impl JsonMap {
    #[verifier::type_invariant]
    spec fn distinct_keys(self) -> bool {
        keys_distinct(self.entries@)
    }

    /// The entries of this object, in the order in which they were added.
    pub closed spec fn entry_seq(&self) -> Seq<(String, JsonValue)> {
        self.entries@
    }

    /// An empty object.
    pub fn new() -> (m: JsonMap)
        ensures
            m@ == Map::<Seq<char>, JsonValue>::empty(),
            m.entry_seq().len() == 0,
    {
        JsonMap { entries: Vec::new() }
    }

    /// Sets the value of `key` to `value`, replacing the value it had.
    pub fn insert(&mut self, key: String, value: JsonValue)
        ensures
            final(self)@ == old(self)@.insert(key@, value),
    {
        proof {
            use_type_invariant(&*self);
        }
        let ghost before = self.entries@;
        let mut entries: Vec<(String, JsonValue)> = Vec::new();
        std::mem::swap(&mut entries, &mut self.entries);
        let found = find_key(&entries, key.as_str());
        let ghost k = key@;
        match found {
            Some(i) => {
                proof {
                    lemma_entries_map_remove(before, i as int);
                }
                entries.remove(i);
            },
            None => {
                proof {
                    lemma_entries_map_dom(before, k);
                    assert(entries_map(before).remove(k) =~= entries_map(before));
                }
            },
        }
        let ghost rest = entries@;
        assert(entries_map(rest) == entries_map(before).remove(k));
        assert(forall|j: int| 0 <= j < rest.len() ==> rest[j].0@ != k) by {
            lemma_entries_map_dom(rest, k);
            assert forall|j: int| 0 <= j < rest.len() implies rest[j].0@ != k by {
                if rest[j].0@ == k {
                    assert(entries_map(rest).dom().contains(k));
                }
            }
        }
        entries.push((key, value));
        assert(entries@.drop_last() =~= rest);
        assert(entries_map(entries@) =~= entries_map(before).insert(k, value));
        self.entries = entries;
    }


    /// The value of `key`, if the object has one.
    pub fn get(&self, key: &str) -> (r: Option<&JsonValue>)
        ensures
            r == (if self@.dom().contains(key@) {
                Some(&self@[key@])
            } else {
                None
            }),
    {
        proof {
            use_type_invariant(self);
            lemma_entries_map_dom(self.entries@, key@);
        }
        match find_key(&self.entries, key) {
            Some(i) => {
                proof {
                    lemma_entries_map_at(self.entries@, i as int);
                }
                Some(&self.entries[i].1)
            },
            None => None,
        }
    }

    /// The number of keys of the object.
    pub fn len(&self) -> (n: usize)
        ensures
            n == self@.dom().len(),
    {
        proof {
            use_type_invariant(self);
            lemma_entries_map_len(self.entries@);
        }
        self.entries.len()
    }

    /// The entries of the object, each key once, in the order in which they
    /// were first added.
    pub fn into_entries(self) -> (r: Vec<(String, JsonValue)>)
        ensures
            r@ == self.entry_seq(),
            keys_distinct(r@),
            entries_map(r@) == self@,
    {
        proof {
            use_type_invariant(&self);
        }
        self.entries
    }
}

impl View for JsonMap {
    type V = Map<Seq<char>, JsonValue>;

    closed spec fn view(&self) -> Map<Seq<char>, JsonValue> {
        entries_map(self.entries@)
    }
}

} // verus!
