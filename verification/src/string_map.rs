//! A small map from text to text that remembers the order in which its keys came.
use vstd::prelude::*;

verus! {

/// A map from text to text. No key occurs twice; entries keep the order in which their keys were
/// first inserted.
#[derive(Debug)]
pub struct StringMap {
    entries: Vec<(String, String)>,
}

/// The index at which `entries` holds `key`, or the length where it holds no such key.
pub open spec fn position(entries: Seq<(Seq<char>, Seq<char>)>, key: Seq<char>) -> int
    decreases entries.len(),
{
    if entries.len() == 0 {
        0
    } else if entries[0].0 == key {
        0
    } else {
        1 + position(entries.drop_first(), key)
    }
}

/// `entries` with `key` set to `value`: in place where the key is there, at the end where it is
/// not.
pub open spec fn with_entry(
    entries: Seq<(Seq<char>, Seq<char>)>,
    key: Seq<char>,
    value: Seq<char>,
) -> Seq<(Seq<char>, Seq<char>)> {
    let p = position(entries, key);
    if p < entries.len() {
        entries.update(p, (key, value))
    } else {
        entries.push((key, value))
    }
}

/// No key occurs twice.
pub open spec fn distinct_keys(entries: Seq<(Seq<char>, Seq<char>)>) -> bool {
    forall|i: int, j: int|
        0 <= i < j < entries.len() ==> #[trigger] entries[i].0 != #[trigger] entries[j].0
}

proof fn lemma_position(entries: Seq<(Seq<char>, Seq<char>)>, key: Seq<char>)
    ensures
        0 <= position(entries, key) <= entries.len(),
        position(entries, key) < entries.len() ==> entries[position(entries, key)].0 == key,
        forall|i: int| 0 <= i < position(entries, key) ==> (#[trigger] entries[i]).0 != key,
    decreases entries.len(),
{
    if entries.len() != 0 && entries[0].0 != key {
        let rest = entries.drop_first();
        lemma_position(rest, key);
        assert forall|i: int| 0 <= i < position(entries, key) implies (#[trigger] entries[i]).0
            != key by {
            if i > 0 {
                assert(rest[i - 1] == entries[i]);
            }
        }
    }
}

pub(crate) proof fn lemma_position_found(entries: Seq<(Seq<char>, Seq<char>)>, key: Seq<char>, p: int)
    requires
        0 <= p <= entries.len(),
        p < entries.len() ==> entries[p].0 == key,
        forall|i: int| 0 <= i < p ==> (#[trigger] entries[i]).0 != key,
    ensures
        position(entries, key) == p,
{
    lemma_position(entries, key);
    let q = position(entries, key);
    if q < p {
        assert(entries[q].0 != key);
    } else if p < q {
        assert(entries[p].0 != key);
    }
}

proof fn lemma_with_entry(
    entries: Seq<(Seq<char>, Seq<char>)>,
    key: Seq<char>,
    value: Seq<char>,
)
    requires
        distinct_keys(entries),
    ensures
        distinct_keys(with_entry(entries, key, value)),
{
    lemma_position(entries, key);
}

/// What a map gives for a key.
pub open spec fn lookup(entries: Seq<(Seq<char>, Seq<char>)>, key: Seq<char>) -> Option<
    Seq<char>,
> {
    let p = position(entries, key);
    if p < entries.len() {
        Some(entries[p].1)
    } else {
        None
    }
}

impl View for StringMap {
    type V = Seq<(Seq<char>, Seq<char>)>;

    closed spec fn view(&self) -> Seq<(Seq<char>, Seq<char>)> {
        Seq::new(self.entries@.len(), |i: int| (self.entries@[i].0@, self.entries@[i].1@))
    }
}

impl Clone for StringMap {
    fn clone(&self) -> (m: Self)
        ensures
            m@ == self@,
    {
        proof {
            use_type_invariant(self);
        }
        let mut entries: Vec<(String, String)> = Vec::new();
        let mut i: usize = 0;
        while i < self.entries.len()
            invariant
                i <= self.entries@.len(),
                entries@.len() == i,
                forall|j: int|
                    0 <= j < i ==> (#[trigger] entries@[j]).0@ == self.entries@[j].0@
                        && entries@[j].1@ == self.entries@[j].1@,
            decreases self.entries@.len() - i,
        {
            entries.push((self.entries[i].0.clone(), self.entries[i].1.clone()));
            i += 1;
        }
        assert(Seq::new(entries@.len(), |k: int| (entries@[k].0@, entries@[k].1@)) =~= self@);
        StringMap { entries }
    }
}

impl StringMap {
    #[verifier::type_invariant]
    spec fn wf(self) -> bool {
        distinct_keys(self@)
    }

    /// An empty map.
    pub fn new() -> (m: Self)
        ensures
            m@ == Seq::<(Seq<char>, Seq<char>)>::empty(),
    {
        let entries: Vec<(String, String)> = Vec::new();
        let ghost none = Seq::new(entries@.len(), |i: int| (entries@[i].0@, entries@[i].1@));
        assert(none =~= Seq::<(Seq<char>, Seq<char>)>::empty());
        StringMap { entries }
    }

    /// The number of entries. No key occurs twice among them.
    pub fn len(&self) -> (n: usize)
        ensures
            n == self@.len(),
            distinct_keys(self@),
    {
        proof {
            use_type_invariant(self);
        }
        self.entries.len()
    }

    /// The key of the entry at `i`.
    pub fn key(&self, i: usize) -> (k: &str)
        requires
            i < self@.len(),
        ensures
            k@ == self@[i as int].0,
    {
        self.entries[i].0.as_str()
    }

    /// The value of the entry at `i`.
    pub fn value(&self, i: usize) -> (v: &str)
        requires
            i < self@.len(),
        ensures
            v@ == self@[i as int].1,
    {
        self.entries[i].1.as_str()
    }

    fn find(&self, key: &String) -> (p: usize)
        ensures
            p == position(self@, key@),
    {
        let mut i: usize = 0;
        while i < self.entries.len()
            invariant
                i <= self@.len(),
                self@.len() == self.entries@.len(),
                forall|j: int| 0 <= j < i ==> (#[trigger] self@[j]).0 != key@,
            decreases self.entries@.len() - i,
        {
            if self.entries[i].0 == *key {
                assert(self@[i as int].0 == key@);
                proof {
                    lemma_position_found(self@, key@, i as int);
                }
                return i;
            }
            assert(self@[i as int].0 != key@);
            i += 1;
        }
        proof {
            lemma_position_found(self@, key@, i as int);
        }
        i
    }

    /// Sets `key` to `value`.
    pub fn insert(&mut self, key: String, value: String)
        ensures
            final(self)@ == with_entry(old(self)@, key@, value@),
    {
        proof {
            use_type_invariant(&*self);
            lemma_with_entry(self@, key@, value@);
            lemma_position(self@, key@);
        }
        let p = self.find(&key);
        let ghost before = self@;
        let ghost k = key@;
        let ghost v = value@;
        let mut entries: Vec<(String, String)> = Vec::new();
        std::mem::swap(&mut entries, &mut self.entries);
        if p < entries.len() {
            entries.set(p, (key, value));
        } else {
            entries.push((key, value));
        }
        assert(Seq::new(entries@.len(), |i: int| (entries@[i].0@, entries@[i].1@)) =~= with_entry(
            before,
            k,
            v,
        ));
        self.entries = entries;
    }

    /// Adds an entry for a key that is not there yet.
    pub fn add_new(&mut self, key: &str, value: String)
        requires
            forall|i: int| 0 <= i < old(self)@.len() ==> (#[trigger] old(self)@[i]).0 != key@,
        ensures
            final(self)@ == old(self)@.push((key@, value@)),
    {
        proof {
            lemma_position_found(self@, key@, self@.len() as int);
        }
        self.insert(key.to_owned(), value);
    }

    /// The value of `key`, where it is there.
    pub fn get(&self, key: &String) -> (v: Option<&str>)
        ensures
            v is Some <==> lookup(self@, key@) is Some,
            v matches Some(s) ==> lookup(self@, key@) == Some(s@),
    {
        proof {
            lemma_position(self@, key@);
        }
        let p = self.find(key);
        if p < self.entries.len() {
            Some(self.entries[p].1.as_str())
        } else {
            None
        }
    }
}

/// A key that is set has that value, and every other key keeps its own.
pub proof fn law_insert(
    entries: Seq<(Seq<char>, Seq<char>)>,
    key: Seq<char>,
    value: Seq<char>,
    other: Seq<char>,
)
    ensures
        lookup(with_entry(entries, key, value), other) == (if other == key {
            Some(value)
        } else {
            lookup(entries, other)
        }),
{
    let after = with_entry(entries, key, value);
    let p = position(entries, key);
    lemma_position(entries, key);
    lemma_position(entries, other);
    let q = position(entries, other);
    if other == key {
        assert forall|i: int| 0 <= i < p implies (#[trigger] after[i]).0 != key by {
            assert(entries[i].0 != key);
        }
        lemma_position_found(after, key, p);
    } else if q < entries.len() {
        assert forall|i: int| 0 <= i < q implies (#[trigger] after[i]).0 != other by {
            assert(entries[i].0 != other);
        }
        lemma_position_found(after, other, q);
    } else {
        assert forall|i: int| 0 <= i < after.len() implies (#[trigger] after[i]).0 != other by {
            if i < entries.len() {
                assert(entries[i].0 != other);
            }
        }
        lemma_position_found(after, other, after.len() as int);
    }
}

/// The value of a key is that of the first entry with the key; a key that no entry has, has no
/// value.
pub proof fn law_lookup(entries: Seq<(Seq<char>, Seq<char>)>, key: Seq<char>, i: int)
    ensures
        0 <= i < entries.len() && entries[i].0 == key && (forall|j: int|
            0 <= j < i ==> (#[trigger] entries[j]).0 != key) ==> lookup(entries, key) == Some(
            entries[i].1,
        ),
        (forall|j: int| 0 <= j < entries.len() ==> (#[trigger] entries[j]).0 != key) ==> lookup(
            entries,
            key,
        ) is None,
{
    if 0 <= i < entries.len() && entries[i].0 == key && (forall|j: int|
        0 <= j < i ==> (#[trigger] entries[j]).0 != key) {
        lemma_position_found(entries, key, i);
    }
    if forall|j: int| 0 <= j < entries.len() ==> (#[trigger] entries[j]).0 != key {
        lemma_position_found(entries, key, entries.len() as int);
    }
}

/// Setting a key that is there changes the value at its place; setting a new one adds it at the end.
/// No other entry moves or changes.
pub proof fn law_insert_keeps_order(
    entries: Seq<(Seq<char>, Seq<char>)>,
    key: Seq<char>,
    value: Seq<char>,
    i: int,
)
    requires
        distinct_keys(entries),
    ensures
        ({
            let after = with_entry(entries, key, value);
            &&& after.len() == entries.len() || after.len() == entries.len() + 1
            &&& after.len() == entries.len() <==> exists|j: int|
                0 <= j < entries.len() && (#[trigger] entries[j]).0 == key
            &&& after.len() > entries.len() ==> after.last() == (key, value)
            &&& 0 <= i < entries.len() ==> after[i] == (if entries[i].0 == key {
                (key, value)
            } else {
                entries[i]
            })
        }),
{
    let p = position(entries, key);
    lemma_position(entries, key);
    if p < entries.len() {
        assert(entries[p].0 == key);
    }
    if 0 <= i < entries.len() && entries[i].0 == key && i != p {
        if i < p {
            assert(entries[i].0 != key);
        } else {
            assert(entries[p].0 != entries[i].0);
        }
    }
}

} // verus!
