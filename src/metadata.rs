use vstd::prelude::*;

verus! {

/// Default metadata key under which a capture filter stores what it captured.
pub const CAPTURED_BYTES: &'static str = "quilkin.dev/captured_bytes";

/// A metadata value attached to a datagram.
#[derive(Clone, Debug, PartialEq, Eq)]
pub enum Value {
    Bytes(Vec<u8>),
    String(String),
    Bool(bool),
}

/// Mathematical form of a [`Value`].
pub enum ValueView {
    Bytes(Seq<u8>),
    String(Seq<char>),
    Bool(bool),
}

impl View for Value {
    type V = ValueView;

    open spec fn view(&self) -> ValueView {
        match self {
            Value::Bytes(b) => ValueView::Bytes(b@),
            Value::String(s) => ValueView::String(s@),
            Value::Bool(b) => ValueView::Bool(*b),
        }
    }
}

impl Value {
    /// The bytes held, if this is a byte value.
    pub fn as_bytes(&self) -> (r: Option<&Vec<u8>>)
        ensures
            match self {
                Value::Bytes(b) => r == Some(b),
                _ => r is None,
            },
    {
        match self {
            Value::Bytes(b) => Some(b),
            _ => None,
        }
    }

    /// The flag held, if this is a boolean value.
    pub fn as_bool(&self) -> (r: Option<bool>)
        ensures
            match self {
                Value::Bool(b) => r == Some(*b),
                _ => r is None,
            },
    {
        match self {
            Value::Bool(b) => Some(*b),
            _ => None,
        }
    }
}

/// The map that a list of entries denotes (a later entry for a key would
/// replace an earlier one; [`Metadata`] keeps one entry per key).
pub open spec fn entries_map(s: Seq<(String, Value)>) -> Map<Seq<char>, ValueView>
    decreases s.len(),
{
    if s.len() == 0 {
        Map::empty()
    } else {
        entries_map(s.drop_last()).insert(s.last().0@, s.last().1@)
    }
}

/// Index of the last entry whose key is `k`, or `-1` when there is none.
pub open spec fn last_index_of(s: Seq<(String, Value)>, k: Seq<char>) -> int
    decreases s.len(),
{
    if s.len() == 0 {
        -1
    } else if s.last().0@ == k {
        s.len() - 1
    } else {
        last_index_of(s.drop_last(), k)
    }
}

proof fn lemma_entries_lookup(s: Seq<(String, Value)>, k: Seq<char>)
    ensures
        -1 <= last_index_of(s, k) < s.len(),
        entries_map(s).contains_key(k) <==> last_index_of(s, k) >= 0,
        last_index_of(s, k) >= 0 ==> s[last_index_of(s, k)].0@ == k
            && entries_map(s)[k] == s[last_index_of(s, k)].1@,
        forall|j: int| last_index_of(s, k) < j < s.len() ==> s[j].0@ != k,
    decreases s.len(),
{
    if s.len() > 0 {
        lemma_entries_lookup(s.drop_last(), k);
        assert forall|j: int| 0 <= j < s.len() - 1 implies s[j] == s.drop_last()[j] by {}
    }
}

/// Whether no key occurs twice among `s`'s entries.
pub open spec fn unique_keys(s: Seq<(String, Value)>) -> bool {
    forall|i: int, j: int| 0 <= i < s.len() && 0 <= j < s.len() && s[i].0@ == s[j].0@ ==> i == j
}

/// What one key maps to once the entry for another (or the same) key is replaced.
proof fn lemma_update_at_key(s: Seq<(String, Value)>, i: int, e: (String, Value), q: Seq<char>)
    requires
        unique_keys(s),
        0 <= i < s.len(),
        e.0@ == s[i].0@,
    ensures
        entries_map(s.update(i, e)).contains_key(q) == entries_map(s).insert(e.0@, e.1@).contains_key(q),
        entries_map(s.update(i, e)).contains_key(q) ==> entries_map(s.update(i, e))[q]
            == entries_map(s).insert(e.0@, e.1@)[q],
{
    let t = s.update(i, e);
    let k = e.0@;
    lemma_entries_lookup(s, q);
    lemma_entries_lookup(t, q);
    let ls = last_index_of(s, q);
    let lt = last_index_of(t, q);
    if q == k {
        assert(t[i].0@ == q);
        assert(lt == i);
    } else {
        if lt < ls {
            assert(t[ls] == s[ls]);
        }
        if ls < lt {
            assert(t[lt] == s[lt]);
        }
        assert(ls == lt);
        if ls >= 0 {
            assert(t[ls] == s[ls]);
        }
    }
}

/// Replacing the value of the one entry for a key replaces it in the map.
proof fn lemma_entries_update(s: Seq<(String, Value)>, i: int, e: (String, Value))
    requires
        unique_keys(s),
        0 <= i < s.len(),
        e.0@ == s[i].0@,
    ensures
        entries_map(s.update(i, e)) == entries_map(s).insert(e.0@, e.1@),
        unique_keys(s.update(i, e)),
{
    let t = s.update(i, e);
    let k = e.0@;
    let m = entries_map(s).insert(k, e.1@);
    assert forall|q: Seq<char>| #[trigger] entries_map(t).contains_key(q) == m.contains_key(q) by {
        lemma_update_at_key(s, i, e, q);
    }
    assert forall|q: Seq<char>| #[trigger] entries_map(t).contains_key(q) implies entries_map(t)[q] == m[q] by {
        lemma_update_at_key(s, i, e, q);
    }
    assert(entries_map(t) =~= entries_map(s).insert(k, e.1@));
}

/// Adding an entry for a new key adds it to the map.
proof fn lemma_entries_push(s: Seq<(String, Value)>, e: (String, Value))
    requires
        unique_keys(s),
        !entries_map(s).contains_key(e.0@),
    ensures
        entries_map(s.push(e)) == entries_map(s).insert(e.0@, e.1@),
        unique_keys(s.push(e)),
{
    assert(s.push(e).drop_last() == s);
    lemma_entries_lookup(s, e.0@);
}

/// Per-datagram metadata: a map from key to [`Value`], kept as a list of
/// entries with one entry per key.
pub struct Metadata {
    entries: Vec<(String, Value)>,
}

impl View for Metadata {
    type V = Map<Seq<char>, ValueView>;

    closed spec fn view(&self) -> Map<Seq<char>, ValueView> {
        entries_map(self.entries@)
    }
}

impl Metadata {
    /// One entry per key.
    #[verifier::type_invariant]
    closed spec fn inv(&self) -> bool {
        unique_keys(self.entries@)
    }

    /// An empty map.
    pub fn new() -> (r: Metadata)
        ensures
            r@ == Map::<Seq<char>, ValueView>::empty(),
    {
        let r = Metadata { entries: Vec::new() };
        assert(r.entries@.len() == 0);
        r
    }

    /// Where the entry for `key` stands, if there is one.
    fn position(&self, key: &String) -> (r: Option<usize>)
        ensures
            r matches Some(i) ==> i < self.entries@.len() && self.entries@[i as int].0@ == key@,
            r is None <==> !self@.contains_key(key@),
            r matches Some(i) ==> self@[key@] == self.entries@[i as int].1@,
    {
        proof {
            lemma_entries_lookup(self.entries@, key@);
        }
        let mut i: usize = self.entries.len();
        while i > 0
            invariant
                i <= self.entries@.len(),
                last_index_of(self.entries@, key@) < i,
                forall|j: int|
                    0 <= j && last_index_of(self.entries@, key@) < j < self.entries@.len()
                        ==> self.entries@[j].0@ != key@,
                last_index_of(self.entries@, key@) >= 0 ==> self.entries@[last_index_of(
                    self.entries@,
                    key@,
                )].0@ == key@,
                self@.contains_key(key@) <==> last_index_of(self.entries@, key@) >= 0,
                last_index_of(self.entries@, key@) >= 0 ==> self@[key@]
                    == self.entries@[last_index_of(self.entries@, key@)].1@,
            decreases i,
        {
            if self.entries[i - 1].0 == *key {
                return Some(i - 1);
            }
            i = i - 1;
        }
        None
    }

    /// Maps `key` to `value`, replacing what `key` held before.
    pub fn insert(&mut self, key: String, value: Value)
        ensures
            final(self)@ == old(self)@.insert(key@, value@),
    {
        proof {
            use_type_invariant(&*self);
        }
        let found = self.position(&key);
        let mut taken = Metadata { entries: Vec::new() };
        assert(taken.entries@.len() == 0);
        core::mem::swap(self, &mut taken);
        proof {
            use_type_invariant(&taken);
        }
        let mut entries = taken.entries;
        let ghost before = entries@;
        match found {
            Some(i) => {
                proof {
                    lemma_entries_update(before, i as int, (key, value));
                }
                entries.set(i, (key, value));
            },
            None => {
                proof {
                    lemma_entries_push(before, (key, value));
                }
                entries.push((key, value));
            },
        }
        *self = Metadata { entries };
    }

    /// The value that `key` maps to, if any.
    pub fn get(&self, key: &String) -> (r: Option<&Value>)
        ensures
            r is Some <==> self@.contains_key(key@),
            r matches Some(v) ==> v@ == self@[key@],
    {
        match self.position(key) {
            Some(i) => Some(&self.entries[i].1),
            None => None,
        }
    }

    /// Whether `key` has a value.
    pub fn contains_key(&self, key: &String) -> (r: bool)
        ensures
            r == self@.contains_key(key@),
    {
        self.get(key).is_some()
    }
}

} // verus!
