use vstd::prelude::*;

use crate::filter::{Address, Endpoint};

verus! {

/// The key of a session: the client a datagram came from and the upstream it goes to.
#[derive(Clone, Copy, Debug, PartialEq, Eq, Hash, Structural)]
pub struct AddrPair {
    pub client: Address,
    pub upstream: Address,
}

/// A datagram bound for `dest`.
#[derive(Clone, Debug, PartialEq, Eq)]
pub struct Packet {
    pub dest: Address,
    pub contents: Vec<u8>,
}

impl Packet {
    /// The reply that an upstream of `pair` sent, addressed back to the pair's client.
    pub fn reply(pair: AddrPair, contents: Vec<u8>) -> (r: Packet)
        ensures
            r.dest == pair.client,
            r.contents == contents,
    {
        Packet { dest: pair.client, contents }
    }
}

/// The sessions one datagram from `source` is forwarded through: one per
/// endpoint, in the endpoints' order.
pub fn forward_pairs(source: Address, endpoints: &Vec<Endpoint>) -> (r: Vec<AddrPair>)
    ensures
        r@.len() == endpoints@.len(),
        forall|i: int|
            0 <= i < r@.len() ==> r@[i] == (AddrPair { client: source, upstream: endpoints@[i].address }),
{
    let mut r: Vec<AddrPair> = Vec::new();
    let mut i: usize = 0;
    while i < endpoints.len()
        invariant
            i <= endpoints@.len(),
            r@.len() == i,
            forall|j: int|
                0 <= j < i ==> r@[j] == (AddrPair { client: source, upstream: endpoints@[j].address }),
        decreases endpoints@.len() - i,
    {
        r.push(AddrPair { client: source, upstream: endpoints[i].address });
        i = i + 1;
    }
    r
}

/// Whether no pair occurs twice in `keys`.
pub open spec fn unique_pairs(keys: Seq<AddrPair>) -> bool {
    forall|i: int, j: int| 0 <= i < keys.len() && 0 <= j < keys.len() && keys[i] == keys[j] ==> i == j
}

/// The sessions of a server, one per [`AddrPair`], in order of creation.
pub struct SessionRegistry<S> {
    entries: Vec<(AddrPair, S)>,
}

impl<S> SessionRegistry<S> {
    /// Each pair with its session, in order of creation.
    pub closed spec fn entries(&self) -> Seq<(AddrPair, S)> {
        self.entries@
    }

    /// The pairs that have a session, in order of creation.
    pub open spec fn keys(&self) -> Seq<AddrPair> {
        self.entries().map_values(|e: (AddrPair, S)| e.0)
    }

    /// At most one session per pair.
    #[verifier::type_invariant]
    closed spec fn inv(&self) -> bool {
        unique_pairs(self.keys())
    }

    /// A registry with no sessions.
    pub fn new() -> (r: SessionRegistry<S>)
        ensures
            r.entries() == Seq::<(AddrPair, S)>::empty(),
            r.keys() == Seq::<AddrPair>::empty(),
    {
        let r = SessionRegistry { entries: Vec::new() };
        assert(r.entries() =~= Seq::<(AddrPair, S)>::empty());
        assert(r.keys() =~= Seq::<AddrPair>::empty());
        r
    }

    /// The number of sessions.
    pub fn len(&self) -> (r: usize)
        ensures
            r == self.keys().len(),
    {
        self.entries.len()
    }

    /// Where the session of `pair` stands, if it has one.
    fn position(&self, pair: &AddrPair) -> (r: Option<usize>)
        ensures
            r matches Some(i) ==> i < self.keys().len() && self.keys()[i as int] == *pair,
            r is None ==> !self.keys().contains(*pair),
    {
        let mut i: usize = 0;
        while i < self.entries.len()
            invariant
                i <= self.entries@.len(),
                forall|j: int| 0 <= j < i ==> self.keys()[j] != *pair,
            decreases self.entries@.len() - i,
        {
            if self.entries[i].0 == *pair {
                return Some(i);
            }
            i = i + 1;
        }
        None
    }

    /// Whether `pair` has a session.
    pub fn contains(&self, pair: &AddrPair) -> (r: bool)
        ensures
            r == self.keys().contains(*pair),
    {
        self.position(pair).is_some()
    }

    /// The session of `pair`, if it has one.
    pub fn get(&self, pair: &AddrPair) -> (r: Option<&S>)
        ensures
            r is Some == self.keys().contains(*pair),
            r matches Some(s) ==> exists|i: int|
                0 <= i < self.entries().len() && self.entries()[i] == (*pair, *s),
    {
        match self.position(pair) {
            Some(i) => Some(&self.entries[i].1),
            None => None,
        }
    }

    /// Stores `session` for `pair` unless the pair already has one, in which
    /// case the registry is left as it was. Returns whether it was stored.
    pub fn insert_if_absent(&mut self, pair: AddrPair, session: S) -> (r: bool)
        ensures
            r == !old(self).keys().contains(pair),
            final(self).entries() == if r {
                old(self).entries().push((pair, session))
            } else {
                old(self).entries()
            },
            final(self).keys() == if r {
                old(self).keys().push(pair)
            } else {
                old(self).keys()
            },
            unique_pairs(final(self).keys()),
    {
        proof {
            use_type_invariant(&*self);
        }
        if self.contains(&pair) {
            return false;
        }
        let ghost before = self.keys();
        let mut taken = SessionRegistry { entries: Vec::new() };
        assert(taken.keys() =~= Seq::<AddrPair>::empty());
        core::mem::swap(self, &mut taken);
        proof {
            use_type_invariant(&taken);
        }
        let mut entries = taken.entries;
        entries.push((pair, session));
        let ghost grown = entries@.map_values(|e: (AddrPair, S)| e.0);
        assert(grown =~= before.push(pair));
        *self = SessionRegistry { entries };
        true
    }

    /// The registry never holds two sessions for one pair.
    pub fn unique(&self)
        ensures
            unique_pairs(self.keys()),
    {
        proof {
            use_type_invariant(self);
        }
    }
}

} // verus!
