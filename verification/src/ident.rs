//! Identifiers: peers, topics and source addresses.

use vstd::prelude::*;

verus! {

/// A peer, known by the base58 text of its identity.
#[derive(Debug)]
pub struct PeerId {
    pub base58: String,
}

impl View for PeerId {
    type V = Seq<char>;

    open spec fn view(&self) -> Seq<char> {
        self.base58@
    }
}

impl Clone for PeerId {
    fn clone(&self) -> (r: Self)
        ensures
            r@ == self@,
    {
        PeerId { base58: self.base58.clone() }
    }
}

impl PeerId {
    pub fn new(base58: String) -> (r: Self)
        ensures
            r@ == base58@,
    {
        PeerId { base58 }
    }

    /// The printable form of the identity.
    pub fn to_base58(&self) -> (r: String)
        ensures
            r@ == self@,
    {
        self.base58.clone()
    }

    pub fn same(&self, other: &PeerId) -> (r: bool)
        ensures
            r == (self@ == other@),
    {
        self.base58 == other.base58
    }
}

/// The hash that names a topic.
#[derive(Debug)]
pub struct TopicHash {
    pub hash: String,
}

impl View for TopicHash {
    type V = Seq<char>;

    open spec fn view(&self) -> Seq<char> {
        self.hash@
    }
}

impl Clone for TopicHash {
    fn clone(&self) -> (r: Self)
        ensures
            r@ == self@,
    {
        TopicHash { hash: self.hash.clone() }
    }
}

impl TopicHash {
    pub fn from_raw(hash: String) -> (r: Self)
        ensures
            r@ == hash@,
    {
        TopicHash { hash }
    }

    pub fn into_string(self) -> (r: String)
        ensures
            r@ == self@,
    {
        self.hash
    }

    pub fn same(&self, other: &TopicHash) -> (r: bool)
        ensures
            r == (self@ == other@),
    {
        self.hash == other.hash
    }
}

/// A source address: the 32 bits of an IPv4 address or the 128 bits of an IPv6 address.
#[derive(Clone, Copy, Debug, PartialEq, Eq, Structural)]
pub enum IpAddr {
    V4(u32),
    V6(u128),
}

/// `i` is the first position of `keys` at which `key` stands.
pub open spec fn first_at(keys: Seq<Seq<char>>, key: Seq<char>, i: int) -> bool {
    &&& 0 <= i < keys.len()
    &&& keys[i] == key
    &&& forall|j: int| 0 <= j < i ==> keys[j] != key
}

/// The first position of `keys` at which `key` stands.
pub open spec fn position_of(keys: Seq<Seq<char>>, key: Seq<char>) -> Option<int> {
    if exists|i: int| first_at(keys, key, i) {
        Some(choose|i: int| first_at(keys, key, i))
    } else {
        None
    }
}

pub proof fn lemma_position_found(keys: Seq<Seq<char>>, key: Seq<char>, i: int)
    requires
        first_at(keys, key, i),
    ensures
        position_of(keys, key) == Some(i),
{
    let c = choose|c: int| first_at(keys, key, c);
    if c < i {
        assert(keys[c] != key);
    }
    if i < c {
        assert(keys[i] != key);
    }
}

pub proof fn lemma_position_absent(keys: Seq<Seq<char>>, key: Seq<char>)
    requires
        forall|j: int| 0 <= j < keys.len() ==> keys[j] != key,
    ensures
        position_of(keys, key).is_none(),
{
    if exists|i: int| first_at(keys, key, i) {
        let c = choose|c: int| first_at(keys, key, c);
        assert(keys[c] != key);
    }
}

/// What `position_of` returns is a position at which the key stands, and a key that
/// stands anywhere has a position.
pub proof fn lemma_position_of(keys: Seq<Seq<char>>, key: Seq<char>)
    ensures
        match position_of(keys, key) {
            Some(i) => first_at(keys, key, i),
            None => forall|j: int| 0 <= j < keys.len() ==> keys[j] != key,
        },
{
    if position_of(keys, key).is_none() {
        assert forall|j: int| 0 <= j < keys.len() implies keys[j] != key by {
            if keys[j] == key {
                lemma_first_exists(keys, key, j);
            }
        }
    }
}

/// A key that stands at `j` has a first position.
pub proof fn lemma_first_exists(keys: Seq<Seq<char>>, key: Seq<char>, j: int)
    requires
        0 <= j < keys.len(),
        keys[j] == key,
    ensures
        exists|i: int| first_at(keys, key, i),
    decreases j,
{
    if forall|k: int| 0 <= k < j ==> keys[k] != key {
        assert(first_at(keys, key, j));
    } else {
        let k = choose|k: int| 0 <= k < j && keys[k] == key;
        lemma_first_exists(keys, key, k);
    }
}

/// No key stands at two positions.
pub open spec fn distinct(keys: Seq<Seq<char>>) -> bool {
    forall|i: int, j: int| 0 <= i < keys.len() && 0 <= j < keys.len() && keys[i] == keys[j] ==> i == j
}

/// The views of a sequence of peers.
pub open spec fn peer_keys(peers: Seq<PeerId>) -> Seq<Seq<char>> {
    Seq::new(peers.len(), |i: int| peers[i]@)
}

/// The views of a sequence of topics.
pub open spec fn topic_keys(topics: Seq<TopicHash>) -> Seq<Seq<char>> {
    Seq::new(topics.len(), |i: int| topics[i]@)
}

/// The first position of a peer in a list of peers, by linear search.
pub fn find_peer(peers: &Vec<PeerId>, peer: &PeerId) -> (r: Option<usize>)
    ensures
        match r {
            Some(i) => i < peers.len() && position_of(peer_keys(peers@), peer@) == Some(i as int)
                && peers[i as int]@ == peer@,
            None => position_of(peer_keys(peers@), peer@).is_none(),
        },
{
    let mut i: usize = 0;
    while i < peers.len()
        invariant
            i <= peers.len(),
            forall|j: int| 0 <= j < i ==> peer_keys(peers@)[j] != peer@,
        decreases peers.len() - i,
    {
        if peers[i].same(peer) {
            proof {
                lemma_position_found(peer_keys(peers@), peer@, i as int);
            }
            return Some(i);
        }
        i += 1;
    }
    proof {
        lemma_position_absent(peer_keys(peers@), peer@);
    }
    None
}

/// Whether `ip` stands in `ips`.
pub fn contains_ip(ips: &Vec<IpAddr>, ip: IpAddr) -> (r: bool)
    ensures
        r == ips@.contains(ip),
{
    let mut i: usize = 0;
    while i < ips.len()
        invariant
            i <= ips.len(),
            forall|j: int| 0 <= j < i ==> ips@[j] != ip,
        decreases ips.len() - i,
    {
        if ips[i] == ip {
            return true;
        }
        i += 1;
    }
    false
}

} // verus!
