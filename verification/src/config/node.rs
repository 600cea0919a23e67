//! The configuration record of one replica and the checks it has to pass
//! before anything else may rely on it.

use vstd::prelude::*;
use vstd::std_specs::hash::*;
use vstd::std_specs::iter::IteratorSpec;
use std::collections::HashMap;
use std::collections::VecDeque;
use super::{Replica, ParseError, is_valid_replica, spec_is_valid_replica};
use super::address::{port_in, port_of, wildcard_address, wildcard_text};
use crate::crypto::Algorithm;

verus! {

broadcast use vstd::std_specs::hash::group_hash_axioms;

/// The ids in `dom` that no replica of a cluster of `n` has.
pub open spec fn stray_ids(dom: Set<Replica>, n: usize) -> Set<Replica> {
    Set::new(|k: Replica| dom.contains(k) && !spec_is_valid_replica(k, n))
}

/// The ids whose key in `keys` does not have `size` bytes.
pub open spec fn missized_ids(keys: Map<Replica, Vec<u8>>, size: usize) -> Set<Replica> {
    Set::new(|k: Replica| keys.contains_key(k) && keys[k].len() != size)
}

/// Whether `k` is the smallest id in `ids`.
pub open spec fn is_least(ids: Set<Replica>, k: Replica) -> bool {
    ids.contains(k) && forall|j: Replica| ids.contains(j) ==> k <= j
}

/// The smallest id in `ids`, where there is one.
pub open spec fn least(ids: Set<Replica>) -> Replica {
    choose|k: Replica| is_least(ids, k)
}

/// Whether some id in `dom` is not an id of a cluster of `n`.
pub open spec fn has_stray_id(dom: Set<Replica>, n: usize) -> bool {
    exists|k: Replica| stray_ids(dom, n).contains(k)
}

/// Whether some key in `keys` does not have `size` bytes.
pub open spec fn has_missized_key(keys: Map<Replica, Vec<u8>>, size: usize) -> bool {
    exists|k: Replica| missized_ids(keys, size).contains(k)
}

/// A set of ids has at most one smallest element.
pub proof fn lemma_least_is_unique(ids: Set<Replica>, a: Replica, b: Replica)
    requires
        is_least(ids, a),
        is_least(ids, b),
    ensures
        a == b,
{
}

/// What one replica knows of its cluster.
///
/// The record is filled from a file, may have its addresses and its round
/// timeout replaced, and is then checked once with [`Node::validate`]. After
/// that nothing changes it any more.
#[derive(Debug, Clone)]
pub struct Node {
    /// Where each replica listens for the others.
    pub net_map: HashMap<Replica, String>,
    /// The base timeout of a protocol round.
    pub delta: u64,
    /// This replica's own id.
    pub id: Replica,
    /// How many replicas the cluster has.
    pub num_nodes: usize,
    /// How many of them may be faulty.
    pub num_faults: usize,
    /// How many transactions go into one block.
    pub block_size: usize,
    /// The port on which clients are served.
    pub client_port: u16,
    /// The size of a transaction's payload.
    pub payload: usize,
    /// The signature scheme in force.
    pub crypto_alg: Algorithm,
    /// The public key of each replica.
    pub pk_map: HashMap<Replica, Vec<u8>>,
    /// This replica's own secret key.
    pub secret_key_bytes: Vec<u8>,
    /// The public parameters of each replica's commitment scheme, as
    /// serialized bytes. They are carried along and never looked into.
    pub bi_pp_map: HashMap<Replica, Vec<u8>>,
    /// This replica's own parameters of that scheme, if it holds any.
    pub bi_p: Option<Vec<u8>>,
    /// The parameters of the randomness beacon, if this replica holds any.
    pub rand_beacon_parameter: Option<Vec<u8>>,
    /// The shares that have come in from each replica and wait to be used.
    pub rand_beacon_queue: HashMap<Replica, VecDeque<Vec<u8>>>,
    /// The batches of shares, with their commitments, that are complete.
    pub rand_beacon_shares: Vec<(Vec<VecDeque<Vec<u8>>>, Vec<Vec<u8>>)>,
}

/// The smallest id of `map` that is not an id of a cluster of `n`.
fn least_stray_id<V>(map: &HashMap<Replica, V>, n: usize) -> (found: Option<Replica>)
    ensures
        found is None <==> forall|k: Replica| map@.contains_key(k) ==> spec_is_valid_replica(k, n),
        found matches Some(k) ==> is_least(stray_ids(map@.dom(), n), k),
{
    let mut best: Option<Replica> = None;
    let ghost keys: Seq<&Replica> = spec_keys_iter(map).remaining();
    for k in it: map.keys()
        invariant
            it.seq() == keys,
            keys.unref().to_set() == map@.dom(),
            best is None ==> forall|i: int|
                0 <= i < it.index() ==> spec_is_valid_replica(*keys[i], n),
            best matches Some(b) ==> {
                &&& map@.dom().contains(b)
                &&& !spec_is_valid_replica(b, n)
                &&& forall|i: int|
                    0 <= i < it.index() && !spec_is_valid_replica(*keys[i], n) ==> b <= *keys[i]
            },
    {
        if !is_valid_replica(*k, n) {
            match best {
                Some(b) => {
                    if *k < b {
                        best = Some(*k);
                    }
                },
                None => {
                    best = Some(*k);
                },
            }
        }
    }
    proof {
        assert forall|j: Replica| stray_ids(map@.dom(), n).contains(j) implies best matches Some(b)
            && b <= j by {
            assert(keys.unref().to_set().contains(j));
            let i = choose|i: int| 0 <= i < keys.len() && keys.unref()[i] == j;
            assert(*keys[i] == j);
        }
        if best is None {
            assert forall|k: Replica| map@.contains_key(k) implies spec_is_valid_replica(k, n) by {
                assert(!stray_ids(map@.dom(), n).contains(k));
            }
        }
    }
    best
}


/// The address that position `idx` of a list of addresses gives to the
/// replica `id`: the listed one; at the replica's own position every
/// interface of the machine, at the port that the listed address ends in.
pub open spec fn patched_address(id: Replica, idx: int, addr: Seq<char>) -> Seq<char> {
    if idx == id {
        wildcard_text(port_in(addr)->0)
    } else {
        addr
    }
}

/// The size, and the id of its owner, of the wrongly sized key in `keys`
/// whose owner has the smallest id.
fn least_missized_key(keys: &HashMap<Replica, Vec<u8>>, size: usize) -> (found: Option<
    (Replica, usize),
>)
    ensures
        found is None <==> forall|k: Replica| keys@.contains_key(k) ==> keys@[k].len() == size,
        found matches Some((k, len)) ==> is_least(missized_ids(keys@, size), k) && len
            == keys@[k].len(),
{
    let mut best: Option<(Replica, usize)> = None;
    let ghost entries: Seq<(&Replica, &Vec<u8>)> = spec_hash_map_iter(keys).remaining();
    for entry in it: keys.iter()
        invariant
            it.seq() == entries,
            entries.unref().to_set() == keys@.kv_pairs(),
            forall|i: int|
                0 <= i < entries.len() ==> keys@.contains_key(*(#[trigger] entries[i]).0)
                    && keys@[*entries[i].0] == *entries[i].1,
            best is None ==> forall|i: int|
                0 <= i < it.index() ==> (#[trigger] entries[i]).1.len() == size,
            best matches Some((b, len)) ==> {
                &&& keys@.contains_key(b)
                &&& keys@[b].len() == len
                &&& len != size
                &&& forall|i: int|
                    0 <= i < it.index() && (#[trigger] entries[i]).1.len() != size ==> b
                        <= *entries[i].0
            },
    {
        let (k, v) = entry;
        if v.len() != size {
            match best {
                Some((b, _)) => {
                    if *k < b {
                        best = Some((*k, v.len()));
                    }
                },
                None => {
                    best = Some((*k, v.len()));
                },
            }
        }
    }
    proof {
        assert forall|j: Replica| missized_ids(keys@, size).contains(j) implies best matches Some(
            (b, _),
        ) && b <= j by {
            assert(keys@.kv_pairs().contains((j, keys@[j])));
            assert(entries.unref().to_set().contains((j, keys@[j])));
            let i = choose|i: int| 0 <= i < entries.len() && entries.unref()[i] == (j, keys@[j]);
            assert(*entries[i].0 == j && *entries[i].1 == keys@[j]);
        }
        if best is None {
            assert forall|k: Replica| keys@.contains_key(k) implies keys@[k].len() == size by {
                assert(!missized_ids(keys@, size).contains(k));
            }
        }
    }
    best
}

impl Node {
    /// Whether the record meets every condition that a replica's
    /// configuration has to meet.
    pub open spec fn is_valid(&self) -> bool {
        // one address for each replica
        &&& self.net_map@.len() == self.num_nodes
        // fewer than half of the replicas may be faulty
        &&& 2 * self.num_faults < self.num_nodes
        // every address belongs to a replica of the cluster
        &&& forall|k: Replica|
            self.net_map@.contains_key(k) ==> spec_is_valid_replica(k, self.num_nodes)
        // every public key belongs to a replica of the cluster
        &&& forall|k: Replica|
            self.pk_map@.contains_key(k) ==> spec_is_valid_replica(k, self.num_nodes)
        // every public key has the size that the scheme fixes
        &&& forall|k: Replica|
            self.pk_map@.contains_key(k) ==> (self.crypto_alg.spec_public_key_size() matches Some(
                size,
            ) ==> self.pk_map@[k].len() == size)
        // the secret key has the size that the scheme fixes
        &&& (self.crypto_alg.spec_secret_key_size() matches Some(size)
            ==> self.secret_key_bytes.len() == size)
        // the scheme is one that replicas can run with
        &&& self.crypto_alg.spec_is_implemented()
    }

    /// What [`Node::validate`] answers: the first condition of
    /// [`Node::is_valid`] that the record fails, in the order in which they
    /// stand there, and with the smallest id where several ids fail it.
    pub open spec fn verdict(&self) -> Result<(), ParseError> {
        let n = self.num_nodes;
        let pk_size = self.crypto_alg.spec_public_key_size();
        let sk_size = self.crypto_alg.spec_secret_key_size();
        if self.net_map@.len() != n {
            Err(ParseError::InvalidMapLen(n, self.net_map.len()))
        } else if 2 * self.num_faults >= n {
            Err(ParseError::IncorrectFaults(self.num_faults, n))
        } else if has_stray_id(self.net_map@.dom(), n) {
            Err(ParseError::InvalidMapEntry(least(stray_ids(self.net_map@.dom(), n))))
        } else if has_stray_id(self.pk_map@.dom(), n) {
            Err(ParseError::InvalidMapEntry(least(stray_ids(self.pk_map@.dom(), n))))
        } else if pk_size is Some && has_missized_key(self.pk_map@, pk_size->0) {
            let k = least(missized_ids(self.pk_map@, pk_size->0));
            Err(ParseError::InvalidPkSize(self.pk_map@[k].len()))
        } else if sk_size is Some && self.secret_key_bytes.len() != sk_size->0 {
            Err(ParseError::InvalidSkSize(self.secret_key_bytes.len()))
        } else if !self.crypto_alg.spec_is_implemented() {
            Err(ParseError::Unimplemented("RSA"))
        } else {
            Ok(())
        }
    }

    /// Checks the record and names the first defect.
    ///
    /// The conditions are tried in the order of [`Node::is_valid`], and the
    /// first one that fails decides the answer, however many others fail
    /// with it. Nothing is changed, so the check can be repeated.
    pub fn validate(&self) -> (res: Result<(), ParseError>)
        ensures
            res == self.verdict(),
            res is Ok <==> self.is_valid(),
    {
        let n = self.num_nodes;
        if self.net_map.len() != n {
            return Err(ParseError::InvalidMapLen(n, self.net_map.len()));
        }
        if self.num_faults >= n || self.num_faults >= n - self.num_faults {
            return Err(ParseError::IncorrectFaults(self.num_faults, n));
        }
        if let Some(k) = least_stray_id(&self.net_map, n) {
            proof {
                lemma_least_is_unique(
                    stray_ids(self.net_map@.dom(), n),
                    k,
                    least(stray_ids(self.net_map@.dom(), n)),
                );
            }
            return Err(ParseError::InvalidMapEntry(k));
        }
        if let Some(k) = least_stray_id(&self.pk_map, n) {
            proof {
                lemma_least_is_unique(
                    stray_ids(self.pk_map@.dom(), n),
                    k,
                    least(stray_ids(self.pk_map@.dom(), n)),
                );
            }
            return Err(ParseError::InvalidMapEntry(k));
        }
        if let Some(size) = self.crypto_alg.public_key_size() {
            if let Some((k, len)) = least_missized_key(&self.pk_map, size) {
                proof {
                    lemma_least_is_unique(
                        missized_ids(self.pk_map@, size),
                        k,
                        least(missized_ids(self.pk_map@, size)),
                    );
                }
                return Err(ParseError::InvalidPkSize(len));
            }
        }
        if let Some(size) = self.crypto_alg.secret_key_size() {
            if self.secret_key_bytes.len() != size {
                return Err(ParseError::InvalidSkSize(self.secret_key_bytes.len()));
            }
        }
        if !self.crypto_alg.is_implemented() {
            return Err(ParseError::Unimplemented("RSA"));
        }
        Ok(())
    }

    /// Whether the two records agree in everything but the addresses and
    /// the round timeout.
    pub open spec fn same_cluster_and_keys(&self, other: &Node) -> bool {
        &&& self.id == other.id
        &&& self.num_nodes == other.num_nodes
        &&& self.num_faults == other.num_faults
        &&& self.block_size == other.block_size
        &&& self.client_port == other.client_port
        &&& self.payload == other.payload
        &&& self.crypto_alg == other.crypto_alg
        &&& self.pk_map == other.pk_map
        &&& self.secret_key_bytes == other.secret_key_bytes
        &&& self.bi_pp_map == other.bi_pp_map
        &&& self.bi_p == other.bi_p
        &&& self.rand_beacon_parameter == other.rand_beacon_parameter
        &&& self.rand_beacon_queue == other.rand_beacon_queue
        &&& self.rand_beacon_shares == other.rand_beacon_shares
    }

    /// Replaces the addresses of the replicas `0`, `1`, ... by those of
    /// `ips`, in this order. The replica's own entry becomes the address of
    /// every interface at the port that its listed address ends in, so that
    /// it can listen broadly. Addresses of replicas beyond the list stay.
    ///
    /// The list holds at most one address for each id there is, and the
    /// replica's own address in it ends in a port.
    pub fn update_config(&mut self, ips: Vec<String>)
        requires
            ips@.len() <= Replica::MAX + 1,
            old(self).id < ips@.len() ==> port_in(ips@[old(self).id as int]@) is Some,
        ensures
            forall|k: Replica|
                k < ips@.len() ==> final(self).net_map@.contains_key(k) && final(self).net_map@[k]@ == patched_address(old(self).id, k as int, ips@[k as int]@),
            forall|k: Replica|
                k >= ips@.len() ==> (final(self).net_map@.contains_key(k) <==> old(self).net_map@.contains_key(k)),
            forall|k: Replica|
                k >= ips@.len() && old(self).net_map@.contains_key(k) ==> final(self).net_map@[k]
                    == old(self).net_map@[k],
            final(self).delta == old(self).delta,
            final(self).same_cluster_and_keys(old(self)),
    {
        let mut i: usize = 0;
        while i < ips.len()
            invariant
                i <= ips@.len() <= Replica::MAX + 1,
                old(self).id < ips@.len() ==> port_in(ips@[old(self).id as int]@) is Some,
                forall|k: Replica|
                    k < i ==> self.net_map@.contains_key(k) && self.net_map@[k]@
                        == patched_address(old(self).id, k as int, ips@[k as int]@),
                forall|k: Replica|
                    k >= i ==> (self.net_map@.contains_key(k) <==> old(self).net_map@.contains_key(k)),
                forall|k: Replica|
                    k >= i && old(self).net_map@.contains_key(k) ==> self.net_map@[k] == old(self).net_map@[k],
                self.delta == old(self).delta,
                self.same_cluster_and_keys(old(self)),
            decreases ips@.len() - i,
        {
            let idx: Replica = i as Replica;
            if idx == self.id {
                if let Some(port) = port_of(ips[i].as_str()) {
                    self.net_map.insert(idx, wildcard_address(port));
                }
            } else {
                self.net_map.insert(idx, ips[i].clone());
            }
            i += 1;
        }
    }

    /// Replaces the round timeout by `delta`, where one is given. Any value
    /// is taken as it is.
    pub fn override_delta(&mut self, delta: Option<u64>)
        ensures
            final(self).delta == match delta {
                Some(d) => d,
                None => old(self).delta,
            },
            final(self).net_map == old(self).net_map,
            final(self).same_cluster_and_keys(old(self)),
    {
        if let Some(d) = delta {
            self.delta = d;
        }
    }

    /// The address on which this replica listens for the others: its own
    /// entry among the addresses, which has to be there.
    pub fn my_ip(&self) -> (addr: String)
        requires
            self.net_map@.contains_key(self.id),
        ensures
            addr@ == self.net_map@[self.id]@,
    {
        let own = self.net_map.get(&self.id);
        own.unwrap().clone()
    }

    /// The address on which this replica listens for clients: every
    /// interface of the machine, at the client port.
    pub fn client_ip(&self) -> (addr: String)
        ensures
            addr@ == wildcard_text(self.client_port),
    {
        wildcard_address(self.client_port)
    }

    /// A record with nothing in it: no replicas, no addresses, no keys, the
    /// Ed25519 scheme and a round timeout of 50.
    pub fn new() -> (node: Node)
        ensures
            node.net_map@ == Map::<Replica, String>::empty(),
            node.delta == 50,
            node.id == 0,
            node.num_nodes == 0,
            node.num_faults == 0,
            node.block_size == 0,
            node.client_port == 0,
            node.payload == 0,
            node.crypto_alg == Algorithm::ED25519,
            node.pk_map@ == Map::<Replica, Vec<u8>>::empty(),
            node.secret_key_bytes@ == Seq::<u8>::empty(),
            node.bi_pp_map@ == Map::<Replica, Vec<u8>>::empty(),
            node.bi_p is None,
            node.rand_beacon_parameter is None,
            node.rand_beacon_queue@ == Map::<Replica, VecDeque<Vec<u8>>>::empty(),
            node.rand_beacon_shares@ == Seq::<
                (Vec<VecDeque<Vec<u8>>>, Vec<Vec<u8>>),
            >::empty(),
    {
        Node {
            block_size: 0,
            client_port: 0,
            crypto_alg: Algorithm::ED25519,
            delta: 50,
            id: 0,
            net_map: HashMap::new(),
            num_faults: 0,
            num_nodes: 0,
            pk_map: HashMap::new(),
            secret_key_bytes: Vec::new(),
            payload: 0,
            bi_pp_map: HashMap::new(),
            bi_p: None,
            rand_beacon_parameter: None,
            rand_beacon_queue: HashMap::new(),
            rand_beacon_shares: Vec::new(),
        }
    }
}

/// A record is accepted exactly when it meets every condition, and a record
/// that is turned down is turned down for the first condition that it fails:
/// an address count that differs from the cluster size comes before
/// everything, too many faults before any stray id, a stray id among the
/// addresses before one among the keys, a stray id before a key size, a
/// public key's size before the secret key's, and all of them before the
/// scheme that is not available.
pub proof fn lemma_first_failure_decides(node: Node)
    ensures
        node.verdict() is Ok <==> node.is_valid(),
        node.net_map@.len() != node.num_nodes ==> node.verdict() is Err && node.verdict()->Err_0
            is InvalidMapLen,
        node.net_map@.len() == node.num_nodes && 2 * node.num_faults >= node.num_nodes
            ==> node.verdict() == Err::<(), ParseError>(
            ParseError::IncorrectFaults(node.num_faults, node.num_nodes),
        ),
        node.verdict() is Err && node.verdict()->Err_0 is InvalidMapEntry ==> {
            let k = node.verdict()->Err_0->InvalidMapEntry_0;
            &&& !spec_is_valid_replica(k, node.num_nodes)
            &&& node.net_map@.contains_key(k) || node.pk_map@.contains_key(k)
            &&& node.net_map@.len() == node.num_nodes
            &&& 2 * node.num_faults < node.num_nodes
        },
        node.verdict() is Err && node.verdict()->Err_0 is InvalidPkSize ==> {
            &&& node.crypto_alg.spec_public_key_size() is Some
            &&& node.verdict()->Err_0->InvalidPkSize_0
                != node.crypto_alg.spec_public_key_size()->0
            &&& !has_stray_id(node.net_map@.dom(), node.num_nodes)
            &&& !has_stray_id(node.pk_map@.dom(), node.num_nodes)
        },
        node.verdict() is Err && node.verdict()->Err_0 is InvalidSkSize ==> {
            &&& node.crypto_alg.spec_secret_key_size() is Some
            &&& node.verdict()->Err_0->InvalidSkSize_0 == node.secret_key_bytes.len()
            &&& node.secret_key_bytes.len() != node.crypto_alg.spec_secret_key_size()->0
            &&& node.crypto_alg.spec_public_key_size() matches Some(size) ==> !has_missized_key(
                node.pk_map@,
                size,
            )
        },
        node.verdict() is Err && node.verdict()->Err_0 is Unimplemented ==> {
            &&& !node.crypto_alg.spec_is_implemented()
            &&& node.net_map@.len() == node.num_nodes
            &&& 2 * node.num_faults < node.num_nodes
            &&& !has_stray_id(node.net_map@.dom(), node.num_nodes)
            &&& !has_stray_id(node.pk_map@.dom(), node.num_nodes)
        },
{
    let n = node.num_nodes;
    lemma_least_exists(stray_ids(node.net_map@.dom(), n));
    lemma_least_exists(stray_ids(node.pk_map@.dom(), n));
    if let Some(size) = node.crypto_alg.spec_public_key_size() {
        lemma_least_exists(missized_ids(node.pk_map@, size));
        if node.is_valid() {
            assert forall|k: Replica| !missized_ids(node.pk_map@, size).contains(k) by {}
        }
    }
    if node.is_valid() {
        assert forall|k: Replica| !stray_ids(node.net_map@.dom(), n).contains(k) by {}
        assert forall|k: Replica| !stray_ids(node.pk_map@.dom(), n).contains(k) by {}
    }
    if node.verdict() is Ok {
        assert forall|k: Replica| node.net_map@.contains_key(k) implies spec_is_valid_replica(
            k,
            n,
        ) by {
            assert(!stray_ids(node.net_map@.dom(), n).contains(k));
        }
        assert forall|k: Replica| node.pk_map@.contains_key(k) implies spec_is_valid_replica(
            k,
            n,
        ) by {
            assert(!stray_ids(node.pk_map@.dom(), n).contains(k));
        }
        if let Some(size) = node.crypto_alg.spec_public_key_size() {
            assert forall|k: Replica| node.pk_map@.contains_key(k) implies node.pk_map@[k].len()
                == size by {
                assert(!missized_ids(node.pk_map@, size).contains(k));
            }
        }
    }
}

/// A set of ids that is not empty has a smallest element.
pub proof fn lemma_least_exists(ids: Set<Replica>)
    ensures
        (exists|k: Replica| ids.contains(k)) ==> is_least(ids, least(ids)),
{
    if exists|k: Replica| ids.contains(k) {
        let k = choose|k: Replica| ids.contains(k);
        lemma_least_below(ids, k, 0);
    }
}

/// Among the ids from `from` on, up to the member `k`, the set `ids` has a
/// smallest element, if it has none below `from`.
proof fn lemma_least_below(ids: Set<Replica>, k: Replica, from: Replica)
    requires
        ids.contains(k),
        from <= k,
        forall|j: Replica| j < from ==> !ids.contains(j),
    ensures
        exists|m: Replica| is_least(ids, m),
    decreases k - from,
{
    if ids.contains(from) {
        assert(is_least(ids, from));
    } else {
        lemma_least_below(ids, k, (from + 1) as Replica);
    }
}

/// A public key of the wrong size is never accepted, whichever replica it
/// belongs to: under a scheme that fixes the size of public keys, a record
/// that holds a key of another size is turned down.
pub proof fn lemma_wrong_key_size_rejected(node: Node, id: Replica)
    requires
        node.pk_map@.contains_key(id),
        node.crypto_alg.spec_public_key_size() matches Some(size) && node.pk_map@[id].len()
            != size,
    ensures
        !node.is_valid(),
        node.verdict() is Err,
{
    lemma_first_failure_decides(node);
}

} // verus!
