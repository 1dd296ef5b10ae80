//! The peers a node talks to, found by their node id.

use crate::error::{Error, NodeId};
use vstd::prelude::*;

verus! {

/// The most peers a node keeps: far below the number at which the hash
/// table of the directory would no longer fit the address space, also on
/// 32-bit targets.
pub const MAX_PEERS: usize = 16_777_216;

/// Where each known peer's connection is kept: node id to position.
///
/// The table is a `hashbrown::HashMap`; its contents are named by
/// [`directory_slots`], and each method states what it does to them.
#[verifier::external_body]
pub struct PeerDirectory {
    slots: hashbrown::HashMap<NodeId, usize>,
}

/// The node ids a directory holds, each with its position.
pub uninterp spec fn directory_slots(d: PeerDirectory) -> Map<NodeId, usize>;

/// A directory that knows no node.
pub open spec fn no_slots() -> Map<NodeId, usize> {
    Map::empty()
}

impl PeerDirectory {
    /// `hashbrown::HashMap::with_capacity`: an empty table with room for
    /// `capacity` entries.
    #[verifier::external_body]
    fn with_capacity(capacity: usize) -> (table: PeerDirectory)
        requires
            capacity <= MAX_PEERS,
        ensures
            directory_slots(table) == no_slots(),
    {
        PeerDirectory { slots: hashbrown::HashMap::with_capacity(capacity) }
    }

    /// `hashbrown::HashMap::insert`: maps `node_id` to `slot`, replacing
    /// and returning the position it had.
    #[verifier::external_body]
    fn insert(&mut self, node_id: NodeId, slot: usize) -> (previous: Option<usize>)
        requires
            directory_slots(*old(self)).len() < MAX_PEERS,
        ensures
            directory_slots(*final(self)) == directory_slots(*old(self)).insert(node_id, slot),
            previous == (if directory_slots(*old(self)).dom().contains(node_id) {
                Some(directory_slots(*old(self))[node_id])
            } else {
                None
            }),
    {
        self.slots.insert(node_id, slot)
    }

    /// `hashbrown::HashMap::get`: the position of `node_id`, if it is known.
    #[verifier::external_body]
    fn get(&self, node_id: NodeId) -> (slot: Option<usize>)
        ensures
            slot == (if directory_slots(*self).dom().contains(node_id) {
                Some(directory_slots(*self)[node_id])
            } else {
                None
            }),
    {
        self.slots.get(&node_id).copied()
    }
}

/// The connections to a node's peers, each found by the peer's node id.
///
/// `C` is the transport's handle on one peer connection.
pub struct PeersHandle<C> {
    directory: PeerDirectory,
    clients: Vec<C>,
}

/// Some known node id has position `i`.
pub open spec fn slot_owned(slots: Map<NodeId, usize>, i: int) -> bool {
    exists|id: NodeId| #[trigger] slots.dom().contains(id) && slots[id] == i
}

impl<C> PeersHandle<C> {
    /// Every known node id has its own position among the connections, and
    /// every connection belongs to one node id.
    pub closed spec fn wf(&self) -> bool {
        let slots = directory_slots(self.directory);
        &&& slots.dom().finite()
        &&& slots.dom().len() == self.clients@.len()
        &&& self.clients@.len() <= MAX_PEERS
        &&& forall|id: NodeId| #[trigger]
            slots.dom().contains(id) ==> slots[id] < self.clients@.len()
        &&& forall|a: NodeId, b: NodeId|
            #[trigger] slots.dom().contains(a) && #[trigger] slots.dom().contains(b) && slots[a]
                == slots[b] ==> a == b
        &&& forall|i: int| 0 <= i < self.clients@.len() ==> #[trigger] slot_owned(slots, i)
    }

    /// The connection of each known peer, by node id.
    pub closed spec fn view(&self) -> Map<NodeId, C> {
        let slots = directory_slots(self.directory);
        Map::new(|id: NodeId| slots.dom().contains(id), |id: NodeId| self.clients@[slots[id] as int])
    }

    /// The node ids in the order their connections are kept: the node id of
    /// the `i`-th connection at position `i`.
    pub closed spec fn order(&self) -> Seq<NodeId> {
        let slots = directory_slots(self.directory);
        Seq::new(
            self.clients@.len(),
            |i: int| choose|id: NodeId| #[trigger] slots.dom().contains(id) && slots[id] == i,
        )
    }

    /// The connections, given each peer's node id and its connection.
    pub fn new(node_ids: Vec<NodeId>, clients: Vec<C>) -> (h: PeersHandle<C>)
        requires
            node_ids@.len() == clients@.len(),
            clients@.len() <= MAX_PEERS,
            node_ids@.no_duplicates(),
        ensures
            h.wf(),
            h.view().dom() == node_ids@.to_set(),
            forall|i: int| 0 <= i < node_ids@.len() ==> h.view()[#[trigger] node_ids@[i]] == clients@[i],
            h.order() == node_ids@,
    {
        let n = node_ids.len();
        let mut directory = PeerDirectory::with_capacity(n);
        let mut i: usize = 0;
        while i < n
            invariant
                n == node_ids@.len() == clients@.len() <= MAX_PEERS,
                node_ids@.no_duplicates(),
                0 <= i <= n,
                directory_slots(directory).dom().finite(),
                directory_slots(directory).dom().len() == i,
                forall|id: NodeId|
                    directory_slots(directory).dom().contains(id) <==> #[trigger] node_ids@.take(
                        i as int,
                    ).contains(id),
                forall|j: int|
                    0 <= j < i ==> #[trigger] directory_slots(directory).dom().contains(node_ids@[j])
                        && directory_slots(directory)[node_ids@[j]] == j,
            decreases n - i,
        {
            let id = node_ids[i];
            let ghost before = directory_slots(directory);
            proof {
                if node_ids@.take(i as int).contains(id) {
                    let k = choose|k: int| 0 <= k < i && #[trigger] node_ids@.take(i as int)[k] == id;
                    assert(node_ids@[k] == node_ids@[i as int]);
                }
                assert(!before.dom().contains(id));
            }
            directory.insert(id, i);
            proof {
                let after = directory_slots(directory);
                assert(node_ids@.take(i + 1) =~= node_ids@.take(i as int).push(id));
                assert forall|x: NodeId|
                    after.dom().contains(x) <==> #[trigger] node_ids@.take(i + 1).contains(x) by {
                    if x == id {
                        assert(node_ids@.take(i + 1)[i as int] == id);
                    }
                    if node_ids@.take(i + 1).contains(x) && x != id {
                        let k = choose|k: int| 0 <= k < i + 1 && #[trigger] node_ids@.take(i + 1)[k] == x;
                        assert(node_ids@.take(i as int)[k] == x);
                    }
                    if node_ids@.take(i as int).contains(x) {
                        let k = choose|k: int| 0 <= k < i && #[trigger] node_ids@.take(i as int)[k] == x;
                        assert(node_ids@.take(i + 1)[k] == x);
                    }
                }
                assert forall|j: int| 0 <= j < i + 1 implies #[trigger] after.dom().contains(node_ids@[j])
                    && after[node_ids@[j]] == j by {
                    if j < i {
                        assert(node_ids@[j] != id);
                    }
                }
            }
            i = i + 1;
        }
        let h = PeersHandle { directory, clients };
        proof {
            let slots = directory_slots(h.directory);
            assert(node_ids@.take(n as int) =~= node_ids@);
            assert(slots.dom() =~= node_ids@.to_set());
            assert forall|id: NodeId| #[trigger] slots.dom().contains(id) implies slots[id]
                < h.clients@.len() by {
                let k = choose|k: int| 0 <= k < n && #[trigger] node_ids@.take(n as int)[k] == id;
                assert(node_ids@[k] == id);
            }
            assert forall|a: NodeId, b: NodeId|
                #[trigger] slots.dom().contains(a) && #[trigger] slots.dom().contains(b) && slots[a]
                    == slots[b] implies a == b by {
                let ka = choose|k: int| 0 <= k < n && #[trigger] node_ids@.take(n as int)[k] == a;
                let kb = choose|k: int| 0 <= k < n && #[trigger] node_ids@.take(n as int)[k] == b;
                assert(node_ids@[ka] == a);
                assert(node_ids@[kb] == b);
            }
            assert forall|i: int| 0 <= i < h.clients@.len() implies #[trigger] slot_owned(slots, i) by {
                assert(slots.dom().contains(node_ids@[i]));
            }
            assert forall|i: int| 0 <= i < node_ids@.len() implies h.view()[#[trigger] node_ids@[i]]
                == clients@[i] by {
                assert(slots.dom().contains(node_ids@[i]));
            }
            assert forall|i: int| 0 <= i < node_ids@.len() implies #[trigger] h.order()[i]
                == node_ids@[i] by {
                assert(slots.dom().contains(node_ids@[i]));
                let id = h.order()[i];
                assert(slots.dom().contains(id) && slots[id] == i);
                assert(slots[node_ids@[i]] == i);
            }
            assert(h.order() =~= node_ids@);
        }
        h
    }

    /// The connection of peer `node_id`, or the error that no such peer is known.
    pub fn peer(&self, node_id: NodeId) -> (r: Result<&C, Error>)
        requires
            self.wf(),
        ensures
            match r {
                Ok(c) => self.view().dom().contains(node_id) && *c == self.view()[node_id],
                Err(e) => !self.view().dom().contains(node_id) && e == Error::UnknownNode(node_id),
            },
    {
        match self.directory.get(node_id) {
            Some(slot) => Ok(&self.clients[slot]),
            None => Err(Error::UnknownNode(node_id)),
        }
    }

    /// Every connection, each once.
    pub fn all(&self) -> (cs: &Vec<C>)
        requires
            self.wf(),
        ensures
            cs@.len() == self.view().dom().len(),
            forall|id: NodeId| #[trigger]
                self.view().dom().contains(id) ==> cs@.contains(self.view()[id]),
            forall|i: int| 0 <= i < cs@.len() ==> self.view().contains_value(#[trigger] cs@[i]),
            cs@.len() == self.order().len(),
            forall|i: int| 0 <= i < cs@.len() ==> #[trigger] cs@[i] == self.view()[self.order()[i]],
    {
        let cs = &self.clients;
        proof {
            let slots = directory_slots(self.directory);
            assert(self.view().dom() =~= slots.dom());
            assert forall|id: NodeId| #[trigger]
                self.view().dom().contains(id) implies cs@.contains(self.view()[id]) by {
                let i = slots[id] as int;
                assert(cs@[i] == self.view()[id]);
            }
            assert forall|i: int| 0 <= i < cs@.len() implies self.view().contains_value(
                #[trigger] cs@[i],
            ) by {
                assert(slot_owned(slots, i));
                let id = choose|id: NodeId| #[trigger] slots.dom().contains(id) && slots[id] == i;
                assert(self.view().dom().contains(id));
                assert(self.view()[id] == cs@[i]);
            }
            assert forall|i: int| 0 <= i < cs@.len() implies #[trigger] cs@[i] == self.view()[self.order()[i]] by {
                assert(slot_owned(slots, i));
                let id = self.order()[i];
                assert(slots.dom().contains(id) && slots[id] == i);
            }
        }
        cs
    }
}

} // verus!
