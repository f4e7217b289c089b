//! Where inbound messages go: for each protocol that an application has
//! registered, the bounded queue that the application reads from.

use crate::message::{NetworkMessage, ProtocolId};
use tokio::sync::mpsc::Sender;
use vstd::prelude::*;

verus! {

/// The network that a peer was reached on.
#[derive(Clone, Copy, Debug, PartialEq, Eq, Structural, Hash)]
pub enum NetworkId {
    Validator,
    Vfn,
    Public,
}

/// The identity of a peer: its account address.
#[derive(Clone, Copy, Debug, PartialEq, Eq, Hash)]
pub struct PeerId(pub [u8; 32]);

/// A peer together with the network it was reached on.
#[derive(Clone, Copy, Debug, PartialEq, Eq, Hash)]
pub struct PeerNetworkId {
    pub network_id: NetworkId,
    pub peer_id: PeerId,
}

/// An inbound message with the peer that sent it.
#[derive(Clone, Debug, PartialEq, Eq)]
pub struct ReceivedMessage {
    pub message: NetworkMessage,
    pub sender: PeerNetworkId,
}

/// The inbound queue of one application protocol.
pub struct ApplicationConnections {
    pub protocol_id: ProtocolId,
    pub sender: Sender<ReceivedMessage>,
    pub label: String,
}

/// The registered applications, each found by its protocol.
pub struct ApplicationCollector {
    apps: Vec<ApplicationConnections>,
}

/// The first of the applications that is registered for the protocol.
pub open spec fn find_first(
    apps: Seq<ApplicationConnections>,
    protocol_id: ProtocolId,
) -> Option<ApplicationConnections>
    decreases apps.len(),
{
    if apps.len() == 0 {
        None
    } else if apps[0].protocol_id == protocol_id {
        Some(apps[0])
    } else {
        find_first(apps.drop_first(), protocol_id)
    }
}

/// `find_first` looks at the applications in order.
proof fn lemma_find_first(apps: Seq<ApplicationConnections>, protocol_id: ProtocolId, i: int)
    requires
        0 <= i <= apps.len(),
        forall|k: int| 0 <= k < i ==> (#[trigger] apps[k]).protocol_id != protocol_id,
    ensures
        i < apps.len() && apps[i].protocol_id == protocol_id ==> find_first(apps, protocol_id)
            == Some(apps[i]),
        i == apps.len() ==> find_first(apps, protocol_id) is None,
    decreases i,
{
    if i > 0 {
        let rest = apps.drop_first();
        assert(apps[0].protocol_id != protocol_id);
        assert forall|k: int| 0 <= k < i - 1 implies (#[trigger] rest[k]).protocol_id
            != protocol_id by {
            assert(rest[k] == apps[k + 1]);
        }
        lemma_find_first(rest, protocol_id, i - 1);
        if i < apps.len() {
            assert(rest[i - 1] == apps[i]);
        }
    }
}

impl ApplicationCollector {
    /// The application that is registered for a protocol, if there is one.
    pub closed spec fn app(&self, protocol_id: ProtocolId) -> Option<ApplicationConnections> {
        find_first(self.apps@, protocol_id)
    }

    /// The protocols that have an application.
    pub open spec fn protocols(&self) -> Set<ProtocolId> {
        Set::new(|protocol_id: ProtocolId| self.app(protocol_id) is Some)
    }

    /// A collector with no application.
    pub fn new() -> (collector: Self)
        ensures
            forall|protocol_id: ProtocolId| collector.app(protocol_id) is None,
    {
        ApplicationCollector { apps: Vec::new() }
    }

    /// Position of the first application of a protocol, if there is one.
    fn position(&self, protocol_id: ProtocolId) -> (found: Option<usize>)
        ensures
            match found {
                Some(i) => {
                    &&& i < self.apps@.len()
                    &&& self.apps@[i as int].protocol_id == protocol_id
                    &&& forall|k: int|
                        0 <= k < i ==> (#[trigger] self.apps@[k]).protocol_id != protocol_id
                },
                None => forall|k: int|
                    0 <= k < self.apps@.len() ==> (#[trigger] self.apps@[k]).protocol_id
                        != protocol_id,
            },
    {
        let mut i: usize = 0;
        while i < self.apps.len()
            invariant
                i <= self.apps@.len(),
                forall|k: int| 0 <= k < i ==> (#[trigger] self.apps@[k]).protocol_id != protocol_id,
            decreases self.apps@.len() - i,
        {
            if self.apps[i].protocol_id == protocol_id {
                return Some(i);
            }
            i = i + 1;
        }
        None
    }

    /// Registers an application; one registered before for the same
    /// protocol is replaced.
    pub fn add(&mut self, connections: ApplicationConnections)
        ensures
            forall|protocol_id: ProtocolId|
                #[trigger] final(self).app(protocol_id) == if protocol_id
                    == connections.protocol_id {
                    Some(connections)
                } else {
                    old(self).app(protocol_id)
                },
    {
        let ghost before = self.apps@;
        let found = self.position(connections.protocol_id);
        let ghost at = match found {
            Some(i) => i as int,
            None => before.len() as int,
        };
        match found {
            Some(i) => {
                self.apps.set(i, connections);
            },
            None => {
                self.apps.push(connections);
            },
        }
        proof {
            let after = self.apps@;
            assert(after[at] == connections);
            assert forall|protocol_id: ProtocolId|
                #[trigger] self.app(protocol_id) == if protocol_id == connections.protocol_id {
                    Some(connections)
                } else {
                    old(self).app(protocol_id)
                } by {
                if protocol_id == connections.protocol_id {
                    lemma_find_first(after, protocol_id, at);
                } else {
                    lemma_same_elsewhere(before, after, protocol_id, at);
                }
            }
        }
    }

    /// The application of a protocol, if one is registered.
    pub fn get(&self, protocol_id: ProtocolId) -> (found: Option<&ApplicationConnections>)
        ensures
            match found {
                Some(app) => self.app(protocol_id) == Some(*app) && app.protocol_id == protocol_id,
                None => self.app(protocol_id) is None,
            },
    {
        match self.position(protocol_id) {
            Some(i) => {
                proof {
                    lemma_find_first(self.apps@, protocol_id, i as int);
                }
                Some(&self.apps[i])
            },
            None => {
                proof {
                    lemma_find_first(self.apps@, protocol_id, self.apps@.len() as int);
                }
                None
            },
        }
    }
}

/// Changing or adding the application at one place, where before and after
/// no application of the protocol asked for stands, leaves what is found
/// for that protocol as it was.
proof fn lemma_same_elsewhere(
    before: Seq<ApplicationConnections>,
    after: Seq<ApplicationConnections>,
    protocol_id: ProtocolId,
    at: int,
)
    requires
        0 <= at <= before.len(),
        at < before.len() ==> after.len() == before.len() && before[at].protocol_id != protocol_id,
        at == before.len() ==> after.len() == before.len() + 1,
        after[at].protocol_id != protocol_id,
        forall|k: int| 0 <= k < before.len() && k != at ==> after[k] == before[k],
    ensures
        find_first(after, protocol_id) == find_first(before, protocol_id),
    decreases after.len(),
{
    if before.len() == 0 {
        assert(find_first(after.drop_first(), protocol_id) is None);
    } else if at == 0 {
        if after.len() == before.len() {
            assert(after.drop_first() =~= before.drop_first());
        } else {
            assert(false);
        }
    } else {
        assert(after[0] == before[0]);
        let b = before.drop_first();
        let a = after.drop_first();
        assert forall|k: int| 0 <= k < b.len() && k != at - 1 implies a[k] == b[k] by {
            assert(a[k] == after[k + 1]);
            assert(b[k] == before[k + 1]);
        }
        assert(a[at - 1] == after[at]);
        if at < before.len() {
            assert(b[at - 1] == before[at]);
        }
        lemma_same_elsewhere(b, a, protocol_id, at - 1);
    }
}

} // verus!
