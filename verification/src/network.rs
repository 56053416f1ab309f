//! An in-memory network of devices for exercising features without real
//! connections: each connected device has an inbox, and a message sent to a
//! device lands at the back of its inbox.

use vstd::prelude::*;

use crate::codec::FeatureMessage;
use crate::error::TransportError;
use crate::ids::DeviceId;

verus! {

/// The devices connected to the network, each with the messages waiting for it.
pub struct MockNetwork {
    peers: Vec<(DeviceId, Vec<FeatureMessage>)>,
}

/// The position of device `d` in `peers`, where it is connected.
pub open spec fn has_peer(peers: Seq<(DeviceId, Vec<FeatureMessage>)>, d: DeviceId) -> bool {
    exists|i: int| 0 <= i < peers.len() && peers[i].0 == d
}

/// No device is connected twice.
pub open spec fn distinct_peers(peers: Seq<(DeviceId, Vec<FeatureMessage>)>) -> bool {
    forall|i: int, j: int| 0 <= i < peers.len() && 0 <= j < peers.len() && i != j ==> peers[i].0 != peers[j].0
}

/// The inbox of each connected device.
pub open spec fn inbox_map(peers: Seq<(DeviceId, Vec<FeatureMessage>)>) -> Map<DeviceId, Seq<FeatureMessage>> {
    Map::new(
        |d: DeviceId| has_peer(peers, d),
        |d: DeviceId| peers[choose|i: int| 0 <= i < peers.len() && peers[i].0 == d].1@,
    )
}

proof fn lemma_inbox_at(peers: Seq<(DeviceId, Vec<FeatureMessage>)>, i: int)
    requires
        distinct_peers(peers),
        0 <= i < peers.len(),
    ensures
        inbox_map(peers).dom().contains(peers[i].0),
        inbox_map(peers)[peers[i].0] == peers[i].1@,
{
    let d = peers[i].0;
    assert(has_peer(peers, d));
    let k = choose|k: int| 0 <= k < peers.len() && peers[k].0 == d;
    assert(k == i);
}

proof fn lemma_inbox_update(
    peers: Seq<(DeviceId, Vec<FeatureMessage>)>,
    i: int,
    inbox: Vec<FeatureMessage>,
)
    requires
        distinct_peers(peers),
        0 <= i < peers.len(),
    ensures
        distinct_peers(peers.update(i, (peers[i].0, inbox))),
        inbox_map(peers.update(i, (peers[i].0, inbox))) == inbox_map(peers).insert(peers[i].0, inbox@),
{
    let d = peers[i].0;
    let q = peers.update(i, (d, inbox));
    assert forall|x: DeviceId| has_peer(q, x) <==> has_peer(peers, x) by {
        if has_peer(q, x) {
            let k = choose|k: int| 0 <= k < q.len() && q[k].0 == x;
            assert(peers[k].0 == x);
        }
        if has_peer(peers, x) {
            let k = choose|k: int| 0 <= k < peers.len() && peers[k].0 == x;
            assert(q[k].0 == x);
        }
    }
    assert forall|x: DeviceId| #[trigger] inbox_map(q).dom().contains(x) implies inbox_map(q)[x]
        == inbox_map(peers).insert(d, inbox@)[x] by {
        let k = choose|k: int| 0 <= k < q.len() && q[k].0 == x;
        lemma_inbox_at(q, k);
        lemma_inbox_at(peers, k);
    }
    assert(inbox_map(q) =~= inbox_map(peers).insert(d, inbox@));
}

impl MockNetwork {
    /// The network is well formed: no device is connected twice.
    pub closed spec fn wf(&self) -> bool {
        distinct_peers(self.peers@)
    }

    /// The inbox of each connected device; its domain is the connected devices.
    pub closed spec fn inboxes(&self) -> Map<DeviceId, Seq<FeatureMessage>> {
        inbox_map(self.peers@)
    }

    /// An empty network.
    pub fn new() -> (r: MockNetwork)
        ensures
            r.wf(),
            r.inboxes() == Map::<DeviceId, Seq<FeatureMessage>>::empty(),
    {
        let r = MockNetwork { peers: Vec::new() };
        assert(inbox_map(r.peers@) =~= Map::<DeviceId, Seq<FeatureMessage>>::empty());
        r
    }

    fn position(&self, d: DeviceId) -> (r: Option<usize>)
        requires
            self.wf(),
        ensures
            match r {
                Some(i) => i < self.peers@.len() && self.peers@[i as int].0 == d,
                None => !has_peer(self.peers@, d),
            },
    {
        let mut i: usize = 0;
        while i < self.peers.len()
            invariant
                i <= self.peers@.len(),
                forall|j: int| 0 <= j < i ==> self.peers@[j].0 != d,
            decreases self.peers.len() - i,
        {
            if self.peers[i].0 == d {
                return Some(i);
            }
            i = i + 1;
        }
        None
    }

    /// Connects a device under `id` with an empty inbox. A device already
    /// connected under that id loses what was waiting for it.
    pub fn connect_with_id(&mut self, id: DeviceId)
        requires
            old(self).wf(),
        ensures
            final(self).wf(),
            final(self).inboxes() == old(self).inboxes().insert(id, Seq::<FeatureMessage>::empty()),
    {
        match self.position(id) {
            Some(i) => {
                let ghost before = self.peers@;
                let (d, _old_inbox) = self.peers.remove(i);
                self.peers.insert(i, (d, Vec::new()));
                proof {
                    assert(self.peers@ =~= before.update(i as int, (d, self.peers@[i as int].1)));
                    lemma_inbox_update(before, i as int, self.peers@[i as int].1);
                }
            },
            None => {
                let ghost before = self.peers@;
                self.peers.push((id, Vec::new()));
                proof {
                    let q = self.peers@;
                    assert forall|a: int, b: int| 0 <= a < q.len() && 0 <= b < q.len() && a != b implies q[a].0
                        != q[b].0 by {
                        if a < before.len() && b < before.len() {
                            assert(q[a] == before[a] && q[b] == before[b]);
                        } else if a < before.len() {
                            assert(q[a] == before[a]);
                        } else {
                            assert(q[b] == before[b]);
                        }
                    }
                    assert forall|x: DeviceId| #[trigger] inbox_map(q).dom().contains(x) implies inbox_map(q)[x]
                        == inbox_map(before).insert(id, Seq::<FeatureMessage>::empty())[x] by {
                        let k = choose|k: int| 0 <= k < q.len() && q[k].0 == x;
                        lemma_inbox_at(q, k);
                        if k < before.len() {
                            assert(q[k] == before[k]);
                            lemma_inbox_at(before, k);
                        }
                    }
                    assert forall|x: DeviceId| has_peer(q, x) <==> (has_peer(before, x) || x == id) by {
                        if has_peer(before, x) {
                            let k = choose|k: int| 0 <= k < before.len() && before[k].0 == x;
                            assert(q[k] == before[k]);
                        }
                        if x == id {
                            assert(q[before.len() as int].0 == id);
                        }
                        if has_peer(q, x) && x != id {
                            let k = choose|k: int| 0 <= k < q.len() && q[k].0 == x;
                            assert(k < before.len());
                            assert(q[k] == before[k]);
                        }
                    }
                    assert(inbox_map(q) =~= inbox_map(before).insert(id, Seq::<FeatureMessage>::empty()));
                }
            },
        }
    }

    /// Connects a device under a fresh random id, which it returns.
    pub fn connect(&mut self) -> (r: DeviceId)
        requires
            old(self).wf(),
        ensures
            final(self).wf(),
            final(self).inboxes() == old(self).inboxes().insert(r, Seq::<FeatureMessage>::empty()),
    {
        let id = DeviceId::new();
        self.connect_with_id(id);
        id
    }

    /// Delivers a message to the back of its recipient's inbox; a recipient
    /// that is not connected is not found, and nothing changes.
    pub fn send(&mut self, message: FeatureMessage) -> (r: Result<(), TransportError>)
        requires
            old(self).wf(),
        ensures
            final(self).wf(),
            final(self).inboxes() == sent(old(self).inboxes(), message).0,
            r == sent(old(self).inboxes(), message).1,
    {
        let to = message.to;
        match self.position(to) {
            Some(i) => {
                let ghost before = self.peers@;
                let (d, mut inbox) = self.peers.remove(i);
                inbox.push(message);
                self.peers.insert(i, (d, inbox));
                proof {
                    assert(self.peers@ =~= before.update(i as int, (d, self.peers@[i as int].1)));
                    lemma_inbox_update(before, i as int, self.peers@[i as int].1);
                    lemma_inbox_at(before, i as int);
                }
                Ok(())
            },
            None => Err(TransportError::PeerNotFound(to)),
        }
    }

    /// Takes the oldest message waiting for device `id`, if any. A device that
    /// is not connected has no inbox: its transport is disconnected.
    pub fn try_recv(&mut self, id: DeviceId) -> (r: Result<Option<FeatureMessage>, TransportError>)
        requires
            old(self).wf(),
        ensures
            final(self).wf(),
            final(self).inboxes() == received(old(self).inboxes(), id).0,
            r == received(old(self).inboxes(), id).1,
    {
        match self.position(id) {
            Some(i) => {
                let ghost before = self.peers@;
                proof {
                    lemma_inbox_at(before, i as int);
                }
                let (d, mut inbox) = self.peers.remove(i);
                if inbox.len() == 0 {
                    self.peers.insert(i, (d, inbox));
                    assert(self.peers@ =~= before);
                    proof {
                        assert(inbox_map(before).insert(id, inbox_map(before)[id]) =~= inbox_map(before));
                    }
                    return Ok(None);
                }
                let m = inbox.remove(0);
                self.peers.insert(i, (d, inbox));
                proof {
                    assert(self.peers@ =~= before.update(i as int, (d, self.peers@[i as int].1)));
                    lemma_inbox_update(before, i as int, self.peers@[i as int].1);
                }
                Ok(Some(m))
            },
            None => Err(TransportError::Disconnected),
        }
    }

    /// The devices connected besides `id`, each once.
    pub fn connected_peers(&self, id: DeviceId) -> (r: Vec<DeviceId>)
        requires
            self.wf(),
        ensures
            forall|d: DeviceId| r@.contains(d) <==> (self.inboxes().dom().contains(d) && d != id),
            r@.no_duplicates(),
    {
        let mut r: Vec<DeviceId> = Vec::new();
        let mut i: usize = 0;
        while i < self.peers.len()
            invariant
                i <= self.peers@.len(),
                distinct_peers(self.peers@),
                forall|d: DeviceId| r@.contains(d) <==> (exists|j: int| 0 <= j < i && self.peers@[j].0 == d && d != id),
                r@.no_duplicates(),
            decreases self.peers.len() - i,
        {
            let d = self.peers[i].0;
            if d != id {
                proof {
                    assert(!r@.contains(d)) by {
                        if r@.contains(d) {
                            let j = choose|j: int| 0 <= j < i && self.peers@[j].0 == d && d != id;
                            assert(self.peers@[j].0 == self.peers@[i as int].0);
                        }
                    }
                }
                let ghost before = r@;
                r.push(d);
                proof {
                    assert forall|x: DeviceId| r@.contains(x) <==> (exists|j: int| 0 <= j < i + 1 && self.peers@[j].0 == x && x != id) by {
                        if r@.contains(x) {
                            let k = choose|k: int| 0 <= k < r@.len() && r@[k] == x;
                            if k < before.len() {
                                assert(before.contains(x));
                            } else {
                                assert(self.peers@[i as int].0 == x);
                            }
                        }
                        if exists|j: int| 0 <= j < i + 1 && self.peers@[j].0 == x && x != id {
                            let j = choose|j: int| 0 <= j < i + 1 && self.peers@[j].0 == x && x != id;
                            if j < i {
                                assert(before.contains(x));
                                let k = choose|k: int| 0 <= k < before.len() && before[k] == x;
                                assert(r@[k] == x);
                            } else {
                                assert(r@[before.len() as int] == x);
                            }
                        }
                    }
                }
            } else {
                proof {
                    assert forall|x: DeviceId| r@.contains(x) <==> (exists|j: int| 0 <= j < i + 1 && self.peers@[j].0 == x && x != id) by {
                        if exists|j: int| 0 <= j < i + 1 && self.peers@[j].0 == x && x != id {
                            let j = choose|j: int| 0 <= j < i + 1 && self.peers@[j].0 == x && x != id;
                            assert(j != i);
                        }
                    }
                }
            }
            i = i + 1;
        }
        r
    }
}

/// The inboxes after sending `m`, and the answer: the message goes to the back
/// of its recipient's inbox, or the recipient is not found.
pub open spec fn sent(inboxes: Map<DeviceId, Seq<FeatureMessage>>, m: FeatureMessage) -> (Map<DeviceId, Seq<FeatureMessage>>, Result<(), TransportError>) {
    if inboxes.dom().contains(m.to) {
        (inboxes.insert(m.to, inboxes[m.to].push(m)), Ok(()))
    } else {
        (inboxes, Err(TransportError::PeerNotFound(m.to)))
    }
}

/// The inboxes after device `id` takes its oldest message, and the answer.
pub open spec fn received(inboxes: Map<DeviceId, Seq<FeatureMessage>>, id: DeviceId) -> (Map<DeviceId, Seq<FeatureMessage>>, Result<Option<FeatureMessage>, TransportError>) {
    if !inboxes.dom().contains(id) {
        (inboxes, Err(TransportError::Disconnected))
    } else if inboxes[id].len() == 0 {
        (inboxes, Ok(None))
    } else {
        (inboxes.insert(id, inboxes[id].drop_first()), Ok(Some(inboxes[id][0])))
    }
}


/// Messages are received in the order they were sent: after sending `m`, its
/// recipient next receives the oldest message it had waiting, or `m` itself
/// when none was; and receiving a message sent to an empty inbox leaves the
/// inboxes as they were before the send.
pub proof fn lemma_delivery_order(inboxes: Map<DeviceId, Seq<FeatureMessage>>, m: FeatureMessage)
    requires
        inboxes.dom().contains(m.to),
    ensures
        received(sent(inboxes, m).0, m.to).1 == Ok::<Option<FeatureMessage>, TransportError>(
            Some(if inboxes[m.to].len() == 0 { m } else { inboxes[m.to][0] }),
        ),
        inboxes[m.to].len() == 0 ==> received(sent(inboxes, m).0, m.to).0 == inboxes,
{
    let after = sent(inboxes, m).0;
    assert(after[m.to] == inboxes[m.to].push(m));
    if inboxes[m.to].len() == 0 {
        assert(after[m.to].drop_first() =~= inboxes[m.to]);
        assert(after.insert(m.to, after[m.to].drop_first()) =~= inboxes);
    }
}

/// Sending a message touches no inbox but its recipient's, connects or drops
/// no device, and a message to a device that is not connected is refused with
/// nothing changed.
pub proof fn lemma_send_isolated(inboxes: Map<DeviceId, Seq<FeatureMessage>>, m: FeatureMessage, d: DeviceId)
    ensures
        sent(inboxes, m).0.dom() == inboxes.dom(),
        d != m.to && inboxes.dom().contains(d) ==> sent(inboxes, m).0[d] == inboxes[d],
        !inboxes.dom().contains(m.to) ==> sent(inboxes, m) == (
        inboxes,
        Err::<(), TransportError>(TransportError::PeerNotFound(m.to)),
        ),
{
    if inboxes.dom().contains(m.to) {
        assert(sent(inboxes, m).0.dom() =~= inboxes.dom());
    }
}

} // verus!
