//! The live connections to peers, one per device.

use vstd::prelude::*;

use crate::ids::DeviceId;

verus! {

/// Some entry is for device `d`.
pub open spec fn has_device<C>(entries: Seq<(DeviceId, C)>, d: DeviceId) -> bool {
    exists|i: int| 0 <= i < entries.len() && entries[i].0 == d
}

/// No device has two entries.
pub open spec fn distinct_devices<C>(entries: Seq<(DeviceId, C)>) -> bool {
    forall|i: int, j: int| 0 <= i < entries.len() && 0 <= j < entries.len() && i != j ==> entries[i].0 != entries[j].0
}

/// The map from device to connection that `entries` stands for.
pub open spec fn device_map<C>(entries: Seq<(DeviceId, C)>) -> Map<DeviceId, C> {
    Map::new(
        |d: DeviceId| has_device(entries, d),
        |d: DeviceId| entries[choose|i: int| 0 <= i < entries.len() && entries[i].0 == d].1,
    )
}

proof fn lemma_device_at<C>(entries: Seq<(DeviceId, C)>, i: int)
    requires
        distinct_devices(entries),
        0 <= i < entries.len(),
    ensures
        device_map(entries).dom().contains(entries[i].0),
        device_map(entries)[entries[i].0] == entries[i].1,
{
    let d = entries[i].0;
    assert(has_device(entries, d));
    let k = choose|k: int| 0 <= k < entries.len() && entries[k].0 == d;
    assert(k == i);
}

proof fn lemma_device_update<C>(entries: Seq<(DeviceId, C)>, i: int, c: C)
    requires
        distinct_devices(entries),
        0 <= i < entries.len(),
    ensures
        distinct_devices(entries.update(i, (entries[i].0, c))),
        device_map(entries.update(i, (entries[i].0, c))) == device_map(entries).insert(entries[i].0, c),
{
    let d = entries[i].0;
    let q = entries.update(i, (d, c));
    assert forall|x: DeviceId| has_device(q, x) <==> has_device(entries, x) by {
        if has_device(q, x) {
            let k = choose|k: int| 0 <= k < q.len() && q[k].0 == x;
            assert(entries[k].0 == x);
        }
        if has_device(entries, x) {
            let k = choose|k: int| 0 <= k < entries.len() && entries[k].0 == x;
            assert(q[k].0 == x);
        }
    }
    assert forall|x: DeviceId| #[trigger] device_map(q).dom().contains(x) implies device_map(q)[x]
        == device_map(entries).insert(d, c)[x] by {
        let k = choose|k: int| 0 <= k < q.len() && q[k].0 == x;
        lemma_device_at(q, k);
        lemma_device_at(entries, k);
    }
    assert(device_map(q) =~= device_map(entries).insert(d, c));
}

proof fn lemma_device_push<C>(entries: Seq<(DeviceId, C)>, d: DeviceId, c: C)
    requires
        distinct_devices(entries),
        !has_device(entries, d),
    ensures
        distinct_devices(entries.push((d, c))),
        device_map(entries.push((d, c))) == device_map(entries).insert(d, c),
{
    let q = entries.push((d, c));
    assert forall|a: int, b: int| 0 <= a < q.len() && 0 <= b < q.len() && a != b implies q[a].0 != q[b].0 by {
        if a < entries.len() && b < entries.len() {
            assert(q[a] == entries[a] && q[b] == entries[b]);
        } else if a < entries.len() {
            assert(q[a] == entries[a]);
        } else {
            assert(q[b] == entries[b]);
        }
    }
    assert forall|x: DeviceId| has_device(q, x) <==> (has_device(entries, x) || x == d) by {
        if has_device(entries, x) {
            let k = choose|k: int| 0 <= k < entries.len() && entries[k].0 == x;
            assert(q[k] == entries[k]);
        }
        if x == d {
            assert(q[entries.len() as int].0 == d);
        }
        if has_device(q, x) && x != d {
            let k = choose|k: int| 0 <= k < q.len() && q[k].0 == x;
            assert(k < entries.len());
            assert(q[k] == entries[k]);
        }
    }
    assert forall|x: DeviceId| #[trigger] device_map(q).dom().contains(x) implies device_map(q)[x]
        == device_map(entries).insert(d, c)[x] by {
        let k = choose|k: int| 0 <= k < q.len() && q[k].0 == x;
        lemma_device_at(q, k);
        if k < entries.len() {
            assert(q[k] == entries[k]);
            lemma_device_at(entries, k);
        }
    }
    assert(device_map(q) =~= device_map(entries).insert(d, c));
}

proof fn lemma_device_remove<C>(entries: Seq<(DeviceId, C)>, i: int)
    requires
        distinct_devices(entries),
        0 <= i < entries.len(),
    ensures
        distinct_devices(entries.remove(i)),
        device_map(entries.remove(i)) == device_map(entries).remove(entries[i].0),
{
    let d = entries[i].0;
    let q = entries.remove(i);
    assert forall|a: int, b: int| 0 <= a < q.len() && 0 <= b < q.len() && a != b implies q[a].0 != q[b].0 by {
        let a2 = if a < i { a } else { a + 1 };
        let b2 = if b < i { b } else { b + 1 };
        assert(q[a] == entries[a2] && q[b] == entries[b2]);
    }
    assert forall|x: DeviceId| has_device(q, x) <==> (has_device(entries, x) && x != d) by {
        if has_device(q, x) {
            let k = choose|k: int| 0 <= k < q.len() && q[k].0 == x;
            let k2 = if k < i { k } else { k + 1 };
            assert(q[k] == entries[k2]);
            assert(k2 != i);
        }
        if has_device(entries, x) && x != d {
            let k = choose|k: int| 0 <= k < entries.len() && entries[k].0 == x;
            assert(k != i);
            let k2 = if k < i { k } else { k - 1 };
            assert(q[k2] == entries[k]);
        }
    }
    assert forall|x: DeviceId| #[trigger] device_map(q).dom().contains(x) implies device_map(q)[x]
        == device_map(entries).remove(d)[x] by {
        let k = choose|k: int| 0 <= k < q.len() && q[k].0 == x;
        lemma_device_at(q, k);
        let k2 = if k < i { k } else { k + 1 };
        assert(q[k] == entries[k2]);
        lemma_device_at(entries, k2);
    }
    assert(device_map(q) =~= device_map(entries).remove(d));
}

/// The live connection of each connected device.
pub struct ConnectionPool<C> {
    connections: Vec<(DeviceId, C)>,
}

impl<C> ConnectionPool<C> {
    /// No device has two connections.
    pub closed spec fn wf(&self) -> bool {
        distinct_devices(self.connections@)
    }

    /// The connection of each connected device.
    pub closed spec fn connections(&self) -> Map<DeviceId, C> {
        device_map(self.connections@)
    }

    /// An empty pool.
    pub fn new() -> (r: ConnectionPool<C>)
        ensures
            r.wf(),
            r.connections() == Map::<DeviceId, C>::empty(),
    {
        let r = ConnectionPool { connections: Vec::new() };
        assert(device_map(r.connections@) =~= Map::<DeviceId, C>::empty());
        r
    }

    fn position(&self, device: DeviceId) -> (r: Option<usize>)
        ensures
            match r {
                Some(i) => i < self.connections@.len() && self.connections@[i as int].0 == device,
                None => !has_device(self.connections@, device),
            },
    {
        let mut i: usize = 0;
        while i < self.connections.len()
            invariant
                i <= self.connections@.len(),
                forall|j: int| 0 <= j < i ==> self.connections@[j].0 != device,
            decreases self.connections.len() - i,
        {
            if self.connections[i].0 == device {
                return Some(i);
            }
            i = i + 1;
        }
        None
    }

    /// Keeps `connection` as the device's connection, in place of any earlier one.
    pub fn insert(&mut self, device: DeviceId, connection: C)
        requires
            old(self).wf(),
        ensures
            final(self).wf(),
            final(self).connections() == old(self).connections().insert(device, connection),
    {
        match self.position(device) {
            Some(i) => {
                let ghost before = self.connections@;
                let _ = self.connections.remove(i);
                self.connections.insert(i, (device, connection));
                proof {
                    assert(self.connections@ =~= before.update(i as int, (device, connection)));
                    lemma_device_update(before, i as int, connection);
                }
            },
            None => {
                let ghost before = self.connections@;
                self.connections.push((device, connection));
                proof {
                    lemma_device_push(before, device, connection);
                }
            },
        }
    }

    /// Drops the device's connection, if it has one.
    pub fn remove(&mut self, device: DeviceId)
        requires
            old(self).wf(),
        ensures
            final(self).wf(),
            final(self).connections() == old(self).connections().remove(device),
    {
        match self.position(device) {
            Some(i) => {
                let ghost before = self.connections@;
                let _ = self.connections.remove(i);
                proof {
                    lemma_device_remove(before, i as int);
                }
            },
            None => {
                assert(device_map(self.connections@).remove(device) =~= device_map(self.connections@));
            },
        }
    }

    /// The device's connection, if it has one.
    pub fn get(&self, device: DeviceId) -> (r: Option<&C>)
        requires
            self.wf(),
        ensures
            match r {
                Some(c) => self.connections().dom().contains(device) && *c == self.connections()[device],
                None => !self.connections().dom().contains(device),
            },
    {
        match self.position(device) {
            Some(i) => {
                proof {
                    lemma_device_at(self.connections@, i as int);
                }
                Some(&self.connections[i].1)
            },
            None => None,
        }
    }

    /// The devices with a connection, each once.
    pub fn connected_peers(&self) -> (r: Vec<DeviceId>)
        requires
            self.wf(),
        ensures
            r@.to_set() == self.connections().dom(),
            r@.no_duplicates(),
    {
        let mut r: Vec<DeviceId> = Vec::new();
        let mut i: usize = 0;
        while i < self.connections.len()
            invariant
                i <= self.connections@.len(),
                distinct_devices(self.connections@),
                r@.len() == i,
                forall|j: int| 0 <= j < i ==> r@[j] == self.connections@[j].0,
            decreases self.connections.len() - i,
        {
            r.push(self.connections[i].0);
            i = i + 1;
        }
        proof {
            assert forall|d: DeviceId| r@.to_set().contains(d) <==> self.connections().dom().contains(d) by {
                if r@.to_set().contains(d) {
                    let k = choose|k: int| 0 <= k < r@.len() && r@[k] == d;
                    assert(self.connections@[k].0 == d);
                }
                if self.connections().dom().contains(d) {
                    let k = choose|k: int| 0 <= k < self.connections@.len() && self.connections@[k].0 == d;
                    assert(r@[k] == d);
                    assert(r@.contains(d));
                }
            }
            assert(r@.to_set() =~= self.connections().dom());
            assert forall|a: int, b: int| 0 <= a < r@.len() && 0 <= b < r@.len() && a != b implies r@[a] != r@[b] by {
                assert(r@[a] == self.connections@[a].0);
                assert(r@[b] == self.connections@[b].0);
            }
        }
        r
    }
}

} // verus!
