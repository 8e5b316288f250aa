use vstd::prelude::*;

use crate::region::CacheRegion;

verus! {

/// Payload of a node in one of the three access-order queues: the key, its
/// precomputed hash, and the recorded timestamp of the admission. The
/// timestamp is carried for reporting and validation; ordering in the queue
/// is purely positional.
pub struct KeyHashDate<K> {
    pub key: K,
    pub hash: u64,
    pub timestamp: Option<u64>,
}

impl<K> KeyHashDate<K> {
    pub fn new(key: K, hash: u64, timestamp: Option<u64>) -> (kh: KeyHashDate<K>)
        ensures
            kh.key == key,
            kh.hash == hash,
            kh.timestamp == timestamp,
    {
        KeyHashDate { key, hash, timestamp }
    }
}

/// Payload of a node in the write-order queue: the key and the timestamp of
/// the last write.
pub struct KeyDate<K> {
    pub key: K,
    pub timestamp: Option<u64>,
}

impl<K> KeyDate<K> {
    pub fn new(key: K, timestamp: Option<u64>) -> (kd: KeyDate<K>)
        ensures
            kd.key == key,
            kd.timestamp == timestamp,
    {
        KeyDate { key, timestamp }
    }
}

/// Back-reference from a cache entry to its node in an access-order queue:
/// the tag of the region whose queue the entry believes owns the node, and
/// the node's handle in that queue.
#[derive(Clone, Copy, Debug, PartialEq, Eq, Structural)]
pub struct AccessRef {
    pub region: CacheRegion,
    pub handle: usize,
}

/// The cache's stored record for a key: the value, and the back-references
/// into the queue system. An entry holds at most one access-order
/// back-reference and at most one write-order back-reference; a
/// back-reference, once taken by an unlink operation, is absent until the
/// entry is admitted again.
pub struct ValueEntry<V> {
    pub value: V,
    pub access_order_q_node: Option<AccessRef>,
    pub write_order_q_node: Option<usize>,
}

impl<V> ValueEntry<V> {
    pub fn new(value: V) -> (entry: ValueEntry<V>)
        ensures
            entry.value == value,
            entry.access_order_q_node is None,
            entry.write_order_q_node is None,
    {
        ValueEntry { value, access_order_q_node: None, write_order_q_node: None }
    }

    pub fn access_order_q_node(&self) -> (r: Option<AccessRef>)
        ensures
            r == self.access_order_q_node,
    {
        self.access_order_q_node
    }

    pub fn set_access_order_q_node(&mut self, node: Option<AccessRef>)
        ensures
            final(self).access_order_q_node == node,
            final(self).value == old(self).value,
            final(self).write_order_q_node == old(self).write_order_q_node,
    {
        self.access_order_q_node = node;
    }

    pub fn take_access_order_q_node(&mut self) -> (r: Option<AccessRef>)
        ensures
            r == old(self).access_order_q_node,
            final(self).access_order_q_node is None,
            final(self).value == old(self).value,
            final(self).write_order_q_node == old(self).write_order_q_node,
    {
        self.access_order_q_node.take()
    }

    pub fn write_order_q_node(&self) -> (r: Option<usize>)
        ensures
            r == self.write_order_q_node,
    {
        self.write_order_q_node
    }

    pub fn set_write_order_q_node(&mut self, node: Option<usize>)
        ensures
            final(self).write_order_q_node == node,
            final(self).value == old(self).value,
            final(self).access_order_q_node == old(self).access_order_q_node,
    {
        self.write_order_q_node = node;
    }

    pub fn take_write_order_q_node(&mut self) -> (r: Option<usize>)
        ensures
            r == old(self).write_order_q_node,
            final(self).write_order_q_node is None,
            final(self).value == old(self).value,
            final(self).access_order_q_node == old(self).access_order_q_node,
    {
        self.write_order_q_node.take()
    }
}

} // verus!
