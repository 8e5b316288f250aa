use vstd::prelude::*;

use crate::deque::{Deque, DeqNode};
use crate::entry::{AccessRef, KeyDate, KeyHashDate, ValueEntry};
use crate::region::CacheRegion;

verus! {

/// The aggregate of the four region queues of one cache (or one segment):
/// the three access-order queues and the write-order queue.
///
/// This layer translates entry-level intents into queue operations while
/// maintaining the back-reference bookkeeping: admitting an entry links a
/// fresh node and records its handle in the entry; relocation and unlinking
/// re-confirm membership in the queue the entry's stored tag names before
/// touching anything. Region transitions (promotion, demotion) are composed
/// by the owning cache from `unlink_ao` plus `push_back_ao` into the target
/// region; this layer only supplies the constant-time primitives.
pub struct Deques<K> {
    pub window: Deque<KeyHashDate<K>>,
    pub probation: Deque<KeyHashDate<K>>,
    pub protected: Deque<KeyHashDate<K>>,
    pub write_order: Deque<KeyDate<K>>,
}

impl<K> Deques<K> {
    /// Each queue is well formed and serves its own region.
    pub open spec fn wf(self) -> bool {
        &&& self.window.wf() && self.window.region() == CacheRegion::Window
        &&& self.probation.wf() && self.probation.region() == CacheRegion::MainProbation
        &&& self.protected.wf() && self.protected.region() == CacheRegion::MainProtected
        &&& self.write_order.wf() && self.write_order.region() == CacheRegion::WriteOrder
    }

    /// All four queues are empty.
    pub open spec fn is_empty(self) -> bool {
        &&& self.window.order() == Seq::<int>::empty()
        &&& self.probation.order() == Seq::<int>::empty()
        &&& self.protected.order() == Seq::<int>::empty()
        &&& self.write_order.order() == Seq::<int>::empty()
    }

    /// The access-order queue that `region` names.
    pub open spec fn ao_queue(self, region: CacheRegion) -> Deque<KeyHashDate<K>>
        recommends
            region != CacheRegion::WriteOrder,
    {
        match region {
            CacheRegion::Window => self.window,
            CacheRegion::MainProbation => self.probation,
            CacheRegion::MainProtected => self.protected,
            CacheRegion::WriteOrder => arbitrary(),
        }
    }

    /// The queues `post` results from relinking the node `h` of the access
    /// queue of `region` in `pre` to the back of that same queue, all other
    /// queues and all payloads untouched.
    pub open spec fn ao_moved_to_back(pre: Deques<K>, post: Deques<K>, region: CacheRegion, h: usize) -> bool
        recommends
            region != CacheRegion::WriteOrder,
    {
        &&& post.ao_queue(region).order() == pre.ao_queue(region).order().remove(
            pre.ao_queue(region).order().index_of(h as int),
        ).push(h as int)
        &&& post.ao_queue(region).order().len() == pre.ao_queue(region).order().len()
        &&& (forall|x: usize|
            post.ao_queue(region).has_node(x) == pre.ao_queue(region).has_node(x))
        &&& (forall|x: usize|
            pre.ao_queue(region).has_node(x) ==> post.ao_queue(region).element_at(x) == pre.ao_queue(
                region,
            ).element_at(x))
        &&& (region != CacheRegion::Window ==> post.window == pre.window)
        &&& (region != CacheRegion::MainProbation ==> post.probation == pre.probation)
        &&& (region != CacheRegion::MainProtected ==> post.protected == pre.protected)
        &&& post.write_order == pre.write_order
    }

    /// The queues `post` results from unlinking the node `h` of the access
    /// queue of `region` in `pre`, all other queues and all other payloads
    /// untouched.
    pub open spec fn ao_unlinked(pre: Deques<K>, post: Deques<K>, region: CacheRegion, h: usize) -> bool
        recommends
            region != CacheRegion::WriteOrder,
    {
        &&& post.ao_queue(region).order() == pre.ao_queue(region).order().remove(
            pre.ao_queue(region).order().index_of(h as int),
        )
        &&& post.ao_queue(region).order().len() == pre.ao_queue(region).order().len() - 1
        &&& !post.ao_queue(region).has_node(h)
        &&& (forall|x: usize|
            x != h ==> post.ao_queue(region).has_node(x) == pre.ao_queue(region).has_node(x))
        &&& (forall|x: usize|
            x != h && pre.ao_queue(region).has_node(x) ==> post.ao_queue(region).element_at(x)
                == pre.ao_queue(region).element_at(x))
        &&& (region != CacheRegion::Window ==> post.window == pre.window)
        &&& (region != CacheRegion::MainProbation ==> post.probation == pre.probation)
        &&& (region != CacheRegion::MainProtected ==> post.protected == pre.protected)
        &&& post.write_order == pre.write_order
    }

    /// Discards all four queues and replaces them with fresh empty ones;
    /// used for whole-cache reset, never on per-entry paths.
    pub fn clear(&mut self)
        ensures
            final(self).wf(),
            final(self).is_empty(),
    {
        self.window = Deque::new(CacheRegion::Window);
        self.probation = Deque::new(CacheRegion::MainProbation);
        self.protected = Deque::new(CacheRegion::MainProtected);
        self.write_order = Deque::new(CacheRegion::WriteOrder);
    }

    /// Admits `entry` to the access-order queue of `region`: links a fresh
    /// node holding `kh` at the back of that queue and stores the node's
    /// handle, tagged with `region`, as the entry's access-order
    /// back-reference.
    ///
    /// `WriteOrder` has no access-order semantics and is rejected by the
    /// precondition, as is an entry that is already linked into an access
    /// queue: re-admission without a prior unlink is a contract violation.
    pub fn push_back_ao<V>(
        &mut self,
        region: CacheRegion,
        kh: KeyHashDate<K>,
        entry: &mut ValueEntry<V>,
    )
        requires
            old(self).wf(),
            region != CacheRegion::WriteOrder,
            old(entry).access_order_q_node is None,
        ensures
            final(self).wf(),
            final(entry).value == old(entry).value,
            final(entry).write_order_q_node == old(entry).write_order_q_node,
            final(entry).access_order_q_node matches Some(nr) && nr.region == region && {
                let pre = old(self).ao_queue(region);
                let post = final(self).ao_queue(region);
                &&& !pre.has_node(nr.handle)
                &&& post.order() == pre.order().push(nr.handle as int)
                &&& (forall|x: usize| post.has_node(x) == (pre.has_node(x) || x == nr.handle))
                &&& post.element_at(nr.handle) == kh
                &&& (forall|x: usize|
                    pre.has_node(x) ==> post.element_at(x) == pre.element_at(x))
            },
            region != CacheRegion::Window ==> final(self).window == old(self).window,
            region != CacheRegion::MainProbation ==> final(self).probation == old(self).probation,
            region != CacheRegion::MainProtected ==> final(self).protected == old(self).protected,
            final(self).write_order == old(self).write_order,
    {
        let node = DeqNode::new(region, kh);
        let h = match region {
            CacheRegion::Window => self.window.push_back(node),
            CacheRegion::MainProbation => self.probation.push_back(node),
            CacheRegion::MainProtected => self.protected.push_back(node),
            CacheRegion::WriteOrder => unreached(),
        };
        entry.set_access_order_q_node(Some(AccessRef { region, handle: h }));
    }

    /// Admits `entry` to the write-order queue: links a fresh node holding
    /// `kd` at the back and stores its handle as the entry's write-order
    /// back-reference. The entry must not already be linked in write order.
    pub fn push_back_wo<V>(&mut self, kd: KeyDate<K>, entry: &mut ValueEntry<V>)
        requires
            old(self).wf(),
            old(entry).write_order_q_node is None,
        ensures
            final(self).wf(),
            final(entry).value == old(entry).value,
            final(entry).access_order_q_node == old(entry).access_order_q_node,
            final(entry).write_order_q_node matches Some(h) && {
                let pre = old(self).write_order;
                let post = final(self).write_order;
                &&& !pre.has_node(h)
                &&& post.order() == pre.order().push(h as int)
                &&& (forall|x: usize| post.has_node(x) == (pre.has_node(x) || x == h))
                &&& post.element_at(h) == kd
                &&& (forall|x: usize|
                    pre.has_node(x) ==> post.element_at(x) == pre.element_at(x))
            },
            final(self).window == old(self).window,
            final(self).probation == old(self).probation,
            final(self).protected == old(self).protected,
    {
        let node = DeqNode::new(CacheRegion::WriteOrder, kd);
        let h = self.write_order.push_back(node);
        entry.set_write_order_q_node(Some(h));
    }

    /// Records a touch: relinks the entry's access-order node to the back of
    /// the queue its stored tag names.
    ///
    /// An entry without an access-order back-reference, and one whose tag's
    /// queue no longer contains the node, are expected races (the entry may
    /// have been evicted concurrently): both are silent no-ops that leave
    /// every queue exactly as it was.
    pub fn move_to_back_ao<V>(&mut self, entry: &ValueEntry<V>)
        requires
            old(self).wf(),
            entry.access_order_q_node matches Some(nr) ==> nr.region != CacheRegion::WriteOrder,
        ensures
            final(self).wf(),
            match entry.access_order_q_node {
                None => *final(self) == *old(self),
                Some(nr) => {
                    if old(self).ao_queue(nr.region).has_node(nr.handle) {
                        Self::ao_moved_to_back(*old(self), *final(self), nr.region, nr.handle)
                    } else {
                        *final(self) == *old(self)
                    }
                },
            },
    {
        match entry.access_order_q_node() {
            None => {},
            Some(nr) => {
                match nr.region {
                    CacheRegion::Window => {
                        if self.window.contains(nr.handle) {
                            self.window.move_to_back(nr.handle);
                        }
                    },
                    CacheRegion::MainProbation => {
                        if self.probation.contains(nr.handle) {
                            self.probation.move_to_back(nr.handle);
                        }
                    },
                    CacheRegion::MainProtected => {
                        if self.protected.contains(nr.handle) {
                            self.protected.move_to_back(nr.handle);
                        }
                    },
                    CacheRegion::WriteOrder => unreached(),
                }
            },
        }
    }

    /// Records a write: relinks the entry's write-order node to the back of
    /// the write-order queue. A missing back-reference or a failed membership
    /// check is a silent no-op, as in [`Self::move_to_back_ao`].
    pub fn move_to_back_wo<V>(&mut self, entry: &ValueEntry<V>)
        requires
            old(self).wf(),
        ensures
            final(self).wf(),
            final(self).window == old(self).window,
            final(self).probation == old(self).probation,
            final(self).protected == old(self).protected,
            match entry.write_order_q_node {
                None => final(self).write_order == old(self).write_order,
                Some(h) => {
                    if old(self).write_order.has_node(h) {
                        let pre = old(self).write_order;
                        let post = final(self).write_order;
                        &&& post.order() == pre.order().remove(pre.order().index_of(h as int)).push(
                            h as int,
                        )
                        &&& post.order().len() == pre.order().len()
                        &&& (forall|x: usize| post.has_node(x) == pre.has_node(x))
                        &&& (forall|x: usize|
                            pre.has_node(x) ==> post.element_at(x) == pre.element_at(x))
                    } else {
                        final(self).write_order == old(self).write_order
                    }
                },
            },
    {
        match entry.write_order_q_node() {
            None => {},
            Some(h) => {
                if self.write_order.contains(h) {
                    self.write_order.move_to_back(h);
                }
            },
        }
    }

    /// Takes the entry's access-order back-reference, if any, and unlinks the
    /// node from the queue the tag names. Both an absent back-reference and a
    /// failed membership check are benign no-ops on the queues; the
    /// back-reference is consumed either way, so the entry is afterwards not
    /// linked in access order.
    pub fn unlink_ao<V>(&mut self, entry: &mut ValueEntry<V>)
        requires
            old(self).wf(),
            old(entry).access_order_q_node matches Some(nr) ==> nr.region
                != CacheRegion::WriteOrder,
        ensures
            final(self).wf(),
            final(entry).access_order_q_node is None,
            final(entry).value == old(entry).value,
            final(entry).write_order_q_node == old(entry).write_order_q_node,
            match old(entry).access_order_q_node {
                None => *final(self) == *old(self),
                Some(nr) => {
                    if old(self).ao_queue(nr.region).has_node(nr.handle) {
                        Self::ao_unlinked(*old(self), *final(self), nr.region, nr.handle)
                    } else {
                        *final(self) == *old(self)
                    }
                },
            },
    {
        match entry.take_access_order_q_node() {
            None => {},
            Some(nr) => {
                match nr.region {
                    CacheRegion::Window => {
                        if self.window.contains(nr.handle) {
                            self.window.unlink_and_drop(nr.handle);
                        }
                    },
                    CacheRegion::MainProbation => {
                        if self.probation.contains(nr.handle) {
                            self.probation.unlink_and_drop(nr.handle);
                        }
                    },
                    CacheRegion::MainProtected => {
                        if self.protected.contains(nr.handle) {
                            self.protected.unlink_and_drop(nr.handle);
                        }
                    },
                    CacheRegion::WriteOrder => unreached(),
                }
            },
        }
    }

    /// Takes the entry's write-order back-reference, if any, and unlinks the
    /// node from the write-order queue, with the same benign no-op policy as
    /// [`Self::unlink_ao`].
    pub fn unlink_wo<V>(&mut self, entry: &mut ValueEntry<V>)
        requires
            old(self).wf(),
        ensures
            final(self).wf(),
            final(entry).write_order_q_node is None,
            final(entry).value == old(entry).value,
            final(entry).access_order_q_node == old(entry).access_order_q_node,
            final(self).window == old(self).window,
            final(self).probation == old(self).probation,
            final(self).protected == old(self).protected,
            match old(entry).write_order_q_node {
                None => final(self).write_order == old(self).write_order,
                Some(h) => {
                    if old(self).write_order.has_node(h) {
                        let pre = old(self).write_order;
                        let post = final(self).write_order;
                        &&& post.order() == pre.order().remove(pre.order().index_of(h as int))
                        &&& post.order().len() == pre.order().len() - 1
                        &&& !post.has_node(h)
                        &&& (forall|x: usize| x != h ==> post.has_node(x) == pre.has_node(x))
                        &&& (forall|x: usize|
                            x != h && pre.has_node(x) ==> post.element_at(x) == pre.element_at(x))
                    } else {
                        final(self).write_order == old(self).write_order
                    }
                },
            },
    {
        match entry.take_write_order_q_node() {
            None => {},
            Some(h) => {
                if self.write_order.contains(h) {
                    self.write_order.unlink_and_drop(h);
                }
            },
        }
    }

    /// Unlinks the node a back-reference names from the queue its tag names.
    /// Unlike [`Self::unlink_ao`], the caller asserts membership: calling
    /// this with a node the tag's queue does not contain is a fatal
    /// bookkeeping divergence, excluded by the precondition.
    pub fn unlink_node_ao(&mut self, node: AccessRef)
        requires
            old(self).wf(),
            node.region != CacheRegion::WriteOrder,
            old(self).ao_queue(node.region).has_node(node.handle),
        ensures
            final(self).wf(),
            Self::ao_unlinked(*old(self), *final(self), node.region, node.handle),
    {
        match node.region {
            CacheRegion::Window => self.window.unlink_and_drop(node.handle),
            CacheRegion::MainProbation => self.probation.unlink_and_drop(node.handle),
            CacheRegion::MainProtected => self.protected.unlink_and_drop(node.handle),
            CacheRegion::WriteOrder => unreached(),
        }
    }

    /// Variant of [`Self::unlink_ao`] for callers that already hold the exact
    /// access queue (during a scan of that queue). Here the queue and the
    /// entry asserting membership may not disagree: a back-reference naming a
    /// node the queue does not contain is a fatal internal-consistency error,
    /// excluded by the precondition.
    pub fn unlink_ao_from_deque<V>(deq: &mut Deque<KeyHashDate<K>>, entry: &mut ValueEntry<V>)
        requires
            old(deq).wf(),
            old(entry).access_order_q_node matches Some(nr) ==> old(deq).has_node(nr.handle),
        ensures
            final(deq).wf(),
            final(deq).region() == old(deq).region(),
            final(entry).access_order_q_node is None,
            final(entry).value == old(entry).value,
            final(entry).write_order_q_node == old(entry).write_order_q_node,
            match old(entry).access_order_q_node {
                None => *final(deq) == *old(deq),
                Some(nr) => {
                    &&& final(deq).order() == old(deq).order().remove(
                        old(deq).order().index_of(nr.handle as int),
                    )
                    &&& !final(deq).has_node(nr.handle)
                    &&& (forall|x: usize|
                        x != nr.handle && old(deq).has_node(x) ==> final(deq).element_at(x) == old(
                            deq,
                        ).element_at(x))
                },
            },
    {
        match entry.take_access_order_q_node() {
            None => {},
            Some(nr) => {
                deq.unlink_and_drop(nr.handle);
            },
        }
    }

    /// Variant of [`Self::unlink_wo`] for callers that already hold the
    /// write-order queue, with the same fatal policy on divergence as
    /// [`Self::unlink_ao_from_deque`].
    pub fn unlink_wo_from_deque<V>(deq: &mut Deque<KeyDate<K>>, entry: &mut ValueEntry<V>)
        requires
            old(deq).wf(),
            old(entry).write_order_q_node matches Some(h) ==> old(deq).has_node(h),
        ensures
            final(deq).wf(),
            final(deq).region() == old(deq).region(),
            final(entry).write_order_q_node is None,
            final(entry).value == old(entry).value,
            final(entry).access_order_q_node == old(entry).access_order_q_node,
            match old(entry).write_order_q_node {
                None => *final(deq) == *old(deq),
                Some(h) => {
                    &&& final(deq).order() == old(deq).order().remove(
                        old(deq).order().index_of(h as int),
                    )
                    &&& !final(deq).has_node(h)
                    &&& (forall|x: usize|
                        x != h && old(deq).has_node(x) ==> final(deq).element_at(x) == old(
                            deq,
                        ).element_at(x))
                },
            },
    {
        match entry.take_write_order_q_node() {
            None => {},
            Some(h) => {
                deq.unlink_and_drop(h);
            },
        }
    }

    /// Unlinks a node the caller asserts to be a member of the given
    /// write-order queue; a membership failure is fatal, excluded by the
    /// precondition.
    pub fn unlink_node_wo(deq: &mut Deque<KeyDate<K>>, h: usize)
        requires
            old(deq).wf(),
            old(deq).region() == CacheRegion::WriteOrder,
            old(deq).has_node(h),
        ensures
            final(deq).wf(),
            final(deq).region() == old(deq).region(),
            final(deq).order() == old(deq).order().remove(old(deq).order().index_of(h as int)),
            !final(deq).has_node(h),
            forall|x: usize|
                x != h && old(deq).has_node(x) ==> final(deq).element_at(x) == old(deq).element_at(
                    x,
                ),
    {
        deq.unlink_and_drop(h);
    }
}

/// Law (region tag consistency, queue set): in a well-formed queue set, a
/// node linked in the access-order queue that `region` names carries exactly
/// `region` as its stored tag.
pub proof fn lemma_access_tag_matches_region<K>(d: Deques<K>, region: CacheRegion, h: usize)
    requires
        d.wf(),
        region != CacheRegion::WriteOrder,
        d.ao_queue(region).has_node(h),
    ensures
        d.ao_queue(region).region() == region,
        d.ao_queue(region).tag_at(h) == region,
{
    crate::deque::lemma_region_tag_consistency(d.ao_queue(region), h);
}

/// Law (region tag consistency, write order): a node linked in the
/// write-order queue of a well-formed queue set carries the `WriteOrder` tag.
pub proof fn lemma_write_tag_is_write_order<K>(d: Deques<K>, h: usize)
    requires
        d.wf(),
        d.write_order.has_node(h),
    ensures
        d.write_order.tag_at(h) == CacheRegion::WriteOrder,
{
    crate::deque::lemma_region_tag_consistency(d.write_order, h);
}

impl<K> Default for Deques<K> {
    /// Four fresh empty queues, one per region.
    fn default() -> (d: Self)
        ensures
            d.wf(),
            d.is_empty(),
    {
        Deques {
            window: Deque::new(CacheRegion::Window),
            probation: Deque::new(CacheRegion::MainProbation),
            protected: Deque::new(CacheRegion::MainProtected),
            write_order: Deque::new(CacheRegion::WriteOrder),
        }
    }
}

} // verus!
