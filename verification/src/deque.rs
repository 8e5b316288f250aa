use vstd::prelude::*;
use vstd::set_lib::{lemma_int_range, lemma_len_subset, set_int_range};

use crate::region::CacheRegion;

verus! {

/// One element of a region queue: the payload, the tag of the owning region,
/// and the links to its neighbours. The links are slot numbers in the queue's
/// arena; they are absent at the ends of the queue.
pub struct DeqNode<T> {
    pub region: CacheRegion,
    pub element: T,
    pub prev: Option<usize>,
    pub next: Option<usize>,
}

impl<T> DeqNode<T> {
    pub fn new(region: CacheRegion, element: T) -> (node: DeqNode<T>)
        ensures
            node.region == region,
            node.element == element,
    {
        DeqNode { region, element, prev: None, next: None }
    }
}

/// A doubly-linked queue of [`DeqNode`]s, tagged with the region it serves.
///
/// The nodes live in an arena of slots; a handle is the number of the slot a
/// node was appended into. A slot number is never reissued, so a handle
/// identifies one node for the queue's whole life and membership is decided
/// by identity: `contains` answers whether the handle's node is still linked.
/// `push_back`, `move_to_back` and `unlink_and_drop` each touch only the
/// handle's slot and its neighbours — no operation walks the queue.
///
/// The abstract state is [`Deque::order`]: the handles of the linked nodes,
/// front (least recently touched) to back.
pub struct Deque<T> {
    region: CacheRegion,
    slots: Vec<Option<DeqNode<T>>>,
    head: Option<usize>,
    tail: Option<usize>,
    len: usize,
    order: Ghost<Seq<int>>,
}

impl<T> Deque<T> {
    /// The region this queue serves; every node it holds carries this tag.
    pub closed spec fn region(self) -> CacheRegion {
        self.region
    }

    /// The handles of the linked nodes, oldest touch first.
    pub closed spec fn order(self) -> Seq<int> {
        self.order@
    }

    /// Whether the node with handle `h` is currently linked into this queue.
    pub open spec fn has_node(self, h: usize) -> bool {
        self.order().contains(h as int)
    }

    /// The payload of the node with handle `h`.
    pub closed spec fn element_at(self, h: usize) -> T {
        self.slots@[h as int]->0.element
    }

    /// The region tag stored in the node with handle `h`.
    pub closed spec fn tag_at(self, h: usize) -> CacheRegion {
        self.slots@[h as int]->0.region
    }

    /// The linking conditions at position `k` of the queue order.
    spec fn link_ok(self, k: int) -> bool {
        let h = self.order@[k];
        &&& 0 <= h < self.slots@.len()
        &&& self.slots@[h] is Some
        &&& self.slots@[h]->0.region == self.region
        &&& self.slots@[h]->0.prev == (if k == 0 {
            Option::<usize>::None
        } else {
            Some(self.order@[k - 1] as usize)
        })
        &&& self.slots@[h]->0.next == (if k + 1 == self.order@.len() {
            Option::<usize>::None
        } else {
            Some(self.order@[k + 1] as usize)
        })
    }

    /// Structural invariant: the order sequence lists exactly the occupied
    /// slots, the links of each node name its neighbours in that sequence,
    /// every node carries the queue's tag, and head/tail/len agree with it.
    pub closed spec fn wf(self) -> bool {
        &&& self.order@.no_duplicates()
        &&& (forall|k: int| 0 <= k < self.order@.len() ==> #[trigger] self.link_ok(k))
        &&& (forall|i: int|
            0 <= i < self.slots@.len() && #[trigger] self.slots@[i] is Some ==> self.order@.contains(
                i,
            ))
        &&& self.len == self.order@.len()
        &&& self.head == (if self.order@.len() == 0 {
            Option::<usize>::None
        } else {
            Some(self.order@[0] as usize)
        })
        &&& self.tail == (if self.order@.len() == 0 {
            Option::<usize>::None
        } else {
            Some(self.order@.last() as usize)
        })
    }

    /// A linked handle is a valid slot number.
    proof fn lemma_member_in_bounds(self, h: usize)
        requires
            self.wf(),
            self.has_node(h),
        ensures
            (h as int) < self.slots@.len(),
            self.slots@[h as int] is Some,
            self.slots@[h as int]->0.region == self.region(),
    {
        let k = choose|k: int| 0 <= k < self.order@.len() && self.order@[k] == h as int;
        assert(self.link_ok(k));
    }

    /// There can be no more linked nodes than slots.
    proof fn lemma_len_bound(self)
        requires
            self.wf(),
        ensures
            self.order@.len() <= self.slots@.len(),
    {
        let s = self.order@;
        let range = set_int_range(0, self.slots@.len() as int);
        assert forall|x: int| s.to_set().contains(x) implies range.contains(x) by {
            let k = choose|k: int| 0 <= k < s.len() && s[k] == x;
            assert(self.link_ok(k));
        }
        s.unique_seq_to_set();
        lemma_int_range(0, self.slots@.len() as int);
        lemma_len_subset(s.to_set(), range);
    }

    pub fn new(region: CacheRegion) -> (d: Deque<T>)
        ensures
            d.wf(),
            d.region() == region,
            d.order() == Seq::<int>::empty(),
    {
        Deque {
            region,
            slots: Vec::new(),
            head: None,
            tail: None,
            len: 0,
            order: Ghost(Seq::empty()),
        }
    }

    /// How many nodes are linked.
    pub fn len(&self) -> (n: usize)
        requires
            self.wf(),
        ensures
            n == self.order().len(),
    {
        self.len
    }

    /// Identity-based membership test: whether the node that `h` was issued
    /// for is still linked into this queue.
    pub fn contains(&self, h: usize) -> (present: bool)
        requires
            self.wf(),
        ensures
            present == self.has_node(h),
    {
        let present = h < self.slots.len() && self.slots[h].is_some();
        proof {
            if present {
                assert(self.order@.contains(h as int));
            }
            if self.has_node(h) {
                self.lemma_member_in_bounds(h);
            }
        }
        present
    }

    /// The handle at the front of the queue (the oldest touch), if any.
    pub fn head_handle(&self) -> (r: Option<usize>)
        requires
            self.wf(),
        ensures
            r is Some <==> self.order().len() > 0,
            r matches Some(h) ==> h as int == self.order().first(),
    {
        let slot_count = self.slots.len();
        proof {
            assert(self.slots@.len() == slot_count as int);
            if self.order@.len() > 0 {
                assert(self.link_ok(0));
            }
        }
        self.head
    }

    /// The handle at the back of the queue (the most recent touch), if any.
    pub fn tail_handle(&self) -> (r: Option<usize>)
        requires
            self.wf(),
        ensures
            r is Some <==> self.order().len() > 0,
            r matches Some(h) ==> h as int == self.order().last(),
    {
        let slot_count = self.slots.len();
        proof {
            assert(self.slots@.len() == slot_count as int);
            if self.order@.len() > 0 {
                assert(self.link_ok(self.order@.len() - 1));
            }
        }
        self.tail
    }

    /// The handle linked right after `h`, towards the back; `None` at the tail.
    pub fn next_handle(&self, h: usize) -> (r: Option<usize>)
        requires
            self.wf(),
            self.has_node(h),
        ensures
            ({
                let k = self.order().index_of(h as int);
                if k + 1 < self.order().len() {
                    r == Some(self.order()[k + 1] as usize)
                } else {
                    r is None
                }
            }),
    {
        proof {
            self.lemma_member_in_bounds(h);
            let k = choose|k: int|
                0 <= k < self.order@.len() && self.order@[k] == h as int;
            assert(self.link_ok(k));
            assert(self.order().index_of(h as int) == k);
        }
        match &self.slots[h] {
            Some(node) => node.next,
            None => unreached(),
        }
    }

    /// A shared borrow of the payload of the node with handle `h`.
    pub fn element(&self, h: usize) -> (e: &T)
        requires
            self.wf(),
            self.has_node(h),
        ensures
            *e == self.element_at(h),
    {
        proof {
            self.lemma_member_in_bounds(h);
        }
        match &self.slots[h] {
            Some(node) => &node.element,
            None => unreached(),
        }
    }

    /// Reads the two links of the node in slot `i`.
    fn links_of(slots: &Vec<Option<DeqNode<T>>>, i: usize) -> (r: (Option<usize>, Option<usize>))
        requires
            i < slots@.len(),
            slots@[i as int] is Some,
        ensures
            r.0 == slots@[i as int]->0.prev,
            r.1 == slots@[i as int]->0.next,
    {
        match &slots[i] {
            Some(node) => (node.prev, node.next),
            None => unreached(),
        }
    }

    /// Redirects the forward link of the node in slot `i`.
    fn set_next(slots: &mut Vec<Option<DeqNode<T>>>, i: usize, next: Option<usize>)
        requires
            i < old(slots)@.len(),
            old(slots)@[i as int] is Some,
        ensures
            final(slots)@.len() == old(slots)@.len(),
            final(slots)@[i as int] is Some,
            final(slots)@[i as int]->0.element == old(slots)@[i as int]->0.element,
            final(slots)@[i as int]->0.region == old(slots)@[i as int]->0.region,
            final(slots)@[i as int]->0.prev == old(slots)@[i as int]->0.prev,
            final(slots)@[i as int]->0.next == next,
            forall|j: int|
                0 <= j < old(slots)@.len() && j != i ==> final(slots)@[j] == old(slots)@[j],
    {
        let taken = take_slot(slots, i);
        match taken {
            Some(mut node) => {
                node.next = next;
                slots[i] = Some(node);
            },
            None => unreached(),
        }
    }

    /// Redirects the backward link of the node in slot `i`.
    fn set_prev(slots: &mut Vec<Option<DeqNode<T>>>, i: usize, prev: Option<usize>)
        requires
            i < old(slots)@.len(),
            old(slots)@[i as int] is Some,
        ensures
            final(slots)@.len() == old(slots)@.len(),
            final(slots)@[i as int] is Some,
            final(slots)@[i as int]->0.element == old(slots)@[i as int]->0.element,
            final(slots)@[i as int]->0.region == old(slots)@[i as int]->0.region,
            final(slots)@[i as int]->0.next == old(slots)@[i as int]->0.next,
            final(slots)@[i as int]->0.prev == prev,
            forall|j: int|
                0 <= j < old(slots)@.len() && j != i ==> final(slots)@[j] == old(slots)@[j],
    {
        let taken = take_slot(slots, i);
        match taken {
            Some(mut node) => {
                node.prev = prev;
                slots[i] = Some(node);
            },
            None => unreached(),
        }
    }

    /// Appends `node` at the back of the queue and returns its handle.
    ///
    /// The handle is fresh: it was never a member of this queue before, and it
    /// stays usable for `move_to_back`, `unlink_and_drop` and `contains` until
    /// the node is unlinked.
    pub fn push_back(&mut self, node: DeqNode<T>) -> (h: usize)
        requires
            old(self).wf(),
            node.region == old(self).region(),
        ensures
            final(self).wf(),
            final(self).region() == old(self).region(),
            !old(self).has_node(h),
            final(self).order() == old(self).order().push(h as int),
            forall|x: usize| final(self).has_node(x) == (old(self).has_node(x) || x == h),
            final(self).element_at(h) == node.element,
            final(self).tag_at(h) == node.region,
            forall|x: usize|
                old(self).has_node(x) ==> final(self).element_at(x) == old(self).element_at(x)
                    && final(self).tag_at(x) == old(self).tag_at(x),
    {
        proof {
            self.lemma_len_bound();
        }
        let h = self.slots.len();
        let mut node = node;
        node.prev = self.tail;
        node.next = None;
        let ghost old_order = self.order@;
        let ghost old_slots = self.slots@;
        self.slots.push(Some(node));
        let new_slot_count = self.slots.len();
        proof {
            assert(self.slots@.len() == new_slot_count as int);
        }
        match self.tail {
            Some(t) => {
                proof {
                    assert(old(self).link_ok(old_order.len() - 1));
                }
                Self::set_next(&mut self.slots, t, Some(h));
            },
            None => {
                self.head = Some(h);
            },
        }
        self.tail = Some(h);
        self.len = self.len + 1;
        self.order = Ghost(old_order.push(h as int));
        proof {
            let new_order = self.order@;
            assert forall|x: int| old_order.contains(x) implies 0 <= x < h as int by {
                let k = choose|k: int| 0 <= k < old_order.len() && old_order[k] == x;
                assert(old(self).link_ok(k));
            }
            assert(!old_order.contains(h as int));
            assert(new_order.no_duplicates());
            assert forall|k: int| 0 <= k < new_order.len() implies self.link_ok(k) by {
                if k < old_order.len() {
                    assert(old(self).link_ok(k));
                    if k == old_order.len() - 1 {
                        assert(old_order[k] == old_order.last());
                    } else {
                        assert(self.slots@[new_order[k]] == old_slots[old_order[k]]);
                    }
                }
            }
            assert forall|i: int|
                0 <= i < self.slots@.len() && self.slots@[i] is Some implies self.order@.contains(
                i,
            ) by {
                if i < old_slots.len() && i != old(self).tail->0 as int {
                    assert(old_slots[i] is Some);
                    let k = choose|k: int| 0 <= k < old_order.len() && old_order[k] == i;
                    assert(new_order[k] == i);
                } else if i == h as int {
                    assert(new_order.last() == h as int);
                } else {
                    let t = old(self).tail->0;
                    assert(old_order.last() == t as int);
                    let k = old_order.len() - 1;
                    assert(new_order[k] == i);
                }
            }
            assert(self.wf());
            assert forall|x: usize| final(self).has_node(x) == (old(self).has_node(x) || x
                == h) by {
                if old(self).has_node(x) {
                    let kx = choose|kx: int|
                        0 <= kx < old_order.len() && old_order[kx] == x as int;
                    assert(new_order[kx] == x as int);
                }
                if x == h {
                    assert(new_order.last() == h as int);
                }
                if new_order.contains(x as int) && x != h {
                    let kx = choose|kx: int|
                        0 <= kx < new_order.len() && new_order[kx] == x as int;
                    assert(old_order[kx] == x as int);
                }
            }
            assert forall|x: usize| old(self).has_node(x) implies final(self).element_at(x)
                == old(self).element_at(x) && final(self).tag_at(x) == old(self).tag_at(x) by {
                old(self).lemma_member_in_bounds(x);
            }
        }
        h
    }

    /// Relinks the node with handle `h` to the back of the queue: it becomes
    /// the most recent entry, and all other nodes keep their relative order.
    /// Only the node's slot, its neighbours' and the tail's are touched.
    pub fn move_to_back(&mut self, h: usize)
        requires
            old(self).wf(),
            old(self).has_node(h),
        ensures
            final(self).wf(),
            final(self).region() == old(self).region(),
            final(self).order() == old(self).order().remove(
                old(self).order().index_of(h as int),
            ).push(h as int),
            final(self).order().len() == old(self).order().len(),
            0 <= old(self).order().index_of(h as int) < old(self).order().len(),
            forall|x: usize| final(self).has_node(x) == old(self).has_node(x),
            forall|x: usize|
                old(self).has_node(x) ==> final(self).element_at(x) == old(self).element_at(x)
                    && final(self).tag_at(x) == old(self).tag_at(x),
    {
        let ghost old_order = self.order@;
        let ghost old_slots = self.slots@;
        let ghost k = choose|k: int| 0 <= k < old_order.len() && old_order[k] == h as int;
        let slot_count = self.slots.len();
        proof {
            assert(self.slots@.len() == slot_count as int);
            self.lemma_member_in_bounds(h);
            assert(self.link_ok(k));
            assert(old_order.index_of(h as int) == k);
        }
        let (p, q) = Self::links_of(&self.slots, h);
        let qi = match q {
            Some(qi) => qi,
            None => {
                // `h` is already at the back.
                proof {
                    assert(k == old_order.len() - 1);
                    old_order.remove_ensures(k);
                    assert(old_order.remove(k).push(h as int) =~= old_order);
                }
                return ;
            },
        };
        proof {
            assert(k + 1 < old_order.len());
            assert(self.link_ok(k + 1));
            assert(self.link_ok(old_order.len() - 1));
            if k > 0 {
                assert(self.link_ok(k - 1));
            }
        }
        // Detach `h` from its position.
        match p {
            Some(pi) => {
                Self::set_next(&mut self.slots, pi, q);
            },
            None => {
                self.head = q;
            },
        }
        Self::set_prev(&mut self.slots, qi, p);
        // Reattach it behind the old tail.
        let t = match self.tail {
            Some(t) => t,
            None => unreached(),
        };
        Self::set_next(&mut self.slots, t, Some(h));
        Self::set_prev(&mut self.slots, h, Some(t));
        Self::set_next(&mut self.slots, h, None);
        self.tail = Some(h);
        self.order = Ghost(old_order.remove(k).push(h as int));
        proof {
            let removed = old_order.remove(k);
            let new_order = self.order@;
            old_order.remove_ensures(k);
            assert forall|j: int| 0 <= j < removed.len() implies removed[j] != h as int by {
                if j < k {
                    assert(old_order[j] == removed[j]);
                } else {
                    assert(old_order[j + 1] == removed[j]);
                }
            }
            assert(new_order.no_duplicates()) by {
                assert forall|a: int, b: int|
                    0 <= a < b < new_order.len() implies new_order[a] != new_order[b] by {
                    if b < removed.len() {
                        if a < k && b < k {
                        } else if a < k {
                            assert(new_order[b] == old_order[b + 1]);
                        } else {
                            assert(new_order[a] == old_order[a + 1]);
                            assert(new_order[b] == old_order[b + 1]);
                        }
                    }
                }
            }
            assert forall|j: int| 0 <= j < new_order.len() implies self.link_ok(j) by {
                let x = new_order[j];
                if j + 1 == new_order.len() {
                    // the moved node itself
                    assert(x == h as int);
                } else {
                    assert(x == removed[j]);
                    let jo = if j < k {
                        j
                    } else {
                        j + 1
                    };
                    assert(old_order[jo] == x);
                    assert(old(self).link_ok(jo));
                    if j + 1 == removed.len() {
                        // new last survivor: the old tail, now pointing at h
                        assert(jo == old_order.len() - 1);
                        assert(x == old_order.last());
                    } else {
                        // interior: neighbours among the survivors
                        if j + 1 < removed.len() {
                            if j + 1 < k {
                                assert(removed[j + 1] == old_order[j + 1]);
                            } else {
                                assert(removed[j + 1] == old_order[j + 2]);
                            }
                        }
                        if j > 0 {
                            if j - 1 < k {
                                assert(removed[j - 1] == old_order[j - 1]);
                            } else {
                                assert(removed[j - 1] == old_order[j]);
                            }
                        }
                    }
                }
            }
            assert forall|i: int|
                0 <= i < self.slots@.len() && self.slots@[i] is Some implies new_order.contains(
                i,
            ) by {
                assert(old_slots[i] is Some);
                let ko = choose|ko: int| 0 <= ko < old_order.len() && old_order[ko] == i;
                if i == h as int {
                    assert(new_order.last() == h as int);
                } else {
                    let j = if ko < k {
                        ko
                    } else {
                        ko - 1
                    };
                    assert(new_order[j] == i);
                }
            }
            assert(self.wf());
            assert forall|x: usize| final(self).has_node(x) == old(self).has_node(x) by {
                if old_order.contains(x as int) {
                    if x != h {
                        let ko = choose|ko: int|
                            0 <= ko < old_order.len() && old_order[ko] == x as int;
                        let j = if ko < k {
                            ko
                        } else {
                            ko - 1
                        };
                        assert(new_order[j] == x as int);
                    } else {
                        assert(new_order.last() == h as int);
                    }
                }
                if new_order.contains(x as int) && !old_order.contains(x as int) {
                    let j = choose|j: int|
                        0 <= j < new_order.len() && new_order[j] == x as int;
                    if j + 1 == new_order.len() {
                        assert(old_order[k] == x as int);
                    } else {
                        let jo = if j < k {
                            j
                        } else {
                            j + 1
                        };
                        assert(old_order[jo] == x as int);
                    }
                }
            }
            assert forall|x: usize| old(self).has_node(x) implies final(self).element_at(x)
                == old(self).element_at(x) && final(self).tag_at(x) == old(self).tag_at(x) by {
                old(self).lemma_member_in_bounds(x);
            }
        }
    }

    /// Unlinks the node with handle `h` and disposes it: its neighbours are
    /// joined, head/tail and the length are updated, and the handle is dead
    /// from here on (`contains` answers false for it forever after). Only the
    /// node's slot and its neighbours' are touched.
    pub fn unlink_and_drop(&mut self, h: usize)
        requires
            old(self).wf(),
            old(self).has_node(h),
        ensures
            final(self).wf(),
            final(self).region() == old(self).region(),
            final(self).order() == old(self).order().remove(old(self).order().index_of(h as int)),
            final(self).order().len() == old(self).order().len() - 1,
            0 <= old(self).order().index_of(h as int) < old(self).order().len(),
            !final(self).has_node(h),
            forall|x: usize| x != h ==> final(self).has_node(x) == old(self).has_node(x),
            forall|x: usize|
                x != h && old(self).has_node(x) ==> final(self).element_at(x) == old(
                    self).element_at(x) && final(self).tag_at(x) == old(self).tag_at(x),
    {
        let ghost old_order = self.order@;
        let ghost old_slots = self.slots@;
        let ghost k = choose|k: int| 0 <= k < old_order.len() && old_order[k] == h as int;
        let slot_count = self.slots.len();
        proof {
            assert(self.slots@.len() == slot_count as int);
            self.lemma_member_in_bounds(h);
            assert(self.link_ok(k));
            assert(old_order.index_of(h as int) == k);
            if k > 0 {
                assert(self.link_ok(k - 1));
            }
            if k + 1 < old_order.len() {
                assert(self.link_ok(k + 1));
            }
        }
        let (p, q) = Self::links_of(&self.slots, h);
        match p {
            Some(pi) => {
                Self::set_next(&mut self.slots, pi, q);
            },
            None => {
                self.head = q;
            },
        }
        match q {
            Some(qi) => {
                Self::set_prev(&mut self.slots, qi, p);
            },
            None => {
                self.tail = p;
            },
        }
        self.slots[h] = None;
        self.len = self.len - 1;
        self.order = Ghost(old_order.remove(k));
        proof {
            let new_order = self.order@;
            old_order.remove_ensures(k);
            assert forall|j: int| 0 <= j < new_order.len() implies new_order[j] != h as int by {
                if j < k {
                    assert(old_order[j] == new_order[j]);
                } else {
                    assert(old_order[j + 1] == new_order[j]);
                }
            }
            assert(new_order.no_duplicates()) by {
                assert forall|a: int, b: int|
                    0 <= a < b < new_order.len() implies new_order[a] != new_order[b] by {
                    if a < k && b < k {
                    } else if a < k {
                        assert(new_order[b] == old_order[b + 1]);
                    } else {
                        assert(new_order[a] == old_order[a + 1]);
                        assert(new_order[b] == old_order[b + 1]);
                    }
                }
            }
            assert forall|j: int| 0 <= j < new_order.len() implies self.link_ok(j) by {
                let jo = if j < k {
                    j
                } else {
                    j + 1
                };
                assert(old_order[jo] == new_order[j]);
                assert(old(self).link_ok(jo));
                if j + 1 < new_order.len() {
                    if j + 1 < k {
                        assert(new_order[j + 1] == old_order[j + 1]);
                    } else {
                        assert(new_order[j + 1] == old_order[j + 2]);
                        assert(old(self).link_ok(j + 2));
                    }
                }
                if j > 0 {
                    if j - 1 < k {
                        assert(new_order[j - 1] == old_order[j - 1]);
                    } else {
                        assert(new_order[j - 1] == old_order[j]);
                    }
                }
                if j == k - 1 || j == k {
                    // the joined neighbours: their redirected links
                    assert(old(self).link_ok(k));
                }
            }
            assert forall|i: int|
                0 <= i < self.slots@.len() && self.slots@[i] is Some implies new_order.contains(
                i,
            ) by {
                assert(old_slots[i] is Some);
                let ko = choose|ko: int| 0 <= ko < old_order.len() && old_order[ko] == i;
                let j = if ko < k {
                    ko
                } else {
                    ko - 1
                };
                assert(new_order[j] == i);
            }
            assert(self.wf());
            assert forall|x: usize| x != h implies final(self).has_node(x) == old(self).has_node(
                x,
            ) by {
                if old_order.contains(x as int) {
                    let ko = choose|ko: int|
                        0 <= ko < old_order.len() && old_order[ko] == x as int;
                    let j = if ko < k {
                        ko
                    } else {
                        ko - 1
                    };
                    assert(new_order[j] == x as int);
                }
                if new_order.contains(x as int) {
                    let j = choose|j: int|
                        0 <= j < new_order.len() && new_order[j] == x as int;
                    let jo = if j < k {
                        j
                    } else {
                        j + 1
                    };
                    assert(old_order[jo] == x as int);
                }
            }
            assert forall|x: usize| x != h && old(self).has_node(x) implies final(
                self).element_at(x) == old(self).element_at(x) && final(self).tag_at(x) == old(
                self).tag_at(x) by {
                old(self).lemma_member_in_bounds(x);
            }
        }
    }
}

/// Law (queue order invariant): the order sequence always lists the surviving
/// nodes by most recent touch, oldest first. `push_back`, `move_to_back` and
/// `unlink_and_drop` each pin the new order exactly in their contracts; this
/// lemma states what the relocating step they share amounts to: the touched
/// handle becomes the back of the queue, and dropping it from the new order
/// leaves exactly the old order without it — every other node keeps its
/// relative position.
pub proof fn lemma_touch_makes_most_recent<T>(pre: Deque<T>, post: Deque<T>, h: usize)
    requires
        pre.wf(),
        pre.has_node(h),
        post.order() == pre.order().remove(pre.order().index_of(h as int)).push(h as int),
    ensures
        post.order().len() == pre.order().len(),
        post.order().last() == h as int,
        post.order().drop_last() == pre.order().remove(pre.order().index_of(h as int)),
{
    let k0 = choose|k0: int| 0 <= k0 < pre.order().len() && pre.order()[k0] == h as int;
    assert(pre.order()[k0] == h as int);
    let k = pre.order().index_of(h as int);
    assert(0 <= k < pre.order().len());
    pre.order().remove_ensures(k);
    assert(post.order().drop_last() =~= pre.order().remove(k));
}

/// Law (region tag consistency): every node linked into a well-formed queue
/// stores the tag of that queue's own region.
pub proof fn lemma_region_tag_consistency<T>(d: Deque<T>, h: usize)
    requires
        d.wf(),
        d.has_node(h),
    ensures
        d.tag_at(h) == d.region(),
{
    d.lemma_member_in_bounds(h);
}

/// Takes the node out of slot `i`, leaving the slot empty.
fn take_slot<T>(slots: &mut Vec<Option<DeqNode<T>>>, i: usize) -> (taken: Option<DeqNode<T>>)
    requires
        i < old(slots)@.len(),
    ensures
        taken == old(slots)@[i as int],
        final(slots)@ == old(slots)@.update(i as int, Option::<DeqNode<T>>::None),
{
    let slot = &mut slots[i];
    slot.take()
}

} // verus!
