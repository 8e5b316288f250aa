use moka::deques::Deques;
use moka::entry::{KeyDate, KeyHashDate, ValueEntry};
use moka::region::CacheRegion;

fn probation_keys(deques: &Deques<char>) -> Vec<char> {
    let mut keys = Vec::new();
    let mut cursor = deques.probation.head_handle();
    while let Some(h) = cursor {
        keys.push(deques.probation.element(h).key);
        cursor = deques.probation.next_handle(h);
    }
    keys
}

fn write_order_keys(deques: &Deques<char>) -> Vec<char> {
    let mut keys = Vec::new();
    let mut cursor = deques.write_order.head_handle();
    while let Some(h) = cursor {
        keys.push(deques.write_order.element(h).key);
        cursor = deques.write_order.next_handle(h);
    }
    keys
}

#[test]
fn probation_touch_and_unlink_scenario() {
    let mut deques: Deques<char> = Deques::default();
    let mut entry_a: ValueEntry<u32> = ValueEntry::new(1);
    let mut entry_b: ValueEntry<u32> = ValueEntry::new(2);
    let mut entry_c: ValueEntry<u32> = ValueEntry::new(3);

    let region = CacheRegion::MainProbation;
    deques.push_back_ao(region, KeyHashDate::new('A', 10, Some(100)), &mut entry_a);
    deques.push_back_ao(region, KeyHashDate::new('B', 11, Some(101)), &mut entry_b);
    deques.push_back_ao(region, KeyHashDate::new('C', 12, Some(102)), &mut entry_c);
    assert_eq!(probation_keys(&deques), vec!['A', 'B', 'C']);

    deques.move_to_back_ao(&entry_a);
    assert_eq!(probation_keys(&deques), vec!['B', 'C', 'A']);

    deques.unlink_ao(&mut entry_b);
    assert_eq!(probation_keys(&deques), vec!['C', 'A']);
    assert!(entry_b.access_order_q_node().is_none());

    // re-admitting B succeeds: its back-reference was consumed by the unlink
    deques.push_back_ao(region, KeyHashDate::new('B', 11, Some(103)), &mut entry_b);
    assert_eq!(probation_keys(&deques), vec!['C', 'A', 'B']);
    assert!(entry_b.access_order_q_node().is_some());
}

#[test]
fn stale_access_reference_never_corrupts_the_queue() {
    let mut deques: Deques<char> = Deques::default();
    let mut entry: ValueEntry<u32> = ValueEntry::new(1);
    let region = CacheRegion::MainProbation;

    deques.push_back_ao(region, KeyHashDate::new('A', 10, None), &mut entry);
    let stale = entry.access_order_q_node();
    deques.unlink_ao(&mut entry);
    assert!(entry.access_order_q_node().is_none());

    let mut other: ValueEntry<u32> = ValueEntry::new(2);
    deques.push_back_ao(region, KeyHashDate::new('B', 11, None), &mut other);
    assert_eq!(probation_keys(&deques), vec!['B']);

    // reinstate the dead back-reference: relocation and unlinking through it
    // must be silent no-ops that leave the queue intact
    entry.set_access_order_q_node(stale);
    deques.move_to_back_ao(&entry);
    assert_eq!(probation_keys(&deques), vec!['B']);

    entry.set_access_order_q_node(stale);
    deques.unlink_ao(&mut entry);
    assert_eq!(probation_keys(&deques), vec!['B']);
    assert!(entry.access_order_q_node().is_none());
}

#[test]
fn entries_hold_one_reference_per_ordering() {
    let mut deques: Deques<char> = Deques::default();
    let mut entry: ValueEntry<u32> = ValueEntry::new(7);

    assert!(entry.access_order_q_node().is_none());
    assert!(entry.write_order_q_node().is_none());

    deques.push_back_ao(CacheRegion::Window, KeyHashDate::new('K', 1, None), &mut entry);
    deques.push_back_wo(KeyDate::new('K', Some(500)), &mut entry);

    let access = entry.access_order_q_node().expect("linked in access order");
    assert_eq!(access.region, CacheRegion::Window);
    assert!(entry.write_order_q_node().is_some());

    // consuming one ordering's reference leaves the other alone
    deques.unlink_wo(&mut entry);
    assert!(entry.write_order_q_node().is_none());
    assert!(entry.access_order_q_node().is_some());

    deques.unlink_ao(&mut entry);
    assert!(entry.access_order_q_node().is_none());
}

#[test]
fn write_order_queue_tracks_writes() {
    let mut deques: Deques<char> = Deques::default();
    let mut entry_a: ValueEntry<u32> = ValueEntry::new(1);
    let mut entry_b: ValueEntry<u32> = ValueEntry::new(2);

    deques.push_back_wo(KeyDate::new('A', Some(1)), &mut entry_a);
    deques.push_back_wo(KeyDate::new('B', Some(2)), &mut entry_b);
    assert_eq!(write_order_keys(&deques), vec!['A', 'B']);

    deques.move_to_back_wo(&entry_a);
    assert_eq!(write_order_keys(&deques), vec!['B', 'A']);

    deques.unlink_wo(&mut entry_b);
    assert_eq!(write_order_keys(&deques), vec!['A']);
    assert!(entry_b.write_order_q_node().is_none());

    // a consumed reference makes the later move a silent no-op
    deques.move_to_back_wo(&entry_b);
    assert_eq!(write_order_keys(&deques), vec!['A']);
}

#[test]
fn write_order_named_unlink_removes_the_asserted_member() {
    let mut deques: Deques<char> = Deques::default();
    let mut entry_a: ValueEntry<u32> = ValueEntry::new(1);
    let mut entry_b: ValueEntry<u32> = ValueEntry::new(2);

    deques.push_back_wo(KeyDate::new('A', Some(1)), &mut entry_a);
    deques.push_back_wo(KeyDate::new('B', Some(2)), &mut entry_b);

    Deques::unlink_wo_from_deque(&mut deques.write_order, &mut entry_a);
    assert_eq!(write_order_keys(&deques), vec!['B']);
    assert!(entry_a.write_order_q_node().is_none());

    let node_b = entry_b.write_order_q_node().expect("B is linked");
    Deques::<char>::unlink_node_wo(&mut deques.write_order, node_b);
    assert_eq!(write_order_keys(&deques), Vec::<char>::new());
}

#[test]
fn untracked_entry_touch_is_a_no_op() {
    let mut deques: Deques<char> = Deques::default();
    let mut linked: ValueEntry<u32> = ValueEntry::new(1);
    deques.push_back_ao(CacheRegion::Window, KeyHashDate::new('A', 1, None), &mut linked);
    deques.push_back_wo(KeyDate::new('A', None), &mut linked);

    // an entry that was never admitted has no back-references: touching it
    // leaves every queue as it was
    let never_admitted: ValueEntry<u32> = ValueEntry::new(2);
    deques.move_to_back_ao(&never_admitted);
    deques.move_to_back_wo(&never_admitted);
    assert_eq!(deques.window.len(), 1);
    assert_eq!(deques.write_order.len(), 1);
}

#[test]
fn clear_empties_all_queues() {
    let mut deques: Deques<char> = Deques::default();
    let mut entry: ValueEntry<u32> = ValueEntry::new(1);
    deques.push_back_ao(CacheRegion::Window, KeyHashDate::new('A', 1, None), &mut entry);
    let mut entry2: ValueEntry<u32> = ValueEntry::new(2);
    deques.push_back_wo(KeyDate::new('A', None), &mut entry2);

    deques.clear();
    assert_eq!(deques.window.len(), 0);
    assert_eq!(deques.probation.len(), 0);
    assert_eq!(deques.protected.len(), 0);
    assert_eq!(deques.write_order.len(), 0);
}

#[test]
fn named_queue_unlink_removes_the_asserted_member() {
    let mut deques: Deques<char> = Deques::default();
    let mut entry_a: ValueEntry<u32> = ValueEntry::new(1);
    let mut entry_b: ValueEntry<u32> = ValueEntry::new(2);
    let region = CacheRegion::MainProbation;

    deques.push_back_ao(region, KeyHashDate::new('A', 1, None), &mut entry_a);
    deques.push_back_ao(region, KeyHashDate::new('B', 2, None), &mut entry_b);

    Deques::unlink_ao_from_deque(&mut deques.probation, &mut entry_a);
    assert_eq!(probation_keys(&deques), vec!['B']);
    assert!(entry_a.access_order_q_node().is_none());

    let node_b = entry_b.access_order_q_node().expect("B is linked");
    deques.unlink_node_ao(node_b);
    assert_eq!(probation_keys(&deques), Vec::<char>::new());
}
