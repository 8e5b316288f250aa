use moka::deque::{DeqNode, Deque};
use moka::region::CacheRegion;

fn elements_front_to_back(q: &Deque<u32>) -> Vec<u32> {
    let mut items = Vec::new();
    let mut cursor = q.head_handle();
    while let Some(h) = cursor {
        items.push(*q.element(h));
        cursor = q.next_handle(h);
    }
    items
}

#[test]
fn push_back_appends_in_call_order() {
    let mut q: Deque<u32> = Deque::new(CacheRegion::Window);
    assert_eq!(q.len(), 0);
    assert!(q.head_handle().is_none());
    assert!(q.tail_handle().is_none());

    let h1 = q.push_back(DeqNode::new(CacheRegion::Window, 10));
    let h2 = q.push_back(DeqNode::new(CacheRegion::Window, 20));
    let h3 = q.push_back(DeqNode::new(CacheRegion::Window, 30));

    assert_eq!(q.len(), 3);
    assert_eq!(elements_front_to_back(&q), vec![10, 20, 30]);
    assert_eq!(q.head_handle(), Some(h1));
    assert_eq!(q.tail_handle(), Some(h3));
    assert!(q.contains(h1) && q.contains(h2) && q.contains(h3));
}

#[test]
fn move_to_back_relocates_without_reordering_the_rest() {
    let mut q: Deque<u32> = Deque::new(CacheRegion::MainProbation);
    let h1 = q.push_back(DeqNode::new(CacheRegion::MainProbation, 1));
    let h2 = q.push_back(DeqNode::new(CacheRegion::MainProbation, 2));
    let h3 = q.push_back(DeqNode::new(CacheRegion::MainProbation, 3));

    q.move_to_back(h1);
    assert_eq!(elements_front_to_back(&q), vec![2, 3, 1]);
    assert_eq!(q.tail_handle(), Some(h1));

    // moving the tail is a relocation to where it already stands
    q.move_to_back(h1);
    assert_eq!(elements_front_to_back(&q), vec![2, 3, 1]);

    q.move_to_back(h2);
    assert_eq!(elements_front_to_back(&q), vec![3, 1, 2]);
    assert_eq!(q.len(), 3);
    assert!(q.contains(h3));
}

#[test]
fn unlink_and_drop_joins_the_neighbours() {
    let mut q: Deque<u32> = Deque::new(CacheRegion::MainProtected);
    let h1 = q.push_back(DeqNode::new(CacheRegion::MainProtected, 1));
    let h2 = q.push_back(DeqNode::new(CacheRegion::MainProtected, 2));
    let h3 = q.push_back(DeqNode::new(CacheRegion::MainProtected, 3));

    q.unlink_and_drop(h2);
    assert_eq!(elements_front_to_back(&q), vec![1, 3]);
    assert_eq!(q.len(), 2);
    assert!(!q.contains(h2));
    assert!(q.contains(h1) && q.contains(h3));

    q.unlink_and_drop(h1);
    assert_eq!(elements_front_to_back(&q), vec![3]);
    assert_eq!(q.head_handle(), Some(h3));
    assert_eq!(q.tail_handle(), Some(h3));

    q.unlink_and_drop(h3);
    assert_eq!(elements_front_to_back(&q), Vec::<u32>::new());
    assert_eq!(q.len(), 0);
    assert!(q.head_handle().is_none());
    assert!(q.tail_handle().is_none());
}

#[test]
fn handles_are_never_reissued() {
    let mut q: Deque<u32> = Deque::new(CacheRegion::Window);
    let h1 = q.push_back(DeqNode::new(CacheRegion::Window, 1));
    q.unlink_and_drop(h1);
    assert!(!q.contains(h1));

    // a later admission gets a fresh identity; the dead handle stays dead
    let h2 = q.push_back(DeqNode::new(CacheRegion::Window, 2));
    assert_ne!(h1, h2);
    assert!(!q.contains(h1));
    assert!(q.contains(h2));
}
