use wadingpool::queue::{Received, TaskQueue};

#[test]
fn new_queue_is_empty_and_open() {
    let queue: TaskQueue<u32> = TaskQueue::new();
    assert_eq!(queue.len(), 0);
    assert_eq!(queue.producers(), 1);
    assert!(!queue.is_closed());
}

#[test]
fn queue_hands_tasks_out_oldest_first() {
    let mut queue: TaskQueue<u32> = TaskQueue::new();
    queue.enqueue(7);
    queue.enqueue(3);
    queue.enqueue(9);
    assert_eq!(queue.len(), 3);
    assert!(matches!(queue.dequeue(), Received::Task(7)));
    assert!(matches!(queue.dequeue(), Received::Task(3)));
    assert_eq!(queue.len(), 1);
    assert!(matches!(queue.dequeue(), Received::Task(9)));
    assert!(matches!(queue.dequeue(), Received::Empty));
}

#[test]
fn open_queue_without_tasks_reports_empty() {
    let mut queue: TaskQueue<u32> = TaskQueue::new();
    assert!(matches!(queue.dequeue(), Received::Empty));
    assert!(matches!(queue.dequeue(), Received::Empty));
    assert_eq!(queue.producers(), 1);
}

#[test]
fn closed_queue_is_drained_before_it_reports_closed() {
    let mut queue: TaskQueue<&str> = TaskQueue::new();
    queue.enqueue("first");
    queue.enqueue("second");
    queue.release_producer();
    assert!(queue.is_closed());
    assert!(matches!(queue.dequeue(), Received::Task("first")));
    assert!(matches!(queue.dequeue(), Received::Task("second")));
    assert!(matches!(queue.dequeue(), Received::Closed));
    assert!(matches!(queue.dequeue(), Received::Closed));
}

#[test]
fn queue_stays_open_while_one_producer_is_left() {
    let mut queue: TaskQueue<u32> = TaskQueue::new();
    assert!(queue.add_producer());
    assert!(queue.add_producer());
    assert_eq!(queue.producers(), 3);
    queue.release_producer();
    queue.release_producer();
    assert_eq!(queue.producers(), 1);
    assert!(!queue.is_closed());
    queue.enqueue(1);
    queue.release_producer();
    assert_eq!(queue.producers(), 0);
    assert!(queue.is_closed());
    assert_eq!(queue.len(), 1);
}

#[test]
fn closed_queue_gets_no_new_producer() {
    let mut queue: TaskQueue<u32> = TaskQueue::new();
    queue.release_producer();
    assert!(!queue.add_producer());
    assert_eq!(queue.producers(), 0);
    queue.release_producer();
    assert_eq!(queue.producers(), 0);
    assert!(matches!(queue.dequeue(), Received::Closed));
}
