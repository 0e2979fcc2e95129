use growser::algorithm_queue::AlgorithmQueue;
use growser::parallel_queue::ParallelQueue;
use std::cell::RefCell;
use std::rc::Rc;

#[test]
fn queue_is_first_in_first_out() {
    let mut q: AlgorithmQueue<u32> = AlgorithmQueue::new();
    assert_eq!(q.dequeue(), None);
    q.enqueue(1);
    q.enqueue(2);
    assert_eq!(q.dequeue(), Some(1));
    q.enqueue(3);
    assert_eq!(q.dequeue(), Some(2));
    assert_eq!(q.dequeue(), Some(3));
    assert_eq!(q.dequeue(), None);
}

#[test]
fn run_calls_each_step_in_order() {
    let log = Rc::new(RefCell::new(Vec::new()));
    let mut pq: ParallelQueue<Box<dyn FnMut()>> = ParallelQueue::new();
    for i in 0..3 {
        let log = log.clone();
        pq.algorithm_queue.enqueue(Box::new(move || log.borrow_mut().push(i)));
    }
    pq.run();
    assert_eq!(*log.borrow(), vec![0, 1, 2]);
    assert!(pq.algorithm_queue.dequeue().is_none());
}
