use zapret_checker::queue::{QueueAllocator, QueueError};

#[test]
fn queue_allocator_unique_and_release() {
    let mut q = QueueAllocator::new(200, 2).unwrap();
    let a = q.acquire().unwrap();
    let b = q.acquire().unwrap();
    assert_ne!(a.qnum, b.qnum);
    assert_eq!(q.available_len(), 0);
    let qa = a.qnum;
    a.release(&mut q);
    assert_eq!(q.available_len(), 1);
    let c = q.acquire().unwrap();
    assert_eq!(c.qnum, qa);
}

#[test]
fn queue_allocator_waits_when_exhausted() {
    let mut q = QueueAllocator::new(300, 1).unwrap();
    let _lease = q.acquire().unwrap();
    assert!(q.acquire().is_none());
}

#[test]
fn an_allocator_without_queues_is_refused() {
    let error = QueueAllocator::new(300, 0).unwrap_err();
    assert_eq!(error.message(), "no queues configured");
    assert!(matches!(error, QueueError::EmptyPool));
}
