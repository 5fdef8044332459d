use glowie::queue::{QueueFull, SampleQueue};
use glowie::segments::SampleFrame;

fn f(x: i16, y: i16) -> SampleFrame {
    SampleFrame { x, y }
}

#[test]
fn queue_returns_frames_in_push_order() {
    let mut q = SampleQueue::new(8);
    for i in 0..5 {
        assert_eq!(q.push(f(i, -i)), Ok(()));
    }
    for i in 0..5 {
        assert_eq!(q.pop(), Some(f(i, -i)));
    }
    assert_eq!(q.pop(), None);
}

#[test]
fn queue_drops_frames_when_full() {
    let mut q = SampleQueue::new(2);
    assert_eq!(q.capacity(), 2);
    assert_eq!(q.push(f(1, 1)), Ok(()));
    assert_eq!(q.push(f(2, 2)), Ok(()));
    assert_eq!(q.push(f(3, 3)), Err(QueueFull));
    assert_eq!(q.pop(), Some(f(1, 1)));
    assert_eq!(q.push(f(4, 4)), Ok(()));
    assert_eq!(q.pop(), Some(f(2, 2)));
    assert_eq!(q.pop(), Some(f(4, 4)));
    assert_eq!(q.pop(), None);
}

#[test]
fn queue_interleaved_pushes_and_pops_keep_order() {
    let mut q = SampleQueue::new(3);
    let mut popped = Vec::new();
    let mut pushed = Vec::new();
    for i in 0..20i16 {
        if q.push(f(i, i)).is_ok() {
            pushed.push(f(i, i));
        }
        if i % 3 == 0 {
            if let Some(x) = q.pop() {
                popped.push(x);
            }
        }
    }
    while let Some(x) = q.pop() {
        popped.push(x);
    }
    assert_eq!(popped, pushed);
}

#[test]
fn drain_into_appends_everything_in_order() {
    let mut q = SampleQueue::new(4096);
    for i in 0..100 {
        q.push(f(i, i + 1)).unwrap();
    }
    let mut out = vec![f(-5, -5)];
    q.drain_into(&mut out);
    assert_eq!(out.len(), 101);
    assert_eq!(out[0], f(-5, -5));
    assert_eq!(out[1], f(0, 1));
    assert_eq!(out[100], f(99, 100));
    assert_eq!(q.pop(), None);
}
