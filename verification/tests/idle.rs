use calloop::sources::IdleQueue;

type Callback = Box<dyn FnOnce(&mut bool)>;

fn dispatch_idles(queue: &mut IdleQueue<Callback>, data: &mut bool) {
    let bound = queue.batch_bound();
    while let Some(cb) = queue.next_in_batch(bound) {
        cb(data);
    }
}

// The callbacks one dispatch runs, in order.
fn run_batch(queue: &mut IdleQueue<u32>) -> Vec<u32> {
    let bound = queue.batch_bound();
    let mut ran = Vec::new();
    while let Some(v) = queue.next_in_batch(bound) {
        ran.push(v);
    }
    ran
}

#[test]
fn dispatch_idle() {
    let mut idles: IdleQueue<Callback> = IdleQueue::new();
    let mut dispatched = false;

    idles.insert(Box::new(|d: &mut bool| {
        *d = true;
    }));

    dispatch_idles(&mut idles, &mut dispatched);

    assert!(dispatched);
}

#[test]
fn cancel_idle() {
    let mut idles: IdleQueue<Callback> = IdleQueue::new();
    let mut dispatched = false;

    let idle = idles.insert(Box::new(move |d: &mut bool| {
        *d = true;
    }));

    idle.cancel(&mut idles);

    dispatch_idles(&mut idles, &mut dispatched);

    assert!(!dispatched);
}

#[test]
fn idles_run_in_insertion_order_once() {
    let mut idles: IdleQueue<u32> = IdleQueue::new();
    idles.insert(1);
    let two = idles.insert(2);
    idles.insert(3);
    two.cancel(&mut idles);
    assert_eq!(run_batch(&mut idles), vec![1, 3]);
    assert_eq!(run_batch(&mut idles), Vec::<u32>::new());
}

#[test]
fn cancel_during_batch_still_counts() {
    let mut idles: IdleQueue<u32> = IdleQueue::new();
    idles.insert(1);
    let two = idles.insert(2);
    idles.insert(3);
    let bound = idles.batch_bound();
    // the first callback runs, and cancels the second one
    assert_eq!(idles.next_in_batch(bound), Some(1));
    two.cancel(&mut idles);
    // a callback queued while the batch runs waits for the next batch
    idles.insert(4);
    assert_eq!(idles.next_in_batch(bound), Some(3));
    assert_eq!(idles.next_in_batch(bound), None);
    assert_eq!(run_batch(&mut idles), vec![4]);
}

#[test]
fn stale_idle_handle_cancels_nothing() {
    let mut idles: IdleQueue<u32> = IdleQueue::new();
    let first = idles.insert(1);
    assert_eq!(run_batch(&mut idles), vec![1]);
    idles.insert(2);
    first.cancel(&mut idles);
    assert_eq!(run_batch(&mut idles), vec![2]);
}
