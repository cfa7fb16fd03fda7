use botox::queue::{MSGQueue, QueueError, Wake};

#[test]
fn new_queue_is_empty() {
    let mut queue: MSGQueue<u32> = MSGQueue::new();
    assert_eq!(queue.len(), 0);
    assert_eq!(queue.next(), None);
    assert_eq!(queue.len(), 0);
}

#[test]
fn push_asks_to_wake_every_waiter() {
    let mut queue: MSGQueue<&str> = MSGQueue::new();
    assert_eq!(queue.push_back("a"), Wake::All);
    assert_eq!(queue.push_back("b"), Wake::All);
    assert_eq!(queue.len(), 2);
}

#[test]
fn one_producer_one_consumer_keep_the_order() {
    let mut queue: MSGQueue<i32> = MSGQueue::new();
    for item in [1, 2, 3] {
        queue.push_back(item);
    }
    let mut got = Vec::new();
    for _ in 0..3 {
        got.push(queue.next().unwrap());
    }
    assert_eq!(got, vec![1, 2, 3]);
    assert_eq!(queue.next(), None);
}

#[test]
fn claim_on_empty_queue_waits_then_gets_the_single_item() {
    let mut queue: MSGQueue<i32> = MSGQueue::new();
    assert_eq!(queue.next(), None);
    assert_eq!(queue.push_back(7), Wake::All);
    assert_eq!(queue.next(), Some(7));
    assert_eq!(queue.next(), None);
    assert_eq!(queue.len(), 0);
}

#[test]
fn interleaved_pushes_and_claims_are_fifo() {
    let mut queue: MSGQueue<u8> = MSGQueue::new();
    let mut got = Vec::new();
    queue.push_back(10);
    queue.push_back(20);
    got.push(queue.next().unwrap());
    queue.push_back(30);
    got.push(queue.next().unwrap());
    queue.push_back(40);
    got.push(queue.next().unwrap());
    got.push(queue.next().unwrap());
    assert_eq!(got, vec![10, 20, 30, 40]);
}

#[test]
fn racing_consumers_get_each_item_once() {
    let items = 3;
    let consumers = 5;
    let mut queue: MSGQueue<usize> = MSGQueue::new();
    for item in 0..items {
        queue.push_back(item);
    }
    let mut received: Vec<(usize, usize)> = Vec::new();
    let mut waiting = 0;
    for consumer in [4, 1, 3, 0, 2] {
        match queue.next() {
            Some(item) => received.push((consumer, item)),
            None => waiting += 1,
        }
    }
    assert_eq!(received, vec![(4, 0), (1, 1), (3, 2)]);
    assert_eq!(received.len(), items);
    assert_eq!(waiting, consumers - items);
    assert_eq!(queue.len(), 0);
}

#[test]
fn next_error_reports_the_empty_queue() {
    let mut queue: MSGQueue<char> = MSGQueue::new();
    assert_eq!(queue.next_error(), Err(QueueError::Empty));
    queue.push_back('x');
    queue.push_back('y');
    assert_eq!(queue.next_error(), Ok('x'));
    assert_eq!(queue.len(), 1);
    assert_eq!(queue.next_error(), Ok('y'));
    assert_eq!(queue.next_error(), Err(QueueError::Empty));
}

#[test]
fn len_counts_the_waiting_items() {
    let mut queue: MSGQueue<Vec<u8>> = MSGQueue::new();
    queue.push_back(vec![1, 2]);
    queue.push_back(vec![]);
    assert_eq!(queue.len(), 2);
    queue.next();
    assert_eq!(queue.len(), 1);
}
