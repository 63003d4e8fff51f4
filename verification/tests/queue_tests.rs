use ps2_emu::queue::{TransmitQueue, QUEUE_DEPTH};

#[test]
fn new_queue_is_empty() {
    let mut queue = TransmitQueue::new();
    assert_eq!(queue.len(), 0);
    assert!(queue.is_empty());
    assert!(!queue.is_full());
    assert_eq!(queue.pop(), None);
}

#[test]
fn words_come_out_in_the_order_they_went_in() {
    let mut queue = TransmitQueue::new();
    for word in [0x624u32, 0x458, 0x7e0, 0x458] {
        assert!(queue.try_push(word));
    }
    assert_eq!(queue.len(), 4);
    assert_eq!(queue.pop(), Some(0x624));
    assert_eq!(queue.pop(), Some(0x458));
    assert!(queue.try_push(0x600));
    assert_eq!(queue.pop(), Some(0x7e0));
    assert_eq!(queue.pop(), Some(0x458));
    assert_eq!(queue.pop(), Some(0x600));
    assert_eq!(queue.pop(), None);
    assert!(queue.is_empty());
}

#[test]
fn a_full_queue_refuses_a_word_and_keeps_what_it_holds() {
    let mut queue = TransmitQueue::new();
    for i in 0..QUEUE_DEPTH {
        assert!(!queue.is_full());
        assert!(queue.try_push(i as u32));
    }
    assert!(queue.is_full());
    assert_eq!(queue.len(), QUEUE_DEPTH);
    assert!(!queue.try_push(99));
    assert_eq!(queue.len(), QUEUE_DEPTH);
    for i in 0..QUEUE_DEPTH {
        assert_eq!(queue.pop(), Some(i as u32));
    }
    assert_eq!(queue.pop(), None);
}

#[test]
fn one_pop_makes_room_for_one_word() {
    let mut queue = TransmitQueue::new();
    for i in 0..QUEUE_DEPTH {
        assert!(queue.try_push(i as u32));
    }
    assert!(!queue.try_push(100));
    assert_eq!(queue.pop(), Some(0));
    assert!(queue.try_push(100));
    assert!(!queue.try_push(101));
    assert_eq!(queue.len(), QUEUE_DEPTH);
}
