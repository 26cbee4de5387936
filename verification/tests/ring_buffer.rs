use piano::ring_buffer::RingBuffer;

#[test]
fn ring_buffer_work() {
    let mut buf = RingBuffer::new(3, 0);
    let mut iter = buf.iter();

    assert_eq!(Some(&0), iter.next());
    assert_eq!(Some(&0), iter.next());
    assert_eq!(Some(&0), iter.next());
    assert_eq!(None, iter.next());

    assert_eq!(&0, buf.last());

    buf.push(1);
    buf.push(2);
    buf.push(3);
    let mut iter = buf.iter();

    assert_eq!(Some(&3), iter.next());
    assert_eq!(Some(&2), iter.next());
    assert_eq!(Some(&1), iter.next());
    assert_eq!(None, iter.next());

    assert_eq!(&1, buf.last());

    buf.push(4);
    let mut iter = buf.iter();

    assert_eq!(Some(&4), iter.next());
    assert_eq!(Some(&3), iter.next());
    assert_eq!(Some(&2), iter.next());
    assert_eq!(None, iter.next());

    assert_eq!(&2, buf.last());
}

#[test]
fn new_fills_every_slot() {
    let buf = RingBuffer::new(4, 7.5f64);
    let mut iter = buf.iter();
    for _ in 0..4 {
        assert_eq!(Some(&7.5), iter.next());
    }
    assert_eq!(None, iter.next());
    assert_eq!(None, iter.next());
}

#[test]
fn a_full_turn_reads_back_in_reverse() {
    let pushed = [11, 12, 13, 14, 15];
    let mut buf = RingBuffer::new(5, 0);
    for x in pushed {
        buf.push(x);
    }
    let mut iter = buf.iter();
    for x in pushed.iter().rev() {
        assert_eq!(Some(x), iter.next());
    }
    assert_eq!(None, iter.next());
    assert_eq!(&11, buf.last());
}

#[test]
fn more_pushes_than_slots_keep_the_newest() {
    let mut buf = RingBuffer::new(2, 0u8);
    for x in 1..=9u8 {
        buf.push(x);
    }
    let mut iter = buf.iter();
    assert_eq!(Some(&9), iter.next());
    assert_eq!(Some(&8), iter.next());
    assert_eq!(None, iter.next());
    assert_eq!(&8, buf.last());
}

#[test]
fn a_single_slot_holds_the_last_push() {
    let mut buf = RingBuffer::new(1, 'a');
    assert_eq!(&'a', buf.last());
    buf.push('b');
    assert_eq!(&'b', buf.last());
    let mut iter = buf.iter();
    assert_eq!(Some(&'b'), iter.next());
    assert_eq!(None, iter.next());
}

#[test]
fn an_empty_buffer_yields_nothing() {
    let buf = RingBuffer::new(0, 1i32);
    let mut iter = buf.iter();
    assert_eq!(None, iter.next());
}
