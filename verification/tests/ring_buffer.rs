use bangida::data::ring_buffer::RingBuffer;

fn collect(rb: &RingBuffer<i32>) -> Vec<i32> {
    let mut it = rb.iter();
    let mut out = Vec::new();
    while let Some(x) = it.next() {
        out.push(*x);
    }
    out
}

#[test]
fn basic_push_and_iter() {
    let mut rb = RingBuffer::new(3);
    rb.push(1);
    rb.push(2);
    rb.push(3);
    assert!(rb.is_full());
    let v: Vec<i32> = collect(&rb);
    assert_eq!(v, vec![1, 2, 3]);
}

#[test]
fn overwrites_oldest() {
    let mut rb = RingBuffer::new(3);
    rb.push(1);
    rb.push(2);
    rb.push(3);
    rb.push(4);
    assert_eq!(rb.len(), 3);
    let v: Vec<i32> = collect(&rb);
    assert_eq!(v, vec![2, 3, 4]);
    assert_eq!(rb.last(), Some(&4));
}

#[test]
fn get_by_index() {
    let mut rb = RingBuffer::new(3);
    rb.push(10);
    rb.push(20);
    assert_eq!(rb.get(0), Some(&10));
    assert_eq!(rb.get(1), Some(&20));
    assert_eq!(rb.get(2), None);
}

#[test]
fn ring_buffer_empty_and_capacity() {
    let rb: RingBuffer<i32> = RingBuffer::new(4);
    assert!(rb.is_empty());
    assert!(!rb.is_full());
    assert_eq!(rb.capacity(), 4);
    assert_eq!(rb.len(), 0);
    assert_eq!(rb.last(), None);
    assert_eq!(rb.get(0), None);
    assert_eq!(rb.iter().size_hint(), 0);
}

#[test]
fn ring_buffer_wraps_many_times() {
    let mut rb = RingBuffer::new(2);
    for i in 0..7 {
        rb.push(i);
    }
    assert_eq!(collect(&rb), vec![5, 6]);
    assert_eq!(rb.get(0), Some(&5));
    assert_eq!(rb.last(), Some(&6));
    let mut it = rb.iter();
    assert_eq!(it.size_hint(), 2);
    it.next();
    assert_eq!(it.size_hint(), 1);
}

#[test]
fn ring_buffer_len_after_n_pushes_is_min_of_n_and_capacity() {
    for n in 0..10usize {
        let mut rb: RingBuffer<i32> = RingBuffer::new(4);
        for i in 0..n {
            rb.push(i as i32);
        }
        assert_eq!(rb.len(), n.min(4));
        assert_eq!(rb.is_full(), n >= 4);
        assert_eq!(rb.is_empty(), n == 0);
        let expected: Vec<i32> = (n.saturating_sub(4)..n).map(|i| i as i32).collect();
        assert_eq!(collect(&rb), expected);
    }
}
