use futex_sync::buffer::{BoundedBuffer, ARRAY_SIZE};
use futex_sync::sem::{down_step, DownStep};

fn counts<T: Copy>(b: &BoundedBuffer<T>) -> (u32, u32, u32) {
    (b.slots().count(), b.elements().count(), b.lock().count())
}

#[test]
fn new_buffer_is_empty() {
    let b = BoundedBuffer::<u32>::new();
    assert_eq!(b.size(), 0);
    assert_eq!(counts(&b), (ARRAY_SIZE as u32, 0, 1));
}

#[test]
fn values_come_out_in_order() {
    let mut b = BoundedBuffer::new();
    b.put(10u32);
    b.put(20);
    assert_eq!(b.get(), 10);
    b.put(30);
    assert_eq!(b.get(), 20);
    assert_eq!(b.get(), 30);
    assert_eq!(b.size(), 0);
}

#[test]
fn capacity_three_scenario() {
    let mut b = BoundedBuffer::new();
    b.put(1u32);
    b.put(2);
    b.put(3);
    assert_eq!(b.size(), 3);
    // full: the next put would sleep on the empty-slot count
    assert_eq!(down_step(b.slots().count()), DownStep::Wait { expected: 0 });
    let mut seen = Vec::new();
    seen.push(b.get());
    b.put(4);
    seen.push(b.get());
    b.put(5);
    seen.push(b.get());
    seen.push(b.get());
    seen.push(b.get());
    assert_eq!(seen, vec![1, 2, 3, 4, 5]);
    // empty: the next get would sleep on the filled-slot count
    assert_eq!(down_step(b.elements().count()), DownStep::Wait { expected: 0 });
}

#[test]
fn counts_add_up_to_capacity() {
    let mut b = BoundedBuffer::new();
    for round in 0..10u64 {
        b.put(round);
        let (slots, elements, lock) = counts(&b);
        assert_eq!(slots + elements, ARRAY_SIZE as u32);
        assert_eq!(elements as usize, b.size());
        assert_eq!(lock, 1);
        if b.size() == ARRAY_SIZE {
            b.get();
            b.get();
        }
    }
}

#[test]
fn wraps_around_many_times() {
    let mut b = BoundedBuffer::new();
    let mut next_in: i64 = -50;
    let mut next_out: i64 = -50;
    for _ in 0..40 {
        while b.size() < ARRAY_SIZE {
            b.put(next_in);
            next_in += 1;
        }
        let (slots, elements, _) = counts(&b);
        assert_eq!((slots, elements), (0, 3));
        while b.size() > 1 {
            assert_eq!(b.get(), next_out);
            next_out += 1;
        }
    }
    assert_eq!(b.get(), next_out);
    assert_eq!(next_out + 1, next_in);
}

#[test]
fn holds_copyable_pairs() {
    let mut b = BoundedBuffer::new();
    b.put((1u8, 'a'));
    b.put((2u8, 'b'));
    assert_eq!(b.get(), (1, 'a'));
    assert_eq!(b.get(), (2, 'b'));
}
