use koto_audio::audio::{AudioBuffer, ChannelCount};
use koto_audio::buffer_pool::{BufferPool, PooledBuffer};

#[test]
fn a_new_pool_has_all_its_buffers() {
    let pool = BufferPool::new(4, ChannelCount(2), 64);
    assert_eq!(pool.available(), 4);
    assert_eq!(pool.capacity(), 4);
    assert_eq!(pool.channels(), ChannelCount(2));
    assert_eq!(pool.frames(), 64);
}

#[test]
fn acquire_hands_out_silent_buffers_of_the_pools_shape() {
    let mut pool = BufferPool::new(2, ChannelCount(2), 8);
    let buffer = pool.acquire().unwrap();
    assert_eq!(buffer.channels(), ChannelCount(2));
    assert_eq!(buffer.frames(), 8);
    assert_eq!(buffer.samples().len(), 16);
    assert!(buffer.samples().iter().all(|s| *s == 0));
    assert_eq!(pool.available(), 1);
}

#[test]
fn a_pool_lends_no_more_than_it_has() {
    let capacity = 5;
    let mut pool = BufferPool::new(capacity, ChannelCount(1), 4);
    let mut lent: Vec<AudioBuffer> = Vec::new();
    for taken in 0..capacity {
        assert_eq!(pool.available(), capacity - taken);
        lent.push(pool.acquire().unwrap());
    }
    assert_eq!(pool.available(), 0);
    assert!(pool.acquire().is_none());
    assert!(pool.acquire().is_none());
    assert_eq!(pool.available(), 0);
    while let Some(buffer) = lent.pop() {
        pool.release(buffer);
    }
    assert_eq!(pool.available(), capacity);
    assert_eq!(pool.capacity(), capacity);
}

#[test]
fn release_silences_the_buffer() {
    let mut pool = BufferPool::new(1, ChannelCount(2), 2);
    let mut buffer = pool.acquire().unwrap();
    buffer.set(0, 0, 0.5f32.to_bits());
    buffer.set(1, 1, 0.25f32.to_bits());
    pool.release(buffer);
    assert_eq!(pool.available(), 1);
    let again = pool.acquire().unwrap();
    assert!(again.samples().iter().all(|s| *s == 0));
}

#[test]
fn an_empty_pool_is_exhausted_at_once() {
    let mut pool = BufferPool::new(0, ChannelCount(2), 2);
    assert_eq!(pool.available(), 0);
    assert!(pool.acquire().is_none());
}

#[test]
fn a_loan_is_ended_by_release() {
    let mut pool = BufferPool::new(2, ChannelCount(2), 2);
    {
        let mut loan = PooledBuffer::new(&mut pool).unwrap();
        assert_eq!(loan.buffer().frames(), 2);
        loan.buffer_mut().set(0, 1, 0.5f32.to_bits());
        assert_eq!(loan.buffer().get(0, 1), Some(0.5f32.to_bits()));
        loan.release();
    }
    assert_eq!(pool.available(), 2);
}

#[test]
fn no_loan_from_an_exhausted_pool() {
    let mut pool = BufferPool::new(1, ChannelCount(2), 2);
    let held = pool.acquire().unwrap();
    assert!(PooledBuffer::new(&mut pool).is_none());
    pool.release(held);
    assert!(PooledBuffer::new(&mut pool).is_some());
}

#[test]
fn a_buffer_is_lent_for_the_length_of_the_work() {
    let mut pool = BufferPool::new(1, ChannelCount(1), 4);
    let got = pool.with_buffer(|mut buffer| {
        buffer.set(2, 0, 9);
        let seen = buffer.get(2, 0);
        (buffer, seen)
    });
    assert_eq!(got, Some(Some(9)));
    assert_eq!(pool.available(), 1);
    // The buffer came back silenced.
    assert!(pool.acquire().unwrap().samples().iter().all(|s| *s == 0));
}

#[test]
fn work_that_ends_early_still_gives_the_buffer_back() {
    let mut pool = BufferPool::new(2, ChannelCount(1), 4);
    for limit in 0..4usize {
        let found = pool.with_buffer(|buffer| {
            for frame in 0..buffer.frames() {
                if frame == limit {
                    return (buffer, Some(frame));
                }
            }
            (buffer, None)
        });
        assert_eq!(found, Some(Some(limit)));
        assert_eq!(pool.available(), 2);
    }
}

#[test]
fn no_work_is_done_on_an_exhausted_pool() {
    let mut pool = BufferPool::new(1, ChannelCount(1), 4);
    let held = pool.acquire().unwrap();
    let mut ran = false;
    let got = pool.with_buffer(|buffer| {
        ran = true;
        (buffer, 1)
    });
    assert_eq!(got, None);
    assert!(!ran);
    pool.release(held);
    assert_eq!(pool.with_buffer(|buffer| (buffer, 1)), Some(1));
}

#[test]
fn a_spare_buffer_has_the_pools_shape() {
    let pool = BufferPool::new(0, ChannelCount(2), 3);
    let spare = pool.spare();
    assert_eq!(spare.channels(), ChannelCount(2));
    assert_eq!(spare.frames(), 3);
    assert!(spare.samples().iter().all(|s| *s == 0));
    assert_eq!(pool.available(), 0);
}
