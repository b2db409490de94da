//! The lock-free queues between the control thread and the audio thread.
//!
//! Each queue is a ring buffer of the `rtrb` crate with one producer and one
//! consumer, which live on different threads. What one end finds depends on
//! what the other end has done in the meantime, so nothing is claimed here of
//! the outcome of a push or a pop: verified code takes the outcome as it
//! comes.
use vstd::prelude::*;

verus! {

/// The writing end of an `rtrb` ring buffer.
#[verifier::external_type_specification]
#[verifier::external_body]
#[verifier::reject_recursive_types(T)]
pub struct ExProducer<T>(rtrb::Producer<T>);

/// The reading end of an `rtrb` ring buffer.
#[verifier::external_type_specification]
#[verifier::external_body]
#[verifier::reject_recursive_types(T)]
pub struct ExConsumer<T>(rtrb::Consumer<T>);

/// The error of `rtrb::Producer::push`: the queue was full, and the value
/// comes back.
#[verifier::external_type_specification]
#[verifier::external_body]
#[verifier::reject_recursive_types(T)]
pub struct ExPushError<T>(rtrb::PushError<T>);

/// The error of `rtrb::Consumer::pop`: the queue was empty.
#[verifier::external_type_specification]
#[verifier::external_body]
pub struct ExPopError(rtrb::PopError);

/// `rtrb::Producer::push` moves the value into the queue, or hands it back
/// in the error if the queue is full at that moment. It never blocks.
pub assume_specification<T>[ rtrb::Producer::<T>::push ](
    producer: &mut rtrb::Producer<T>,
    value: T,
) -> (r: Result<(), rtrb::PushError<T>>)
;

/// `rtrb::Consumer::pop` takes the oldest value out of the queue, or fails
/// if the queue is empty at that moment. It never blocks.
pub assume_specification<T>[ rtrb::Consumer::<T>::pop ](consumer: &mut rtrb::Consumer<T>) -> (r: Result<
    T,
    rtrb::PopError,
>)
;

/// `rtrb::Consumer::slots` counts the values that can be read at that
/// moment.
pub assume_specification<T>[ rtrb::Consumer::<T>::slots ](consumer: &rtrb::Consumer<T>) -> (r: usize)
;

/// The ring buffer itself, which both ends share.
#[verifier::external_type_specification]
#[verifier::external_body]
#[verifier::reject_recursive_types(T)]
pub struct ExRingBuffer<T>(rtrb::RingBuffer<T>);

/// `rtrb::RingBuffer::new` allocates room for `capacity` values and returns
/// the two ends of the empty queue. It panics where that many values are
/// more bytes than an allocation can have. The queue counts its places up
/// to twice the capacity, so a capacity whose double is no `usize` makes
/// `push`, `pop` and `slots` overflow later: such a queue is not made.
pub assume_specification<T>[ rtrb::RingBuffer::<T>::new ](capacity: usize) -> (r: (
    rtrb::Producer<T>,
    rtrb::Consumer<T>,
))
    requires
        capacity <= isize::MAX,
        capacity * vstd::layout::size_of::<T>() <= isize::MAX,
;

/// Whether a queue of `capacity` values of type `T` can be laid out: twice
/// the capacity is a `usize`, and the values are no more bytes than an
/// allocation can have.
pub open spec fn can_hold<T>(capacity: usize) -> bool {
    capacity <= isize::MAX && capacity * vstd::layout::size_of::<T>() <= isize::MAX
}

/// The two ends of a new queue for `capacity` values, or `None` where the
/// queue cannot be laid out.
pub fn channel<T>(capacity: usize) -> (r: Option<(rtrb::Producer<T>, rtrb::Consumer<T>)>)
    ensures
        r is Some <==> can_hold::<T>(capacity),
{
    let width: usize = core::mem::size_of::<T>();
    if capacity > isize::MAX as usize {
        return None;
    }
    if width == 0 {
        assert(capacity * vstd::layout::size_of::<T>() == 0) by (nonlinear_arith)
            requires
                vstd::layout::size_of::<T>() == 0,
        ;
        return Some(rtrb::RingBuffer::new(capacity));
    }
    let most: usize = (isize::MAX as usize) / width;
    proof {
        let w = width as int;
        let m = isize::MAX as int;
        vstd::arithmetic::div_mod::lemma_fundamental_div_mod(m, w);
        vstd::arithmetic::div_mod::lemma_mod_bound(m, w);
        if capacity <= most {
            assert(capacity * w <= (m / w) * w) by (nonlinear_arith)
                requires
                    capacity <= m / w,
                    w > 0,
            ;
            assert((m / w) * w == w * (m / w)) by (nonlinear_arith);
        } else {
            assert(capacity * w >= (m / w + 1) * w) by (nonlinear_arith)
                requires
                    capacity >= m / w + 1,
                    w > 0,
            ;
            assert((m / w + 1) * w == w * (m / w) + w) by (nonlinear_arith);
        }
    }
    if capacity <= most {
        Some(rtrb::RingBuffer::new(capacity))
    } else {
        None
    }
}

} // verus!
