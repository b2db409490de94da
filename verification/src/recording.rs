//! The recording that the audio thread writes and another thread reads.
//!
//! The samples lie behind a `parking_lot` mutex. Neither side ever waits
//! for it: each side tries the lock and, where the other side holds it,
//! goes without for this time. Whether an attempt succeeds depends on what
//! the other thread is doing, so nothing is claimed here of the outcome.
use vstd::prelude::*;
use std::sync::Arc;
use crate::audio::Sample;

verus! {

/// The mutex of the `lock_api` crate, which `parking_lot` builds on.
#[verifier::external_type_specification]
#[verifier::external_body]
#[verifier::reject_recursive_types(R)]
#[verifier::reject_recursive_types(T)]
pub struct ExMutex<R, T: ?Sized>(parking_lot::lock_api::Mutex<R, T>);

/// The lock of `parking_lot` itself.
#[verifier::external_type_specification]
#[verifier::external_body]
pub struct ExRawMutex(parking_lot::RawMutex);

/// `parking_lot::Mutex::new` makes an unlocked mutex around the value.
#[verifier::external_body]
fn guarded(samples: Vec<Sample>) -> (r: parking_lot::Mutex<Vec<Sample>>) {
    parking_lot::Mutex::new(samples)
}

/// The held lock: the guard of `parking_lot`, which gives the lock back
/// when it is dropped.
#[verifier::external_body]
struct Held<'a> {
    guard: parking_lot::MutexGuard<'a, Vec<Sample>>,
}

/// `parking_lot::Mutex::try_lock` takes the lock if nobody holds it at that
/// moment, and never waits.
#[verifier::external_body]
fn try_lock<'a>(shared: &'a parking_lot::Mutex<Vec<Sample>>) -> (held: Option<Held<'a>>) {
    shared.try_lock().map(|guard| Held { guard })
}

/// The guard's `deref_mut` gives the samples behind the held lock. What
/// they are is whatever the threads have left there.
#[verifier::external_body]
fn locked<'a, 'b>(held: &'b mut Held<'a>) -> (samples: &'b mut Vec<Sample>) {
    &mut *held.guard
}

/// `Arc::clone` makes another pointer to the same allocation.
#[verifier::external_body]
fn another(shared: &Arc<parking_lot::Mutex<Vec<Sample>>>) -> (r: Arc<parking_lot::Mutex<Vec<Sample>>>)
    ensures
        r == *shared,
{
    shared.clone()
}

/// Put `input` behind the samples of a recording. This is what a capture
/// does once it holds the lock.
pub fn capture_into(samples: &mut Vec<Sample>, input: &[Sample])
    ensures
        final(samples)@ == old(samples)@ + input@,
{
    samples.extend_from_slice(input);
}

/// Take the samples out of a recording and leave it empty. This is what a
/// taker does once it holds the lock.
pub fn take_out(samples: &mut Vec<Sample>) -> (taken: Vec<Sample>)
    ensures
        taken@ == old(samples)@,
        final(samples)@ == Seq::<Sample>::empty(),
{
    let mut taken: Vec<Sample> = Vec::new();
    std::mem::swap(samples, &mut taken);
    taken
}

/// A recording that several threads share.
pub struct RecordingBuffer {
    shared: Arc<parking_lot::Mutex<Vec<Sample>>>,
}

impl RecordingBuffer {
    /// Whether the two handles lead to the same recording.
    pub closed spec fn shares_with(&self, other: &RecordingBuffer) -> bool {
        self.shared == other.shared
    }

    /// An empty recording with room for `capacity` samples, which are no
    /// more bytes than an allocation can have.
    pub fn new(capacity: usize) -> (r: Self)
        requires
            capacity * 4 <= isize::MAX,
    {
        RecordingBuffer { shared: Arc::new(guarded(Vec::with_capacity(capacity))) }
    }

    /// Another handle to the same recording.
    pub fn share(&self) -> (r: Self)
        ensures
            r.shares_with(self),
    {
        RecordingBuffer { shared: another(&self.shared) }
    }

    /// Try to put `input` behind the recording, as `capture_into` does.
    /// Where another thread is at the recording, nothing is captured and
    /// the result is `false`.
    pub fn try_capture(&self, input: &[Sample]) -> (captured: bool) {
        match try_lock(&self.shared) {
            Some(held) => {
                let mut held = held;
                capture_into(locked(&mut held), input);
                true
            },
            None => false,
        }
    }

    /// Try to take out what has been recorded, as `take_out` does. Where
    /// another thread is at the recording, the result is `None`.
    pub fn try_take(&self) -> (taken: Option<Vec<Sample>>) {
        match try_lock(&self.shared) {
            Some(held) => {
                let mut held = held;
                Some(take_out(locked(&mut held)))
            },
            None => None,
        }
    }
}

} // verus!
