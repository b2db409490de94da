//! A fixed set of audio buffers, made once and lent out during processing,
//! so that the audio thread never allocates.
use vstd::prelude::*;
use std::collections::VecDeque;
use crate::audio::{silence, AudioBuffer, ChannelCount};

verus! {

/// A pool of buffers of one shape.
pub struct BufferPool {
    buffers: VecDeque<AudioBuffer>,
    channels: ChannelCount,
    frames: usize,
    capacity: usize,
}

impl BufferPool {
    /// The number of buffers that the pool was made with.
    pub closed spec fn spec_capacity(&self) -> nat {
        self.capacity as nat
    }

    /// The number of buffers that are free.
    pub closed spec fn spec_available(&self) -> nat {
        self.buffers@.len()
    }

    /// The channel count of every buffer of the pool.
    pub closed spec fn spec_channels(&self) -> ChannelCount {
        self.channels
    }

    /// The frame count of every buffer of the pool.
    pub closed spec fn spec_frames(&self) -> usize {
        self.frames
    }

    /// The number of buffers that are lent out.
    pub open spec fn outstanding(&self) -> int {
        self.spec_capacity() - self.spec_available()
    }

    /// Whether `buffer` has the shape of the pool's buffers.
    pub open spec fn fits(&self, buffer: &AudioBuffer) -> bool {
        &&& buffer.wf()
        &&& buffer.spec_channels() == self.spec_channels()
        &&& buffer.spec_frames() == self.spec_frames()
    }

    /// The pool holds no more buffers than it was made with, and every free
    /// buffer is silent and of the pool's shape.
    pub closed spec fn wf(&self) -> bool {
        &&& self.buffers@.len() <= self.capacity
        &&& self.channels.0 * self.frames <= usize::MAX
        &&& forall|i: int|
            0 <= i < self.buffers@.len() ==> {
                &&& (#[trigger] self.buffers@[i]).wf()
                &&& self.buffers@[i].spec_channels() == self.channels
                &&& self.buffers@[i].spec_frames() == self.frames
                &&& self.buffers@[i]@ == silence((self.channels.0 * self.frames) as nat)
            }
    }

    /// At any time between none and all of the pool's buffers are lent out,
    /// and none is lent out exactly when all are free.
    pub proof fn lemma_outstanding_bounded(&self)
        requires
            self.wf(),
        ensures
            0 <= self.outstanding() <= self.spec_capacity(),
            self.outstanding() == 0 <==> self.spec_available() == self.spec_capacity(),
    {
    }

    /// What one `acquire` that hands out a buffer, or one `release`, does
    /// to the pool: one buffer more or less is free, and nothing else
    /// changes.
    pub open spec fn lends(before: &BufferPool, after: &BufferPool, acquire: bool) -> bool {
        &&& before.wf()
        &&& after.wf()
        &&& after.spec_capacity() == before.spec_capacity()
        &&& after.spec_available() == if acquire {
            before.spec_available() - 1
        } else {
            before.spec_available() + 1int
        }
    }

    /// The pools of `states` follow one another by the acquisitions and
    /// releases of `steps`.
    pub open spec fn is_history(states: Seq<BufferPool>, steps: Seq<bool>) -> bool {
        &&& states.len() == steps.len() + 1
        &&& states[0].wf()
        &&& forall|i: int| 0 <= i < steps.len() ==> BufferPool::lends(&states[i], &#[trigger] states[i + 1], steps[i])
    }

    /// The acquisitions among the first `n` steps less the releases.
    pub open spec fn lent(steps: Seq<bool>, n: int) -> int
        decreases n,
    {
        if n <= 0 {
            0
        } else {
            BufferPool::lent(steps, n - 1) + if steps[n - 1] {
                1int
            } else {
                -1int
            }
        }
    }

    /// Through any run of acquisitions and releases the pool has lent out
    /// what it had lent at first and what was acquired since, less what was
    /// released: never more than its capacity, and with every acquired
    /// buffer released as many buffers are free again as at first.
    pub proof fn lemma_history(states: Seq<BufferPool>, steps: Seq<bool>, n: int)
        requires
            BufferPool::is_history(states, steps),
            0 <= n <= steps.len(),
        ensures
            states[n].wf(),
            states[n].spec_capacity() == states[0].spec_capacity(),
            states[n].outstanding() == states[0].outstanding() + BufferPool::lent(steps, n),
            0 <= states[n].outstanding() <= states[n].spec_capacity(),
            BufferPool::lent(steps, n) == 0 ==> states[n].spec_available() == states[0].spec_available(),
        decreases n,
    {
        if n > 0 {
            BufferPool::lemma_history(states, steps, n - 1);
            assert(BufferPool::lends(&states[n - 1], &states[n - 1 + 1], steps[n - 1]));
        }
    }

    /// A pool of `num_buffers` silent buffers.
    pub fn new(num_buffers: usize, channels: ChannelCount, frames: usize) -> (r: Self)
        requires
            channels.0 * frames <= usize::MAX,
        ensures
            r.wf(),
            r.spec_capacity() == num_buffers,
            r.spec_available() == num_buffers,
            r.spec_channels() == channels,
            r.spec_frames() == frames,
    {
        let mut buffers: VecDeque<AudioBuffer> = VecDeque::with_capacity(num_buffers);
        let mut made: usize = 0;
        while made < num_buffers
            invariant
                made <= num_buffers,
                buffers@.len() == made,
                channels.0 * frames <= usize::MAX,
                forall|i: int|
                    0 <= i < buffers@.len() ==> {
                        &&& (#[trigger] buffers@[i]).wf()
                        &&& buffers@[i].spec_channels() == channels
                        &&& buffers@[i].spec_frames() == frames
                        &&& buffers@[i]@ == silence((channels.0 * frames) as nat)
                    },
            decreases num_buffers - made,
        {
            buffers.push_back(AudioBuffer::new(channels, frames));
            made += 1;
        }
        BufferPool { buffers, channels, frames, capacity: num_buffers }
    }

    /// Take a buffer from the pool. `None` says that the pool is exhausted.
    pub fn acquire(&mut self) -> (r: Option<AudioBuffer>)
        requires
            old(self).wf(),
        ensures
            final(self).wf(),
            final(self).spec_capacity() == old(self).spec_capacity(),
            final(self).spec_channels() == old(self).spec_channels(),
            final(self).spec_frames() == old(self).spec_frames(),
            r is Some <==> old(self).spec_available() > 0,
            r is None ==> final(self).spec_available() == old(self).spec_available(),
            r matches Some(buffer) ==> {
                &&& final(self).spec_available() == old(self).spec_available() - 1
                &&& old(self).fits(&buffer)
                &&& buffer@ == silence(buffer@.len())
            },
    {
        let r = self.buffers.pop_front();
        proof {
            if old(self).buffers@.len() > 0 {
                assert(forall|i: int|
                    0 <= i < self.buffers@.len() ==> self.buffers@[i] == old(self).buffers@[i + 1]);
                assert(old(self).buffers@[0].wf());
            }
        }
        r
    }

    /// Give a buffer back to the pool, which silences it. The buffer has
    /// the pool's shape, and the pool has lent out at least one.
    pub fn release(&mut self, buffer: AudioBuffer)
        requires
            old(self).wf(),
            old(self).fits(&buffer),
            old(self).spec_available() < old(self).spec_capacity(),
        ensures
            final(self).wf(),
            final(self).spec_capacity() == old(self).spec_capacity(),
            final(self).spec_channels() == old(self).spec_channels(),
            final(self).spec_frames() == old(self).spec_frames(),
            final(self).spec_available() == old(self).spec_available() + 1,
    {
        let mut buffer = buffer;
        proof {
            buffer.lemma_shape();
        }
        buffer.clear();
        self.buffers.push_back(buffer);
    }

    /// Lend a buffer to `work` for as long as it runs. `work` gets a silent
    /// buffer and hands it back together with its result; whatever way it
    /// takes to come back, the buffer returns to the pool. The result is
    /// `None`, and `work` does not run, where the pool is exhausted.
    pub fn with_buffer<R, F: FnOnce(AudioBuffer) -> (AudioBuffer, R)>(&mut self, work: F) -> (r: Option<R>)
        requires
            old(self).wf(),
            forall|buffer: AudioBuffer|
                old(self).fits(&buffer) && buffer@ == silence(buffer@.len()) ==> call_requires(work, (buffer,)),
            forall|buffer: AudioBuffer, done: (AudioBuffer, R)|
                old(self).fits(&buffer) && call_ensures(work, (buffer,), done) ==> old(self).fits(&done.0),
        ensures
            final(self).wf(),
            final(self).spec_capacity() == old(self).spec_capacity(),
            final(self).spec_channels() == old(self).spec_channels(),
            final(self).spec_frames() == old(self).spec_frames(),
            final(self).spec_available() == old(self).spec_available(),
            r is Some <==> old(self).spec_available() > 0,
            r matches Some(result) ==> exists|buffer: AudioBuffer, back: AudioBuffer|
                old(self).fits(&buffer) && #[trigger] call_ensures(work, (buffer,), (back, result)),
    {
        match self.acquire() {
            Some(buffer) => {
                let ghost lent = buffer;
                let (back, result) = work(buffer);
                let ghost given = back;
                let ghost made = result;
                self.release(back);
                let r = Some(result);
                proof {
                    assert(old(self).fits(&lent));
                    assert(call_ensures(work, (lent,), (given, made)));
                    assert(r->Some_0 == made);
                }
                r
            },
            None => None,
        }
    }

    /// A new silent buffer of the pool's shape, which the pool does not
    /// count as its own.
    pub fn spare(&self) -> (r: AudioBuffer)
        requires
            self.wf(),
        ensures
            self.fits(&r),
            r@ == silence(r@.len()),
    {
        AudioBuffer::new(self.channels, self.frames)
    }

    /// The number of free buffers.
    pub fn available(&self) -> (r: usize)
        ensures
            r == self.spec_available(),
    {
        self.buffers.len()
    }

    /// The number of buffers that the pool was made with.
    pub fn capacity(&self) -> (r: usize)
        ensures
            r == self.spec_capacity(),
    {
        self.capacity
    }

    /// The channel count of the pool's buffers.
    pub fn channels(&self) -> (r: ChannelCount)
        ensures
            r == self.spec_channels(),
    {
        self.channels
    }

    /// The frame count of the pool's buffers.
    pub fn frames(&self) -> (r: usize)
        ensures
            r == self.spec_frames(),
    {
        self.frames
    }
}

/// A buffer on loan from a pool. `release` ends the loan.
pub struct PooledBuffer<'a> {
    /// The buffer on loan.
    pub buffer: AudioBuffer,
    /// The pool that lent it.
    pub pool: &'a mut BufferPool,
}

impl<'a> PooledBuffer<'a> {
    /// The loan can be ended: the buffer still fits the pool that lent it.
    pub open spec fn wf(&self) -> bool {
        &&& self.pool.wf()
        &&& self.pool.fits(&self.buffer)
        &&& self.pool.spec_available() < self.pool.spec_capacity()
    }

    /// Borrow a buffer from `pool`, if it has one.
    pub fn new(pool: &'a mut BufferPool) -> (r: Option<Self>)
        requires
            old(pool).wf(),
        ensures
            r is Some <==> old(pool).spec_available() > 0,
            r is None ==> final(pool).wf() && final(pool).spec_capacity() == old(pool).spec_capacity()
                && final(pool).spec_available() == old(pool).spec_available(),
            r matches Some(loan) ==> {
                &&& loan.wf()
                &&& loan.buffer@ == silence(loan.buffer@.len())
                &&& loan.pool.spec_capacity() == old(pool).spec_capacity()
                &&& loan.pool.spec_available() == old(pool).spec_available() - 1
                &&& *final(loan.pool) == *final(pool)
            },
    {
        match pool.acquire() {
            Some(buffer) => Some(PooledBuffer { buffer, pool }),
            None => None,
        }
    }

    /// The buffer on loan.
    pub fn buffer(&self) -> (r: &AudioBuffer)
        ensures
            *r == self.buffer,
    {
        &self.buffer
    }

    /// The buffer on loan, open to change.
    pub fn buffer_mut(&mut self) -> (r: &mut AudioBuffer)
        ensures
            *r == old(self).buffer,
            final(self).buffer == *final(r),
            *final(self).pool == *old(self).pool,
            *final(final(self).pool) == *final(old(self).pool),
    {
        &mut self.buffer
    }

    /// Give the buffer back to its pool.
    pub fn release(self)
        requires
            self.wf(),
        ensures
            final(self.pool).wf(),
            final(self.pool).spec_capacity() == old(self.pool).spec_capacity(),
            final(self.pool).spec_available() == old(self.pool).spec_available() + 1,
    {
        let PooledBuffer { buffer, pool } = self;
        pool.release(buffer);
    }
}

} // verus!
