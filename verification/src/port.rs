//! One audio port as a task sees it: an ordered group of channel buffers
//! with the port's latency and a 64-bit constant mask, where bit `i` set
//! means channel `i` holds one constant value across the block.

use vstd::prelude::*;

use crate::buffer::BufferPool;
use crate::buffer::Sample;

verus! {

/// Whether bit `i` of a constant mask is set.
pub open spec fn mask_bit(mask: u64, i: int) -> bool {
    (mask >> i) & 1 == 1
}

/// An audio port bound to its channel buffers in the pool.
pub struct AudioPortBuffer {
    channel_buffers: Vec<usize>,
    latency: u32,
    constant_mask: u64,
}

impl AudioPortBuffer {
    /// The pool buffer of each channel, in channel order.
    pub closed spec fn channels_spec(self) -> Seq<usize> {
        self.channel_buffers@
    }

    /// The port's latency in frames.
    pub closed spec fn latency_spec(self) -> u32 {
        self.latency
    }

    /// The port's constant mask.
    pub closed spec fn constant_mask_spec(self) -> u64 {
        self.constant_mask
    }

    /// A port over the given channel buffers; the mask starts cleared.
    /// A mask bit exists for each of at most 64 channels.
    pub fn new(channel_buffers: Vec<usize>, latency: u32) -> (port: Self)
        requires
            channel_buffers@.len() <= 64,
        ensures
            port.channels_spec() == channel_buffers@,
            port.latency_spec() == latency,
            port.constant_mask_spec() == 0,
    {
        AudioPortBuffer { channel_buffers, latency, constant_mask: 0 }
    }

    /// How many channels the port has.
    pub fn num_channels(&self) -> (r: usize)
        ensures
            r == self.channels_spec().len(),
    {
        self.channel_buffers.len()
    }

    /// The port's latency in frames.
    pub fn latency(&self) -> (r: u32)
        ensures
            r == self.latency_spec(),
    {
        self.latency
    }

    /// The port's constant mask.
    pub fn constant_mask(&self) -> (r: u64)
        ensures
            r == self.constant_mask_spec(),
    {
        self.constant_mask
    }

    /// Overwrites the constant mask, as a plugin reports its own.
    pub fn set_constant_mask(&mut self, mask: u64)
        ensures
            final(self).constant_mask_spec() == mask,
            final(self).channels_spec() == old(self).channels_spec(),
            final(self).latency_spec() == old(self).latency_spec(),
    {
        self.constant_mask = mask;
    }

    /// The pool buffer of channel `index`, if the port has that channel.
    pub fn channel(&self, index: usize) -> (r: Option<usize>)
        ensures
            match r {
                Some(b) => index < self.channels_spec().len() && b == self.channels_spec()[
                    index as int
                ],
                None => index >= self.channels_spec().len(),
            },
    {
        if index < self.channel_buffers.len() {
            Some(self.channel_buffers[index])
        } else {
            None
        }
    }

    /// Rebuilds the constant mask from the per-buffer constant flags, so
    /// a reader can short-circuit silent channels: bit `i` is set exactly
    /// when channel `i`'s buffer is marked constant.
    pub fn sync_constant_mask_from_buffers<S: Sample>(&mut self, pool: &BufferPool<S>)
        requires
            old(self).channels_spec().len() <= 64,
            forall|i: int|
                0 <= i < old(self).channels_spec().len() ==> (#[trigger] old(
                    self,
                ).channels_spec()[i]) < pool.num_buffers_spec(),
        ensures
            final(self).channels_spec() == old(self).channels_spec(),
            final(self).latency_spec() == old(self).latency_spec(),
            forall|i: int|
                0 <= i < final(self).channels_spec().len() ==> mask_bit(
                    final(self).constant_mask_spec(),
                    i,
                ) == pool.constant_spec(#[trigger] final(self).channels_spec()[i] as int),
            forall|i: int|
                final(self).channels_spec().len() <= i < 64 ==> !mask_bit(
                    final(self).constant_mask_spec(),
                    #[trigger] (i as u64) as int,
                ),
    {
        let n = self.channel_buffers.len();
        let mut mask: u64 = 0;
        let mut i: usize = 0;
        proof {
            assert forall|j: int| 0 <= j < 64 implies !mask_bit(0u64, j) by {
                let ju = j as u64;
                assert((0u64 >> ju) & 1 == 0) by (bit_vector);
            }
        }
        while i < n
            invariant
                n == self.channels_spec().len(),
                n <= 64,
                i <= n,
                forall|b: int|
                    0 <= b < self.channels_spec().len() ==> (#[trigger] self.channels_spec()[b])
                        < pool.num_buffers_spec(),
                forall|j: int|
                    0 <= j < i ==> mask_bit(mask, j) == pool.constant_spec(
                        #[trigger] self.channels_spec()[j] as int,
                    ),
                forall|j: int| i <= j < 64 ==> !mask_bit(mask, j),
            decreases n - i,
        {
            let b = self.channel_buffers[i];
            let ghost old_mask = mask;
            if pool.is_constant(b) {
                mask = mask | (1u64 << (i as u64));
                proof {
                    let iu = i as u64;
                    assert forall|j: int| 0 <= j < 64 && j != iu implies mask_bit(mask, j)
                        == mask_bit(old_mask, j) by {
                        let ju = j as u64;
                        assert(((old_mask | (1u64 << iu)) >> ju) & 1 == (old_mask >> ju) & 1)
                            by (bit_vector)
                            requires
                                iu < 64,
                                ju < 64,
                                iu != ju,
                        ;
                    }
                    assert(((old_mask | (1u64 << iu)) >> iu) & 1 == 1) by (bit_vector)
                        requires
                            iu < 64,
                    ;
                    assert(mask_bit(mask, iu as int));
                }
            } else {
                proof {
                    assert(!mask_bit(mask, i as int));
                }
            }
            i = i + 1;
        }
        self.constant_mask = mask;
    }

    /// Writes the constant mask back to the per-buffer constant flags, as
    /// the host does after a plugin reported its output mask.  The port's
    /// channels are distinct buffers, so each flag lands exactly once.
    pub fn sync_constant_mask_to_buffers<S: Sample>(&self, pool: &mut BufferPool<S>)
        requires
            self.channels_spec().len() <= 64,
            forall|i: int|
                0 <= i < self.channels_spec().len() ==> (#[trigger] self.channels_spec()[i]) < old(
                    pool,
                ).num_buffers_spec(),
            forall|i1: int, i2: int|
                0 <= i1 < i2 < self.channels_spec().len() ==> self.channels_spec()[i1]
                    != self.channels_spec()[i2],
        ensures
            final(pool).num_buffers_spec() == old(pool).num_buffers_spec(),
            forall|b: int|
                0 <= b < old(pool).num_buffers_spec() ==> #[trigger] final(pool).buf_spec(b)
                    == old(pool).buf_spec(b),
            forall|i: int|
                0 <= i < self.channels_spec().len() ==> final(pool).constant_spec(
                    #[trigger] self.channels_spec()[i] as int,
                ) == mask_bit(self.constant_mask_spec(), i),
            forall|b: int|
                0 <= b < old(pool).num_buffers_spec() && !self.channels_spec().contains(b as usize)
                    ==> #[trigger] final(pool).constant_spec(b) == old(pool).constant_spec(b),
    {
        let n = self.channel_buffers.len();
        let mut i: usize = 0;
        while i < n
            invariant
                n == self.channels_spec().len(),
                n <= 64,
                i <= n,
                pool.num_buffers_spec() == old(pool).num_buffers_spec(),
                forall|b: int|
                    0 <= b < old(pool).num_buffers_spec() ==> #[trigger] pool.buf_spec(b) == old(
                        pool,
                    ).buf_spec(b),
                forall|b: int|
                    0 <= b < self.channels_spec().len() ==> (#[trigger] self.channels_spec()[b])
                        < pool.num_buffers_spec(),
                forall|i1: int, i2: int|
                    0 <= i1 < i2 < self.channels_spec().len() ==> self.channels_spec()[i1]
                        != self.channels_spec()[i2],
                forall|j: int|
                    0 <= j < i ==> pool.constant_spec(#[trigger] self.channels_spec()[j] as int)
                        == mask_bit(self.constant_mask_spec(), j),
                forall|b: int|
                    0 <= b < old(pool).num_buffers_spec() && !self.channels_spec().contains(
                        b as usize,
                    ) ==> #[trigger] pool.constant_spec(b) == old(pool).constant_spec(b),
            decreases n - i,
        {
            let b = self.channel_buffers[i];
            let is_set = ((self.constant_mask >> (i as u64)) & 1) == 1;
            pool.set_constant(b, is_set);
            proof {
                assert(self.channels_spec().contains(b));
                assert forall|j: int|
                    0 <= j < i + 1 implies pool.constant_spec(
                    #[trigger] self.channels_spec()[j] as int,
                ) == mask_bit(self.constant_mask_spec(), j) by {
                    if j < i {
                        assert(self.channels_spec()[j] != b);
                    }
                }
            }
            i = i + 1;
        }
    }
}

} // verus!
