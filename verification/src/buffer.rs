//! Audio buffers shared between schedule tasks.
//!
//! A buffer holds one channel of samples for one block.  The engine never
//! interprets samples beyond mixing them and testing them for silence, so
//! buffers are generic over a [`Sample`] type; the surrounding application
//! instantiates it with its machine sample format.  All buffers of one
//! engine live in a [`BufferPool`] and tasks refer to them by index, which
//! makes every write visibly sequenced by the schedule order.

use vstd::prelude::*;

verus! {

/// One audio sample, as far as the engine is concerned: it can be silent,
/// and two samples can be mixed.
///
/// The three specification functions have placeholder defaults so that an
/// unverified sample type outside this crate can implement the trait with
/// its executable methods alone; a verified instance overrides them.
pub trait Sample: Sized + Copy {
    /// The silent sample, written by clearing tasks.
    open spec fn zero_spec() -> Self {
        vstd::pervasive::arbitrary()
    }

    /// The sample that mixing `other` into `self` produces.
    open spec fn mix_spec(self, other: Self) -> Self {
        vstd::pervasive::arbitrary()
    }

    /// Whether this sample is silence.
    open spec fn is_zero_spec(self) -> bool {
        vstd::pervasive::arbitrary()
    }

    /// Produces the silent sample.
    fn zero() -> (r: Self)
        ensures
            r == Self::zero_spec(),
    ;

    /// Mixes `other` into `self`.
    fn mix(self, other: Self) -> (r: Self)
        ensures
            r == self.mix_spec(other),
    ;

    /// Tests this sample for silence.
    fn is_zero(&self) -> (r: bool)
        ensures
            r == self.is_zero_spec(),
    ;

    /// Whether two samples are the same value, used to decide whether a
    /// block is constant.
    fn same(&self, other: &Self) -> (r: bool)
        ensures
            r == (self == other),
    ;
}

/// Samples as plain integers, mixed by wrapping addition.  Exact-arithmetic
/// tests run on this instance; the application brings its own floating
/// point instance.
impl Sample for i64 {
    open spec fn zero_spec() -> Self {
        0i64
    }

    open spec fn mix_spec(self, other: Self) -> Self {
        vstd::wrapping::i64_specs::wrapping_add(self, other)
    }

    open spec fn is_zero_spec(self) -> bool {
        self == 0i64
    }

    fn zero() -> (r: Self) {
        0
    }

    fn mix(self, other: Self) -> (r: Self) {
        self.wrapping_add(other)
    }

    fn is_zero(&self) -> (r: bool) {
        *self == 0
    }

    fn same(&self, other: &Self) -> (r: bool) {
        *self == *other
    }
}

/// Whether pool `b` has the same shape as pool `a`: the same number of
/// buffers, each with the same capacity.  Running a block never changes a
/// pool's shape.
pub open spec fn pool_shape_eq<S: Sample>(a: BufferPool<S>, b: BufferPool<S>) -> bool {
    &&& b.num_buffers_spec() == a.num_buffers_spec()
    &&& forall|x: int|
        0 <= x < a.num_buffers_spec() ==> (#[trigger] b.buf_spec(x)).len() == a.buf_spec(x).len()
}

/// Pool shape equality composes.
pub proof fn lemma_pool_shape_trans<S: Sample>(a: BufferPool<S>, b: BufferPool<S>, c: BufferPool<S>)
    requires
        pool_shape_eq(a, b),
        pool_shape_eq(b, c),
    ensures
        pool_shape_eq(a, c),
{
    assert forall|x: int|
        0 <= x < a.num_buffers_spec() implies (#[trigger] c.buf_spec(x)).len() == a.buf_spec(
        x,
    ).len() by {
        assert(b.buf_spec(x).len() == a.buf_spec(x).len());
    }
}

/// A pool keeps its well-formedness under any shape-preserving step.
pub proof fn lemma_pool_shape_wf<S: Sample>(a: BufferPool<S>, b: BufferPool<S>, m: int)
    requires
        pool_shape_eq(a, b),
        a.wf(m),
    ensures
        b.wf(m),
{
    assert forall|x: int|
        0 <= x < b.num_buffers_spec() implies (#[trigger] b.buf_spec(x)).len() == m by {
        assert(a.buf_spec(x).len() == m);
        assert(b.buf_spec(x).len() == a.buf_spec(x).len());
    }
}

/// The mix of a non-empty column of samples, left to right.
pub open spec fn mix_of<S: Sample>(samples: Seq<S>) -> S
    recommends
        samples.len() > 0,
    decreases samples.len(),
{
    if samples.len() <= 1 {
        samples[0]
    } else {
        mix_of(samples.drop_last()).mix_spec(samples.last())
    }
}

/// One shared channel buffer: `max_frames` samples and a constant flag.
/// When the flag is set the writer asserts that the first sample is
/// authoritative for the whole block.
pub struct AudioBuffer<S> {
    data: Vec<S>,
    is_constant: bool,
}

/// A pool of channel buffers, all of capacity `max_frames`, addressed by
/// index.  The compiler hands each task the indices it may touch; the pool
/// itself is owned by whoever runs the schedule.
pub struct BufferPool<S> {
    buffers: Vec<AudioBuffer<S>>,
}

impl<S: Sample> BufferPool<S> {
    /// The samples of buffer `b`.
    pub closed spec fn buf_spec(self, b: int) -> Seq<S> {
        self.buffers@[b].data@
    }

    /// The constant flag of buffer `b`.
    pub closed spec fn constant_spec(self, b: int) -> bool {
        self.buffers@[b].is_constant
    }

    /// How many buffers the pool holds.
    pub closed spec fn num_buffers_spec(self) -> int {
        self.buffers@.len() as int
    }

    /// Every buffer holds exactly `max_frames` samples.
    pub open spec fn wf(self, max_frames: int) -> bool {
        forall|b: int|
            0 <= b < self.num_buffers_spec() ==> (#[trigger] self.buf_spec(b)).len() == max_frames
    }

    /// An empty pool.
    pub fn new() -> (p: Self)
        ensures
            p.num_buffers_spec() == 0,
            forall|m: int| p.wf(m),
    {
        BufferPool { buffers: Vec::new() }
    }

    /// Adds one silent buffer of `max_frames` samples and returns its
    /// index.
    pub fn alloc_buffer(&mut self, max_frames: usize) -> (b: usize)
        requires
            old(self).wf(max_frames as int),
        ensures
            final(self).wf(max_frames as int),
            b as int == old(self).num_buffers_spec(),
            final(self).num_buffers_spec() == old(self).num_buffers_spec() + 1,
            final(self).buf_spec(b as int) =~= Seq::new(
                max_frames as nat,
                |i: int| S::zero_spec(),
            ),
            final(self).constant_spec(b as int),
            forall|b2: int|
                0 <= b2 < old(self).num_buffers_spec() ==> #[trigger] final(self).buf_spec(b2)
                    == old(self).buf_spec(b2) && final(self).constant_spec(b2) == old(self).constant_spec(b2),
    {
        let b = self.buffers.len();
        let mut data: Vec<S> = Vec::new();
        let mut i: usize = 0;
        while i < max_frames
            invariant
                i <= max_frames,
                data@ =~= Seq::new(i as nat, |j: int| S::zero_spec()),
            decreases max_frames - i,
        {
            data.push(S::zero());
            proof {
                assert(data@ =~= Seq::new((i + 1) as nat, |j: int| S::zero_spec()));
            }
            i = i + 1;
        }
        let ghost data_view = data@;
        self.buffers.push(AudioBuffer { data, is_constant: true });
        proof {
            assert forall|b2: int|
                0 <= b2 < self.num_buffers_spec() implies (#[trigger] self.buf_spec(b2)).len()
                == max_frames by {
                if b2 < old(self).num_buffers_spec() {
                    assert(self.buf_spec(b2) == old(self).buf_spec(b2));
                } else {
                    assert(self.buf_spec(b2) == data_view);
                }
            }
        }
        b
    }

    /// Reads sample `i` of buffer `b`.
    pub fn read(&self, b: usize, i: usize) -> (r: S)
        requires
            b < self.num_buffers_spec(),
            i < self.buf_spec(b as int).len(),
        ensures
            r == self.buf_spec(b as int)[i as int],
    {
        self.buffers[b].data[i]
    }

    /// Writes sample `i` of buffer `b`.
    pub fn write(&mut self, b: usize, i: usize, s: S)
        requires
            b < old(self).num_buffers_spec(),
            i < old(self).buf_spec(b as int).len(),
        ensures
            final(self).buf_spec(b as int) == old(self).buf_spec(b as int).update(i as int, s),
            final(self).constant_spec(b as int) == old(self).constant_spec(b as int),
            final(self).num_buffers_spec() == old(self).num_buffers_spec(),
            forall|b2: int|
                0 <= b2 < old(self).num_buffers_spec() && b2 != b ==> #[trigger] final(self).buf_spec(b2) == old(self).buf_spec(b2),
            forall|b2: int|
                0 <= b2 < old(self).num_buffers_spec() && b2 != b ==> #[trigger] final(self).constant_spec(b2) == old(self).constant_spec(b2),
    {
        self.buffers[b].data[i] = s;
    }

    /// Reads the constant flag of buffer `b`.
    pub fn is_constant(&self, b: usize) -> (r: bool)
        requires
            b < self.num_buffers_spec(),
        ensures
            r == self.constant_spec(b as int),
    {
        self.buffers[b].is_constant
    }

    /// Sets the constant flag of buffer `b`.
    pub fn set_constant(&mut self, b: usize, c: bool)
        requires
            b < old(self).num_buffers_spec(),
        ensures
            final(self).constant_spec(b as int) == c,
            final(self).buf_spec(b as int) == old(self).buf_spec(b as int),
            final(self).num_buffers_spec() == old(self).num_buffers_spec(),
            forall|b2: int|
                0 <= b2 < old(self).num_buffers_spec() && b2 != b ==> #[trigger] final(self).buf_spec(b2) == old(self).buf_spec(b2),
            forall|b2: int|
                0 <= b2 < old(self).num_buffers_spec() && b2 != b ==> #[trigger] final(self).constant_spec(b2) == old(self).constant_spec(b2),
    {
        self.buffers[b].is_constant = c;
    }

    /// The capacity of buffer `b`.
    pub fn buf_len(&self, b: usize) -> (r: usize)
        requires
            b < self.num_buffers_spec(),
        ensures
            r == self.buf_spec(b as int).len(),
    {
        self.buffers[b].data.len()
    }

    /// How many buffers the pool holds.
    pub fn num_buffers(&self) -> (r: usize)
        ensures
            r == self.num_buffers_spec(),
    {
        self.buffers.len()
    }

    /// Clears the first `frames` samples of buffer `b` to silence and marks
    /// it constant.
    pub fn clear_buffer(&mut self, b: usize, frames: usize)
        requires
            b < old(self).num_buffers_spec(),
            frames <= old(self).buf_spec(b as int).len(),
        ensures
            final(self).buf_spec(b as int).len() == old(self).buf_spec(b as int).len(),
            forall|i: int|
                0 <= i < frames ==> #[trigger] final(self).buf_spec(b as int)[i]
                    == S::zero_spec(),
            forall|i: int|
                frames <= i < old(self).buf_spec(b as int).len() ==> #[trigger] final(self).buf_spec(b as int)[i] == old(self).buf_spec(b as int)[i],
            final(self).constant_spec(b as int),
            final(self).num_buffers_spec() == old(self).num_buffers_spec(),
            forall|b2: int|
                0 <= b2 < old(self).num_buffers_spec() && b2 != b ==> #[trigger] final(self).buf_spec(b2) == old(self).buf_spec(b2),
            forall|b2: int|
                0 <= b2 < old(self).num_buffers_spec() && b2 != b ==> #[trigger] final(self).constant_spec(b2) == old(self).constant_spec(b2),
    {
        let mut i: usize = 0;
        while i < frames
            invariant
                b < self.num_buffers_spec(),
                frames <= self.buf_spec(b as int).len(),
                self.buf_spec(b as int).len() == old(self).buf_spec(b as int).len(),
                i <= frames,
                forall|j: int|
                    0 <= j < i ==> #[trigger] self.buf_spec(b as int)[j] == S::zero_spec(),
                forall|j: int|
                    i <= j < old(self).buf_spec(b as int).len() ==> #[trigger] self.buf_spec(
                        b as int,
                    )[j] == old(self).buf_spec(b as int)[j],
                self.constant_spec(b as int) == old(self).constant_spec(b as int),
                self.num_buffers_spec() == old(self).num_buffers_spec(),
                forall|b2: int|
                    0 <= b2 < old(self).num_buffers_spec() && b2 != b ==> #[trigger] self.buf_spec(
                        b2,
                    ) == old(self).buf_spec(b2),
                forall|b2: int|
                    0 <= b2 < old(self).num_buffers_spec() && b2 != b
                        ==> #[trigger] self.constant_spec(b2) == old(self).constant_spec(b2),
            decreases frames - i,
        {
            let z = S::zero();
            self.write(b, i, z);
            i = i + 1;
        }
        self.set_constant(b, true);
    }

    /// Copies the first `frames` samples of buffer `src` into buffer `dst`
    /// and copies the constant flag, as a pass-through task does.
    pub fn copy_buffer(&mut self, src: usize, dst: usize, frames: usize)
        requires
            src < old(self).num_buffers_spec(),
            dst < old(self).num_buffers_spec(),
            src != dst,
            frames <= old(self).buf_spec(src as int).len(),
            frames <= old(self).buf_spec(dst as int).len(),
        ensures
            final(self).buf_spec(dst as int).len() == old(self).buf_spec(dst as int).len(),
            forall|i: int|
                0 <= i < frames ==> #[trigger] final(self).buf_spec(dst as int)[i] == old(self).buf_spec(src as int)[i],
            forall|i: int|
                frames <= i < old(self).buf_spec(dst as int).len() ==> #[trigger] final(self).buf_spec(dst as int)[i] == old(self).buf_spec(dst as int)[i],
            final(self).constant_spec(dst as int) == old(self).constant_spec(src as int),
            final(self).num_buffers_spec() == old(self).num_buffers_spec(),
            forall|b2: int|
                0 <= b2 < old(self).num_buffers_spec() && b2 != dst ==> #[trigger] final(self).buf_spec(b2) == old(self).buf_spec(b2),
            forall|b2: int|
                0 <= b2 < old(self).num_buffers_spec() && b2 != dst ==> #[trigger] final(self).constant_spec(b2) == old(self).constant_spec(b2),
    {
        let mut i: usize = 0;
        while i < frames
            invariant
                src < self.num_buffers_spec(),
                dst < self.num_buffers_spec(),
                src != dst,
                frames <= self.buf_spec(src as int).len(),
                frames <= self.buf_spec(dst as int).len(),
                self.buf_spec(dst as int).len() == old(self).buf_spec(dst as int).len(),
                i <= frames,
                self.buf_spec(src as int) == old(self).buf_spec(src as int),
                forall|j: int|
                    0 <= j < i ==> #[trigger] self.buf_spec(dst as int)[j] == old(self).buf_spec(
                        src as int,
                    )[j],
                forall|j: int|
                    i <= j < old(self).buf_spec(dst as int).len() ==> #[trigger] self.buf_spec(
                        dst as int,
                    )[j] == old(self).buf_spec(dst as int)[j],
                self.constant_spec(dst as int) == old(self).constant_spec(dst as int),
                self.num_buffers_spec() == old(self).num_buffers_spec(),
                forall|b2: int|
                    0 <= b2 < old(self).num_buffers_spec() && b2 != dst ==> #[trigger] self
                        .buf_spec(b2) == old(self).buf_spec(b2),
                forall|b2: int|
                    0 <= b2 < old(self).num_buffers_spec() && b2 != dst
                        ==> #[trigger] self.constant_spec(b2) == old(self).constant_spec(b2),
            decreases frames - i,
        {
            let s = self.read(src, i);
            self.write(dst, i, s);
            i = i + 1;
        }
        let c = self.is_constant(src);
        self.set_constant(dst, c);
    }

    /// The column of samples the source buffers `srcs` hold at frame `i`.
    pub open spec fn column_spec(self, srcs: Seq<usize>, i: int) -> Seq<S> {
        Seq::new(srcs.len(), |k: int| self.buf_spec(srcs[k] as int)[i])
    }

    /// Whether every source buffer in `srcs` is marked constant.
    pub open spec fn all_constant_spec(self, srcs: Seq<usize>) -> bool {
        forall|k: int| 0 <= k < srcs.len() ==> self.constant_spec(#[trigger] srcs[k] as int)
    }

    /// Sums the source buffers into `dst`: for every frame in the block the
    /// destination holds the mix of all the sources at that frame, and the
    /// destination is marked constant exactly when every source is.
    pub fn sum_into(&mut self, srcs: &Vec<usize>, dst: usize, frames: usize)
        requires
            srcs@.len() >= 1,
            forall|k: int|
                0 <= k < srcs@.len() ==> (#[trigger] srcs@[k]) < old(self).num_buffers_spec(),
            forall|k: int|
                0 <= k < srcs@.len() ==> frames <= old(self).buf_spec(
                    (#[trigger] srcs@[k]) as int,
                ).len(),
            dst < old(self).num_buffers_spec(),
            frames <= old(self).buf_spec(dst as int).len(),
            forall|k: int| 0 <= k < srcs@.len() ==> (#[trigger] srcs@[k]) != dst,
        ensures
            final(self).buf_spec(dst as int).len() == old(self).buf_spec(dst as int).len(),
            forall|i: int|
                0 <= i < frames ==> #[trigger] final(self).buf_spec(dst as int)[i] == mix_of(
                    old(self).column_spec(srcs@, i),
                ),
            forall|i: int|
                frames <= i < old(self).buf_spec(dst as int).len() ==> #[trigger] final(self).buf_spec(dst as int)[i] == old(self).buf_spec(dst as int)[i],
            final(self).constant_spec(dst as int) == old(self).all_constant_spec(srcs@),
            final(self).num_buffers_spec() == old(self).num_buffers_spec(),
            forall|b2: int|
                0 <= b2 < old(self).num_buffers_spec() && b2 != dst ==> #[trigger] final(self).buf_spec(b2) == old(self).buf_spec(b2),
            forall|b2: int|
                0 <= b2 < old(self).num_buffers_spec() && b2 != dst ==> #[trigger] final(self).constant_spec(b2) == old(self).constant_spec(b2),
    {
        let n = srcs.len();
        let mut i: usize = 0;
        while i < frames
            invariant
                n == srcs@.len(),
                n >= 1,
                forall|k: int|
                    0 <= k < srcs@.len() ==> (#[trigger] srcs@[k]) < self.num_buffers_spec(),
                forall|k: int|
                    0 <= k < srcs@.len() ==> frames <= self.buf_spec(
                        (#[trigger] srcs@[k]) as int,
                    ).len(),
                dst < self.num_buffers_spec(),
                frames <= self.buf_spec(dst as int).len(),
                self.buf_spec(dst as int).len() == old(self).buf_spec(dst as int).len(),
                i <= frames,
                forall|k: int| 0 <= k < srcs@.len() ==> (#[trigger] srcs@[k]) != dst,
                forall|k: int|
                    0 <= k < srcs@.len() ==> #[trigger] self.buf_spec((srcs@[k]) as int) == old(self).buf_spec((srcs@[k]) as int),
                forall|j: int|
                    0 <= j < i ==> #[trigger] self.buf_spec(dst as int)[j] == mix_of(
                        old(self).column_spec(srcs@, j),
                    ),
                forall|j: int|
                    i <= j < old(self).buf_spec(dst as int).len() ==> #[trigger] self.buf_spec(
                        dst as int,
                    )[j] == old(self).buf_spec(dst as int)[j],
                self.constant_spec(dst as int) == old(self).constant_spec(dst as int),
                self.num_buffers_spec() == old(self).num_buffers_spec(),
                forall|b2: int|
                    0 <= b2 < old(self).num_buffers_spec() && b2 != dst ==> #[trigger] self
                        .buf_spec(b2) == old(self).buf_spec(b2),
                forall|b2: int|
                    0 <= b2 < old(self).num_buffers_spec() && b2 != dst
                        ==> #[trigger] self.constant_spec(b2) == old(self).constant_spec(b2),
            decreases frames - i,
        {
            let mut acc = self.read(srcs[0], i);
            let mut k: usize = 1;
            while k < n
                invariant
                    n == srcs@.len(),
                    1 <= k <= n,
                    i < frames,
                    forall|k2: int|
                        0 <= k2 < srcs@.len() ==> (#[trigger] srcs@[k2]) < self.num_buffers_spec(),
                    forall|k2: int|
                        0 <= k2 < srcs@.len() ==> frames <= self.buf_spec(
                            (#[trigger] srcs@[k2]) as int,
                        ).len(),
                    acc == mix_of(self.column_spec(srcs@, i as int).take(k as int)),
                decreases n - k,
            {
                let s = self.read(srcs[k], i);
                acc = acc.mix(s);
                proof {
                    let col = self.column_spec(srcs@, i as int);
                    assert(col.take(k + 1).drop_last() =~= col.take(k as int));
                    assert(col.take(k + 1).last() == col[k as int]);
                }
                k = k + 1;
            }
            proof {
                let col = self.column_spec(srcs@, i as int);
                assert(col.take(n as int) =~= col);
                assert(self.column_spec(srcs@, i as int) =~= old(self).column_spec(
                    srcs@,
                    i as int,
                ));
            }
            self.write(dst, i, acc);
            proof {
                assert forall|k2: int| 0 <= k2 < srcs@.len() implies #[trigger] self.buf_spec(
                    (srcs@[k2]) as int,
                ) == old(self).buf_spec((srcs@[k2]) as int) by {
                    assert(srcs@[k2] != dst);
                }
                assert forall|j: int| 0 <= j <= i implies #[trigger] self.buf_spec(dst as int)[j]
                    == mix_of(old(self).column_spec(srcs@, j)) by {
                    if j == i {
                        assert(old(self).column_spec(srcs@, i as int) =~= Seq::new(
                            srcs@.len(),
                            |k2: int| old(self).buf_spec(srcs@[k2] as int)[i as int],
                        ));
                    }
                }
            }
            i = i + 1;
        }
        let mut all_const = true;
        let mut k: usize = 0;
        while k < n
            invariant
                n == srcs@.len(),
                k <= n,
                forall|k2: int|
                    0 <= k2 < srcs@.len() ==> (#[trigger] srcs@[k2]) < self.num_buffers_spec(),
                all_const == (forall|k2: int|
                    0 <= k2 < k ==> self.constant_spec(#[trigger] srcs@[k2] as int)),
            decreases n - k,
        {
            if !self.is_constant(srcs[k]) {
                all_const = false;
            }
            k = k + 1;
        }
        self.set_constant(dst, all_const);
    }

    /// Whether the first `frames` samples of every buffer in `bufs` are
    /// silence, examining only the first sample of a buffer marked
    /// constant.
    pub open spec fn buffers_silent_spec(self, bufs: Seq<usize>, frames: int) -> bool {
        forall|k: int, i: int|
            0 <= k < bufs.len() && 0 <= i < (if self.constant_spec(bufs[k] as int) {
                1int
            } else {
                frames
            }) ==> (#[trigger] self.buf_spec(bufs[k] as int)[i]).is_zero_spec()
    }

    /// Whether the first `frames` samples of every buffer in `bufs` are
    /// silence.  When a buffer is marked constant only its first sample is
    /// examined; a truthful writer makes that equivalent.
    pub fn buffers_silent(&self, bufs: &Vec<usize>, frames: usize) -> (r: bool)
        requires
            forall|k: int|
                0 <= k < bufs@.len() ==> (#[trigger] bufs@[k]) < self.num_buffers_spec(),
            forall|k: int|
                0 <= k < bufs@.len() ==> frames <= self.buf_spec((#[trigger] bufs@[k]) as int).len(),
            frames >= 1,
        ensures
            r == self.buffers_silent_spec(bufs@, frames as int),
    {
        let n = bufs.len();
        let mut k: usize = 0;
        while k < n
            invariant
                n == bufs@.len(),
                k <= n,
                frames >= 1,
                forall|k2: int|
                    0 <= k2 < bufs@.len() ==> (#[trigger] bufs@[k2]) < self.num_buffers_spec(),
                forall|k2: int|
                    0 <= k2 < bufs@.len() ==> frames <= self.buf_spec(
                        (#[trigger] bufs@[k2]) as int,
                    ).len(),
                forall|k2: int, i: int|
                    0 <= k2 < k && 0 <= i < (if self.constant_spec(bufs@[k2] as int) {
                        1int
                    } else {
                        frames as int
                    }) ==> (#[trigger] self.buf_spec(bufs@[k2] as int)[i]).is_zero_spec(),
            decreases n - k,
        {
            let b = bufs[k];
            let limit: usize = if self.is_constant(b) {
                1
            } else {
                frames
            };
            let mut i: usize = 0;
            while i < limit
                invariant
                    n == bufs@.len(),
                    k < n,
                    b == bufs@[k as int],
                    b < self.num_buffers_spec(),
                    limit == (if self.constant_spec(b as int) {
                        1int
                    } else {
                        frames as int
                    }),
                    limit <= self.buf_spec(b as int).len(),
                    i <= limit,
                    forall|j: int|
                        0 <= j < i ==> (#[trigger] self.buf_spec(b as int)[j]).is_zero_spec(),
                decreases limit - i,
            {
                let s = self.read(b, i);
                if !s.is_zero() {
                    proof {
                        assert(0 <= k < bufs@.len());
                        let bi = bufs@[k as int] as int;
                        assert(!(#[trigger] self.buf_spec(bi)[i as int]).is_zero_spec());
                    }
                    return false;
                }
                i = i + 1;
            }
            k = k + 1;
        }
        true
    }
}

} // verus!
