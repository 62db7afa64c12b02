//! Executes one block of a compiled schedule: the delay, summation and
//! pass-through tasks are exact, verified sample copies; plugin tasks go
//! through the audio-thread plugin host.

use vstd::prelude::*;

use crate::buffer::BufferPool;
use crate::buffer::Sample;
use crate::buffer::pool_shape_eq;
use crate::compiler::DeactivatedPluginTask;
use crate::compiler::DelayCompTask;
use crate::compiler::Schedule;
use crate::compiler::SumTask;
use crate::compiler::Task;
use crate::compiler::task_valid;
use crate::plugin_host::PluginAudioThread;
use crate::plugin_host::PluginInstanceHostAudioThread;
use crate::state::PluginState;
use crate::state::SharedPluginState;
use crate::state::state_transition_allowed;
use crate::events::EventTransport;
use crate::proc_events::ProcEventQueue;

verus! {

/// What one block's `process` call is given: how many frames to render,
/// the engine sample rate, and the transport event of this block, if any.
pub struct ProcInfo {
    pub frames: usize,
    pub sample_rate: u32,
    pub transport: Option<EventTransport>,
}

/// Whether every sample of a block window equals its first sample, so
/// the window carries one constant value.
pub open spec fn window_constant<S: Sample>(w: Seq<S>) -> bool {
    forall|i: int| 0 <= i < w.len() ==> #[trigger] w[i] == w[0]
}

/// The internal state of one delay-compensation line: the samples written
/// but not yet read out, oldest first.  Its length is the configured
/// delay.
pub struct DelayLine<S> {
    pending: Vec<S>,
}

impl<S: Sample> DelayLine<S> {
    /// The samples in flight, oldest first.
    pub closed spec fn pending_spec(self) -> Seq<S> {
        self.pending@
    }

    /// A silent delay line of `delay` frames.
    pub fn new(delay: usize) -> (line: Self)
        ensures
            line.pending_spec() =~= Seq::new(delay as nat, |i: int| S::zero_spec()),
    {
        let mut pending: Vec<S> = Vec::new();
        let mut i: usize = 0;
        while i < delay
            invariant
                i <= delay,
                pending@ =~= Seq::new(i as nat, |j: int| S::zero_spec()),
            decreases delay - i,
        {
            pending.push(S::zero());
            proof {
                assert(pending@ =~= Seq::new((i + 1) as nat, |j: int| S::zero_spec()));
            }
            i = i + 1;
        }
        DelayLine { pending }
    }

    /// The configured delay in frames.
    pub fn delay(&self) -> (r: usize)
        ensures
            r == self.pending_spec().len(),
    {
        self.pending.len()
    }
}

/// Runs one delay-compensation task: the output block is the samples that
/// went in `delay` frames ago — first what was still in flight, then the
/// input block shifted by the delay.  The line keeps the newest `delay`
/// input samples in flight for the next block.
pub fn process_delay_comp<S: Sample>(
    task: &DelayCompTask,
    line: &mut DelayLine<S>,
    pool: &mut BufferPool<S>,
    frames: usize,
)
    requires
        task.audio_in < old(pool).num_buffers_spec(),
        task.audio_out < old(pool).num_buffers_spec(),
        task.audio_in != task.audio_out,
        frames <= old(pool).buf_spec(task.audio_in as int).len(),
        frames <= old(pool).buf_spec(task.audio_out as int).len(),
    ensures
        final(pool).num_buffers_spec() == old(pool).num_buffers_spec(),
        pool_shape_eq(*old(pool), *final(pool)),
        final(pool).buf_spec(task.audio_out as int).len() == old(pool).buf_spec(
            task.audio_out as int,
        ).len(),
        forall|i: int|
            0 <= i < frames ==> #[trigger] final(pool).buf_spec(task.audio_out as int)[i] == (old(
                line,
            ).pending_spec() + old(pool).buf_spec(task.audio_in as int).take(frames as int))[i],
        final(line).pending_spec() == (old(line).pending_spec() + old(pool).buf_spec(
            task.audio_in as int,
        ).take(frames as int)).skip(frames as int),
        forall|i: int|
            frames <= i < old(pool).buf_spec(task.audio_out as int).len() ==> #[trigger] final(pool).buf_spec(task.audio_out as int)[i] == old(pool).buf_spec(task.audio_out as int)[i],
        final(pool).constant_spec(task.audio_out as int) == window_constant(
            (old(line).pending_spec() + old(pool).buf_spec(task.audio_in as int).take(
                frames as int,
            )).take(frames as int),
        ),
        forall|b2: int|
            0 <= b2 < old(pool).num_buffers_spec() && b2 != task.audio_out ==> #[trigger] final(pool).buf_spec(b2) == old(pool).buf_spec(b2),
        forall|b2: int|
            0 <= b2 < old(pool).num_buffers_spec() && b2 != task.audio_out ==> #[trigger] final(pool).constant_spec(b2) == old(pool).constant_spec(b2),
{
    let delay = line.pending.len();
    // All samples arriving this block, oldest first.
    let ghost entry_pool = *pool;
    let ghost entry_line = *line;
    let mut fed: Vec<S> = Vec::new();
    let mut i: usize = 0;
    while i < delay
        invariant
            *pool == entry_pool,
            *line == entry_line,
            delay == line.pending_spec().len(),
            i <= delay,
            fed@ == line.pending_spec().take(i as int),
        decreases delay - i,
    {
        fed.push(line.pending[i]);
        proof {
            assert(line.pending_spec().take(i + 1) =~= line.pending_spec().take(i as int).push(
                line.pending_spec()[i as int],
            ));
        }
        i = i + 1;
    }
    proof {
        assert(line.pending_spec().take(delay as int) =~= line.pending_spec());
    }
    let ghost pool_start = *pool;
    let ghost line_start = *line;
    let mut j: usize = 0;
    while j < frames
        invariant
            *pool == pool_start,
            *line == line_start,
            task.audio_in < pool.num_buffers_spec(),
            frames <= pool.buf_spec(task.audio_in as int).len(),
            j <= frames,
            fed@ == line.pending_spec() + pool.buf_spec(task.audio_in as int).take(j as int),
        decreases frames - j,
    {
        let s = pool.read(task.audio_in, j);
        fed.push(s);
        proof {
            assert(pool.buf_spec(task.audio_in as int).take(j + 1) =~= pool.buf_spec(
                task.audio_in as int,
            ).take(j as int).push(pool.buf_spec(task.audio_in as int)[j as int]));
            assert(fed@ =~= line.pending_spec() + pool.buf_spec(task.audio_in as int).take(
                j + 1,
            ));
        }
        j = j + 1;
    }

    // Write the first `frames` samples out and keep the rest in flight.
    let mut k: usize = 0;
    while k < frames
        invariant
            *line == *old(line),
            fed@ == old(line).pending_spec() + old(pool).buf_spec(task.audio_in as int).take(
                frames as int,
            ),
            task.audio_in < pool.num_buffers_spec(),
            task.audio_out < pool.num_buffers_spec(),
            task.audio_in != task.audio_out,
            frames <= pool.buf_spec(task.audio_out as int).len(),
            frames + line.pending_spec().len() == fed@.len(),
            k <= frames,
            pool.num_buffers_spec() == old(pool).num_buffers_spec(),
            pool.buf_spec(task.audio_out as int).len() == old(pool).buf_spec(
                task.audio_out as int,
            ).len(),
            forall|i2: int|
                0 <= i2 < k ==> #[trigger] pool.buf_spec(task.audio_out as int)[i2] == fed@[i2],
            forall|i2: int|
                k <= i2 < old(pool).buf_spec(task.audio_out as int).len() ==> #[trigger] pool
                    .buf_spec(task.audio_out as int)[i2] == old(pool).buf_spec(
                    task.audio_out as int,
                )[i2],
            pool.constant_spec(task.audio_out as int) == old(pool).constant_spec(
                task.audio_out as int,
            ),
            forall|b2: int|
                0 <= b2 < old(pool).num_buffers_spec() && b2 != task.audio_out ==> #[trigger] pool
                    .buf_spec(b2) == old(pool).buf_spec(b2),
            forall|b2: int|
                0 <= b2 < old(pool).num_buffers_spec() && b2 != task.audio_out
                    ==> #[trigger] pool.constant_spec(b2) == old(pool).constant_spec(b2),
        decreases frames - k,
    {
        let s = fed[k];
        pool.write(task.audio_out, k, s);
        k = k + 1;
    }
    // Propagate the constant flag: the delayed window is constant exactly
    // when all of its samples agree.
    let mut window_is_constant = true;
    let mut w: usize = 0;
    let ghost pool_written = *pool;
    while w < frames
        invariant
            *pool == pool_written,
            frames + line.pending_spec().len() == fed@.len(),
            w <= frames,
            window_is_constant == window_constant(fed@.take(frames as int).take(w as int)),
        decreases frames - w,
    {
        let first = fed[0];
        let cur = fed[w];
        let agrees = cur.same(&first);
        proof {
            let win = fed@.take(frames as int);
            assert(win.take(w + 1) =~= win.take(w as int).push(win[w as int]));
            if w == 0 {
                assert(window_constant(win.take(1int))) by {
                    assert(forall|i: int|
                        0 <= i < win.take(1int).len() ==> #[trigger] win.take(1int)[i] == win.take(
                            1int,
                        )[0]);
                }
            }
            if !agrees {
                assert(win.take(w + 1)[w as int] != win.take(w + 1)[0]);
            }
        }
        if !agrees && w > 0 {
            window_is_constant = false;
        }
        proof {
            let win = fed@.take(frames as int);
            if window_is_constant {
                assert forall|i: int|
                    0 <= i < win.take(w + 1).len() implies #[trigger] win.take(w + 1)[i]
                    == win.take(w + 1)[0] by {
                    if i < w {
                        assert(win.take(w as int)[i] == win.take(w as int)[0]);
                    }
                }
            } else {
                if window_constant(win.take(w + 1)) {
                    assert(win.take(w + 1)[w as int] == win.take(w + 1)[0]);
                    if !window_constant(win.take(w as int)) {
                        let i = choose|i: int|
                            0 <= i < win.take(w as int).len() && #[trigger] win.take(
                                w as int,
                            )[i] != win.take(w as int)[0];
                        assert(win.take(w + 1)[i] != win.take(w + 1)[0]);
                    }
                }
            }
        }
        w = w + 1;
    }
    proof {
        assert(fed@.take(frames as int).take(frames as int) =~= fed@.take(frames as int));
    }
    pool.set_constant(task.audio_out, window_is_constant);

    let ghost pool_done = *pool;
    let mut new_pending: Vec<S> = Vec::new();
    let mut t: usize = frames;
    while t < fed.len()
        invariant
            *pool == pool_done,
            frames <= t <= fed@.len(),
            new_pending@ == fed@.subrange(frames as int, t as int),
        decreases fed@.len() - t,
    {
        new_pending.push(fed[t]);
        proof {
            assert(fed@.subrange(frames as int, t + 1) =~= fed@.subrange(
                frames as int,
                t as int,
            ).push(fed@[t as int]));
        }
        t = t + 1;
    }
    proof {
        assert(new_pending@ =~= fed@.skip(frames as int));
    }
    line.pending = new_pending;
}

/// Runs one summation task; see [`BufferPool::sum_into`] for the exact
/// per-sample statement.
pub fn process_sum<S: Sample>(task: &SumTask, pool: &mut BufferPool<S>, frames: usize)
    requires
        task.audio_in@.len() >= 1,
        forall|k: int|
            0 <= k < task.audio_in@.len() ==> (#[trigger] task.audio_in@[k]) < old(pool).num_buffers_spec(),
        forall|k: int|
            0 <= k < task.audio_in@.len() ==> frames <= old(pool).buf_spec(
                (#[trigger] task.audio_in@[k]) as int,
            ).len(),
        task.audio_out < old(pool).num_buffers_spec(),
        frames <= old(pool).buf_spec(task.audio_out as int).len(),
        forall|k: int| 0 <= k < task.audio_in@.len() ==> (#[trigger] task.audio_in@[k])
            != task.audio_out,
    ensures
        final(pool).num_buffers_spec() == old(pool).num_buffers_spec(),
        pool_shape_eq(*old(pool), *final(pool)),
        final(pool).buf_spec(task.audio_out as int).len() == old(pool).buf_spec(
            task.audio_out as int,
        ).len(),
        forall|i: int|
            0 <= i < frames ==> #[trigger] final(pool).buf_spec(task.audio_out as int)[i]
                == crate::buffer::mix_of(old(pool).column_spec(task.audio_in@, i)),
        final(pool).constant_spec(task.audio_out as int) == old(pool).all_constant_spec(
            task.audio_in@,
        ),
        forall|b2: int|
            0 <= b2 < old(pool).num_buffers_spec() && b2 != task.audio_out ==> #[trigger] final(pool).buf_spec(b2) == old(pool).buf_spec(b2) && final(pool).constant_spec(b2) == old(pool).constant_spec(b2),
{
    pool.sum_into(&task.audio_in, task.audio_out, frames);
}

/// Runs one pass-through task standing in for an inactive plugin: each
/// matched main input channel is copied to its output (constant flag
/// included), the extra outputs are cleared to silence, and every event
/// output is emptied.
pub fn process_deactivated<S: Sample>(
    task: &DeactivatedPluginTask,
    pool: &mut BufferPool<S>,
    event_pool: &mut Vec<ProcEventQueue>,
    frames: usize,
)
    requires
        forall|k: int|
            0 <= k < task.audio_through@.len() ==> (#[trigger] task.audio_through@[k]).0 < old(pool).num_buffers_spec() && task.audio_through@[k].1 < old(pool).num_buffers_spec()
                && task.audio_through@[k].0 != task.audio_through@[k].1,
        forall|k1: int, k2: int|
            0 <= k1 < task.audio_through@.len() && 0 <= k2 < task.audio_through@.len() && k1 != k2
                ==> (#[trigger] task.audio_through@[k1]).1 != (#[trigger] task.audio_through@[k2]).1,
        forall|k1: int, k2: int|
            0 <= k1 < task.audio_through@.len() && 0 <= k2 < task.audio_through@.len() ==> (
            #[trigger] task.audio_through@[k1]).0 != (#[trigger] task.audio_through@[k2]).1,
        forall|k: int, x: int|
            0 <= k < task.audio_through@.len() && 0 <= x < task.extra_audio_out@.len() ==> (
            #[trigger] task.audio_through@[k]).0 != (#[trigger] task.extra_audio_out@[x])
                && task.audio_through@[k].1 != task.extra_audio_out@[x],
        forall|x1: int, x2: int|
            0 <= x1 < x2 < task.extra_audio_out@.len() ==> (#[trigger] task.extra_audio_out@[x1])
                != (#[trigger] task.extra_audio_out@[x2]),
        forall|x: int|
            0 <= x < task.extra_audio_out@.len() ==> (#[trigger] task.extra_audio_out@[x]) < old(pool).num_buffers_spec(),
        (task.automation_out_buffer matches Some(b) ==> b < old(event_pool)@.len()),
        forall|x: int|
            0 <= x < task.note_out_buffers@.len() ==> (#[trigger] task.note_out_buffers@[x]) < old(event_pool)@.len(),
        forall|k: int|
            0 <= k < task.audio_through@.len() ==> frames <= old(pool).buf_spec(
                (#[trigger] task.audio_through@[k]).0 as int,
            ).len() && frames <= old(pool).buf_spec(task.audio_through@[k].1 as int).len(),
        forall|x: int|
            0 <= x < task.extra_audio_out@.len() ==> frames <= old(pool).buf_spec(
                (#[trigger] task.extra_audio_out@[x]) as int,
            ).len(),
    ensures
        final(pool).num_buffers_spec() == old(pool).num_buffers_spec(),
        pool_shape_eq(*old(pool), *final(pool)),
        // matched channels pass through, constant flag included
        forall|k: int, i: int|
            0 <= k < task.audio_through@.len() && 0 <= i < frames ==> #[trigger] final(pool).buf_spec(task.audio_through@[k].1 as int)[i] == old(pool).buf_spec(
                task.audio_through@[k].0 as int,
            )[i],
        forall|k: int|
            0 <= k < task.audio_through@.len() ==> final(pool).constant_spec(
                (#[trigger] task.audio_through@[k]).1 as int,
            ) == old(pool).constant_spec(task.audio_through@[k].0 as int),
        // extra outputs are silent
        forall|x: int, i: int|
            0 <= x < task.extra_audio_out@.len() && 0 <= i < frames ==> #[trigger] final(pool).buf_spec(task.extra_audio_out@[x] as int)[i] == S::zero_spec(),
        // buffers the task does not write are untouched
        forall|b2: int|
            0 <= b2 < old(pool).num_buffers_spec() && !(exists|k: int|
                0 <= k < task.audio_through@.len() && (#[trigger] task.audio_through@[k]).1 == b2)
                && !(exists|x: int|
                0 <= x < task.extra_audio_out@.len() && (#[trigger] task.extra_audio_out@[x])
                    == b2) ==> #[trigger] final(pool).buf_spec(b2) == old(pool).buf_spec(b2),
        forall|b2: int|
            0 <= b2 < old(pool).num_buffers_spec() && !(exists|k: int|
                0 <= k < task.audio_through@.len() && (#[trigger] task.audio_through@[k]).1 == b2)
                && !(exists|x: int|
                0 <= x < task.extra_audio_out@.len() && (#[trigger] task.extra_audio_out@[x])
                    == b2) ==> #[trigger] final(pool).constant_spec(b2) == old(pool).constant_spec(
                b2,
            ),
        // event outputs are emptied
        final(event_pool)@.len() == old(event_pool)@.len(),
        (task.automation_out_buffer matches Some(b) ==> final(event_pool)@[
            b as int
        ].view_spec().len() == 0),
        forall|x: int|
            0 <= x < task.note_out_buffers@.len() ==> final(event_pool)@[(
            #[trigger] task.note_out_buffers@[x]) as int].view_spec().len() == 0,
{
    let n = task.audio_through.len();
    let mut k: usize = 0;
    while k < n
        invariant
            n == task.audio_through@.len(),
            k <= n,
            pool.num_buffers_spec() == old(pool).num_buffers_spec(),
            pool_shape_eq(*old(pool), *pool),
            forall|k2: int|
                0 <= k2 < n ==> (#[trigger] task.audio_through@[k2]).0 < pool.num_buffers_spec()
                    && task.audio_through@[k2].1 < pool.num_buffers_spec()
                    && task.audio_through@[k2].0 != task.audio_through@[k2].1,
            forall|k1: int, k2: int|
                0 <= k1 < n && 0 <= k2 < n && k1 != k2 ==> (#[trigger] task.audio_through@[k1]).1
                    != (#[trigger] task.audio_through@[k2]).1,
            forall|k1: int, k2: int|
                0 <= k1 < n && 0 <= k2 < n ==> (#[trigger] task.audio_through@[k1]).0 != (
                #[trigger] task.audio_through@[k2]).1,
            forall|k2: int|
                0 <= k2 < n ==> frames <= pool.buf_spec(
                    (#[trigger] task.audio_through@[k2]).0 as int,
                ).len() && frames <= pool.buf_spec(task.audio_through@[k2].1 as int).len(),
            forall|k2: int, i: int|
                0 <= k2 < k && 0 <= i < frames ==> #[trigger] pool.buf_spec(
                    task.audio_through@[k2].1 as int,
                )[i] == old(pool).buf_spec(task.audio_through@[k2].0 as int)[i],
            forall|k2: int|
                0 <= k2 < k ==> pool.constant_spec((#[trigger] task.audio_through@[k2]).1 as int)
                    == old(pool).constant_spec(task.audio_through@[k2].0 as int),
            forall|b2: int|
                0 <= b2 < old(pool).num_buffers_spec() && !(exists|k2: int|
                    0 <= k2 < k && (#[trigger] task.audio_through@[k2]).1 == b2) ==> #[trigger] pool
                    .buf_spec(b2) == old(pool).buf_spec(b2),
            forall|b2: int|
                0 <= b2 < old(pool).num_buffers_spec() && !(exists|k2: int|
                    0 <= k2 < k && (#[trigger] task.audio_through@[k2]).1 == b2)
                    ==> #[trigger] pool.constant_spec(b2) == old(pool).constant_spec(b2),
        decreases n - k,
    {
        let (src, dst) = task.audio_through[k];
        proof {
            assert(pool.buf_spec(src as int) == old(pool).buf_spec(src as int));
            assert(pool.constant_spec(src as int) == old(pool).constant_spec(src as int));
        }
        pool.copy_buffer(src, dst, frames);
        proof {
            assert(src == task.audio_through@[k as int].0);
            assert(dst == task.audio_through@[k as int].1);
            assert(forall|k1: int, k2: int|
                0 <= k1 < n && 0 <= k2 < n && k1 != k2 ==> (#[trigger] task.audio_through@[k1]).1
                    != (#[trigger] task.audio_through@[k2]).1);
            assert(k < n);
            assert forall|k2: int| 0 <= k2 < k implies (#[trigger] task.audio_through@[k2]).1
                != dst && task.audio_through@[k2].0 != dst by {
                assert(task.audio_through@[k2].1 != task.audio_through@[k as int].1);
                assert(task.audio_through@[k2].0 != task.audio_through@[k as int].1);
            }
            assert forall|k2: int, i: int|
                0 <= k2 < k + 1 && 0 <= i < frames implies #[trigger] pool.buf_spec(
                task.audio_through@[k2].1 as int,
            )[i] == old(pool).buf_spec(task.audio_through@[k2].0 as int)[i] by {
                if k2 < k {
                    assert(task.audio_through@[k2].1 != dst);
                }
            }
            assert forall|k2: int|
                0 <= k2 < k + 1 implies pool.constant_spec(
                (#[trigger] task.audio_through@[k2]).1 as int,
            ) == old(pool).constant_spec(task.audio_through@[k2].0 as int) by {
                if k2 < k {
                    assert(task.audio_through@[k2].1 != dst);
                    assert(pool.buf_spec(task.audio_through@[k2].1 as int) == pool.buf_spec(
                        task.audio_through@[k2].1 as int,
                    ));
                }
            }
            assert forall|b2: int|
                0 <= b2 < old(pool).num_buffers_spec() && !(exists|k2: int|
                    0 <= k2 < k + 1 && (#[trigger] task.audio_through@[k2]).1 == b2) implies
                #[trigger] pool.buf_spec(b2) == old(pool).buf_spec(b2) by {
                assert(b2 != dst);
            }
            assert forall|b2: int|
                0 <= b2 < old(pool).num_buffers_spec() && !(exists|k2: int|
                    0 <= k2 < k + 1 && (#[trigger] task.audio_through@[k2]).1 == b2) implies
                #[trigger] pool.constant_spec(b2) == old(pool).constant_spec(b2) by {
                assert(b2 != dst);
                assert(pool.buf_spec(b2) == old(pool).buf_spec(b2));
            }
        }
        k = k + 1;
    }

    let xn = task.extra_audio_out.len();
    let mut x: usize = 0;
    while x < xn
        invariant
            n == task.audio_through@.len(),
            xn == task.extra_audio_out@.len(),
            x <= xn,
            pool.num_buffers_spec() == old(pool).num_buffers_spec(),
            pool_shape_eq(*old(pool), *pool),
            forall|k2: int|
                0 <= k2 < n ==> (#[trigger] task.audio_through@[k2]).0 < pool.num_buffers_spec()
                    && task.audio_through@[k2].1 < pool.num_buffers_spec(),
            forall|x2: int|
                0 <= x2 < xn ==> (#[trigger] task.extra_audio_out@[x2])
                    < pool.num_buffers_spec(),
            forall|x2: int|
                0 <= x2 < xn ==> frames <= pool.buf_spec(
                    (#[trigger] task.extra_audio_out@[x2]) as int,
                ).len(),
            forall|k2: int, x2: int|
                0 <= k2 < n && 0 <= x2 < xn ==> (#[trigger] task.audio_through@[k2]).0 != (
                #[trigger] task.extra_audio_out@[x2]) && task.audio_through@[k2].1
                    != task.extra_audio_out@[x2],
            forall|x1: int, x2: int|
                0 <= x1 < x2 < xn ==> (#[trigger] task.extra_audio_out@[x1]) != (
                #[trigger] task.extra_audio_out@[x2]),
            forall|k2: int, i: int|
                0 <= k2 < n && 0 <= i < frames ==> #[trigger] pool.buf_spec(
                    task.audio_through@[k2].1 as int,
                )[i] == old(pool).buf_spec(task.audio_through@[k2].0 as int)[i],
            forall|k2: int|
                0 <= k2 < n ==> pool.constant_spec((#[trigger] task.audio_through@[k2]).1 as int)
                    == old(pool).constant_spec(task.audio_through@[k2].0 as int),
            forall|x2: int, i: int|
                0 <= x2 < x && 0 <= i < frames ==> #[trigger] pool.buf_spec(
                    task.extra_audio_out@[x2] as int,
                )[i] == S::zero_spec(),
            forall|b2: int|
                0 <= b2 < old(pool).num_buffers_spec() && !(exists|k2: int|
                    0 <= k2 < n && (#[trigger] task.audio_through@[k2]).1 == b2) && !(exists|
                    x2: int,
                |
                    0 <= x2 < x && (#[trigger] task.extra_audio_out@[x2]) == b2) ==> #[trigger] pool
                    .buf_spec(b2) == old(pool).buf_spec(b2),
            forall|b2: int|
                0 <= b2 < old(pool).num_buffers_spec() && !(exists|k2: int|
                    0 <= k2 < n && (#[trigger] task.audio_through@[k2]).1 == b2) && !(exists|
                    x2: int,
                |
                    0 <= x2 < x && (#[trigger] task.extra_audio_out@[x2]) == b2)
                    ==> #[trigger] pool.constant_spec(b2) == old(pool).constant_spec(b2),
        decreases xn - x,
    {
        let b = task.extra_audio_out[x];
        let ghost pool_pre = *pool;
        pool.clear_buffer(b, frames);
        proof {
            assert(b == task.extra_audio_out@[x as int]);
            assert forall|k2: int| 0 <= k2 < n implies (#[trigger] task.audio_through@[k2]).1 != b
                && task.audio_through@[k2].0 != b by {
                assert(task.audio_through@[k2].1 != task.extra_audio_out@[x as int]);
                assert(task.audio_through@[k2].0 != task.extra_audio_out@[x as int]);
            }
            assert forall|x2: int| 0 <= x2 < x implies (#[trigger] task.extra_audio_out@[x2])
                != b by {
                assert(task.extra_audio_out@[x2] != task.extra_audio_out@[x as int]);
            }
            assert forall|k2: int, i: int|
                0 <= k2 < n && 0 <= i < frames implies #[trigger] pool.buf_spec(
                task.audio_through@[k2].1 as int,
            )[i] == old(pool).buf_spec(task.audio_through@[k2].0 as int)[i] by {
                assert(task.audio_through@[k2].1 != b);
                assert(pool.buf_spec(task.audio_through@[k2].1 as int) == pool_pre.buf_spec(
                    task.audio_through@[k2].1 as int,
                ));
                assert(pool_pre.buf_spec(task.audio_through@[k2].1 as int)[i] == old(
                    pool,
                ).buf_spec(task.audio_through@[k2].0 as int)[i]);
            }
            assert forall|k2: int|
                0 <= k2 < n implies pool.constant_spec(
                (#[trigger] task.audio_through@[k2]).1 as int,
            ) == old(pool).constant_spec(task.audio_through@[k2].0 as int) by {
                assert(task.audio_through@[k2].1 != b);
                assert(pool.buf_spec(task.audio_through@[k2].1 as int) == pool_pre.buf_spec(
                    task.audio_through@[k2].1 as int,
                ));
                assert(pool_pre.constant_spec(task.audio_through@[k2].1 as int) == old(
                    pool,
                ).constant_spec(task.audio_through@[k2].0 as int));
            }
            assert forall|x2: int, i: int|
                0 <= x2 < x + 1 && 0 <= i < frames implies #[trigger] pool.buf_spec(
                task.extra_audio_out@[x2] as int,
            )[i] == S::zero_spec() by {
                if x2 < x {
                    assert(task.extra_audio_out@[x2] != b);
                }
            }
            assert forall|b2: int|
                0 <= b2 < old(pool).num_buffers_spec() && !(exists|k2: int|
                    0 <= k2 < n && (#[trigger] task.audio_through@[k2]).1 == b2) && !(exists|
                    x2: int,
                |
                    0 <= x2 < x + 1 && (#[trigger] task.extra_audio_out@[x2]) == b2) implies
                #[trigger] pool.buf_spec(b2) == old(pool).buf_spec(b2) by {
                assert(b2 != b);
            }
            assert forall|b2: int|
                0 <= b2 < old(pool).num_buffers_spec() && !(exists|k2: int|
                    0 <= k2 < n && (#[trigger] task.audio_through@[k2]).1 == b2) && !(exists|
                    x2: int,
                |
                    0 <= x2 < x + 1 && (#[trigger] task.extra_audio_out@[x2]) == b2) implies
                #[trigger] pool.constant_spec(b2) == old(pool).constant_spec(b2) by {
                assert(b2 != b);
                assert(pool.buf_spec(b2) == old(pool).buf_spec(b2));
            }
        }
        x = x + 1;
    }

    let ghost pool_done = *pool;
    if let Some(b) = task.automation_out_buffer {
        clear_event_buffer(event_pool, b);
    }
    let en = task.note_out_buffers.len();
    let mut e: usize = 0;
    while e < en
        invariant
            *pool == pool_done,
            en == task.note_out_buffers@.len(),
            e <= en,
            event_pool@.len() == old(event_pool)@.len(),
            forall|e2: int|
                0 <= e2 < en ==> (#[trigger] task.note_out_buffers@[e2]) < event_pool@.len(),
            (task.automation_out_buffer matches Some(b) ==> b < event_pool@.len()
                && event_pool@[b as int].view_spec().len() == 0),
            forall|e2: int|
                0 <= e2 < e ==> event_pool@[(#[trigger] task.note_out_buffers@[e2]) as int]
                    .view_spec().len() == 0,
        decreases en - e,
    {
        let b = task.note_out_buffers[e];
        clear_event_buffer(event_pool, b);
        e = e + 1;
    }
}

/// Empties one event buffer of the schedule's event pool.
fn clear_event_buffer(event_pool: &mut Vec<ProcEventQueue>, b: usize)
    requires
        b < old(event_pool)@.len(),
    ensures
        final(event_pool)@.len() == old(event_pool)@.len(),
        final(event_pool)@[b as int].view_spec().len() == 0,
        final(event_pool)@[b as int].capacity_spec() == old(event_pool)@[
            b as int
        ].capacity_spec(),
        forall|i: int|
            0 <= i < old(event_pool)@.len() && i != b ==> final(event_pool)@[i] == #[trigger] old(event_pool)@[i],
{
    event_pool[b].clear();
}


/// The matched input/output buffer pairs of a pass-through task; empty
/// for every other task kind.
pub open spec fn deactivated_through(t: Task) -> Seq<(usize, usize)> {
    match t {
        Task::DeactivatedPlugin(dp) => dp.audio_through@,
        _ => Seq::empty(),
    }
}

/// Whether no task of the schedule writes audio buffer `b` — true of the
/// schedule's device-input buffers, which only the application fills.
pub open spec fn buffer_unwritten(tasks: Seq<Task>, b: usize) -> bool {
    forall|t: int| 0 <= t < tasks.len() ==> !crate::compiler::task_writes_audio(
        #[trigger] tasks[t],
        b,
    )
}

proof fn lemma_through_is_write(tk: Task, k: int)
    requires
        0 <= k < deactivated_through(tk).len(),
    ensures
        crate::compiler::task_writes_audio(tk, deactivated_through(tk)[k].1),
{
    match tk {
        Task::DeactivatedPlugin(dp) => {
            assert(dp.audio_through@[k].1 == deactivated_through(tk)[k].1);
        },
        _ => {},
    }
}

/// The node slot a task runs a plugin in, if it is a plugin task.
pub open spec fn task_plugin_slot(t: Task) -> Option<usize> {
    match t {
        Task::Plugin(p) => Some(p.plugin_slot),
        _ => None,
    }
}

/// Runs one block of a compiled schedule, task by task in schedule order.
/// The copy, delay and summation tasks follow their exact contracts; each
/// plugin task runs its instance's audio-thread host once.  The pools keep
/// their shapes, every delay line keeps its configured delay, and every
/// lifecycle transition taken follows the state table.
#[verifier::rlimit(60)]
pub fn run_schedule<S: Sample, P: PluginAudioThread<S>>(
    schedule: &Schedule,
    pool: &mut BufferPool<S>,
    event_pool: &mut Vec<ProcEventQueue>,
    delay_lines: &mut Vec<DelayLine<S>>,
    plugins: &mut Vec<Option<PluginInstanceHostAudioThread<S, P>>>,
    shared_states: &mut Vec<SharedPluginState>,
    proc_info: &ProcInfo,
)
    requires
        old(plugins)@.len() == old(shared_states)@.len(),
        crate::compiler::schedule_valid(*schedule, old(plugins)@.len() as int),
        schedule.num_buffers <= old(pool).num_buffers_spec(),
        old(pool).wf(schedule.max_frames as int),
        1 <= proc_info.frames <= schedule.max_frames,
        schedule.num_event_buffers <= old(event_pool)@.len(),
        schedule.delays@.len() <= old(delay_lines)@.len(),
        forall|d: int|
            0 <= d < schedule.delays@.len() ==> (#[trigger] old(delay_lines)@[d]).pending_spec().len()
                == schedule.delays@[d],
        // one plugin task per slot, each with a live, well-formed instance
        // that the main thread considers active
        forall|t1: int, t2: int|
            0 <= t1 < t2 < schedule.tasks@.len() ==> !(task_plugin_slot(
                #[trigger] schedule.tasks@[t1],
            ) is Some && task_plugin_slot(schedule.tasks@[t1]) == task_plugin_slot(
                #[trigger] schedule.tasks@[t2],
            )),
        forall|t: int|
            0 <= t < schedule.tasks@.len() && task_plugin_slot(#[trigger] schedule.tasks@[t])
                is Some ==> {
                let s = task_plugin_slot(schedule.tasks@[t])->0 as int;
                &&& (match old(plugins)@[s] {
                    Some(h) => h.wf(),
                    None => false,
                })
                &&& (old(shared_states)@[s].state_spec() == PluginState::Active || old(
                    shared_states,
                )@[s].state_spec() == PluginState::WaitingToDrop)
            },
    ensures
        pool_shape_eq(*old(pool), *final(pool)),
        final(event_pool)@.len() == old(event_pool)@.len(),
        final(delay_lines)@.len() == old(delay_lines)@.len(),
        final(plugins)@.len() == old(plugins)@.len(),
        final(shared_states)@.len() == old(shared_states)@.len(),
        forall|d: int|
            0 <= d < schedule.delays@.len() ==> (#[trigger] final(delay_lines)@[d]).pending_spec().len()
                == schedule.delays@[d],
        forall|s: int|
            0 <= s < old(shared_states)@.len() ==> state_transition_allowed(
                old(shared_states)@[s].state_spec(),
                (#[trigger] final(shared_states)@[s]).state_spec(),
            ),
        // buffers no task writes keep the samples the application put in
        forall|b: int|
            0 <= b < old(pool).num_buffers_spec() && buffer_unwritten(schedule.tasks@, b as usize)
                ==> #[trigger] final(pool).buf_spec(b) == old(pool).buf_spec(b),
        // a pass-through whose input no task writes hands the block
        // through unchanged: with only the endpoint wiring, device input
        // reaches the device output sample for sample
        forall|t: int, k: int, i: int|
            0 <= t < schedule.tasks@.len() && 0 <= k < deactivated_through(
                schedule.tasks@[t],
            ).len() && 0 <= i < proc_info.frames && buffer_unwritten(
                schedule.tasks@,
                deactivated_through(schedule.tasks@[t])[k].0,
            ) ==> #[trigger] final(pool).buf_spec(
                deactivated_through(schedule.tasks@[t])[k].1 as int,
            )[i] == final(pool).buf_spec(deactivated_through(schedule.tasks@[t])[k].0 as int)[i],
{
    let n_tasks = schedule.tasks.len();
    let ghost n = plugins@.len() as int;
    let mut t: usize = 0;
    while t < n_tasks
        invariant
            n_tasks == schedule.tasks@.len(),
            t <= n_tasks,
            plugins@.len() == n,
            shared_states@.len() == n,
            crate::compiler::schedule_valid(*schedule, n),
            schedule.num_buffers <= pool.num_buffers_spec(),
            pool_shape_eq(*old(pool), *pool),
            pool.wf(schedule.max_frames as int),
            1 <= proc_info.frames <= schedule.max_frames,
            schedule.num_event_buffers <= event_pool@.len(),
            event_pool@.len() == old(event_pool)@.len(),
            delay_lines@.len() == old(delay_lines)@.len(),
            schedule.delays@.len() <= delay_lines@.len(),
            forall|d: int|
                0 <= d < schedule.delays@.len() ==> (#[trigger] delay_lines@[d]).pending_spec().len()
                    == schedule.delays@[d],
            forall|t1: int, t2: int|
                0 <= t1 < t2 < schedule.tasks@.len() ==> !(task_plugin_slot(
                    #[trigger] schedule.tasks@[t1],
                ) is Some && task_plugin_slot(schedule.tasks@[t1]) == task_plugin_slot(
                    #[trigger] schedule.tasks@[t2],
                )),
            forall|t2: int|
                0 <= t2 < schedule.tasks@.len() && task_plugin_slot(#[trigger] schedule.tasks@[t2])
                    is Some ==> {
                    let s = task_plugin_slot(schedule.tasks@[t2])->0 as int;
                    &&& (match plugins@[s] {
                        Some(h) => h.wf(),
                        None => false,
                    })
                    &&& (t2 >= t ==> shared_states@[s] == old(shared_states)@[s])
                },
            forall|t2: int|
                0 <= t2 < schedule.tasks@.len() && task_plugin_slot(#[trigger] schedule.tasks@[t2])
                    is Some ==> {
                    let s = task_plugin_slot(schedule.tasks@[t2])->0 as int;
                    old(shared_states)@[s].state_spec() == PluginState::Active || old(
                        shared_states,
                    )@[s].state_spec() == PluginState::WaitingToDrop
                },
            forall|s: int|
                0 <= s < n ==> state_transition_allowed(
                    old(shared_states)@[s].state_spec(),
                    (#[trigger] shared_states@[s]).state_spec(),
                ),
            forall|b: int|
                0 <= b < old(pool).num_buffers_spec() && buffer_unwritten(
                    schedule.tasks@,
                    b as usize,
                ) ==> #[trigger] pool.buf_spec(b) == old(pool).buf_spec(b),
            forall|t2: int, k: int, i: int|
                0 <= t2 < t && 0 <= k < deactivated_through(schedule.tasks@[t2]).len() && 0 <= i
                    < proc_info.frames && buffer_unwritten(
                    schedule.tasks@,
                    deactivated_through(schedule.tasks@[t2])[k].0,
                ) ==> #[trigger] pool.buf_spec(
                    deactivated_through(schedule.tasks@[t2])[k].1 as int,
                )[i] == old(pool).buf_spec(deactivated_through(schedule.tasks@[t2])[k].0 as int)[i],
        decreases n_tasks - t,
    {
        let task_ref = &schedule.tasks[t];
        proof {
            assert(task_valid(
                schedule.tasks@[t as int],
                schedule.num_buffers as int,
                schedule.num_event_buffers as int,
                n,
                schedule.delays@.len() as int,
            ));
        }
        match task_ref {
            Task::Plugin(p) => {
                let slot = p.plugin_slot;
                proof {
                    assert(task_plugin_slot(schedule.tasks@[t as int]) == Some(p.plugin_slot));
                }
                let ghost states_before = shared_states@;
                let ghost plugins_before = plugins@;
                let ghost pool_pre = *pool;
                proof {
                    assert(task_plugin_slot(schedule.tasks@[t as int]) is Some);
                    assert(shared_states@[slot as int] == old(shared_states)@[slot as int]);
                    assert(old(shared_states)@[slot as int].state_spec() == PluginState::Active
                        || old(shared_states)@[slot as int].state_spec()
                        == PluginState::WaitingToDrop);
                }
                let shared = &mut shared_states[slot];
                match &mut plugins[slot] {
                    Some(host) => {
                        proof {
                            assert forall|i: int|
                                0 <= i < p.audio_in@.len() implies proc_info.frames
                                <= pool.buf_spec((#[trigger] p.audio_in@[i]) as int).len() by {
                                assert(pool.buf_spec(p.audio_in@[i] as int).len()
                                    == schedule.max_frames);
                            }
                            assert forall|i: int|
                                0 <= i < p.audio_out@.len() implies proc_info.frames
                                <= pool.buf_spec((#[trigger] p.audio_out@[i]) as int).len() by {
                                assert(pool.buf_spec(p.audio_out@[i] as int).len()
                                    == schedule.max_frames);
                            }
                        }
                        host.process(proc_info, pool, event_pool, p, shared);
                    },
                    None => {},
                }
                proof {
                    assert forall|b: int|
                        0 <= b < old(pool).num_buffers_spec() && buffer_unwritten(
                            schedule.tasks@,
                            b as usize,
                        ) implies #[trigger] pool.buf_spec(b) == old(pool).buf_spec(b) by {
                        assert(!crate::compiler::task_writes_audio(
                            schedule.tasks@[t as int],
                            b as usize,
                        ));
                        assert(!p.audio_out@.contains(b as usize));
                        assert(pool.buf_spec(b) == pool_pre.buf_spec(b));
                        assert(pool_pre.buf_spec(b) == old(pool).buf_spec(b));
                    }
                    assert forall|t2: int, k: int, i: int|
                        0 <= t2 < t + 1 && 0 <= k < deactivated_through(
                            schedule.tasks@[t2],
                        ).len() && 0 <= i < proc_info.frames && buffer_unwritten(
                            schedule.tasks@,
                            deactivated_through(schedule.tasks@[t2])[k].0,
                        ) implies #[trigger] pool.buf_spec(
                        deactivated_through(schedule.tasks@[t2])[k].1 as int,
                    )[i] == old(pool).buf_spec(
                        deactivated_through(schedule.tasks@[t2])[k].0 as int,
                    )[i] by {
                        let out_b = deactivated_through(schedule.tasks@[t2])[k].1;
                        if t2 < t {
                            lemma_through_is_write(schedule.tasks@[t2], k);
                            assert(!crate::compiler::task_writes_audio(
                                schedule.tasks@[t as int],
                                out_b,
                            ));
                            let b = out_b as int;
                        assert(!p.audio_out@.contains(b as usize));
                        assert(pool.buf_spec(b) == pool_pre.buf_spec(b));
                            assert(pool_pre.buf_spec(out_b as int)[i] == old(pool).buf_spec(
                                deactivated_through(schedule.tasks@[t2])[k].0 as int,
                            )[i]);
                        }
                    }
                }
                proof {
                    crate::buffer::lemma_pool_shape_trans(*old(pool), pool_pre, *pool);
                    crate::buffer::lemma_pool_shape_wf(
                        pool_pre,
                        *pool,
                        schedule.max_frames as int,
                    );
                    assert forall|t2: int|
                        0 <= t2 < schedule.tasks@.len() && task_plugin_slot(
                            #[trigger] schedule.tasks@[t2],
                        ) is Some implies {
                        let s = task_plugin_slot(schedule.tasks@[t2])->0 as int;
                        &&& (match plugins@[s] {
                            Some(h) => h.wf(),
                            None => false,
                        })
                        &&& (t2 >= t + 1 ==> shared_states@[s] == old(shared_states)@[s])
                    } by {
                        let s = task_plugin_slot(schedule.tasks@[t2])->0 as int;
                        if t2 != t {
                            assert(task_plugin_slot(schedule.tasks@[t2]) != task_plugin_slot(
                                schedule.tasks@[t as int],
                            ));
                            assert(s != slot as int);
                            assert(plugins@[s] == plugins_before[s]);
                            assert(shared_states@[s] == states_before[s]);
                        }
                    }
                }
            },
            Task::DelayComp(d) => {
                let ghost pool_pre = *pool;
                let line = &mut delay_lines[d.delay_slot];
                proof {
                    assert(pool.buf_spec(d.audio_in as int).len() == schedule.max_frames);
                    assert(pool.buf_spec(d.audio_out as int).len() == schedule.max_frames);
                }
                process_delay_comp(d, line, pool, proc_info.frames);
                proof {
                    assert forall|b: int|
                        0 <= b < old(pool).num_buffers_spec() && buffer_unwritten(
                            schedule.tasks@,
                            b as usize,
                        ) implies #[trigger] pool.buf_spec(b) == old(pool).buf_spec(b) by {
                        assert(!crate::compiler::task_writes_audio(
                            schedule.tasks@[t as int],
                            b as usize,
                        ));
                        assert(b != d.audio_out);
                        assert(pool.buf_spec(b) == pool_pre.buf_spec(b));
                        assert(pool_pre.buf_spec(b) == old(pool).buf_spec(b));
                    }
                    assert forall|t2: int, k: int, i: int|
                        0 <= t2 < t + 1 && 0 <= k < deactivated_through(
                            schedule.tasks@[t2],
                        ).len() && 0 <= i < proc_info.frames && buffer_unwritten(
                            schedule.tasks@,
                            deactivated_through(schedule.tasks@[t2])[k].0,
                        ) implies #[trigger] pool.buf_spec(
                        deactivated_through(schedule.tasks@[t2])[k].1 as int,
                    )[i] == old(pool).buf_spec(
                        deactivated_through(schedule.tasks@[t2])[k].0 as int,
                    )[i] by {
                        let out_b = deactivated_through(schedule.tasks@[t2])[k].1;
                        if t2 < t {
                            lemma_through_is_write(schedule.tasks@[t2], k);
                            assert(!crate::compiler::task_writes_audio(
                                schedule.tasks@[t as int],
                                out_b,
                            ));
                            let b = out_b as int;
                        assert(b != d.audio_out);
                        assert(pool.buf_spec(b) == pool_pre.buf_spec(b));
                            assert(pool_pre.buf_spec(out_b as int)[i] == old(pool).buf_spec(
                                deactivated_through(schedule.tasks@[t2])[k].0 as int,
                            )[i]);
                        }
                    }
                }
                proof {
                    crate::buffer::lemma_pool_shape_trans(*old(pool), pool_pre, *pool);
                    crate::buffer::lemma_pool_shape_wf(
                        pool_pre,
                        *pool,
                        schedule.max_frames as int,
                    );
                }
            },
            Task::Sum(sm) => {
                let ghost pool_pre = *pool;
                proof {
                    assert forall|i: int|
                        0 <= i < sm.audio_in@.len() implies proc_info.frames <= pool.buf_spec(
                        (#[trigger] sm.audio_in@[i]) as int,
                    ).len() by {
                        assert(pool.buf_spec(sm.audio_in@[i] as int).len()
                            == schedule.max_frames);
                    }
                    assert(pool.buf_spec(sm.audio_out as int).len() == schedule.max_frames);
                }
                process_sum(sm, pool, proc_info.frames);
                proof {
                    assert forall|b: int|
                        0 <= b < old(pool).num_buffers_spec() && buffer_unwritten(
                            schedule.tasks@,
                            b as usize,
                        ) implies #[trigger] pool.buf_spec(b) == old(pool).buf_spec(b) by {
                        assert(!crate::compiler::task_writes_audio(
                            schedule.tasks@[t as int],
                            b as usize,
                        ));
                        assert(b != sm.audio_out);
                        assert(pool.buf_spec(b) == pool_pre.buf_spec(b));
                        assert(pool_pre.buf_spec(b) == old(pool).buf_spec(b));
                    }
                    assert forall|t2: int, k: int, i: int|
                        0 <= t2 < t + 1 && 0 <= k < deactivated_through(
                            schedule.tasks@[t2],
                        ).len() && 0 <= i < proc_info.frames && buffer_unwritten(
                            schedule.tasks@,
                            deactivated_through(schedule.tasks@[t2])[k].0,
                        ) implies #[trigger] pool.buf_spec(
                        deactivated_through(schedule.tasks@[t2])[k].1 as int,
                    )[i] == old(pool).buf_spec(
                        deactivated_through(schedule.tasks@[t2])[k].0 as int,
                    )[i] by {
                        let out_b = deactivated_through(schedule.tasks@[t2])[k].1;
                        if t2 < t {
                            lemma_through_is_write(schedule.tasks@[t2], k);
                            assert(!crate::compiler::task_writes_audio(
                                schedule.tasks@[t as int],
                                out_b,
                            ));
                            let b = out_b as int;
                        assert(b != sm.audio_out);
                        assert(pool.buf_spec(b) == pool_pre.buf_spec(b));
                            assert(pool_pre.buf_spec(out_b as int)[i] == old(pool).buf_spec(
                                deactivated_through(schedule.tasks@[t2])[k].0 as int,
                            )[i]);
                        }
                    }
                }
                proof {
                    crate::buffer::lemma_pool_shape_trans(*old(pool), pool_pre, *pool);
                    crate::buffer::lemma_pool_shape_wf(
                        pool_pre,
                        *pool,
                        schedule.max_frames as int,
                    );
                }
            },
            Task::DeactivatedPlugin(dp) => {
                let ghost pool_pre = *pool;
                proof {
                    assert forall|k: int|
                        0 <= k < dp.audio_through@.len() implies proc_info.frames
                        <= pool.buf_spec((#[trigger] dp.audio_through@[k]).0 as int).len()
                        && proc_info.frames <= pool.buf_spec(
                        dp.audio_through@[k].1 as int,
                    ).len() by {
                        assert(pool.buf_spec(dp.audio_through@[k].0 as int).len()
                            == schedule.max_frames);
                        assert(pool.buf_spec(dp.audio_through@[k].1 as int).len()
                            == schedule.max_frames);
                    }
                    assert forall|x: int|
                        0 <= x < dp.extra_audio_out@.len() implies proc_info.frames
                        <= pool.buf_spec((#[trigger] dp.extra_audio_out@[x]) as int).len() by {
                        assert(pool.buf_spec(dp.extra_audio_out@[x] as int).len()
                            == schedule.max_frames);
                    }
                }
                process_deactivated(dp, pool, event_pool, proc_info.frames);
                proof {
                    assert forall|b: int|
                        0 <= b < old(pool).num_buffers_spec() && buffer_unwritten(
                            schedule.tasks@,
                            b as usize,
                        ) implies #[trigger] pool.buf_spec(b) == old(pool).buf_spec(b) by {
                        assert(!crate::compiler::task_writes_audio(
                            schedule.tasks@[t as int],
                            b as usize,
                        ));
                        assert(!(exists|k2: int|
                            0 <= k2 < dp.audio_through@.len() && (
                            #[trigger] dp.audio_through@[k2]).1 == b as usize));
                        assert(!dp.extra_audio_out@.contains(b as usize));
                        assert(pool.buf_spec(b) == pool_pre.buf_spec(b));
                        assert(pool_pre.buf_spec(b) == old(pool).buf_spec(b));
                    }
                    assert forall|t2: int, k: int, i: int|
                        0 <= t2 < t + 1 && 0 <= k < deactivated_through(
                            schedule.tasks@[t2],
                        ).len() && 0 <= i < proc_info.frames && buffer_unwritten(
                            schedule.tasks@,
                            deactivated_through(schedule.tasks@[t2])[k].0,
                        ) implies #[trigger] pool.buf_spec(
                        deactivated_through(schedule.tasks@[t2])[k].1 as int,
                    )[i] == old(pool).buf_spec(
                        deactivated_through(schedule.tasks@[t2])[k].0 as int,
                    )[i] by {
                        let out_b = deactivated_through(schedule.tasks@[t2])[k].1;
                        if t2 == t {
                            assert(schedule.tasks@[t2] == schedule.tasks@[t as int]);
                            assert(deactivated_through(schedule.tasks@[t2]) == dp.audio_through@);
                            assert(pool.buf_spec(
                                dp.audio_through@[k].1 as int,
                            )[i] == pool_pre.buf_spec(dp.audio_through@[k].0 as int)[i]);
                            assert(pool_pre.buf_spec(dp.audio_through@[k].0 as int) == old(
                                pool,
                            ).buf_spec(dp.audio_through@[k].0 as int));
                        }
                        if t2 < t {
                            lemma_through_is_write(schedule.tasks@[t2], k);
                            assert(!crate::compiler::task_writes_audio(
                                schedule.tasks@[t as int],
                                out_b,
                            ));
                            let b = out_b as int;
                        assert(!(exists|k2: int|
                            0 <= k2 < dp.audio_through@.len() && (
                            #[trigger] dp.audio_through@[k2]).1 == b as usize));
                        assert(!dp.extra_audio_out@.contains(b as usize));
                        assert(pool.buf_spec(b) == pool_pre.buf_spec(b));
                            assert(pool_pre.buf_spec(out_b as int)[i] == old(pool).buf_spec(
                                deactivated_through(schedule.tasks@[t2])[k].0 as int,
                            )[i]);
                        }
                    }
                }
                proof {
                    crate::buffer::lemma_pool_shape_trans(*old(pool), pool_pre, *pool);
                    crate::buffer::lemma_pool_shape_wf(
                        pool_pre,
                        *pool,
                        schedule.max_frames as int,
                    );
                }
            },
        }
        t = t + 1;
    }
}

} // verus!
