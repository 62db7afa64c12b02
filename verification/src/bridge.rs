//! The audio ring bridge between the process thread and the
//! operating-system audio callback: the interleaved conversions and the
//! underrun policy, as pure functions.
//!
//! The real ring buffers, the clock and the 5 µs polling live in the
//! surrounding application; each callback it decides one cycle with
//! [`decide_output_cycle`], renders with [`render_interleaved_output`], or
//! zeroes the device buffer with [`underrun_output`].

use vstd::prelude::*;

use crate::buffer::Sample;

verus! {

/// Ring capacity per channel: at least three seconds at 192 kHz.
pub const ALLOCATED_FRAMES_PER_CHANNEL: usize = 576000;

/// The per-channel ring capacity scaled by the channel count, for up to
/// 1024 device channels.
pub fn ring_capacity(channels: u16) -> (r: usize)
    requires
        channels <= 1024,
    ensures
        r == channels * ALLOCATED_FRAMES_PER_CHANNEL,
{
    (channels as usize) * ALLOCATED_FRAMES_PER_CHANNEL
}

/// What the audio callback does with one output cycle.
#[derive(Debug, Clone, Copy, PartialEq, Eq, Structural)]
pub enum OutputCycleAction {
    /// A full engine block is ready: copy it to the device.
    CopyOut,
    /// Not ready yet, and the deadline is not reached: poll again.
    KeepWaiting,
    /// The deadline passed without a full block: declare an underrun and
    /// hand the device silence.
    Underrun,
}

/// The underrun policy of one poll step: copy out exactly when a full
/// block is available; otherwise wait until the cycle's deadline, and
/// declare an underrun when it passes.  The decision depends on this
/// cycle alone, so a block whose budget is met always succeeds no matter
/// what earlier cycles did.
pub fn decide_output_cycle(available_samples: usize, needed_samples: usize, deadline_passed: bool)
    -> (r: OutputCycleAction)
    ensures
        r == OutputCycleAction::CopyOut <==> available_samples >= needed_samples,
        r == OutputCycleAction::Underrun <==> (available_samples < needed_samples
            && deadline_passed),
        r == OutputCycleAction::KeepWaiting <==> (available_samples < needed_samples
            && !deadline_passed),
{
    if available_samples >= needed_samples {
        OutputCycleAction::CopyOut
    } else if deadline_passed {
        OutputCycleAction::Underrun
    } else {
        OutputCycleAction::KeepWaiting
    }
}

/// The sample the device gets at frame `f`, channel `ch`: the engine's
/// sample for that channel, or silence on the extra device channels.
pub open spec fn device_sample<S: Sample>(
    chunk: Seq<S>,
    engine_channels: int,
    f: int,
    ch: int,
) -> S {
    if ch < engine_channels {
        chunk[f * engine_channels + ch]
    } else {
        S::zero_spec()
    }
}

/// Converts one rendered engine block (interleaved with
/// `engine_channels`) into the device's interleaved layout: extra device
/// channels are zeroed, extra engine channels are dropped.
#[verifier::rlimit(30)]
pub fn render_interleaved_output<S: Sample>(
    chunk: &Vec<S>,
    out: &mut Vec<S>,
    engine_channels: usize,
    device_channels: usize,
    frames: usize,
)
    requires
        frames * engine_channels <= chunk@.len(),
        frames * device_channels <= old(out)@.len(),
        device_channels >= 1,
    ensures
        final(out)@.len() == old(out)@.len(),
        forall|f: int, ch: int|
            0 <= f < frames && 0 <= ch < device_channels ==> #[trigger] final(out)@[f
                * device_channels + ch] == device_sample(
                chunk@,
                engine_channels as int,
                f,
                ch,
            ),
{
    let chunk_len = chunk.len();
    let out_len = out.len();
    let mut f: usize = 0;
    let mut out_base: usize = 0;
    let mut in_base: usize = 0;
    while f < frames
        invariant
            frames * engine_channels <= chunk@.len(),
            frames * device_channels <= out@.len(),
            chunk@.len() == chunk_len,
            out@.len() <= usize::MAX,
            device_channels >= 1,
            f <= frames,
            out_base == f * device_channels,
            in_base == f * engine_channels,
            out@.len() == old(out)@.len(),
            forall|f2: int, ch: int|
                0 <= f2 < f && 0 <= ch < device_channels ==> #[trigger] out@[f2 * device_channels
                    + ch] == device_sample(chunk@, engine_channels as int, f2, ch),
        decreases frames - f,
    {
        proof {
            assert((f + 1) * device_channels <= frames * device_channels && f * device_channels
                + device_channels == (f + 1) * device_channels) by (nonlinear_arith)
                requires
                    f < frames,
                    device_channels >= 1,
            ;
            assert((f + 1) * engine_channels <= frames * engine_channels && f * engine_channels
                + engine_channels == (f + 1) * engine_channels) by (nonlinear_arith)
                requires
                    f < frames,
            ;
        }
        let mut ch: usize = 0;
        while ch < device_channels
            invariant
                frames * engine_channels <= chunk@.len(),
                frames * device_channels <= out@.len(),
                chunk@.len() == chunk_len,
                out@.len() <= usize::MAX,
                device_channels >= 1,
                f < frames,
                out_base == f * device_channels,
                in_base == f * engine_channels,
                out_base + device_channels <= frames * device_channels,
                in_base + engine_channels <= frames * engine_channels,
                ch <= device_channels,
                out@.len() == old(out)@.len(),
                forall|f2: int, ch2: int|
                    0 <= f2 < f && 0 <= ch2 < device_channels ==> #[trigger] out@[f2
                        * device_channels + ch2] == device_sample(
                        chunk@,
                        engine_channels as int,
                        f2,
                        ch2,
                    ),
                forall|ch2: int|
                    0 <= ch2 < ch ==> #[trigger] out@[f as int * device_channels + ch2]
                        == device_sample(chunk@, engine_channels as int, f as int, ch2),
            decreases device_channels - ch,
        {
            let s: S = if ch < engine_channels {
                chunk[in_base + ch]
            } else {
                S::zero()
            };
            let idx = out_base + ch;
            out[idx] = s;
            proof {
                assert forall|f2: int, ch2: int|
                    0 <= f2 < f && 0 <= ch2 < device_channels implies #[trigger] out@[f2
                    * device_channels + ch2] == device_sample(
                    chunk@,
                    engine_channels as int,
                    f2,
                    ch2,
                ) by {
                    assert(f2 * device_channels + ch2 < f as int * device_channels)
                        by (nonlinear_arith)
                        requires
                            0 <= f2 < f,
                            0 <= ch2 < device_channels,
                    ;
                }
            }
            ch = ch + 1;
        }
        out_base = out_base + device_channels;
        in_base = in_base + engine_channels;
        f = f + 1;
    }
}

/// Zeroes the whole device buffer, as the callback must on an underrun
/// (and when the engine has no output channels at all).
pub fn underrun_output<S: Sample>(out: &mut Vec<S>)
    ensures
        final(out)@.len() == old(out)@.len(),
        forall|i: int| 0 <= i < final(out)@.len() ==> (#[trigger] final(out)@[i]) == S::zero_spec(),
{
    let n = out.len();
    let mut i: usize = 0;
    while i < n
        invariant
            n == out@.len(),
            out@.len() == old(out)@.len(),
            i <= n,
            forall|j: int| 0 <= j < i ==> (#[trigger] out@[j]) == S::zero_spec(),
        decreases n - i,
    {
        let z = S::zero();
        out[i] = z;
        i = i + 1;
    }
}

/// Converts one device input block (interleaved with `device_channels`)
/// into the engine's interleaved layout: extra engine channels are
/// zeroed, extra device channels are dropped.
#[verifier::rlimit(30)]
pub fn gather_interleaved_input<S: Sample>(
    device_in: &Vec<S>,
    chunk: &mut Vec<S>,
    engine_channels: usize,
    device_channels: usize,
    frames: usize,
)
    requires
        frames * device_channels <= device_in@.len(),
        frames * engine_channels <= old(chunk)@.len(),
        engine_channels >= 1,
    ensures
        final(chunk)@.len() == old(chunk)@.len(),
        forall|f: int, ch: int|
            0 <= f < frames && 0 <= ch < engine_channels ==> #[trigger] final(chunk)@[f
                * engine_channels + ch] == device_sample(
                device_in@,
                device_channels as int,
                f,
                ch,
            ),
{
    let device_len = device_in.len();
    let chunk_len = chunk.len();
    let mut f: usize = 0;
    let mut in_base: usize = 0;
    let mut out_base: usize = 0;
    while f < frames
        invariant
            frames * device_channels <= device_in@.len(),
            frames * engine_channels <= chunk@.len(),
            device_in@.len() == device_len,
            chunk@.len() <= usize::MAX,
            engine_channels >= 1,
            f <= frames,
            in_base == f * device_channels,
            out_base == f * engine_channels,
            chunk@.len() == old(chunk)@.len(),
            forall|f2: int, ch: int|
                0 <= f2 < f && 0 <= ch < engine_channels ==> #[trigger] chunk@[f2
                    * engine_channels + ch] == device_sample(
                    device_in@,
                    device_channels as int,
                    f2,
                    ch,
                ),
        decreases frames - f,
    {
        proof {
            assert((f + 1) * engine_channels <= frames * engine_channels && f * engine_channels
                + engine_channels == (f + 1) * engine_channels) by (nonlinear_arith)
                requires
                    f < frames,
                    engine_channels >= 1,
            ;
            assert((f + 1) * device_channels <= frames * device_channels && f * device_channels
                + device_channels == (f + 1) * device_channels) by (nonlinear_arith)
                requires
                    f < frames,
            ;
        }
        let mut ch: usize = 0;
        while ch < engine_channels
            invariant
                frames * device_channels <= device_in@.len(),
                frames * engine_channels <= chunk@.len(),
                device_in@.len() == device_len,
                chunk@.len() <= usize::MAX,
                engine_channels >= 1,
                f < frames,
                in_base == f * device_channels,
                out_base == f * engine_channels,
                in_base + device_channels <= frames * device_channels,
                out_base + engine_channels <= frames * engine_channels,
                ch <= engine_channels,
                chunk@.len() == old(chunk)@.len(),
                forall|f2: int, ch2: int|
                    0 <= f2 < f && 0 <= ch2 < engine_channels ==> #[trigger] chunk@[f2
                        * engine_channels + ch2] == device_sample(
                        device_in@,
                        device_channels as int,
                        f2,
                        ch2,
                    ),
                forall|ch2: int|
                    0 <= ch2 < ch ==> #[trigger] chunk@[f as int * engine_channels + ch2]
                        == device_sample(device_in@, device_channels as int, f as int, ch2),
            decreases engine_channels - ch,
        {
            let s: S = if ch < device_channels {
                device_in[in_base + ch]
            } else {
                S::zero()
            };
            let idx = out_base + ch;
            chunk[idx] = s;
            proof {
                assert forall|f2: int, ch2: int|
                    0 <= f2 < f && 0 <= ch2 < engine_channels implies #[trigger] chunk@[f2
                    * engine_channels + ch2] == device_sample(
                    device_in@,
                    device_channels as int,
                    f2,
                    ch2,
                ) by {
                    assert(f2 * engine_channels + ch2 < f as int * engine_channels)
                        by (nonlinear_arith)
                        requires
                            0 <= f2 < f,
                            0 <= ch2 < engine_channels,
                    ;
                }
            }
            ch = ch + 1;
        }
        in_base = in_base + device_channels;
        out_base = out_base + engine_channels;
        f = f + 1;
    }
}

} // verus!
