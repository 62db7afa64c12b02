//! The audio callback's underrun policy and the interleaved conversions
//! between the engine's channel layout and the device's.

use dropseed::bridge::OutputCycleAction;
use dropseed::bridge::decide_output_cycle;
use dropseed::bridge::gather_interleaved_input;
use dropseed::bridge::render_interleaved_output;
use dropseed::bridge::ring_capacity;
use dropseed::bridge::underrun_output;
use dropseed::buffer::Sample;
use dropseed::events::EventNote;
use dropseed::events::EventQueue;
use dropseed::events::NoteEventKind;
use dropseed::events::PluginEvent;

#[derive(Debug, Clone, Copy, PartialEq)]
struct F32S(f32);

impl Sample for F32S {
    fn zero() -> Self {
        F32S(0.0)
    }
    fn mix(self, other: Self) -> Self {
        F32S(self.0 + other.0)
    }
    fn is_zero(&self) -> bool {
        self.0 == 0.0
    }
    fn same(&self, other: &Self) -> bool {
        self.0 == other.0
    }
}

#[test]
fn underrun_cycle_zeroes_and_the_next_cycle_succeeds() {
    // The process thread missed its deadline: the callback hands the
    // device zeros.  The next cycle, with the block ready in time, copies
    // real audio — the underrun leaves no lasting damage.
    let needed = 8usize;
    assert_eq!(decide_output_cycle(3, needed, false), OutputCycleAction::KeepWaiting);
    assert_eq!(decide_output_cycle(3, needed, true), OutputCycleAction::Underrun);

    let mut device_out = vec![F32S(0.7); 8];
    underrun_output(&mut device_out);
    for s in &device_out {
        assert_eq!(s.0, 0.0);
    }

    assert_eq!(decide_output_cycle(8, needed, false), OutputCycleAction::CopyOut);
    assert_eq!(decide_output_cycle(9, needed, true), OutputCycleAction::CopyOut);
    let chunk = vec![F32S(0.1), F32S(0.2), F32S(0.3), F32S(0.4)];
    render_interleaved_output(&chunk, &mut device_out, 2, 2, 2);
    assert_eq!(device_out[0].0, 0.1);
    assert_eq!(device_out[1].0, 0.2);
    assert_eq!(device_out[2].0, 0.3);
    assert_eq!(device_out[3].0, 0.4);
}

#[test]
fn extra_device_channels_are_zeroed() {
    // Engine stereo to a four-channel device: channels 2 and 3 get
    // silence.
    let chunk = vec![F32S(1.0), F32S(2.0), F32S(3.0), F32S(4.0)];
    let mut out = vec![F32S(9.0); 8];
    render_interleaved_output(&chunk, &mut out, 2, 4, 2);
    assert_eq!(out[0].0, 1.0);
    assert_eq!(out[1].0, 2.0);
    assert_eq!(out[2].0, 0.0);
    assert_eq!(out[3].0, 0.0);
    assert_eq!(out[4].0, 3.0);
    assert_eq!(out[5].0, 4.0);
    assert_eq!(out[6].0, 0.0);
    assert_eq!(out[7].0, 0.0);
}

#[test]
fn extra_engine_channels_are_dropped() {
    // Engine stereo to a mono device: only channel 0 is delivered.
    let chunk = vec![F32S(1.0), F32S(2.0), F32S(3.0), F32S(4.0)];
    let mut out = vec![F32S(9.0); 2];
    render_interleaved_output(&chunk, &mut out, 2, 1, 2);
    assert_eq!(out[0].0, 1.0);
    assert_eq!(out[1].0, 3.0);
}

#[test]
fn device_input_is_gathered_with_channel_mismatch() {
    // A mono device feeding a stereo engine: channel 1 is silence.
    let device_in = vec![F32S(5.0), F32S(6.0)];
    let mut chunk = vec![F32S(9.0); 4];
    gather_interleaved_input(&device_in, &mut chunk, 2, 1, 2);
    assert_eq!(chunk[0].0, 5.0);
    assert_eq!(chunk[1].0, 0.0);
    assert_eq!(chunk[2].0, 6.0);
    assert_eq!(chunk[3].0, 0.0);
}

#[test]
fn ring_capacity_scales_with_channels() {
    assert_eq!(ring_capacity(1), 576000);
    assert_eq!(ring_capacity(2), 1152000);
}

#[test]
fn event_queue_keeps_fixed_size_records() {
    let mut q = EventQueue::new(2);
    let note = PluginEvent::Note(EventNote {
        time: 3,
        kind: NoteEventKind::On,
        port_index: 0,
        channel: 0,
        key: 60,
        note_id: -1,
        velocity_bits: (0.8f64).to_bits(),
    });
    assert!(q.push(note));
    assert!(q.push(note));
    // Pushing past the capacity still appends, but reports the overflow.
    assert!(!q.push(note));
    assert_eq!(q.len(), 3);

    // The slot hands the same event back.
    let slot = q.get(0);
    assert_eq!(slot.get(), Ok(note));
    let back = q.pop().expect("queue is not empty");
    assert_eq!(back.get(), Ok(note));
    q.clear();
    assert_eq!(q.len(), 0);
    assert!(q.pop().is_none());
}
