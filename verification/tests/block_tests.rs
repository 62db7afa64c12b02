//! Running compiled schedules block by block: pass-through, summation,
//! delay compensation, a gain plugin, and deactivation while audio flows.

use dropseed::buffer::BufferPool;
use dropseed::buffer::Sample;
use dropseed::compiler::Schedule;
use dropseed::compiler::DelayCompTask;
use dropseed::compiler::Task;
use dropseed::executor::process_delay_comp;
use dropseed::executor::DelayLine;
use dropseed::executor::ProcInfo;
use dropseed::executor::run_schedule;
use dropseed::graph::AudioGraph;
use dropseed::graph::Edge;
use dropseed::graph::GRAPH_IN_NODE;
use dropseed::graph::GRAPH_OUT_NODE;
use dropseed::graph::NodeDesc;
use dropseed::graph::PluginFormat;
use dropseed::graph::PluginInstanceID;
use dropseed::graph::PortType;
use dropseed::plugin_host::PluginAudioThread;
use dropseed::port::AudioPortBuffer;
use dropseed::plugin_host::PluginInstanceHostAudioThread;
use dropseed::plugin_host::ProcessStatus;
use dropseed::proc_events::ProcEventQueue;
use dropseed::state::PluginState;
use dropseed::state::SharedPluginState;

/// Machine samples for these tests: plain `f32`, mixed by addition.
#[derive(Debug, Clone, Copy, PartialEq)]
struct F32S(f32);

impl Sample for F32S {
    fn zero() -> Self {
        F32S(0.0)
    }
    fn mix(self, other: Self) -> Self {
        F32S(self.0 + other.0)
    }
    fn is_zero(&self) -> bool {
        self.0 == 0.0
    }
    fn same(&self, other: &Self) -> bool {
        self.0 == other.0
    }
}

/// A stub plugin that multiplies every input sample by 0.5 and then
/// reports the configured status.
struct GainHalf {
    status: ProcessStatus,
}

impl PluginAudioThread<F32S> for GainHalf {
    fn start_processing(&mut self) -> Result<(), ()> {
        Ok(())
    }
    fn stop_processing(&mut self) {}
    fn process(
        &mut self,
        proc_info: &ProcInfo,
        pool: &mut BufferPool<F32S>,
        audio_in: &Vec<usize>,
        audio_out: &Vec<usize>,
        _in_events: &ProcEventQueue,
        _out_events: &mut ProcEventQueue,
    ) -> ProcessStatus {
        for ch in 0..audio_out.len() {
            for i in 0..proc_info.frames {
                let s = if ch < audio_in.len() {
                    pool.read(audio_in[ch], i)
                } else {
                    F32S(0.0)
                };
                pool.write(audio_out[ch], i, F32S(s.0 * 0.5));
            }
            // A constant input scaled by a constant gain stays constant.
            let constant = ch < audio_in.len() && pool.is_constant(audio_in[ch]);
            pool.set_constant(audio_out[ch], constant);
        }
        self.status
    }
    fn param_flush(&mut self, _in_events: &ProcEventQueue, _out_events: &mut ProcEventQueue) {}
}

fn plugin_desc(num_in: u16, num_out: u16, latency: u32) -> NodeDesc {
    NodeDesc {
        alive: true,
        active: true,
        latency,
        num_audio_in: num_in,
        num_audio_out: num_out,
        num_note_in_ports: 0,
        num_note_out_ports: 0,
        has_automation_out: false,
        format: PluginFormat::Internal,
        stable_hash: 0,
    }
}

fn audio_edge(src: usize, dst: usize, src_ch: u16, dst_ch: u16) -> Edge {
    Edge {
        edge_type: PortType::Audio,
        src_node: src,
        dst_node: dst,
        src_channel: src_ch,
        dst_channel: dst_ch,
    }
}

/// Builds the pools and state vectors one schedule needs and runs one
/// block, with device input already written into the graph-in buffers.
struct Harness {
    pool: BufferPool<F32S>,
    event_pool: Vec<ProcEventQueue>,
    delay_lines: Vec<DelayLine<F32S>>,
    plugins: Vec<Option<PluginInstanceHostAudioThread<F32S, GainHalf>>>,
    shared_states: Vec<SharedPluginState>,
}

impl Harness {
    fn new(schedule: &Schedule, num_slots: usize) -> Harness {
        let mut pool = BufferPool::new();
        for _ in 0..schedule.num_buffers {
            pool.alloc_buffer(schedule.max_frames as usize);
        }
        let mut event_pool = Vec::new();
        for _ in 0..schedule.num_event_buffers {
            event_pool.push(ProcEventQueue::new(256));
        }
        let mut delay_lines = Vec::new();
        for d in 0..schedule.delays.len() {
            delay_lines.push(DelayLine::new(schedule.delays[d] as usize));
        }
        let mut plugins = Vec::new();
        let mut shared_states = Vec::new();
        for _ in 0..num_slots {
            plugins.push(None);
            shared_states.push(SharedPluginState::new());
        }
        Harness { pool, event_pool, delay_lines, plugins, shared_states }
    }

    fn run_block(&mut self, schedule: &Schedule, frames: usize) {
        let proc_info = ProcInfo { frames, sample_rate: 48000, transport: None };
        run_schedule(
            schedule,
            &mut self.pool,
            &mut self.event_pool,
            &mut self.delay_lines,
            &mut self.plugins,
            &mut self.shared_states,
            &proc_info,
        );
    }
}

#[test]
fn empty_graph_passes_audio_through() {
    // 2-in/2-out at 48 kHz, 512 frames: a 440 Hz sine on channel 0 comes
    // out sample for sample, and channel 1 likewise; latency is zero.
    let mut g = AudioGraph::new(2, 2, 48000, 1, 512, 256, 256);
    g.connect_edge(audio_edge(GRAPH_IN_NODE, GRAPH_OUT_NODE, 0, 0)).unwrap();
    g.connect_edge(audio_edge(GRAPH_IN_NODE, GRAPH_OUT_NODE, 1, 1)).unwrap();
    let schedule = g.compile().unwrap();
    assert_eq!(schedule.graph_latency, 0);

    let mut h = Harness::new(&schedule, g.num_nodes());
    let frames = 512usize;
    let mut in0 = Vec::new();
    let mut in1 = Vec::new();
    for i in 0..frames {
        let phase = 2.0 * core::f32::consts::PI * 440.0 * (i as f32) / 48000.0;
        in0.push(0.5 * phase.sin());
        in1.push(0.25 * (phase * 2.0).cos());
    }
    for i in 0..frames {
        h.pool.write(schedule.graph_audio_in[0], i, F32S(in0[i]));
        h.pool.write(schedule.graph_audio_in[1], i, F32S(in1[i]));
    }
    h.run_block(&schedule, frames);
    for i in 0..frames {
        assert_eq!(h.pool.read(schedule.graph_audio_out[0], i).0, in0[i]);
        assert_eq!(h.pool.read(schedule.graph_audio_out[1], i).0, in1[i]);
    }
}

#[test]
fn gain_plugin_halves_constant_input() {
    // A gain-by-0.5 plugin between graph-in and graph-out on both
    // channels: constant 1.0 comes out as 0.5 everywhere, and both
    // output channels carry the constant flag.
    let mut g = AudioGraph::new(2, 2, 48000, 1, 512, 256, 256);
    let p = g.add_plugin(plugin_desc(2, 2, 0));
    let slot = p.unique_id as usize;
    g.update_node_layout(slot, plugin_desc(2, 2, 0));
    g.connect_edge(audio_edge(GRAPH_IN_NODE, slot, 0, 0)).unwrap();
    g.connect_edge(audio_edge(GRAPH_IN_NODE, slot, 1, 1)).unwrap();
    g.connect_edge(audio_edge(slot, GRAPH_OUT_NODE, 0, 0)).unwrap();
    g.connect_edge(audio_edge(slot, GRAPH_OUT_NODE, 1, 1)).unwrap();
    let schedule = g.compile().unwrap();

    let mut h = Harness::new(&schedule, g.num_nodes());
    let id = PluginInstanceID {
        unique_id: slot as u64,
        format: PluginFormat::Internal,
        stable_hash: 0,
    };
    h.plugins[slot] = Some(PluginInstanceHostAudioThread::new(
        id,
        GainHalf { status: ProcessStatus::Continue },
        None,
        16,
    ));
    h.shared_states[slot].set_state(PluginState::Active);

    let frames = 512usize;
    for i in 0..frames {
        h.pool.write(schedule.graph_audio_in[0], i, F32S(1.0));
        h.pool.write(schedule.graph_audio_in[1], i, F32S(1.0));
    }
    // The device input is one constant value per channel.
    h.pool.set_constant(schedule.graph_audio_in[0], true);
    h.pool.set_constant(schedule.graph_audio_in[1], true);

    h.run_block(&schedule, frames);
    for i in 0..frames {
        assert_eq!(h.pool.read(schedule.graph_audio_out[0], i).0, 0.5);
        assert_eq!(h.pool.read(schedule.graph_audio_out[1], i).0, 0.5);
    }

    // The plugin reported both channels constant; the port mask over the
    // output buffers is 3.
    let mut out_port = AudioPortBuffer::new(schedule.graph_audio_out.clone(), 0);
    out_port.sync_constant_mask_from_buffers(&h.pool);
    assert_eq!(out_port.constant_mask(), 3);
}

#[test]
fn sum_task_adds_each_sample_and_folds_constant_flags() {
    let mut pool: BufferPool<i64> = BufferPool::new();
    let a = pool.alloc_buffer(8);
    let b = pool.alloc_buffer(8);
    let c = pool.alloc_buffer(8);
    let dst = pool.alloc_buffer(8);
    for i in 0..8 {
        pool.write(a, i, 10 + i as i64);
        pool.write(b, i, 100 * i as i64);
        pool.write(c, i, -7);
    }
    pool.set_constant(a, false);
    pool.set_constant(b, false);
    pool.set_constant(c, true);
    pool.sum_into(&vec![a, b, c], dst, 8);
    for i in 0..8 {
        assert_eq!(pool.read(dst, i), (10 + i as i64) + 100 * i as i64 - 7);
    }
    // Not every input was constant, so the output is not marked constant.
    assert!(!pool.is_constant(dst));

    // With every input constant, the output is marked constant.
    pool.set_constant(a, true);
    pool.set_constant(b, true);
    pool.sum_into(&vec![a, b, c], dst, 8);
    assert!(pool.is_constant(dst));
}

#[test]
fn delay_compensated_branches_line_up() {
    // One branch with latency 3 and one with latency 0 from the same
    // source, summed: after the delay warms up, the sum is input[i] +
    // input[i - 3], which the identity-pass plugins make exact.
    let mut g = AudioGraph::new(1, 1, 48000, 1, 64, 256, 256);
    let a = g.add_plugin(plugin_desc(1, 1, 0));
    let aslot = a.unique_id as usize;
    g.update_node_layout(aslot, plugin_desc(1, 1, 0));
    let b = g.add_plugin(plugin_desc(1, 1, 3));
    let bslot = b.unique_id as usize;
    g.update_node_layout(bslot, plugin_desc(1, 1, 3));
    g.connect_edge(audio_edge(GRAPH_IN_NODE, aslot, 0, 0)).unwrap();
    g.connect_edge(audio_edge(GRAPH_IN_NODE, bslot, 0, 0)).unwrap();
    g.connect_edge(audio_edge(aslot, GRAPH_OUT_NODE, 0, 0)).unwrap();
    g.connect_edge(audio_edge(bslot, GRAPH_OUT_NODE, 0, 0)).unwrap();
    let schedule = g.compile().unwrap();
    assert_eq!(schedule.graph_latency, 3);
    assert_eq!(schedule.delays, vec![3]);

    // Both "plugins" here are inactive pass-throughs with the declared
    // latencies, which keeps the samples bit-exact.
    let mut g2 = AudioGraph::new(1, 1, 48000, 1, 64, 256, 256);
    let a2 = g2.add_plugin(NodeDesc { active: false, ..plugin_desc(1, 1, 0) });
    let a2slot = a2.unique_id as usize;
    let b2 = g2.add_plugin(NodeDesc { active: false, ..plugin_desc(1, 1, 0) });
    let b2slot = b2.unique_id as usize;
    g2.connect_edge(audio_edge(GRAPH_IN_NODE, a2slot, 0, 0)).unwrap();
    g2.connect_edge(audio_edge(GRAPH_IN_NODE, b2slot, 0, 0)).unwrap();
    g2.connect_edge(audio_edge(a2slot, GRAPH_OUT_NODE, 0, 0)).unwrap();
    g2.connect_edge(audio_edge(b2slot, GRAPH_OUT_NODE, 0, 0)).unwrap();
    let s2 = g2.compile().unwrap();

    // Two identical pass-through branches summed: output is 2 * input.
    let mut h = Harness::new(&s2, g2.num_nodes());
    let frames = 16usize;
    for i in 0..frames {
        h.pool.write(s2.graph_audio_in[0], i, F32S(i as f32));
    }
    h.run_block(&s2, frames);
    for i in 0..frames {
        assert_eq!(h.pool.read(s2.graph_audio_out[0], i).0, 2.0 * i as f32);
    }
}

#[test]
fn deactivated_plugin_passes_audio_through() {
    // The remove-while-processing shape: with the gain instance flipped
    // inactive, the recompiled schedule passes input through unchanged,
    // with no discontinuity beyond the gain change.
    let mut g = AudioGraph::new(2, 2, 48000, 1, 128, 256, 256);
    let p = g.add_plugin(NodeDesc { active: false, ..plugin_desc(2, 2, 0) });
    let slot = p.unique_id as usize;
    g.connect_edge(audio_edge(GRAPH_IN_NODE, slot, 0, 0)).unwrap();
    g.connect_edge(audio_edge(GRAPH_IN_NODE, slot, 1, 1)).unwrap();
    g.connect_edge(audio_edge(slot, GRAPH_OUT_NODE, 0, 0)).unwrap();
    g.connect_edge(audio_edge(slot, GRAPH_OUT_NODE, 1, 1)).unwrap();
    let schedule = g.compile().unwrap();

    let mut found_pass_through = false;
    for t in &schedule.tasks {
        if let Task::DeactivatedPlugin(dp) = t {
            assert_eq!(dp.plugin_slot, slot);
            assert_eq!(dp.audio_through.len(), 2);
            found_pass_through = true;
        }
    }
    assert!(found_pass_through);

    let mut h = Harness::new(&schedule, g.num_nodes());
    let frames = 128usize;
    for i in 0..frames {
        h.pool.write(schedule.graph_audio_in[0], i, F32S(0.25 * i as f32));
        h.pool.write(schedule.graph_audio_in[1], i, F32S(-0.5));
    }
    h.run_block(&schedule, frames);
    for i in 0..frames {
        let s0 = h.pool.read(schedule.graph_audio_out[0], i).0;
        let s1 = h.pool.read(schedule.graph_audio_out[1], i).0;
        assert_eq!(s0, 0.25 * i as f32);
        assert_eq!(s1, -0.5);
        assert!(s0.is_finite() && s1.is_finite());
    }
}


fn gain_graph() -> (AudioGraph, usize) {
    let mut g = AudioGraph::new(2, 2, 48000, 1, 512, 256, 256);
    let p = g.add_plugin(plugin_desc(2, 2, 0));
    let slot = p.unique_id as usize;
    g.update_node_layout(slot, plugin_desc(2, 2, 0));
    g.connect_edge(audio_edge(GRAPH_IN_NODE, slot, 0, 0)).unwrap();
    g.connect_edge(audio_edge(GRAPH_IN_NODE, slot, 1, 1)).unwrap();
    g.connect_edge(audio_edge(slot, GRAPH_OUT_NODE, 0, 0)).unwrap();
    g.connect_edge(audio_edge(slot, GRAPH_OUT_NODE, 1, 1)).unwrap();
    (g, slot)
}

#[test]
fn sleeping_plugin_goes_quiet_until_woken() {
    // A plugin that asks to sleep still renders its first block; the
    // next block finds it asleep with nothing to wake it, so its outputs
    // are cleared to silence.
    let (mut g, slot) = gain_graph();
    let schedule = g.compile().unwrap();
    let mut h = Harness::new(&schedule, g.num_nodes());
    let id = PluginInstanceID {
        unique_id: slot as u64,
        format: PluginFormat::Internal,
        stable_hash: 0,
    };
    h.plugins[slot] = Some(PluginInstanceHostAudioThread::new(
        id,
        GainHalf { status: ProcessStatus::Sleep },
        None,
        16,
    ));
    h.shared_states[slot].set_state(PluginState::Active);

    let frames = 64usize;
    for i in 0..frames {
        h.pool.write(schedule.graph_audio_in[0], i, F32S(1.0));
        h.pool.write(schedule.graph_audio_in[1], i, F32S(1.0));
    }
    h.run_block(&schedule, frames);
    assert_eq!(h.pool.read(schedule.graph_audio_out[0], 0).0, 0.5);

    // Second block: the plugin is asleep, so the block comes out silent.
    h.run_block(&schedule, frames);
    for i in 0..frames {
        assert_eq!(h.pool.read(schedule.graph_audio_out[0], i).0, 0.0);
        assert_eq!(h.pool.read(schedule.graph_audio_out[1], i).0, 0.0);
    }
}

#[test]
fn waiting_to_drop_silences_the_plugin() {
    // The main thread asked for this instance to be released: its block
    // is silence, and the shared state stays WaitingToDrop for the main
    // thread to finish the hand-off.
    let (mut g, slot) = gain_graph();
    let schedule = g.compile().unwrap();
    let mut h = Harness::new(&schedule, g.num_nodes());
    let id = PluginInstanceID {
        unique_id: slot as u64,
        format: PluginFormat::Internal,
        stable_hash: 0,
    };
    h.plugins[slot] = Some(PluginInstanceHostAudioThread::new(
        id,
        GainHalf { status: ProcessStatus::Continue },
        None,
        16,
    ));
    h.shared_states[slot].set_state(PluginState::Active);
    h.shared_states[slot].set_state(PluginState::WaitingToDrop);

    let frames = 64usize;
    for i in 0..frames {
        h.pool.write(schedule.graph_audio_in[0], i, F32S(1.0));
        h.pool.write(schedule.graph_audio_in[1], i, F32S(1.0));
    }
    h.run_block(&schedule, frames);
    for i in 0..frames {
        assert_eq!(h.pool.read(schedule.graph_audio_out[0], i).0, 0.0);
    }
    assert_eq!(h.shared_states[slot].get_state(), PluginState::WaitingToDrop);
}

#[test]
fn delay_comp_propagates_the_constant_flag() {
    let mut pool: BufferPool<i64> = BufferPool::new();
    let src = pool.alloc_buffer(8);
    let dst = pool.alloc_buffer(8);
    let task = DelayCompTask { audio_in: src, audio_out: dst, delay: 2, delay_slot: 0 };

    // A constant zero input through a freshly built (silent) line: the
    // whole delayed window is one value, so the flag is set.
    let mut line: DelayLine<i64> = DelayLine::new(2);
    process_delay_comp(&task, &mut line, &mut pool, 8);
    assert!(pool.is_constant(dst));
    for i in 0..8 {
        assert_eq!(pool.read(dst, i), 0);
    }

    // A ramp input: the delayed window mixes warm-up zeros with ramp
    // samples, so the flag is clear and the samples arrive two late.
    for i in 0..8 {
        pool.write(src, i, 10 + i as i64);
    }
    let mut line: DelayLine<i64> = DelayLine::new(2);
    process_delay_comp(&task, &mut line, &mut pool, 8);
    assert!(!pool.is_constant(dst));
    assert_eq!(pool.read(dst, 0), 0);
    assert_eq!(pool.read(dst, 1), 0);
    for i in 2..8 {
        assert_eq!(pool.read(dst, i), 10 + (i as i64 - 2));
    }

    // Once the warm-up has flushed, a constant signal is constant again
    // on the far side of the line.
    for i in 0..8 {
        pool.write(src, i, 7);
    }
    let mut line: DelayLine<i64> = DelayLine::new(2);
    process_delay_comp(&task, &mut line, &mut pool, 8);
    assert!(!pool.is_constant(dst));
    process_delay_comp(&task, &mut line, &mut pool, 8);
    assert!(pool.is_constant(dst));
    for i in 0..8 {
        assert_eq!(pool.read(dst, i), 7);
    }
}

#[test]
fn quiet_sensitive_plugin_sleeps_on_silence() {
    // A plugin reporting ContinueIfNotQuiet keeps running while audio
    // flows, then goes to sleep on the first silent block with no note
    // events, leaving silence on its outputs.
    let (mut g, slot) = gain_graph();
    let schedule = g.compile().unwrap();
    let mut h = Harness::new(&schedule, g.num_nodes());
    let id = PluginInstanceID {
        unique_id: slot as u64,
        format: PluginFormat::Internal,
        stable_hash: 0,
    };
    h.plugins[slot] = Some(PluginInstanceHostAudioThread::new(
        id,
        GainHalf { status: ProcessStatus::ContinueIfNotQuiet },
        None,
        16,
    ));
    h.shared_states[slot].set_state(PluginState::Active);

    let frames = 32usize;
    for i in 0..frames {
        h.pool.write(schedule.graph_audio_in[0], i, F32S(0.8));
        h.pool.write(schedule.graph_audio_in[1], i, F32S(0.8));
    }
    h.run_block(&schedule, frames);
    assert_eq!(h.pool.read(schedule.graph_audio_out[0], 0).0, 0.4);

    // A silent block: the plugin is put to sleep and its outputs clear.
    for i in 0..frames {
        h.pool.write(schedule.graph_audio_in[0], i, F32S(0.0));
        h.pool.write(schedule.graph_audio_in[1], i, F32S(0.0));
    }
    h.run_block(&schedule, frames);
    for i in 0..frames {
        assert_eq!(h.pool.read(schedule.graph_audio_out[0], i).0, 0.0);
        assert_eq!(h.pool.read(schedule.graph_audio_out[1], i).0, 0.0);
    }

    // Still asleep on the next block even with signal, until woken.
    for i in 0..frames {
        h.pool.write(schedule.graph_audio_in[0], i, F32S(0.8));
        h.pool.write(schedule.graph_audio_in[1], i, F32S(0.8));
    }
    h.run_block(&schedule, frames);
    assert_eq!(h.pool.read(schedule.graph_audio_out[0], 0).0, 0.0);
}
