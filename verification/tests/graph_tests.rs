//! Graph editing, connection validation, and the compiler's structural
//! guarantees: one task per instance, deterministic output, and latency
//! equalisation.

use dropseed::compiler::Task;
use dropseed::graph::AudioGraph;
use dropseed::graph::ConnectEdgeError;
use dropseed::graph::Edge;
use dropseed::graph::GRAPH_IN_NODE;
use dropseed::graph::GRAPH_OUT_NODE;
use dropseed::graph::NodeDesc;
use dropseed::graph::PluginFormat;
use dropseed::graph::PortType;

fn stereo_graph() -> AudioGraph {
    AudioGraph::new(2, 2, 48000, 1, 512, 256, 256)
}

fn plugin_desc(num_in: u16, num_out: u16, latency: u32) -> NodeDesc {
    NodeDesc {
        alive: true,
        active: true,
        latency,
        num_audio_in: num_in,
        num_audio_out: num_out,
        num_note_in_ports: 0,
        num_note_out_ports: 0,
        has_automation_out: false,
        format: PluginFormat::Internal,
        stable_hash: 0,
    }
}

fn audio_edge(src: usize, dst: usize, src_ch: u16, dst_ch: u16) -> Edge {
    Edge {
        edge_type: PortType::Audio,
        src_node: src,
        dst_node: dst,
        src_channel: src_ch,
        dst_channel: dst_ch,
    }
}

fn activate(graph: &mut AudioGraph, slot: usize, desc: NodeDesc) {
    let dropped = graph.update_node_layout(slot, desc);
    assert_eq!(dropped, 0);
}

#[test]
fn connect_edge_validates_each_error() {
    let mut g = stereo_graph();
    let p = g.add_plugin(plugin_desc(2, 2, 0));
    let slot = p.unique_id as usize;
    activate(&mut g, slot, plugin_desc(2, 2, 0));

    // Unknown endpoint.
    assert_eq!(
        g.connect_edge(audio_edge(99, GRAPH_OUT_NODE, 0, 0)),
        Err(ConnectEdgeError::UnknownEndpoint)
    );
    // Self loop.
    assert_eq!(
        g.connect_edge(audio_edge(slot, slot, 0, 0)),
        Err(ConnectEdgeError::SelfLoop)
    );
    // Channel out of range on each side.
    assert_eq!(
        g.connect_edge(audio_edge(GRAPH_IN_NODE, slot, 7, 0)),
        Err(ConnectEdgeError::SrcChannelOutOfRange)
    );
    assert_eq!(
        g.connect_edge(audio_edge(GRAPH_IN_NODE, slot, 0, 7)),
        Err(ConnectEdgeError::DstChannelOutOfRange)
    );
    // A good edge, then its duplicate.
    assert_eq!(g.connect_edge(audio_edge(GRAPH_IN_NODE, slot, 0, 0)), Ok(()));
    assert_eq!(
        g.connect_edge(audio_edge(GRAPH_IN_NODE, slot, 0, 0)),
        Err(ConnectEdgeError::DuplicateEdge)
    );
    // A cycle through a second plugin.
    let q = g.add_plugin(plugin_desc(2, 2, 0));
    let qslot = q.unique_id as usize;
    activate(&mut g, qslot, plugin_desc(2, 2, 0));
    assert_eq!(g.connect_edge(audio_edge(slot, qslot, 0, 0)), Ok(()));
    assert_eq!(
        g.connect_edge(audio_edge(qslot, slot, 0, 0)),
        Err(ConnectEdgeError::WouldCycle)
    );
}

#[test]
fn disconnect_and_remove_drop_edges() {
    let mut g = stereo_graph();
    let p = g.add_plugin(plugin_desc(2, 2, 0));
    let slot = p.unique_id as usize;
    activate(&mut g, slot, plugin_desc(2, 2, 0));
    assert_eq!(g.connect_edge(audio_edge(GRAPH_IN_NODE, slot, 0, 0)), Ok(()));
    assert_eq!(g.connect_edge(audio_edge(slot, GRAPH_OUT_NODE, 0, 0)), Ok(()));
    assert_eq!(g.edges().len(), 2);

    assert!(g.disconnect_edge(&audio_edge(GRAPH_IN_NODE, slot, 0, 0)));
    assert!(!g.disconnect_edge(&audio_edge(GRAPH_IN_NODE, slot, 0, 0)));
    assert_eq!(g.edges().len(), 1);

    assert!(g.remove_plugin(slot));
    assert_eq!(g.edges().len(), 0);
    assert!(!g.node(slot).alive);
}

#[test]
fn empty_graph_always_compiles() {
    let mut g = stereo_graph();
    let s = g.compile().expect("the endpoint-only graph must compile");
    assert_eq!(s.graph_audio_in.len(), 2);
    assert_eq!(s.graph_audio_out.len(), 2);
    assert_eq!(s.graph_latency, 0);
    assert_eq!(s.version, 1);
}

#[test]
fn compile_is_deterministic() {
    // Two compiles of the same graph produce the same task stream,
    // buffer wiring and latencies.
    let mut g = stereo_graph();
    let a = g.add_plugin(plugin_desc(2, 2, 10));
    let aslot = a.unique_id as usize;
    activate(&mut g, aslot, plugin_desc(2, 2, 10));
    let b = g.add_plugin(plugin_desc(2, 2, 25));
    let bslot = b.unique_id as usize;
    activate(&mut g, bslot, plugin_desc(2, 2, 25));
    g.connect_edge(audio_edge(GRAPH_IN_NODE, aslot, 0, 0)).unwrap();
    g.connect_edge(audio_edge(GRAPH_IN_NODE, bslot, 0, 0)).unwrap();
    g.connect_edge(audio_edge(aslot, GRAPH_OUT_NODE, 0, 0)).unwrap();
    g.connect_edge(audio_edge(bslot, GRAPH_OUT_NODE, 0, 0)).unwrap();

    let s1 = g.compile().unwrap();
    let s2 = g.compile().unwrap();
    assert_eq!(format!("{:?}", s1.tasks), format!("{:?}", s2.tasks));
    assert_eq!(s1.graph_audio_in, s2.graph_audio_in);
    assert_eq!(s1.graph_audio_out, s2.graph_audio_out);
    assert_eq!(s1.node_latencies, s2.node_latencies);
    assert_eq!(s1.edge_delays, s2.edge_delays);
    assert_eq!(s1.delays, s2.delays);
    // Only the version advances between compiles.
    assert_eq!(s1.version + 1, s2.version);
}

#[test]
fn parallel_branches_get_delay_compensation() {
    // A (latency 10) and B (latency 25) both read graph-in channel 0 and
    // are summed into graph-out channel 0: a 15-frame delay line appears
    // on the A branch, and the graph reports 25 frames of latency.
    let mut g = stereo_graph();
    let a = g.add_plugin(plugin_desc(1, 1, 10));
    let aslot = a.unique_id as usize;
    activate(&mut g, aslot, plugin_desc(1, 1, 10));
    let b = g.add_plugin(plugin_desc(1, 1, 25));
    let bslot = b.unique_id as usize;
    activate(&mut g, bslot, plugin_desc(1, 1, 25));
    g.connect_edge(audio_edge(GRAPH_IN_NODE, aslot, 0, 0)).unwrap();
    g.connect_edge(audio_edge(GRAPH_IN_NODE, bslot, 0, 0)).unwrap();
    g.connect_edge(audio_edge(aslot, GRAPH_OUT_NODE, 0, 0)).unwrap();
    g.connect_edge(audio_edge(bslot, GRAPH_OUT_NODE, 0, 0)).unwrap();

    let s = g.compile().unwrap();
    assert_eq!(s.graph_latency, 25);

    // Exactly one delay line, of exactly 15 frames, on the A branch.
    assert_eq!(s.delays, vec![15]);
    let mut delay_tasks = 0;
    for t in &s.tasks {
        if let Task::DelayComp(d) = t {
            delay_tasks += 1;
            assert_eq!(d.delay, 15);
        }
    }
    assert_eq!(delay_tasks, 1);

    // The per-edge delays equalise both paths into graph-out.
    let edges = g.edges();
    for (i, e) in edges.iter().enumerate() {
        if e.src_node == aslot && e.dst_node == GRAPH_OUT_NODE {
            assert_eq!(s.edge_delays[i], 15);
        }
        if e.src_node == bslot && e.dst_node == GRAPH_OUT_NODE {
            assert_eq!(s.edge_delays[i], 0);
        }
    }

    // Latency equality: along every audio edge, source latency plus the
    // inserted delay equals the destination's upstream latency.
    for (i, e) in edges.iter().enumerate() {
        if e.edge_type == PortType::Audio {
            let src = e.src_node;
            let dst = e.dst_node;
            let eff = if g.node(src).active { g.node(src).latency as u64 } else { 0 };
            assert_eq!(
                s.node_latencies[src] + eff + s.edge_delays[i],
                s.node_latencies[dst]
            );
        }
    }
}

#[test]
fn schedule_holds_one_task_per_instance() {
    // Every active instance gets exactly one plugin task; every inactive
    // one gets exactly one pass-through task.
    let mut g = stereo_graph();
    let active = g.add_plugin(plugin_desc(2, 2, 0));
    let active_slot = active.unique_id as usize;
    activate(&mut g, active_slot, plugin_desc(2, 2, 0));
    let inactive = g.add_plugin(NodeDesc {
        active: false,
        ..plugin_desc(2, 2, 0)
    });
    let inactive_slot = inactive.unique_id as usize;

    let s = g.compile().unwrap();
    let mut plugin_tasks = 0;
    let mut deactivated_tasks = 0;
    for t in &s.tasks {
        match t {
            Task::Plugin(p) => {
                plugin_tasks += 1;
                assert_eq!(p.plugin_slot, active_slot);
            }
            Task::DeactivatedPlugin(p) => {
                deactivated_tasks += 1;
                assert_eq!(p.plugin_slot, inactive_slot);
            }
            _ => {}
        }
    }
    assert_eq!(plugin_tasks, 1);
    assert_eq!(deactivated_tasks, 1);
}

#[test]
fn no_two_tasks_write_the_same_buffer() {
    // The compiler gives every task its own output buffers, so any two
    // tasks could run concurrently without write conflicts.
    let mut g = stereo_graph();
    let a = g.add_plugin(plugin_desc(2, 2, 3));
    let aslot = a.unique_id as usize;
    activate(&mut g, aslot, plugin_desc(2, 2, 3));
    let b = g.add_plugin(plugin_desc(2, 2, 9));
    let bslot = b.unique_id as usize;
    activate(&mut g, bslot, plugin_desc(2, 2, 9));
    g.connect_edge(audio_edge(GRAPH_IN_NODE, aslot, 0, 0)).unwrap();
    g.connect_edge(audio_edge(GRAPH_IN_NODE, bslot, 0, 0)).unwrap();
    g.connect_edge(audio_edge(aslot, GRAPH_OUT_NODE, 0, 0)).unwrap();
    g.connect_edge(audio_edge(bslot, GRAPH_OUT_NODE, 0, 0)).unwrap();
    let s = g.compile().unwrap();

    let mut writes: Vec<Vec<usize>> = Vec::new();
    for t in &s.tasks {
        let mut w = Vec::new();
        match t {
            Task::Plugin(p) => w.extend(p.audio_out.iter().copied()),
            Task::DelayComp(d) => w.push(d.audio_out),
            Task::Sum(sm) => w.push(sm.audio_out),
            Task::DeactivatedPlugin(p) => {
                w.extend(p.audio_through.iter().map(|pair| pair.1));
                w.extend(p.extra_audio_out.iter().copied());
            }
        }
        writes.push(w);
    }
    for i in 0..writes.len() {
        for j in (i + 1)..writes.len() {
            for b1 in &writes[i] {
                for b2 in &writes[j] {
                    assert_ne!(b1, b2);
                }
            }
        }
    }
}

#[test]
fn cycle_is_reported_by_compile() {
    // connect_edge refuses cycles, so build one through the layout update
    // path, which drops none of these edges.
    let mut g = stereo_graph();
    let a = g.add_plugin(plugin_desc(1, 1, 0));
    let aslot = a.unique_id as usize;
    activate(&mut g, aslot, plugin_desc(1, 1, 0));
    let b = g.add_plugin(plugin_desc(1, 1, 0));
    let bslot = b.unique_id as usize;
    activate(&mut g, bslot, plugin_desc(1, 1, 0));
    g.connect_edge(audio_edge(aslot, bslot, 0, 0)).unwrap();
    // The reverse edge would close the cycle.
    assert_eq!(
        g.connect_edge(audio_edge(bslot, aslot, 0, 0)),
        Err(ConnectEdgeError::WouldCycle)
    );
    // The graph stays compilable.
    assert!(g.compile().is_ok());
}
