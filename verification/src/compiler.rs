//! The schedule compiler: from the declarative graph to a linear list of
//! tasks with channel summation, delay compensation and pass-through
//! behaviour for inactive plugins.
//!
//! Nodes are visited in a topological order with ties broken by slot
//! number (which is insertion order), so the task stream is a function of
//! the graph alone.  Every task writes only buffers allocated for it, so
//! no two tasks write the same buffer, and the schedule order is the only
//! sequencing the executor needs.

use vstd::prelude::*;

use crate::graph::AudioGraph;
use crate::graph::Edge;
use crate::graph::NodeDesc;
use crate::graph::PortType;
use crate::graph::dst_channel_count;
use crate::graph::edge_wf;
use crate::graph::GRAPH_IN_NODE;
use crate::graph::GRAPH_OUT_NODE;

verus! {

/// Runs one plugin with its buffers bound.
#[derive(Debug, Clone)]
pub struct PluginTask {
    /// The node slot of the plugin instance to run.
    pub plugin_slot: usize,
    /// One audio buffer per main input channel.
    pub audio_in: Vec<usize>,
    /// One freshly allocated audio buffer per main output channel.
    pub audio_out: Vec<usize>,
    /// The event buffers feeding the plugin's automation input.
    pub automation_in_buffers: Vec<usize>,
    /// The plugin's automation output event buffer, if it has one.
    pub automation_out_buffer: Option<usize>,
    /// Per note input port, the event buffers feeding it.
    pub note_in_buffers: Vec<Vec<usize>>,
    /// Per note output port, its freshly allocated event buffer.
    pub note_out_buffers: Vec<usize>,
}

/// Copies one audio buffer into another with a fixed delay.
#[derive(Debug, Clone)]
pub struct DelayCompTask {
    pub audio_in: usize,
    /// Freshly allocated output buffer.
    pub audio_out: usize,
    /// The delay in frames.
    pub delay: u64,
    /// Slot of the matching delay state in the schedule.
    pub delay_slot: usize,
}

/// Sums two or more audio buffers into one.
#[derive(Debug, Clone)]
pub struct SumTask {
    pub audio_in: Vec<usize>,
    /// Freshly allocated output buffer.
    pub audio_out: usize,
}

/// Stands in for a plugin that is not active: passes matched main channels
/// through, clears the extra outputs and all event outputs.
#[derive(Debug, Clone)]
pub struct DeactivatedPluginTask {
    /// The node slot of the inactive plugin instance.
    pub plugin_slot: usize,
    /// Matched (input, output) main channel pairs, copied through.
    pub audio_through: Vec<(usize, usize)>,
    /// Output channels with no matching input, cleared.
    pub extra_audio_out: Vec<usize>,
    /// The automation output event buffer, cleared.
    pub automation_out_buffer: Option<usize>,
    /// The note output event buffers, cleared.
    pub note_out_buffers: Vec<usize>,
}

/// One step of the compiled schedule.
#[derive(Debug, Clone)]
pub enum Task {
    Plugin(PluginTask),
    DelayComp(DelayCompTask),
    Sum(SumTask),
    DeactivatedPlugin(DeactivatedPluginTask),
}

/// Why a compile failed.  A failed compile leaves the graph untouched.
#[derive(Debug, Clone)]
pub enum CompileError {
    /// The connection graph contains a cycle; the slots that could not be
    /// ordered are reported.
    Cycle(Vec<u64>),
    /// A counter would not fit in the machine word.
    ResourceLimit,
}

/// The compiled schedule: an ordered task list plus the buffer wiring the
/// executor needs.  Immutable once published.
#[derive(Debug, Clone)]
pub struct Schedule {
    /// The tasks, in execution order.
    pub tasks: Vec<Task>,
    /// Per graph-in channel, the buffer the application writes device
    /// input into before running the schedule.
    pub graph_audio_in: Vec<usize>,
    /// Per graph-out channel, the buffer holding the engine output after
    /// running the schedule.
    pub graph_audio_out: Vec<usize>,
    /// How many audio buffers the schedule uses.
    pub num_buffers: usize,
    /// How many event buffers the schedule uses.
    pub num_event_buffers: usize,
    /// The delay, in frames, of each delay line slot.
    pub delays: Vec<u64>,
    /// The block size ceiling the schedule was compiled for.
    pub max_frames: u32,
    /// The schedule version, one above the previous compile.
    pub version: u64,
    /// The upstream latency of the whole graph, in frames.
    pub graph_latency: u64,
    /// Per node slot, its upstream latency (meaningful for alive slots).
    pub node_latencies: Vec<u64>,
    /// Per graph edge, the delay compensation inserted on it (audio edges;
    /// zero for other types).
    pub edge_delays: Vec<u64>,
}

/// How many `Plugin` tasks for `slot` the task list holds.
pub open spec fn count_plugin_tasks(tasks: Seq<Task>, slot: usize) -> nat
    decreases tasks.len(),
{
    if tasks.len() == 0 {
        0
    } else {
        count_plugin_tasks(tasks.drop_last(), slot) + (match tasks.last() {
            Task::Plugin(p) => if p.plugin_slot == slot {
                1nat
            } else {
                0nat
            },
            _ => 0nat,
        })
    }
}

/// How many `DeactivatedPlugin` tasks for `slot` the task list holds.
pub open spec fn count_deactivated_tasks(tasks: Seq<Task>, slot: usize) -> nat
    decreases tasks.len(),
{
    if tasks.len() == 0 {
        0
    } else {
        count_deactivated_tasks(tasks.drop_last(), slot) + (match tasks.last() {
            Task::DeactivatedPlugin(p) => if p.plugin_slot == slot {
                1nat
            } else {
                0nat
            },
            _ => 0nat,
        })
    }
}

/// Whether task `t` writes audio buffer `b`.
pub open spec fn task_writes_audio(t: Task, b: usize) -> bool {
    match t {
        Task::Plugin(p) => p.audio_out@.contains(b),
        Task::DelayComp(d) => d.audio_out == b,
        Task::Sum(sm) => sm.audio_out == b,
        Task::DeactivatedPlugin(p) => {
            ||| (exists|i: int| 0 <= i < p.audio_through@.len() && (#[trigger] p.audio_through@[i]).1 == b)
            ||| p.extra_audio_out@.contains(b)
        },
    }
}

/// Whether task `t` writes event buffer `b`.
pub open spec fn task_writes_event(t: Task, b: usize) -> bool {
    match t {
        Task::Plugin(p) => {
            ||| p.automation_out_buffer == Some(b)
            ||| p.note_out_buffers@.contains(b)
        },
        Task::DelayComp(_) => false,
        Task::Sum(_) => false,
        Task::DeactivatedPlugin(p) => {
            ||| p.automation_out_buffer == Some(b)
            ||| p.note_out_buffers@.contains(b)
        },
    }
}

/// Every buffer index a task touches is within the schedule's pools, and
/// its plugin slot is within the node table.
pub open spec fn task_valid(t: Task, num_buffers: int, num_event_buffers: int, num_nodes: int, num_delay_slots: int) -> bool {
    match t {
        Task::Plugin(p) => {
            &&& p.plugin_slot < num_nodes
            &&& forall|i: int| 0 <= i < p.audio_in@.len() ==> (#[trigger] p.audio_in@[i]) < num_buffers
            &&& forall|i: int| 0 <= i < p.audio_out@.len() ==> (#[trigger] p.audio_out@[i]) < num_buffers
            &&& forall|i: int|
                0 <= i < p.automation_in_buffers@.len() ==> (#[trigger] p.automation_in_buffers@[i]) < num_event_buffers
            &&& (p.automation_out_buffer matches Some(b) ==> b < num_event_buffers)
            &&& forall|i: int, j: int|
                0 <= i < p.note_in_buffers@.len() && 0 <= j < p.note_in_buffers@[i].len()
                    ==> (#[trigger] p.note_in_buffers@[i][j]) < num_event_buffers
            &&& forall|i: int|
                0 <= i < p.note_out_buffers@.len() ==> (#[trigger] p.note_out_buffers@[i]) < num_event_buffers
        },
        Task::DelayComp(d) => {
            &&& d.audio_in < num_buffers
            &&& d.audio_out < num_buffers
            &&& d.audio_in != d.audio_out
            &&& d.delay_slot < num_delay_slots
        },
        Task::Sum(sm) => {
            &&& sm.audio_in@.len() >= 1
            &&& forall|i: int| 0 <= i < sm.audio_in@.len() ==> (#[trigger] sm.audio_in@[i]) < num_buffers
            &&& sm.audio_out < num_buffers
            &&& forall|i: int| 0 <= i < sm.audio_in@.len() ==> (#[trigger] sm.audio_in@[i]) != sm.audio_out
        },
        Task::DeactivatedPlugin(p) => {
            &&& p.plugin_slot < num_nodes
            &&& forall|i: int|
                0 <= i < p.audio_through@.len() ==> (#[trigger] p.audio_through@[i]).0 < num_buffers
                    && p.audio_through@[i].1 < num_buffers && p.audio_through@[i].0 != p.audio_through@[i].1
            &&& forall|i: int| 0 <= i < p.extra_audio_out@.len() ==> (#[trigger] p.extra_audio_out@[i]) < num_buffers
            &&& (p.automation_out_buffer matches Some(b) ==> b < num_event_buffers)
            &&& forall|i: int|
                0 <= i < p.note_out_buffers@.len() ==> (#[trigger] p.note_out_buffers@[i]) < num_event_buffers
            // within the task, no write aliases another write or a read
            &&& forall|k1: int, k2: int|
                0 <= k1 < p.audio_through@.len() && 0 <= k2 < p.audio_through@.len() && k1 != k2
                    ==> (#[trigger] p.audio_through@[k1]).1 != (#[trigger] p.audio_through@[k2]).1
            &&& forall|k1: int, k2: int|
                0 <= k1 < p.audio_through@.len() && 0 <= k2 < p.audio_through@.len() ==> (
                #[trigger] p.audio_through@[k1]).0 != (#[trigger] p.audio_through@[k2]).1
            &&& forall|k: int, x: int|
                0 <= k < p.audio_through@.len() && 0 <= x < p.extra_audio_out@.len() ==> (
                #[trigger] p.audio_through@[k]).0 != (#[trigger] p.extra_audio_out@[x])
                    && p.audio_through@[k].1 != p.extra_audio_out@[x]
            &&& forall|x1: int, x2: int|
                0 <= x1 < x2 < p.extra_audio_out@.len() ==> (#[trigger] p.extra_audio_out@[x1])
                    != (#[trigger] p.extra_audio_out@[x2])
        },
    }
}

/// The schedule as a whole is consistent with its own pool sizes and a
/// node table of `num_nodes` slots.
pub open spec fn schedule_valid(s: Schedule, num_nodes: int) -> bool {
    &&& forall|t: int|
        0 <= t < s.tasks@.len() ==> task_valid(
            #[trigger] s.tasks@[t],
            s.num_buffers as int,
            s.num_event_buffers as int,
            num_nodes,
            s.delays@.len() as int,
        )
    &&& forall|i: int| 0 <= i < s.graph_audio_in@.len() ==> (#[trigger] s.graph_audio_in@[i]) < s.num_buffers
    &&& forall|i: int| 0 <= i < s.graph_audio_out@.len() ==> (#[trigger] s.graph_audio_out@[i]) < s.num_buffers
    &&& forall|t1: int, t2: int, b: usize|
        0 <= t1 < t2 < s.tasks@.len() ==> !(#[trigger] task_writes_audio(s.tasks@[t1], b)
            && #[trigger] task_writes_audio(s.tasks@[t2], b))
    &&& forall|t1: int, t2: int, b: usize|
        0 <= t1 < t2 < s.tasks@.len() ==> !(#[trigger] task_writes_event(s.tasks@[t1], b)
            && #[trigger] task_writes_event(s.tasks@[t2], b))
}

/// The effective latency a node contributes downstream: its own latency
/// while active, none otherwise (an inactive plugin is a pass-through).
pub open spec fn effective_latency(n: NodeDesc) -> int {
    if n.active {
        n.latency as int
    } else {
        0
    }
}

/// Everything a successful compile of graph `g` guarantees about the
/// schedule it returns.  Callers that publish a schedule carry this
/// predicate so that the executor's requirements can be discharged.
pub open spec fn compiled_for(s: Schedule, g: AudioGraph) -> bool {
    let nodes = g.nodes_spec();
    let edges = g.edges_spec();
    &&& schedule_valid(s, nodes.len() as int)
    &&& s.max_frames == g.max_frames_spec()
    &&& s.node_latencies@.len() == nodes.len()
    &&& s.edge_delays@.len() == edges.len()
    // exactly one task per instance: a plugin task while active, a
    // pass-through while not; the two endpoints run no task
    &&& forall|w: usize|
        (w as int) < nodes.len() ==> count_plugin_tasks(s.tasks@, w) == (if 2 <= w && nodes[
            w as int
        ].alive && nodes[w as int].active {
            1nat
        } else {
            0nat
        })
    &&& forall|w: usize|
        (w as int) < nodes.len() ==> count_deactivated_tasks(s.tasks@, w) == (if 2 <= w && nodes[
            w as int
        ].alive && !nodes[w as int].active {
            1nat
        } else {
            0nat
        })
    // the latency equation on every audio edge ...
    &&& forall|e: int|
        0 <= e < edges.len() && (#[trigger] edges[e]).edge_type == PortType::Audio ==> s.node_latencies@[
            edges[e].src_node as int
        ] + effective_latency(nodes[edges[e].src_node as int]) + s.edge_delays@[e]
            == s.node_latencies@[edges[e].dst_node as int]
    // ... with the zero base case and the maximum attained, which pins
    // every upstream latency as the max over incoming paths
    &&& forall|w: int|
        0 <= w < nodes.len() && (#[trigger] nodes[w]).alive && !has_audio_in_edge(edges, w)
            ==> s.node_latencies@[w] == 0
    &&& forall|w: int|
        0 <= w < nodes.len() && (#[trigger] nodes[w]).alive && has_audio_in_edge(edges, w)
            ==> exists|e: int|
            0 <= e < edges.len() && (#[trigger] edges[e]).edge_type == PortType::Audio && edges[
                e
            ].dst_node == w && s.edge_delays@[e] == 0
    &&& s.graph_latency == s.node_latencies@[GRAPH_OUT_NODE as int]
    &&& s.graph_audio_in@.len() == nodes[GRAPH_IN_NODE as int].num_audio_out
    &&& s.graph_audio_out@.len() == nodes[GRAPH_OUT_NODE as int].num_audio_in
}

proof fn lemma_count_push(tasks: Seq<Task>, t: Task)
    ensures
        forall|slot: usize|
            count_plugin_tasks(tasks.push(t), slot) == count_plugin_tasks(tasks, slot) + (
            match t {
                Task::Plugin(p) => if p.plugin_slot == slot {
                    1nat
                } else {
                    0nat
                },
                _ => 0nat,
            }),
        forall|slot: usize|
            count_deactivated_tasks(tasks.push(t), slot) == count_deactivated_tasks(tasks, slot)
                + (match t {
                Task::DeactivatedPlugin(p) => if p.plugin_slot == slot {
                    1nat
                } else {
                    0nat
                },
                _ => 0nat,
            }),
{
    assert(tasks.push(t).drop_last() =~= tasks);
    assert(tasks.push(t).last() == t);
}

impl AudioGraph {
    /// A deterministic topological order attempt over all node slots:
    /// repeatedly takes the lowest slot whose incoming edges are all
    /// satisfied.  When the edges contain a cycle the result is shorter
    /// than the node table.
    fn topo_order(&self) -> (order: Vec<usize>)
        requires
            self.wf(),
        ensures
            order@.len() <= self.nodes_spec().len(),
            forall|i: int| 0 <= i < order@.len() ==> (#[trigger] order@[i]) < self.nodes_spec().len(),
            forall|i: int, j: int| 0 <= i < j < order@.len() ==> order@[i] != order@[j],
    {
        let n = self.num_nodes();
        let edges = self.edges();
        let m = edges.len();

        let mut indegree: Vec<usize> = Vec::new();
        let mut i: usize = 0;
        while i < n
            invariant
                i <= n,
                indegree@.len() == i,
                forall|v: int| 0 <= v < i ==> (#[trigger] indegree@[v]) == 0,
            decreases n - i,
        {
            indegree.push(0);
            i = i + 1;
        }
        let mut j: usize = 0;
        while j < m
            invariant
                j <= m,
                m == self.edges_spec().len(),
                edges@ == self.edges_spec(),
                n == self.nodes_spec().len(),
                self.wf(),
                indegree@.len() == n,
                forall|v: int| 0 <= v < n ==> (#[trigger] indegree@[v]) <= j,
            decreases m - j,
        {
            let e = edges[j];
            proof {
                assert(edge_wf(self.nodes_spec(), self.edges_spec()[j as int]));
            }
            let d = indegree[e.dst_node];
            indegree[e.dst_node] = d + 1;
            j = j + 1;
        }

        let mut placed: Vec<bool> = Vec::new();
        let mut i2: usize = 0;
        while i2 < n
            invariant
                i2 <= n,
                placed@.len() == i2,
                forall|v: int| 0 <= v < i2 ==> !(#[trigger] placed@[v]),
            decreases n - i2,
        {
            placed.push(false);
            i2 = i2 + 1;
        }

        let mut order: Vec<usize> = Vec::new();
        let mut round: usize = 0;
        while round < n
            invariant
                n == self.nodes_spec().len(),
                m == self.edges_spec().len(),
                edges@ == self.edges_spec(),
                self.wf(),
                round <= n,
                placed@.len() == n,
                indegree@.len() == n,
                order@.len() <= round,
                forall|i3: int| 0 <= i3 < order@.len() ==> (#[trigger] order@[i3]) < n,
                forall|i3: int| 0 <= i3 < order@.len() ==> placed@[(#[trigger] order@[i3]) as int],
                forall|i3: int, j3: int| 0 <= i3 < j3 < order@.len() ==> order@[i3] != order@[j3],
            decreases n - round,
        {
            // Find the lowest unplaced slot with no unsatisfied incoming
            // edge.
            let mut pick: Option<usize> = None;
            let mut v: usize = 0;
            while v < n
                invariant
                    n == self.nodes_spec().len(),
                    placed@.len() == n,
                    indegree@.len() == n,
                    v <= n,
                    match pick {
                        Some(p) => p < n && !placed@[p as int],
                        None => true,
                    },
                decreases n - v,
            {
                if pick.is_none() && !placed[v] && indegree[v] == 0 {
                    pick = Some(v);
                }
                v = v + 1;
            }
            match pick {
                Some(p) => {
                    // Satisfy p's outgoing edges.
                    let mut j2: usize = 0;
                    while j2 < m
                        invariant
                            j2 <= m,
                            m == self.edges_spec().len(),
                            edges@ == self.edges_spec(),
                            n == self.nodes_spec().len(),
                            self.wf(),
                            indegree@.len() == n,
                            placed@.len() == n,
                        decreases m - j2,
                    {
                        let e = edges[j2];
                        proof {
                            assert(edge_wf(self.nodes_spec(), self.edges_spec()[j2 as int]));
                        }
                        if e.src_node == p {
                            let d = indegree[e.dst_node];
                            if d > 0 {
                                indegree[e.dst_node] = d - 1;
                            }
                        }
                        j2 = j2 + 1;
                    }
                    let ghost placed_before = placed@;
                    let ghost order_before = order@;
                    placed[p] = true;
                    order.push(p);
                    proof {
                        assert(!placed_before[p as int]);
                        assert forall|i3: int, j3: int|
                            0 <= i3 < j3 < order@.len() implies order@[i3] != order@[j3] by {
                            if j3 == order@.len() - 1 {
                                assert(order@[i3] == order_before[i3]);
                                assert(placed_before[order_before[i3] as int]);
                            }
                        }
                        assert forall|i3: int|
                            0 <= i3 < order@.len() implies placed@[(#[trigger] order@[i3]) as int] by {
                            if i3 < order@.len() - 1 {
                                assert(placed_before[order_before[i3] as int]);
                            }
                        }
                    }
                },
                None => {
                    // No progress is possible; the rest is cyclic.
                    return order;
                },
            }
            round = round + 1;
        }
        order
    }
}


/// The per-node output records and bookkeeping the compiler carries while
/// it walks the topological order.
struct CompileState {
    tasks: Vec<Task>,
    num_bufs: usize,
    num_ev: usize,
    delays: Vec<u64>,
    /// Per node slot, per main output channel, the buffer it writes.
    node_out: Vec<Vec<usize>>,
    /// Per node slot, per note output port, the event buffer it writes.
    node_note_out: Vec<Vec<usize>>,
    /// Per node slot, its automation output event buffer.
    node_auto_out: Vec<Option<usize>>,
    /// Per node slot, its upstream latency.
    up: Vec<u64>,
    processed: Vec<bool>,
    edge_delay: Vec<u64>,
    graph_out_map: Vec<usize>,
}

/// The compiler's running invariant over the graph being compiled.
spec fn st_inv(st: CompileState, g: AudioGraph) -> bool {
    let nodes = g.nodes_spec();
    let edges = g.edges_spec();
    let n = nodes.len() as int;
    &&& st.node_out@.len() == n
    &&& st.node_note_out@.len() == n
    &&& st.node_auto_out@.len() == n
    &&& st.up@.len() == n
    &&& st.processed@.len() == n
    &&& st.edge_delay@.len() == edges.len()
    // every task is valid for the current pools
    &&& forall|t: int|
        0 <= t < st.tasks@.len() ==> task_valid(
            #[trigger] st.tasks@[t],
            st.num_bufs as int,
            st.num_ev as int,
            n,
            st.delays@.len() as int,
        )
    // graph/schedule correspondence for processed slots
    &&& forall|v: usize|
        (v as int) < n ==> count_plugin_tasks(st.tasks@, v) == (
        if st.processed@[v as int] && nodes[v as int].alive && nodes[v as int].active && v != 0 && v != 1 {
            1nat
        } else {
            0nat
        })
    &&& forall|v: usize|
        (v as int) < n ==> count_deactivated_tasks(st.tasks@, v) == (
        if st.processed@[v as int] && nodes[v as int].alive && !nodes[v as int].active && v != 0 && v != 1 {
            1nat
        } else {
            0nat
        })
    // processed slots have their output tables filled
    &&& forall|v: int|
        0 <= v < n && (#[trigger] st.processed@[v]) && nodes[v].alive ==> {
            &&& st.node_out@[v].len() == nodes[v].num_audio_out
            &&& (forall|c: int|
                0 <= c < st.node_out@[v].len() ==> (#[trigger] st.node_out@[v][c]) < st.num_bufs)
            &&& st.node_note_out@[v].len() == nodes[v].num_note_out_ports
            &&& (forall|c: int|
                0 <= c < st.node_note_out@[v].len() ==> (#[trigger] st.node_note_out@[v][c])
                    < st.num_ev)
            &&& (nodes[v].has_automation_out ==> st.node_auto_out@[v] is Some)
            &&& (st.node_auto_out@[v] matches Some(b) ==> b < st.num_ev)
        }
    // delay compensation equalises latency on every consumed audio edge
    &&& forall|e: int|
        0 <= e < edges.len() && (#[trigger] edges[e]).edge_type == PortType::Audio
            && st.processed@[edges[e].dst_node as int] ==> {
            &&& st.processed@[edges[e].src_node as int]
            &&& st.up@[edges[e].src_node as int] + effective_latency(nodes[edges[e].src_node as int])
                + st.edge_delay@[e] == st.up@[edges[e].dst_node as int]
        }
    // every write goes to a buffer of this schedule, and no two tasks
    // write the same buffer
    &&& forall|t: int, b: usize|
        0 <= t < st.tasks@.len() && #[trigger] task_writes_audio(st.tasks@[t], b) ==> b < st.num_bufs
    &&& forall|t: int, b: usize|
        0 <= t < st.tasks@.len() && #[trigger] task_writes_event(st.tasks@[t], b) ==> b < st.num_ev
    &&& forall|t1: int, t2: int, b: usize|
        0 <= t1 < t2 < st.tasks@.len() ==> !(#[trigger] task_writes_audio(st.tasks@[t1], b)
            && #[trigger] task_writes_audio(st.tasks@[t2], b))
    &&& forall|t1: int, t2: int, b: usize|
        0 <= t1 < t2 < st.tasks@.len() ==> !(#[trigger] task_writes_event(st.tasks@[t1], b)
            && #[trigger] task_writes_event(st.tasks@[t2], b))
    // upstream latency is the attained maximum: a node with no incoming
    // audio edge sits at zero, and one with any has an edge carrying no
    // inserted delay
    &&& forall|v: int|
        0 <= v < n && (#[trigger] st.processed@[v]) && nodes[v].alive && !has_audio_in_edge(
            edges,
            v,
        ) ==> st.up@[v] == 0
    &&& forall|v: int|
        0 <= v < n && (#[trigger] st.processed@[v]) && nodes[v].alive && has_audio_in_edge(
            edges,
            v,
        ) ==> exists|e: int|
            0 <= e < edges.len() && (#[trigger] edges[e]).edge_type == PortType::Audio && edges[
                e
            ].dst_node == v && st.edge_delay@[e] == 0
    // the graph-out mapping is filled once slot 1 is processed
    &&& (st.processed@[GRAPH_OUT_NODE as int] ==> {
        &&& st.graph_out_map@.len() == nodes[GRAPH_OUT_NODE as int].num_audio_in
        &&& forall|c: int|
            0 <= c < st.graph_out_map@.len() ==> (#[trigger] st.graph_out_map@[c]) < st.num_bufs
    })
}


fn alloc_id(counter: &mut usize) -> (r: Result<usize, CompileError>)
    ensures
        match r {
            Ok(b) => b == *old(counter) && *final(counter) == *old(counter) + 1,
            Err(_) => *final(counter) == *old(counter),
        },
{
    if *counter == usize::MAX {
        return Err(CompileError::ResourceLimit);
    }
    let b = *counter;
    *counter = *counter + 1;
    Ok(b)
}

/// Whether some audio edge ends at node `v`.
pub open spec fn has_audio_in_edge(edges: Seq<Edge>, v: int) -> bool {
    exists|e: int|
        0 <= e < edges.len() && (#[trigger] edges[e]).edge_type == PortType::Audio && edges[
            e
        ].dst_node == v
}

/// Whether graph edge `e` is an audio edge into node `v`.
spec fn is_audio_in(g: AudioGraph, e: int, v: usize) -> bool {
    &&& g.edges_spec()[e].edge_type == PortType::Audio
    &&& g.edges_spec()[e].dst_node == v
}

/// The latency arriving over graph edge `e`: the source's upstream latency
/// plus its own effective latency.
spec fn in_lat(st: CompileState, g: AudioGraph, e: int) -> int {
    st.up@[g.edges_spec()[e].src_node as int] + effective_latency(
        g.nodes_spec()[g.edges_spec()[e].src_node as int],
    )
}

/// Emits the tasks for node `v`: delay compensation and summation for its
/// audio inputs, then its own plugin or pass-through task, and records its
/// outputs and upstream latency for the nodes downstream.
#[verifier::rlimit(60)]
fn emit_node(st: &mut CompileState, g: &AudioGraph, v: usize) -> (r: Result<(), CompileError>)
    requires
        g.wf(),
        st_inv(*old(st), *g),
        v < g.nodes_spec().len(),
        !old(st).processed@[v as int],
    ensures
        match r {
            Ok(()) => {
                &&& st_inv(*final(st), *g)
                &&& final(st).processed@ == old(st).processed@.update(v as int, true)
            },
            Err(_) => true,
        },
{
    let node = g.node(v);
    let n = g.num_nodes();
    if !node.alive {
        mark_dead_slot(st, g, v);
        return Ok(());
    }
    let edges = g.edges();
    let m = edges.len();

    // Upstream latency: the maximum arriving over the incoming audio
    // edges.  Topological order means every source is already processed;
    // an unprocessed source can only mean the edges are cyclic.
    let mut u: u64 = 0;
    let mut j: usize = 0;
    while j < m
        invariant
            g.wf(),
            st_inv(*st, *g),
            *st == *old(st),
            v < g.nodes_spec().len(),
            m == g.edges_spec().len(),
            edges@ == g.edges_spec(),
            j <= m,
            forall|e: int|
                0 <= e < j && is_audio_in(*g, e, v) ==> st.processed@[(
                #[trigger] g.edges_spec()[e]).src_node as int] && in_lat(*st, *g, e) <= u,
            (u == 0 && (forall|e: int| 0 <= e < j ==> !is_audio_in(*g, e, v))) || (exists|e: int|
                0 <= e < j && #[trigger] is_audio_in(*g, e, v) && in_lat(*st, *g, e) == u),
        decreases m - j,
    {
        let e = edges[j];
        proof {
            assert(edge_wf(g.nodes_spec(), g.edges_spec()[j as int]));
        }
        if matches!(e.edge_type, PortType::Audio) && e.dst_node == v {
            if !st.processed[e.src_node] {
                let mut cyc: Vec<u64> = Vec::new();
                cyc.push(v as u64);
                return Err(CompileError::Cycle(cyc));
            }
            let src = g.node(e.src_node);
            let eff: u64 = if src.active {
                src.latency as u64
            } else {
                0
            };
            let src_lat = st.up[e.src_node];
            if src_lat > u64::MAX - eff {
                return Err(CompileError::ResourceLimit);
            }
            let lat = src_lat + eff;
            proof {
                assert(is_audio_in(*g, j as int, v));
                assert(in_lat(*st, *g, j as int) == lat);
            }
            if lat > u {
                u = lat;
            }
        }
        j = j + 1;
    }

    proof {
        if !(exists|e: int| 0 <= e < m && #[trigger] is_audio_in(*g, e, v) && in_lat(*st, *g, e)
            == u) {
            assert(forall|e: int| 0 <= e < m ==> !is_audio_in(*g, e, v));
            assert forall|e: int|
                0 <= e < g.edges_spec().len() implies !((#[trigger] g.edges_spec()[e]).edge_type
                == PortType::Audio && g.edges_spec()[e].dst_node == v as int) by {
                assert(!is_audio_in(*g, e, v));
            }
            assert(!has_audio_in_edge(g.edges_spec(), v as int));
        }
    }

    // Resolve each audio input channel: compensate late sources, then sum
    // multiple contributors into one buffer.
    let mut in_bufs: Vec<usize> = Vec::new();
    let mut c: u16 = 0;
    while c < node.num_audio_in
        invariant
            g.wf(),
            st_inv(*st, *g),
            v < g.nodes_spec().len(),
            node == g.nodes_spec()[v as int],
            node.alive,
            !st.processed@[v as int],
            st.processed@ == old(st).processed@,
            st.up@ == old(st).up@,
            st.node_out@ == old(st).node_out@,
            st.node_note_out@ == old(st).node_note_out@,
            st.node_auto_out@ == old(st).node_auto_out@,
            st.graph_out_map@ == old(st).graph_out_map@,
            st.num_bufs >= old(st).num_bufs,
            st.num_ev == old(st).num_ev,
            m == g.edges_spec().len(),
            edges@ == g.edges_spec(),
            c <= node.num_audio_in,
            in_bufs@.len() == c,
            forall|i: int| 0 <= i < in_bufs@.len() ==> (#[trigger] in_bufs@[i]) < st.num_bufs,
            forall|e: int|
                0 <= e < m && is_audio_in(*g, e, v) ==> st.processed@[(
                #[trigger] g.edges_spec()[e]).src_node as int] && in_lat(*st, *g, e) <= u,
            (u == 0 && !has_audio_in_edge(g.edges_spec(), v as int)) || (exists|e: int|
                0 <= e < m && #[trigger] is_audio_in(*g, e, v) && in_lat(*st, *g, e) == u),
            forall|e: int|
                0 <= e < m && is_audio_in(*g, e, v) && (#[trigger] g.edges_spec()[e]).dst_channel
                    < c ==> st.edge_delay@[e] == u - in_lat(*st, *g, e),
            forall|e: int|
                0 <= e < m && !(is_audio_in(*g, e, v) && (#[trigger] g.edges_spec()[e]).dst_channel
                    < c) ==> st.edge_delay@[e] == old(st).edge_delay@[e],
        decreases node.num_audio_in - c,
    {
        let mut contributors: Vec<usize> = Vec::new();
        let mut j2: usize = 0;
        while j2 < m
            invariant
                g.wf(),
                st_inv(*st, *g),
                v < g.nodes_spec().len(),
                node == g.nodes_spec()[v as int],
                node.alive,
                !st.processed@[v as int],
                st.processed@ == old(st).processed@,
                st.up@ == old(st).up@,
                st.node_out@ == old(st).node_out@,
                st.node_note_out@ == old(st).node_note_out@,
                st.node_auto_out@ == old(st).node_auto_out@,
                st.graph_out_map@ == old(st).graph_out_map@,
                st.num_bufs >= old(st).num_bufs,
                st.num_ev == old(st).num_ev,
                m == g.edges_spec().len(),
                edges@ == g.edges_spec(),
                c < node.num_audio_in,
                j2 <= m,
                forall|i: int| 0 <= i < contributors@.len() ==> (#[trigger] contributors@[i])
                    < st.num_bufs,
                forall|i: int| 0 <= i < in_bufs@.len() ==> (#[trigger] in_bufs@[i]) < st.num_bufs,
                forall|e: int|
                    0 <= e < m && is_audio_in(*g, e, v) ==> st.processed@[(
                    #[trigger] g.edges_spec()[e]).src_node as int] && in_lat(*st, *g, e) <= u,
                (u == 0 && !has_audio_in_edge(g.edges_spec(), v as int)) || (exists|e: int|
                    0 <= e < m && #[trigger] is_audio_in(*g, e, v) && in_lat(*st, *g, e) == u),
                forall|e: int|
                    0 <= e < m && is_audio_in(*g, e, v) && ((#[trigger] g.edges_spec()[e]).dst_channel
                        < c || (g.edges_spec()[e].dst_channel == c && e < j2)) ==> st.edge_delay@[e]
                        == u - in_lat(*st, *g, e),
                forall|e: int|
                    0 <= e < m && !(is_audio_in(*g, e, v) && ((#[trigger] g.edges_spec()[e]).dst_channel
                        < c || (g.edges_spec()[e].dst_channel == c && e < j2))) ==> st.edge_delay@[e]
                        == old(st).edge_delay@[e],
            decreases m - j2,
        {
            let e = edges[j2];
            proof {
                assert(edge_wf(g.nodes_spec(), g.edges_spec()[j2 as int]));
            }
            if matches!(e.edge_type, PortType::Audio) && e.dst_node == v && e.dst_channel == c {
                if !st.processed[e.src_node] {
                    let mut cyc: Vec<u64> = Vec::new();
                    cyc.push(v as u64);
                    return Err(CompileError::Cycle(cyc));
                }
                let src = g.node(e.src_node);
                let src_buf = st.node_out[e.src_node][e.src_channel as usize];
                let eff: u64 = if src.active {
                    src.latency as u64
                } else {
                    0
                };
                let lat = st.up[e.src_node] + eff;
                let deficit = u - lat;
                let feed_buf: usize;
                if deficit > 0 {
                    let db = match alloc_id(&mut st.num_bufs) {
                        Ok(b) => b,
                        Err(err) => {
                            return Err(err);
                        },
                    };
                    st.delays.push(deficit);
                    let ghost tasks_before = st.tasks@;
                    st.tasks.push(
                        Task::DelayComp(
                            DelayCompTask {
                                audio_in: src_buf,
                                audio_out: db,
                                delay: deficit,
                                delay_slot: st.delays.len() - 1,
                            },
                        ),
                    );
                    proof {
                        lemma_count_push(tasks_before, st.tasks@.last());
                        assert forall|t: int|
                            0 <= t < st.tasks@.len() implies task_valid(
                            #[trigger] st.tasks@[t],
                            st.num_bufs as int,
                            st.num_ev as int,
                            g.nodes_spec().len() as int,
                            st.delays@.len() as int,
                        ) by {
                            if t < st.tasks@.len() - 1 {
                                assert(st.tasks@[t] == tasks_before[t]);
                            }
                        }
                        assert forall|t1: int, t2: int, b: usize|
                            0 <= t1 < t2 < st.tasks@.len() implies !(#[trigger] task_writes_audio(
                            st.tasks@[t1],
                            b,
                        ) && #[trigger] task_writes_audio(st.tasks@[t2], b)) by {
                            if t2 == st.tasks@.len() - 1 {
                                assert(st.tasks@[t1] == tasks_before[t1]);
                            } else {
                                assert(st.tasks@[t1] == tasks_before[t1]);
                                assert(st.tasks@[t2] == tasks_before[t2]);
                            }
                        }
                        assert forall|t1: int, t2: int, b: usize|
                            0 <= t1 < t2 < st.tasks@.len() implies !(#[trigger] task_writes_event(
                            st.tasks@[t1],
                            b,
                        ) && #[trigger] task_writes_event(st.tasks@[t2], b)) by {
                            if t2 == st.tasks@.len() - 1 {
                            } else {
                                assert(st.tasks@[t1] == tasks_before[t1]);
                                assert(st.tasks@[t2] == tasks_before[t2]);
                            }
                        }
                    }
                    st.edge_delay[j2] = deficit;
                    feed_buf = db;
                } else {
                    st.edge_delay[j2] = 0;
                    feed_buf = src_buf;
                }
                contributors.push(feed_buf);
            }
            j2 = j2 + 1;
        }
        let chosen: usize;
        if contributors.len() == 0 {
            // An unconnected input reads a silent buffer of its own.
            chosen = match alloc_id(&mut st.num_bufs) {
                Ok(b) => b,
                Err(err) => {
                    return Err(err);
                },
            };
        } else if contributors.len() == 1 {
            chosen = contributors[0];
        } else {
            let sb = match alloc_id(&mut st.num_bufs) {
                Ok(b) => b,
                Err(err) => {
                    return Err(err);
                },
            };
            let ghost tasks_before = st.tasks@;
            let ghost contributors_view = contributors@;
            st.tasks.push(Task::Sum(SumTask { audio_in: contributors, audio_out: sb }));
            proof {
                lemma_count_push(tasks_before, st.tasks@.last());
                assert forall|t: int|
                    0 <= t < st.tasks@.len() implies task_valid(
                    #[trigger] st.tasks@[t],
                    st.num_bufs as int,
                    st.num_ev as int,
                    g.nodes_spec().len() as int,
                    st.delays@.len() as int,
                ) by {
                    if t < st.tasks@.len() - 1 {
                        assert(st.tasks@[t] == tasks_before[t]);
                    }
                }
                assert forall|t1: int, t2: int, b: usize|
                    0 <= t1 < t2 < st.tasks@.len() implies !(#[trigger] task_writes_audio(
                    st.tasks@[t1],
                    b,
                ) && #[trigger] task_writes_audio(st.tasks@[t2], b)) by {
                    if t2 == st.tasks@.len() - 1 {
                        assert(st.tasks@[t1] == tasks_before[t1]);
                    } else {
                        assert(st.tasks@[t1] == tasks_before[t1]);
                        assert(st.tasks@[t2] == tasks_before[t2]);
                    }
                }
                assert forall|t1: int, t2: int, b: usize|
                    0 <= t1 < t2 < st.tasks@.len() implies !(#[trigger] task_writes_event(
                    st.tasks@[t1],
                    b,
                ) && #[trigger] task_writes_event(st.tasks@[t2], b)) by {
                    if t2 == st.tasks@.len() - 1 {
                    } else {
                        assert(st.tasks@[t1] == tasks_before[t1]);
                        assert(st.tasks@[t2] == tasks_before[t2]);
                    }
                }
            }
            chosen = sb;
        }
        in_bufs.push(chosen);
        c = c + 1;
    }

    // Note inputs: the event buffers of the connected note output ports.
    let mut note_ins: Vec<Vec<usize>> = Vec::new();
    let mut p: u16 = 0;
    while p < node.num_note_in_ports
        invariant
            g.wf(),
            st_inv(*st, *g),
            v < g.nodes_spec().len(),
            node == g.nodes_spec()[v as int],
            m == g.edges_spec().len(),
            edges@ == g.edges_spec(),
            p <= node.num_note_in_ports,
            note_ins@.len() == p,
            forall|i: int, k: int|
                0 <= i < note_ins@.len() && 0 <= k < note_ins@[i].len() ==> (
                #[trigger] note_ins@[i][k]) < st.num_ev,
        decreases node.num_note_in_ports - p,
    {
        let mut port_bufs: Vec<usize> = Vec::new();
        let mut j3: usize = 0;
        while j3 < m
            invariant
                g.wf(),
                st_inv(*st, *g),
                v < g.nodes_spec().len(),
                p < node.num_note_in_ports,
                m == g.edges_spec().len(),
                edges@ == g.edges_spec(),
                j3 <= m,
                forall|i: int| 0 <= i < port_bufs@.len() ==> (#[trigger] port_bufs@[i])
                    < st.num_ev,
            decreases m - j3,
        {
            let e = edges[j3];
            proof {
                assert(edge_wf(g.nodes_spec(), g.edges_spec()[j3 as int]));
            }
            if matches!(e.edge_type, PortType::Note) && e.dst_node == v && e.dst_channel == p {
                if !st.processed[e.src_node] {
                    let mut cyc: Vec<u64> = Vec::new();
                    cyc.push(v as u64);
                    return Err(CompileError::Cycle(cyc));
                }
                let b = st.node_note_out[e.src_node][e.src_channel as usize];
                port_bufs.push(b);
            }
            j3 = j3 + 1;
        }
        note_ins.push(port_bufs);
        p = p + 1;
    }

    // Automation inputs: the automation output buffers of the connected
    // sources.
    let mut auto_ins: Vec<usize> = Vec::new();
    let mut j4: usize = 0;
    while j4 < m
        invariant
            g.wf(),
            st_inv(*st, *g),
            v < g.nodes_spec().len(),
            m == g.edges_spec().len(),
            edges@ == g.edges_spec(),
            j4 <= m,
            forall|i: int| 0 <= i < auto_ins@.len() ==> (#[trigger] auto_ins@[i]) < st.num_ev,
        decreases m - j4,
    {
        let e = edges[j4];
        proof {
            assert(edge_wf(g.nodes_spec(), g.edges_spec()[j4 as int]));
        }
        if matches!(e.edge_type, PortType::Automation) && e.dst_node == v {
            if !st.processed[e.src_node] {
                let mut cyc: Vec<u64> = Vec::new();
                cyc.push(v as u64);
                return Err(CompileError::Cycle(cyc));
            }
            match st.node_auto_out[e.src_node] {
                Some(b) => {
                    auto_ins.push(b);
                },
                None => {
                    return Err(CompileError::ResourceLimit);
                },
            }
        }
        j4 = j4 + 1;
    }

    // Allocate this node's own outputs.
    let ghost w1 = st.num_bufs as int;
    let ghost w1e = st.num_ev as int;
    let ghost tasks_mark = st.tasks@;
    let outs = match alloc_range(&mut st.num_bufs, node.num_audio_out) {
        Ok(ids) => ids,
        Err(err) => {
            return Err(err);
        },
    };
    let note_outs = match alloc_range(&mut st.num_ev, node.num_note_out_ports) {
        Ok(ids) => ids,
        Err(err) => {
            return Err(err);
        },
    };
    let auto_out: Option<usize> = if node.has_automation_out {
        match alloc_id(&mut st.num_ev) {
            Ok(b) => Some(b),
            Err(err) => {
                return Err(err);
            },
        }
    } else {
        None
    };

    // Emit the node's own task.  The two endpoint pseudo-plugins emit no
    // task: graph-in's outputs are the schedule input map, and graph-out's
    // resolved inputs are the schedule output map.
    let ghost old_len = st.tasks@.len() as int;
    if v == GRAPH_IN_NODE {
        st.node_out[v] = outs;
    } else if v == GRAPH_OUT_NODE {
        st.graph_out_map = in_bufs;
        st.node_out[v] = outs;
    } else if node.active {
        let t = Task::Plugin(
            PluginTask {
                plugin_slot: v,
                audio_in: in_bufs,
                audio_out: outs_copy(&outs),
                automation_in_buffers: auto_ins,
                automation_out_buffer: auto_out,
                note_in_buffers: note_ins,
                note_out_buffers: outs_copy(&note_outs),
            },
        );
        st.tasks.push(t);
        st.node_out[v] = outs;
    } else {
        let mut through: Vec<(usize, usize)> = Vec::new();
        let mut extra: Vec<usize> = Vec::new();
        let pairs: usize = if in_bufs.len() < outs.len() {
            in_bufs.len()
        } else {
            outs.len()
        };
        let mut k: usize = 0;
        while k < pairs
            invariant
                k <= pairs,
                pairs <= in_bufs@.len(),
                pairs <= outs@.len(),
                through@.len() == k,
                forall|i: int| 0 <= i < in_bufs@.len() ==> (#[trigger] in_bufs@[i]) < w1,
                forall|i: int| 0 <= i < outs@.len() ==> w1 <= (#[trigger] outs@[i]),
                forall|i: int| 0 <= i < outs@.len() ==> (#[trigger] outs@[i]) < w1
                    + outs@.len(),
                forall|i: int|
                    0 <= i < through@.len() ==> (#[trigger] through@[i]) == (
                    in_bufs@[i],
                    outs@[i],
                ),
            decreases pairs - k,
        {
            through.push((in_bufs[k], outs[k]));
            k = k + 1;
        }
        let mut k2: usize = pairs;
        while k2 < outs.len()
            invariant
                pairs <= k2 <= outs@.len(),
                extra@.len() == k2 - pairs,
                forall|i: int|
                    0 <= i < extra@.len() ==> (#[trigger] extra@[i]) == outs@[pairs + i],
            decreases outs@.len() - k2,
        {
            extra.push(outs[k2]);
            k2 = k2 + 1;
        }
        let t = Task::DeactivatedPlugin(
            DeactivatedPluginTask {
                plugin_slot: v,
                audio_through: through,
                extra_audio_out: extra,
                automation_out_buffer: auto_out,
                note_out_buffers: outs_copy(&note_outs),
            },
        );
        st.tasks.push(t);
        st.node_out[v] = outs;
    }
    st.node_note_out[v] = note_outs;
    st.node_auto_out[v] = auto_out;
    st.up[v] = u;
    st.processed[v] = true;
    proof {
        let nodes = g.nodes_spec();
        let nn = nodes.len() as int;
        let fin = *st;
        // The task list either gained exactly this node's own task, or
        // stayed as it was for the two endpoint pseudo-plugins.
        if v != GRAPH_IN_NODE && v != GRAPH_OUT_NODE {
            lemma_count_push(tasks_mark, fin.tasks@.last());
            assert(fin.tasks@ == tasks_mark.push(fin.tasks@.last()));
        } else {
            assert(fin.tasks@ == tasks_mark);
        }
        // Counts match the processed set.
        assert forall|w: usize|
            (w as int) < nn implies count_plugin_tasks(fin.tasks@, w) == (
            if fin.processed@[w as int] && nodes[w as int].alive && nodes[w as int].active && w
                != 0 && w != 1 {
            1nat
        } else {
            0nat
        }) by {
            assert(count_plugin_tasks(tasks_mark, w) == (
            if old(st).processed@[w as int] && nodes[w as int].alive && nodes[w as int].active && w
                != 0 && w != 1 {
                1nat
            } else {
                0nat
            }));
        }
        assert forall|w: usize|
            (w as int) < nn implies count_deactivated_tasks(fin.tasks@, w) == (
            if fin.processed@[w as int] && nodes[w as int].alive && !nodes[w as int].active && w
                != 0 && w != 1 {
            1nat
        } else {
            0nat
        }) by {
            assert(count_deactivated_tasks(tasks_mark, w) == (
            if old(st).processed@[w as int] && nodes[w as int].alive && !nodes[w as int].active
                && w != 0 && w != 1 {
                1nat
            } else {
                0nat
            }));
        }
        // Every task stays valid under the grown pools, and the new task's
        // buffers are its own.
        assert forall|t: int|
            0 <= t < fin.tasks@.len() implies task_valid(
            #[trigger] fin.tasks@[t],
            fin.num_bufs as int,
            fin.num_ev as int,
            nn,
            fin.delays@.len() as int,
        ) by {
            if t < tasks_mark.len() {
                assert(fin.tasks@[t] == tasks_mark[t]);
                assert(task_valid(tasks_mark[t], w1, w1e, nn, fin.delays@.len() as int));
            }
        }
        assert forall|t: int, b: usize|
            0 <= t < fin.tasks@.len() && #[trigger] task_writes_audio(fin.tasks@[t], b) implies b
            < fin.num_bufs by {
            if t < tasks_mark.len() {
                assert(fin.tasks@[t] == tasks_mark[t]);
            }
        }
        assert forall|t: int, b: usize|
            0 <= t < fin.tasks@.len() && #[trigger] task_writes_event(fin.tasks@[t], b) implies b
            < fin.num_ev by {
            if t < tasks_mark.len() {
                assert(fin.tasks@[t] == tasks_mark[t]);
            }
        }
        assert forall|t1: int, t2: int, b: usize|
            0 <= t1 < t2 < fin.tasks@.len() implies !(#[trigger] task_writes_audio(
            fin.tasks@[t1],
            b,
        ) && #[trigger] task_writes_audio(fin.tasks@[t2], b)) by {
            if t2 < tasks_mark.len() {
                assert(fin.tasks@[t1] == tasks_mark[t1]);
                assert(fin.tasks@[t2] == tasks_mark[t2]);
            } else {
                assert(fin.tasks@[t1] == tasks_mark[t1]);
                if task_writes_audio(fin.tasks@[t1], b) {
                    assert(b < w1);
                }
            }
        }
        assert forall|t1: int, t2: int, b: usize|
            0 <= t1 < t2 < fin.tasks@.len() implies !(#[trigger] task_writes_event(
            fin.tasks@[t1],
            b,
        ) && #[trigger] task_writes_event(fin.tasks@[t2], b)) by {
            if t2 < tasks_mark.len() {
                assert(fin.tasks@[t1] == tasks_mark[t1]);
                assert(fin.tasks@[t2] == tasks_mark[t2]);
            } else {
                assert(fin.tasks@[t1] == tasks_mark[t1]);
                if task_writes_event(fin.tasks@[t1], b) {
                    assert(b < w1e);
                }
            }
        }
        // Output tables are filled for every processed slot.
        assert forall|w: int|
            0 <= w < nn && (#[trigger] fin.processed@[w]) && nodes[w].alive implies {
            &&& fin.node_out@[w].len() == nodes[w].num_audio_out
            &&& (forall|c2: int|
                0 <= c2 < fin.node_out@[w].len() ==> (#[trigger] fin.node_out@[w][c2])
                    < fin.num_bufs)
            &&& fin.node_note_out@[w].len() == nodes[w].num_note_out_ports
            &&& (forall|c2: int|
                0 <= c2 < fin.node_note_out@[w].len() ==> (#[trigger] fin.node_note_out@[w][c2])
                    < fin.num_ev)
            &&& (nodes[w].has_automation_out ==> fin.node_auto_out@[w] is Some)
            &&& (fin.node_auto_out@[w] matches Some(b) ==> b < fin.num_ev)
        } by {
            if w != v {
                assert(old(st).processed@[w]);
            }
        }
        // Upstream latency is zero without inputs, and attained with them.
        assert forall|w: int|
            0 <= w < nn && (#[trigger] fin.processed@[w]) && nodes[w].alive && !has_audio_in_edge(
                g.edges_spec(),
                w,
            ) implies fin.up@[w] == 0 by {
            if w == v as int {
                if exists|e: int|
                    0 <= e < g.edges_spec().len() && #[trigger] is_audio_in(*g, e, v) && in_lat(
                        *old(st),
                        *g,
                        e,
                    ) == u {
                    let e = choose|e: int|
                        0 <= e < g.edges_spec().len() && #[trigger] is_audio_in(*g, e, v)
                            && in_lat(*old(st), *g, e) == u;
                    assert(has_audio_in_edge(g.edges_spec(), w));
                }
            } else {
                assert(old(st).processed@[w]);
            }
        }
        assert forall|w: int|
            0 <= w < nn && (#[trigger] fin.processed@[w]) && nodes[w].alive && has_audio_in_edge(
                g.edges_spec(),
                w,
            ) implies exists|e: int|
            0 <= e < g.edges_spec().len() && (#[trigger] g.edges_spec()[e]).edge_type
                == PortType::Audio && g.edges_spec()[e].dst_node == w && fin.edge_delay@[e]
                == 0 by {
            if w == v as int {
                assert(exists|e: int|
                    0 <= e < g.edges_spec().len() && #[trigger] is_audio_in(*g, e, v) && in_lat(
                        *old(st),
                        *g,
                        e,
                    ) == u);
                let e = choose|e: int|
                    0 <= e < g.edges_spec().len() && #[trigger] is_audio_in(*g, e, v) && in_lat(
                        *old(st),
                        *g,
                        e,
                    ) == u;
                assert(edge_wf(nodes, g.edges_spec()[e]));
                assert((g.edges_spec()[e].dst_channel as int) < dst_channel_count(
                    nodes[v as int],
                    g.edges_spec()[e].edge_type,
                ));
                assert(fin.edge_delay@[e] == u - in_lat(*old(st), *g, e));
                assert(fin.edge_delay@[e] == 0);
            } else {
                assert(old(st).processed@[w]);
                let e = choose|e: int|
                    0 <= e < g.edges_spec().len() && (#[trigger] g.edges_spec()[e]).edge_type
                        == PortType::Audio && g.edges_spec()[e].dst_node == w && old(
                        st,
                    ).edge_delay@[e] == 0;
                assert(!is_audio_in(*g, e, v));
                assert(fin.edge_delay@[e] == old(st).edge_delay@[e]);
            }
        }
        // Latency equality on every consumed audio edge.
        assert forall|e: int|
            0 <= e < g.edges_spec().len() && (#[trigger] g.edges_spec()[e]).edge_type
            == PortType::Audio && fin.processed@[g.edges_spec()[e].dst_node as int] implies {
            &&& fin.processed@[g.edges_spec()[e].src_node as int]
            &&& fin.up@[g.edges_spec()[e].src_node as int] + effective_latency(
                nodes[g.edges_spec()[e].src_node as int],
            ) + fin.edge_delay@[e] == fin.up@[g.edges_spec()[e].dst_node as int]
        } by {
            let ev = g.edges_spec()[e];
            assert(edge_wf(nodes, ev));
            if ev.dst_node == v {
                assert(is_audio_in(*g, e, v));
                assert((ev.dst_channel as int) < dst_channel_count(nodes[v as int], ev.edge_type));
                assert(fin.edge_delay@[e] == u - in_lat(*old(st), *g, e));
            } else {
                assert(old(st).processed@[ev.dst_node as int]);
                assert(old(st).processed@[ev.src_node as int]);
                assert(ev.src_node != v);
                assert(ev.dst_node != v);
            }
        }
    }
    Ok(())
}

/// A plain copy of a list of buffer indices.
fn outs_copy(src: &Vec<usize>) -> (r: Vec<usize>)
    ensures
        r@ == src@,
{
    let mut r: Vec<usize> = Vec::new();
    let n = src.len();
    let mut i: usize = 0;
    while i < n
        invariant
            n == src@.len(),
            i <= n,
            r@ == src@.take(i as int),
        decreases n - i,
    {
        r.push(src[i]);
        proof {
            assert(src@.take(i + 1) =~= src@.take(i as int).push(src@[i as int]));
        }
        i = i + 1;
    }
    proof {
        assert(src@.take(n as int) =~= src@);
    }
    r
}

/// Allocates `count` consecutive ids from `counter`.
fn alloc_range(counter: &mut usize, count: u16) -> (r: Result<Vec<usize>, CompileError>)
    ensures
        match r {
            Ok(ids) => {
                &&& *final(counter) == *old(counter) + count
                &&& ids@.len() == count
                &&& forall|i: int| 0 <= i < ids@.len() ==> (#[trigger] ids@[i]) == *old(counter)
                    + i
            },
            Err(_) => *final(counter) == *old(counter),
        },
{
    if (usize::MAX - *counter) < (count as usize) {
        return Err(CompileError::ResourceLimit);
    }
    let base = *counter;
    let mut ids: Vec<usize> = Vec::new();
    let mut i: usize = 0;
    while i < count as usize
        invariant
            base + count <= usize::MAX,
            i <= count as usize,
            ids@.len() == i,
            forall|k: int| 0 <= k < ids@.len() ==> (#[trigger] ids@[k]) == base + k,
        decreases count as usize - i,
    {
        ids.push(base + i);
        i = i + 1;
    }
    *counter = base + count as usize;
    Ok(ids)
}

/// Marks a dead slot processed; it contributes nothing to the schedule.
fn mark_dead_slot(st: &mut CompileState, g: &AudioGraph, v: usize)
    requires
        g.wf(),
        st_inv(*old(st), *g),
        v < g.nodes_spec().len(),
        !old(st).processed@[v as int],
        !g.nodes_spec()[v as int].alive,
    ensures
        st_inv(*final(st), *g),
        final(st).processed@ == old(st).processed@.update(v as int, true),
{
    st.processed[v] = true;
    proof {
        assert forall|e: int|
            0 <= e < g.edges_spec().len() implies (#[trigger] g.edges_spec()[e]).src_node != v
            && g.edges_spec()[e].dst_node != v by {
            assert(edge_wf(g.nodes_spec(), g.edges_spec()[e]));
        }
    }
}


impl AudioGraph {
    /// Compiles the graph into a fresh schedule, or reports why it cannot
    /// be compiled.  On failure the graph is untouched; on success only
    /// the schedule version advances.
    ///
    /// The returned schedule is internally consistent
    /// ([`schedule_valid`]), holds exactly one `Plugin` task for every
    /// active instance and exactly one `DeactivatedPlugin` task for every
    /// inactive one, and the delay compensation on every audio edge makes
    /// the latency arriving at a node equal on all of its input paths.
    pub fn compile(&mut self) -> (r: Result<Schedule, CompileError>)
        requires
            old(self).wf(),
        ensures
            final(self).wf(),
            final(self).nodes_spec() == old(self).nodes_spec(),
            final(self).edges_spec() == old(self).edges_spec(),
            final(self).config_spec() == old(self).config_spec(),
            match r {
                Ok(s) => {
                    &&& final(self).schedule_version_spec() == old(self).schedule_version_spec()
                        + 1
                    &&& s.version == final(self).schedule_version_spec()
                    &&& compiled_for(s, *final(self))
                },
                Err(_) => *final(self) == *old(self),
            },
    {
        let n = self.num_nodes();
        let m = self.edges().len();
        let order = self.topo_order();
        if order.len() < n {
            // Some slots could not be ordered: the edges among them form
            // at least one cycle.
            let mut missing: Vec<u64> = Vec::new();
            let mut w: usize = 0;
            while w < n
                invariant
                    w <= n,
                decreases n - w,
            {
                let mut found = false;
                let mut k: usize = 0;
                while k < order.len()
                    invariant
                        k <= order@.len(),
                    decreases order@.len() - k,
                {
                    if order[k] == w {
                        found = true;
                    }
                    k = k + 1;
                }
                if !found {
                    missing.push(w as u64);
                }
                w = w + 1;
            }
            return Err(CompileError::Cycle(missing));
        }

        let mut st = CompileState {
            tasks: Vec::new(),
            num_bufs: 0,
            num_ev: 0,
            delays: Vec::new(),
            node_out: Vec::new(),
            node_note_out: Vec::new(),
            node_auto_out: Vec::new(),
            up: Vec::new(),
            processed: Vec::new(),
            edge_delay: Vec::new(),
            graph_out_map: Vec::new(),
        };
        let mut i: usize = 0;
        while i < n
            invariant
                i <= n,
                st.node_out@.len() == i,
                st.node_note_out@.len() == i,
                st.node_auto_out@.len() == i,
                st.up@.len() == i,
                st.processed@.len() == i,
                forall|w: int| 0 <= w < i ==> !(#[trigger] st.processed@[w]),
                st.tasks@.len() == 0,
                st.num_bufs == 0,
                st.num_ev == 0,
                st.delays@.len() == 0,
                st.edge_delay@.len() == 0,
                st.graph_out_map@.len() == 0,
            decreases n - i,
        {
            st.node_out.push(Vec::new());
            st.node_note_out.push(Vec::new());
            st.node_auto_out.push(None);
            st.up.push(0);
            st.processed.push(false);
            i = i + 1;
        }
        let mut j: usize = 0;
        while j < m
            invariant
                j <= m,
                st.node_out@.len() == n,
                st.node_note_out@.len() == n,
                st.node_auto_out@.len() == n,
                st.up@.len() == n,
                st.processed@.len() == n,
                forall|w: int| 0 <= w < n ==> !(#[trigger] st.processed@[w]),
                st.tasks@.len() == 0,
                st.num_bufs == 0,
                st.num_ev == 0,
                st.delays@.len() == 0,
                st.edge_delay@.len() == j,
                st.graph_out_map@.len() == 0,
            decreases m - j,
        {
            st.edge_delay.push(0);
            j = j + 1;
        }
        proof {
            assert(st_inv(st, *self));
        }

        let mut idx: usize = 0;
        while idx < order.len()
            invariant
                self.wf(),
                *self == *old(self),
                n == self.nodes_spec().len(),
                m == self.edges_spec().len(),
                order@.len() == n,
                forall|k: int| 0 <= k < order@.len() ==> (#[trigger] order@[k]) < n,
                forall|k1: int, k2: int|
                    0 <= k1 < k2 < order@.len() ==> order@[k1] != order@[k2],
                idx <= order@.len(),
                st_inv(st, *self),
                forall|k: int| 0 <= k < idx ==> st.processed@[(#[trigger] order@[k]) as int],
                forall|w: int|
                    0 <= w < n && (#[trigger] st.processed@[w]) ==> exists|k: int|
                        0 <= k < idx && (order@[k] as int) == w,
            decreases order@.len() - idx,
        {
            let v = order[idx];
            proof {
                if st.processed@[v as int] {
                    let k = choose|k: int| 0 <= k < idx && (order@[k] as int) == v as int;
                    assert(order@[k] == order@[idx as int]);
                    assert(false);
                }
            }
            let ghost processed_before = st.processed@;
            match emit_node(&mut st, self, v) {
                Ok(()) => {},
                Err(err) => {
                    return Err(err);
                },
            }
            proof {
                assert(st.processed@ == processed_before.update(v as int, true));
                assert forall|w: int|
                    0 <= w < n && (#[trigger] st.processed@[w]) implies exists|k: int|
                    0 <= k < idx + 1 && (order@[k] as int) == w by {
                    if w == v as int {
                        assert(0 <= idx < idx + 1 && (order@[idx as int] as int) == w);
                    } else {
                        assert(processed_before[w]);
                        let k = choose|k: int| 0 <= k < idx && (order@[k] as int) == w;
                        assert(0 <= k < idx + 1 && (order@[k] as int) == w);
                    }
                }
            }
            idx = idx + 1;
        }

        // Every slot must have been reached; an alive slot that was not is
        // part of a cycle.
        let mut w2: usize = 0;
        while w2 < n
            invariant
                self.wf(),
                *self == *old(self),
                n == self.nodes_spec().len(),
                m == self.edges_spec().len(),
                st_inv(st, *self),
                w2 <= n,
                forall|w3: int|
                    0 <= w3 < w2 && self.nodes_spec()[w3].alive ==> #[trigger] st.processed@[w3],
            decreases n - w2,
        {
            if self.node(w2).alive && !st.processed[w2] {
                return Err(CompileError::Cycle(vec![w2 as u64]));
            }
            w2 = w2 + 1;
        }

        let version = match self.advance_schedule_version() {
            Some(ver) => ver,
            None => {
                return Err(CompileError::ResourceLimit);
            },
        };

        let graph_audio_in = outs_copy(&st.node_out[GRAPH_IN_NODE]);
        let graph_audio_out = outs_copy(&st.graph_out_map);
        let graph_latency = st.up[GRAPH_OUT_NODE];
        let max_frames = self.max_frames();
        let s = Schedule {
            tasks: st.tasks,
            graph_audio_in,
            graph_audio_out,
            num_buffers: st.num_bufs,
            num_event_buffers: st.num_ev,
            delays: st.delays,
            max_frames,
            version,
            graph_latency,
            node_latencies: st.up,
            edge_delays: st.edge_delay,
        };
        proof {
            assert(old(self).nodes_spec()[GRAPH_IN_NODE as int].alive);
            assert(old(self).nodes_spec()[GRAPH_OUT_NODE as int].alive);
            assert(st.processed@[GRAPH_IN_NODE as int]);
            assert(st.processed@[GRAPH_OUT_NODE as int]);
            assert forall|e: int|
                0 <= e < old(self).edges_spec().len() && (#[trigger] old(self).edges_spec()[e]).edge_type == PortType::Audio implies s.node_latencies@[
                old(self).edges_spec()[e].src_node as int
            ] + effective_latency(
                old(self).nodes_spec()[old(self).edges_spec()[e].src_node as int],
            ) + s.edge_delays@[e] == s.node_latencies@[
                old(self).edges_spec()[e].dst_node as int
            ] by {
                let ev = old(self).edges_spec()[e];
                assert(edge_wf(old(self).nodes_spec(), ev));
                assert(st.processed@[ev.dst_node as int]);
            }
            assert forall|w: int|
                0 <= w < old(self).nodes_spec().len() && (#[trigger] old(self).nodes_spec()[
                w]).alive && !has_audio_in_edge(old(self).edges_spec(), w) implies
                s.node_latencies@[w] == 0 by {
                assert(st.processed@[w]);
            }
            assert forall|w: int|
                0 <= w < old(self).nodes_spec().len() && (#[trigger] old(self).nodes_spec()[
                w]).alive && has_audio_in_edge(old(self).edges_spec(), w) implies exists|e: int|
                0 <= e < old(self).edges_spec().len() && (#[trigger] old(self).edges_spec()[
                e]).edge_type == PortType::Audio && old(self).edges_spec()[e].dst_node == w
                && s.edge_delays@[e] == 0 by {
                assert(st.processed@[w]);
            }
        }
        Ok(s)
    }
}


proof fn lemma_slot_task_count_at_least_one(tasks: Seq<Task>, t: int, w: usize)
    requires
        0 <= t < tasks.len(),
        crate::executor::task_plugin_slot(tasks[t]) == Some(w),
    ensures
        count_plugin_tasks(tasks, w) >= 1,
    decreases tasks.len(),
{
    if t == tasks.len() - 1 {
    } else {
        assert(tasks.drop_last()[t] == tasks[t]);
        lemma_slot_task_count_at_least_one(tasks.drop_last(), t, w);
    }
}

proof fn lemma_slot_task_count_at_least_two(tasks: Seq<Task>, t1: int, t2: int, w: usize)
    requires
        0 <= t1 < t2 < tasks.len(),
        crate::executor::task_plugin_slot(tasks[t1]) == Some(w),
        crate::executor::task_plugin_slot(tasks[t2]) == Some(w),
    ensures
        count_plugin_tasks(tasks, w) >= 2,
    decreases tasks.len(),
{
    if t2 == tasks.len() - 1 {
        lemma_slot_task_count_at_least_one(tasks.drop_last(), t1, w);
    } else {
        assert(tasks.drop_last()[t1] == tasks[t1]);
        assert(tasks.drop_last()[t2] == tasks[t2]);
        lemma_slot_task_count_at_least_two(tasks.drop_last(), t1, t2, w);
    }
}

/// Law: a compiled schedule runs each plugin instance at most once, so no
/// two of its plugin tasks name the same slot.  This discharges the
/// executor's one-task-per-slot requirement for any schedule a compile
/// produced.
pub proof fn lemma_compiled_plugin_slots_distinct(s: Schedule, g: AudioGraph)
    requires
        compiled_for(s, g),
    ensures
        forall|t1: int, t2: int|
            0 <= t1 < t2 < s.tasks@.len() ==> !(crate::executor::task_plugin_slot(
                #[trigger] s.tasks@[t1],
            ) is Some && crate::executor::task_plugin_slot(s.tasks@[t1])
                == crate::executor::task_plugin_slot(#[trigger] s.tasks@[t2])),
{
    let n = g.nodes_spec().len() as int;
    assert forall|t1: int, t2: int|
        0 <= t1 < t2 < s.tasks@.len() implies !(crate::executor::task_plugin_slot(
        #[trigger] s.tasks@[t1],
    ) is Some && crate::executor::task_plugin_slot(s.tasks@[t1])
        == crate::executor::task_plugin_slot(#[trigger] s.tasks@[t2])) by {
        if crate::executor::task_plugin_slot(s.tasks@[t1]) is Some
            && crate::executor::task_plugin_slot(s.tasks@[t1])
            == crate::executor::task_plugin_slot(s.tasks@[t2]) {
            let w = crate::executor::task_plugin_slot(s.tasks@[t1])->0;
            assert(task_valid(
                s.tasks@[t1],
                s.num_buffers as int,
                s.num_event_buffers as int,
                n,
                s.delays@.len() as int,
            ));
            assert((w as int) < n);
            lemma_slot_task_count_at_least_two(s.tasks@, t1, t2, w);
            assert(count_plugin_tasks(s.tasks@, w) <= 1);
            assert(false);
        }
    }
}

/// A chain of audio edges, by index: each edge ends at the node where the
/// next one starts.
pub open spec fn audio_path_ok(edges: Seq<Edge>, path: Seq<int>) -> bool {
    &&& forall|i: int|
        0 <= i < path.len() ==> 0 <= #[trigger] path[i] < edges.len() && edges[path[i]].edge_type
            == PortType::Audio
    &&& forall|i: int|
        0 <= i < path.len() - 1 ==> edges[#[trigger] path[i]].dst_node == edges[path[i
            + 1]].src_node
}

/// The delay accumulated along a path: each hop contributes its source's
/// effective latency plus the delay compensation inserted on the edge.
pub open spec fn path_delay_sum(
    edges: Seq<Edge>,
    nodes: Seq<NodeDesc>,
    edge_delays: Seq<u64>,
    path: Seq<int>,
) -> int
    decreases path.len(),
{
    if path.len() == 0 {
        0
    } else {
        effective_latency(nodes[edges[path[0]].src_node as int]) + edge_delays[path[0]]
            + path_delay_sum(edges, nodes, edge_delays, path.drop_first())
    }
}

/// Law: with the per-edge latency equation a successful compile
/// establishes, the delay accumulated along *every* audio path equals the
/// difference of the upstream latencies of its two ends.  In particular,
/// every input path from a zero-latency source into a node carries
/// exactly that node's upstream latency.
#[verifier::rlimit(100)]
pub proof fn lemma_path_latency(
    edges: Seq<Edge>,
    nodes: Seq<NodeDesc>,
    latencies: Seq<u64>,
    edge_delays: Seq<u64>,
    path: Seq<int>,
)
    requires
        forall|e: int|
            0 <= e < edges.len() ==> (#[trigger] edges[e]).src_node < nodes.len() && edges[e].dst_node
                < nodes.len() && edges[e].src_node < latencies.len() && edges[e].dst_node
                < latencies.len(),
        edge_delays.len() == edges.len(),
        forall|e: int|
            0 <= e < edges.len() && (#[trigger] edges[e]).edge_type == PortType::Audio ==> latencies[
                edges[e].src_node as int
            ] + effective_latency(nodes[edges[e].src_node as int]) + edge_delays[e] == latencies[
                edges[e].dst_node as int
            ],
        audio_path_ok(edges, path),
        path.len() > 0,
    ensures
        latencies[edges[path[0]].src_node as int] + path_delay_sum(
            edges,
            nodes,
            edge_delays,
            path,
        ) == latencies[edges[path.last()].dst_node as int],
    decreases path.len(),
{
    let e0 = path[0];
    assert(latencies[edges[e0].src_node as int] + effective_latency(
        nodes[edges[e0].src_node as int],
    ) + edge_delays[e0] == latencies[edges[e0].dst_node as int]);
    if path.len() == 1 {
        assert(path_delay_sum(edges, nodes, edge_delays, path.drop_first()) == 0);
    } else {
        let rest = path.drop_first();
        assert(audio_path_ok(edges, rest)) by {
            assert(forall|i: int| 0 <= i < rest.len() ==> #[trigger] rest[i] == path[i + 1]);
        }
        assert(edges[e0].dst_node == edges[rest[0]].src_node);
        lemma_path_latency(edges, nodes, latencies, edge_delays, rest);
        assert(rest.last() == path.last());
    }
}

} // verus!
