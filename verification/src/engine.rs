//! The engine main-thread loop's decision layer: requests come in as plain
//! values, the graph is edited and recompiled, and events go out as plain
//! values.  The surrounding application owns the real channels, threads
//! and timers and calls in here from its loop.

use vstd::prelude::*;

use crate::buffer::Sample;
use crate::compiler::Schedule;
use crate::compiler::compiled_for;
use crate::graph::AudioGraph;
use crate::graph::ConnectEdgeError;
use crate::graph::Edge;
use crate::graph::GRAPH_IN_NODE;
use crate::graph::GRAPH_OUT_NODE;
use crate::graph::NodeDesc;
use crate::graph::PluginInstanceID;
use crate::graph::PortType;
use crate::plugin_host::HostRequestChannelReceiver;
use crate::plugin_host::OnIdleResult;
use crate::plugin_host::PluginInstanceHost;
use crate::plugin_host::PluginMainThread;
use crate::plugin_host::PluginSaveState;
use crate::plugin_host::TempoMap;

verus! {

/// A short description of a plugin, as its factory reports it.
#[derive(Debug, Clone, PartialEq, Eq)]
pub struct PluginDescriptor {
    /// The unique reverse-domain-name identifier of the plugin.
    pub id: String,
    /// The displayable name of the plugin.
    pub name: String,
    /// The vendor of the plugin.
    pub vendor: String,
    /// The version of the plugin.
    pub version: String,
}

/// Creates instances of one plugin.  The host's users implement this; the
/// plugin scanner that picks factories by key is outside the core.
pub trait PluginFactory<S: Sample>: Sized {
    /// The main-thread plugin type this factory creates.
    type MainThread: PluginMainThread<S>;

    /// The description of the plugin this factory creates.
    fn description(&self) -> (r: PluginDescriptor);

    /// Creates one new instance for the given save state.
    fn instantiate(&mut self, save_state: &PluginSaveState) -> (r: Result<
        Self::MainThread,
        String,
    >);
}

/// The settings an engine is activated with.
#[derive(Debug, Clone, Copy, PartialEq, Eq, Structural)]
pub struct ActivateEngineSettings {
    /// The sample rate in Hz.
    pub sample_rate: u32,
    /// The smallest block the engine will be asked to process.
    pub min_frames: u32,
    /// The largest block the engine will be asked to process.
    pub max_frames: u32,
    /// Audio channels into the graph from the system input.
    pub num_audio_in_channels: u16,
    /// Audio channels out of the graph to the system output.
    pub num_audio_out_channels: u16,
    /// Capacity of each note event buffer.
    pub note_buffer_size: usize,
    /// Capacity of each automation event buffer.
    pub event_buffer_size: usize,
}

impl ActivateEngineSettings {
    /// Whether the settings respect the engine's limits: at least one
    /// frame per block, and blocks that fit a signed 32-bit count.
    pub open spec fn valid_spec(self) -> bool {
        &&& 1 <= self.min_frames <= self.max_frames
        &&& self.max_frames <= 0x7fffffff
    }

    /// Whether the settings respect the engine's limits.
    pub fn is_valid(&self) -> (r: bool)
        ensures
            r == self.valid_spec(),
    {
        1 <= self.min_frames && self.min_frames <= self.max_frames && self.max_frames
            <= 0x7fffffff
    }
}

impl Default for ActivateEngineSettings {
    /// The defaults: 44100 Hz, blocks of 1 to 512 frames, stereo in and
    /// out, event buffers of 256 entries.
    fn default() -> (r: Self)
        ensures
            r.sample_rate == 44100,
            r.min_frames == 1,
            r.max_frames == 512,
            r.num_audio_in_channels == 2,
            r.num_audio_out_channels == 2,
            r.note_buffer_size == 256,
            r.event_buffer_size == 256,
            r.valid_spec(),
    {
        ActivateEngineSettings {
            sample_rate: 44100,
            min_frames: 1,
            max_frames: 512,
            num_audio_in_channels: 2,
            num_audio_out_channels: 2,
            note_buffer_size: 256,
            event_buffer_size: 256,
        }
    }
}

/// Which plugin an edge endpoint names: an instance already in the graph,
/// or one of the instances added by the same request (by position).
#[derive(Debug, Clone, Copy, PartialEq, Eq, Structural)]
pub enum PluginIDReq {
    /// An existing instance, by node slot.
    Existing(u64),
    /// One of the instances added in this request, by index.
    Added(usize),
}

/// Which port an edge endpoint names.
#[derive(Debug, Clone, Copy, PartialEq, Eq, Structural)]
pub enum EdgeReqPortID {
    /// The main port.  Useful when the plugin's real layout is not known
    /// yet because it has not been activated.
    Main,
    /// The port with this stable id.
    StableID(u32),
}

/// A request to connect one edge.
#[derive(Debug, Clone, Copy, PartialEq, Eq, Structural)]
pub struct EdgeReq {
    pub edge_type: PortType,
    pub src_plugin_id: PluginIDReq,
    pub dst_plugin_id: PluginIDReq,
    pub src_port_id: EdgeReqPortID,
    pub src_port_channel: u16,
    pub dst_port_id: EdgeReqPortID,
    pub dst_port_channel: u16,
    /// Whether a failure to connect should be reported loudly.  A UI that
    /// speculatively wires main ports before a plugin's layout is known
    /// sets this to `false`.
    pub log_error_on_fail: bool,
}

/// One batch of graph edits, applied atomically before one recompile.
#[derive(Debug, Clone)]
pub struct ModifyGraphRequest {
    /// New plugin instances to add.
    pub add_plugin_instances: Vec<PluginSaveState>,
    /// Instances to remove, by node slot.
    pub remove_plugin_instances: Vec<u64>,
    /// New connections to add; these may name the added instances.
    pub connect_new_edges: Vec<EdgeReq>,
    /// Connections to remove.
    pub disconnect_edges: Vec<Edge>,
}

/// What one batch of graph edits did.
#[derive(Debug, Clone)]
pub struct ModifyGraphRes {
    /// The ids of the instances that were added, in request order.
    pub new_plugins: Vec<PluginInstanceID>,
    /// The slots of the instances that were removed.
    pub removed_plugins: Vec<u64>,
    /// Edge connect attempts that failed loudly, with their errors.
    pub failed_edges: Vec<(EdgeReq, ConnectEdgeError)>,
}

/// One edge in a saved graph: endpoints are positions in the saved
/// plugin list, with the two reserved endpoints first.
#[derive(Debug, Clone, Copy, PartialEq, Eq, Structural)]
pub struct EdgeSaveState {
    pub edge_type: PortType,
    /// Position in the saved order: 0 is graph-in, 1 is graph-out, and
    /// saved plugins follow in order.
    pub src_index: usize,
    pub dst_index: usize,
    pub src_channel: u16,
    pub dst_channel: u16,
}

/// A whole saved graph: the plugins' save states and the edges between
/// them, enough to rebuild the session.
#[derive(Debug, Clone)]
pub struct AudioGraphSaveState {
    pub plugins: Vec<PluginSaveState>,
    pub edges: Vec<EdgeSaveState>,
}

/// A request to one plugin instance.
#[derive(Debug, Clone, Copy, PartialEq, Eq, Structural)]
pub enum PluginRequest {
    ShowGui,
    CloseGui,
}

/// Why an engine request was refused.
#[derive(Debug, Clone, Copy, PartialEq, Eq, Structural)]
pub enum EngineError {
    /// The engine is already activated.
    AlreadyActivated,
    /// The engine is not activated.
    NotActivated,
    /// The activation settings are out of range.
    InvalidSettings,
}

/// An activated engine: the graph the main thread edits, one plugin host
/// per node slot, and the schedule the last successful compile produced.
pub struct ActivatedEngine<S: Sample, F: PluginFactory<S>> {
    /// The declarative audio graph.
    pub graph: AudioGraph,
    /// One host per node slot; dead slots hold `None`.
    pub plugin_hosts: Vec<Option<PluginInstanceHost<S, F::MainThread>>>,
    /// The schedule the process thread runs, replaced wholesale by each
    /// successful compile.
    pub schedule: Option<Schedule>,
    /// The shared tempo map, with its version stamp.
    pub tempo_map: TempoMap,
}

/// The engine's main-thread state: the factory plugins are created from,
/// and the activated engine while there is one.
pub struct DSEngineMainThread<S: Sample, F: PluginFactory<S>> {
    /// The factory new plugin instances come from.
    pub factory: F,
    /// The running engine, while activated.
    pub activated: Option<ActivatedEngine<S, F>>,
    /// Ties the engine to its sample type.
    pub marker: core::marker::PhantomData<S>,
}

/// How many slots from position `i` on hold a live value.
pub open spec fn live_count_from<T>(s: Seq<Option<T>>, i: int) -> nat
    decreases s.len() - i,
    when 0 <= i <= s.len()
{
    if i >= s.len() {
        0
    } else {
        (if s[i] is Some {
            1nat
        } else {
            0nat
        }) + live_count_from(s, i + 1)
    }
}

/// How many slots from position `i` on hold both a live graph node and a
/// host — the instances a graph save state captures.
pub open spec fn savable_count<T>(nodes: Seq<NodeDesc>, hosts: Seq<Option<T>>, i: int) -> nat
    decreases hosts.len() - i,
    when 0 <= i <= hosts.len()
{
    if i >= hosts.len() {
        0
    } else {
        (if 0 <= i < nodes.len() && nodes[i].alive && hosts[i] is Some {
            1nat
        } else {
            0nat
        }) + savable_count(nodes, hosts, i + 1)
    }
}

proof fn lemma_savable_same_pattern<T>(
    nodes: Seq<NodeDesc>,
    s1: Seq<Option<T>>,
    s2: Seq<Option<T>>,
    i: int,
)
    requires
        s1.len() == s2.len(),
        0 <= i <= s1.len(),
        forall|k: int| 0 <= k < s1.len() ==> ((#[trigger] s1[k]) is Some <==> s2[k] is Some),
    ensures
        savable_count(nodes, s1, i) == savable_count(nodes, s2, i),
    decreases s1.len() - i,
{
    if i < s1.len() {
        lemma_savable_same_pattern(nodes, s1, s2, i + 1);
    }
}

proof fn lemma_live_count_same_pattern<T>(s1: Seq<Option<T>>, s2: Seq<Option<T>>, i: int)
    requires
        s1.len() == s2.len(),
        0 <= i <= s1.len(),
        forall|k: int| 0 <= k < s1.len() ==> ((#[trigger] s1[k]) is Some <==> s2[k] is Some),
    ensures
        live_count_from(s1, i) == live_count_from(s2, i),
    decreases s1.len() - i,
{
    if i < s1.len() {
        lemma_live_count_same_pattern(s1, s2, i + 1);
    }
}

impl<S: Sample, F: PluginFactory<S>> DSEngineMainThread<S, F> {
    /// The engine invariant: while activated, the graph is well-formed
    /// and there is one host slot per graph node slot.
    pub open spec fn inv(self) -> bool {
        match self.activated {
            Some(engine) => {
                &&& engine.graph.wf()
                &&& engine.plugin_hosts@.len() == engine.graph.nodes_spec().len()
            },
            None => true,
        }
    }

    /// A deactivated engine around a plugin factory.
    pub fn new(factory: F) -> (r: Self)
        ensures
            r.activated is None,
            r.inv(),
    {
        DSEngineMainThread { factory, activated: None, marker: core::marker::PhantomData }
    }

    /// Activates the engine: builds the graph holding only the two
    /// endpoints, connects the default stereo pass-through, and compiles
    /// the first schedule.  Refused exactly when the engine is already
    /// activated or the settings are out of range; the empty graph always
    /// compiles.
    pub fn activate_engine(&mut self, settings: &ActivateEngineSettings) -> (r: Result<
        Schedule,
        EngineError,
    >)
        requires
            old(self).inv(),
        ensures
            final(self).inv(),
            match r {
                Ok(s) => {
                    &&& old(self).activated is None
                    &&& settings.valid_spec()
                    &&& (final(self).activated matches Some(engine) && compiled_for(
                        s,
                        engine.graph,
                    ) && engine.graph.nodes_spec().len() == 2 && (forall|c: int|
                        0 <= c < 2 && c < settings.num_audio_in_channels && c
                            < settings.num_audio_out_channels
                            ==> #[trigger] AudioGraph::contains_edge(
                            engine.graph.edges_spec(),
                            (Edge {
                                edge_type: PortType::Audio,
                                src_node: GRAPH_IN_NODE,
                                dst_node: GRAPH_OUT_NODE,
                                src_channel: c as u16,
                                dst_channel: c as u16,
                            }),
                        )))
                    &&& s.graph_audio_in@.len() == settings.num_audio_in_channels
                    &&& s.graph_audio_out@.len() == settings.num_audio_out_channels
                    &&& s.graph_latency == 0
                },
                Err(e) => {
                    &&& *final(self) == *old(self)
                    &&& (e == EngineError::AlreadyActivated <==> old(self).activated is Some)
                    &&& (old(self).activated is None && !settings.valid_spec() ==> e
                        == EngineError::InvalidSettings)
                },
            },
    {
        if self.activated.is_some() {
            return Err(EngineError::AlreadyActivated);
        }
        if !settings.is_valid() {
            return Err(EngineError::InvalidSettings);
        }

        let mut graph = AudioGraph::new(
            settings.num_audio_in_channels,
            settings.num_audio_out_channels,
            settings.sample_rate,
            settings.min_frames,
            settings.max_frames,
            settings.note_buffer_size,
            settings.event_buffer_size,
        );

        let ghost nodes0 = graph.nodes_spec();
        // Wire the default stereo pass-through; missing channels are
        // simply not connected.
        let mut ch: u16 = 0;
        while ch < 2
            invariant
                graph.wf(),
                graph.nodes_spec() == nodes0,
                graph.nodes_spec().len() == 2,
                nodes0[GRAPH_IN_NODE as int].num_audio_out == settings.num_audio_in_channels,
                nodes0[GRAPH_OUT_NODE as int].num_audio_in == settings.num_audio_out_channels,
                ch <= 2,
                forall|j: int|
                    0 <= j < graph.edges_spec().len() ==> (#[trigger] graph.edges_spec()[
                        j
                    ]).src_node == GRAPH_IN_NODE && graph.edges_spec()[j].dst_node
                        == GRAPH_OUT_NODE && graph.edges_spec()[j].src_channel < ch,
                forall|c: int|
                    0 <= c < ch && c < settings.num_audio_in_channels && c
                        < settings.num_audio_out_channels ==> #[trigger] AudioGraph::contains_edge(
                        graph.edges_spec(),
                        (Edge {
                            edge_type: PortType::Audio,
                            src_node: GRAPH_IN_NODE,
                            dst_node: GRAPH_OUT_NODE,
                            src_channel: c as u16,
                            dst_channel: c as u16,
                        }),
                    ),
            decreases 2 - ch,
        {
            let wanted = Edge {
                edge_type: PortType::Audio,
                src_node: GRAPH_IN_NODE,
                dst_node: GRAPH_OUT_NODE,
                src_channel: ch,
                dst_channel: ch,
            };
            proof {
                // A fresh forward edge between the endpoints cannot close
                // a cycle: no edge ever leaves graph-out.
                assert forall|e: int|
                    0 <= e < graph.edges_spec().len() implies (#[trigger] graph.edges_spec()[
                    e
                ]).src_node != GRAPH_OUT_NODE by {}
                crate::graph::lemma_no_path_from_sourceless(
                    graph.edges_spec(),
                    GRAPH_OUT_NODE,
                    GRAPH_IN_NODE,
                );
                // Nor can it already be present: every present edge has a
                // lower source channel.
                if AudioGraph::contains_edge(graph.edges_spec(), wanted) {
                    let j = choose|j: int|
                        0 <= j < graph.edges_spec().len() && graph.edges_spec()[j] == wanted;
                    assert(false);
                }
            }
            let ghost edges_before = graph.edges_spec();
            let result = graph.connect_edge(wanted);
            proof {
                if ch < settings.num_audio_in_channels && ch < settings.num_audio_out_channels {
                    assert(crate::graph::edge_wf(nodes0, wanted));
                    assert(result is Ok);
                    assert(graph.edges_spec() == edges_before.push(wanted));
                    assert(graph.edges_spec()[graph.edges_spec().len() - 1] == wanted);
                }
                assert forall|c: int|
                    0 <= c < ch + 1 && c < settings.num_audio_in_channels && c
                        < settings.num_audio_out_channels implies #[trigger] AudioGraph::contains_edge(
                    graph.edges_spec(),
                    (Edge {
                        edge_type: PortType::Audio,
                        src_node: GRAPH_IN_NODE,
                        dst_node: GRAPH_OUT_NODE,
                        src_channel: c as u16,
                        dst_channel: c as u16,
                    }),
                ) by {
                    if c < ch {
                        let prior = Edge {
                            edge_type: PortType::Audio,
                            src_node: GRAPH_IN_NODE,
                            dst_node: GRAPH_OUT_NODE,
                            src_channel: c as u16,
                            dst_channel: c as u16,
                        };
                        assert(AudioGraph::contains_edge(edges_before, prior));
                        let j = choose|j: int|
                            0 <= j < edges_before.len() && edges_before[j] == prior;
                        assert(graph.edges_spec()[j] == prior);
                    }
                }
            }
            ch = ch + 1;
        }

        let schedule = match graph.compile() {
            Ok(s) => s,
            Err(_) => {
                // The endpoint-only graph is acyclic and within every
                // resource limit, so this cannot happen; refuse cleanly
                // if it somehow does.
                return Err(EngineError::InvalidSettings);
            },
        };

        proof {
            // With only the two endpoints, graph-in has no incoming audio
            // edge (nothing can end at slot 0), so its upstream latency is
            // zero; every edge runs graph-in to graph-out with zero
            // effective latency, and the attained maximum makes graph-out
            // zero too.
            let nodes = graph.nodes_spec();
            let edges = graph.edges_spec();
            assert(nodes == nodes0);
            assert(nodes[GRAPH_OUT_NODE as int].num_audio_out == 0);
            assert(nodes[GRAPH_OUT_NODE as int].num_note_out_ports == 0);
            assert(!nodes[GRAPH_OUT_NODE as int].has_automation_out);
            assert(nodes[GRAPH_IN_NODE as int].latency == 0);
            assert(!nodes[GRAPH_IN_NODE as int].active);
            assert forall|e: int|
                0 <= e < edges.len() implies (#[trigger] edges[e]).src_node == GRAPH_IN_NODE
                && edges[e].dst_node == GRAPH_OUT_NODE by {
                assert(crate::graph::edge_wf(nodes, edges[e]));
                assert(edges[e].src_node < 2 && edges[e].dst_node < 2);
                if edges[e].src_node == GRAPH_OUT_NODE {
                    assert((edges[e].src_channel as int) < crate::graph::src_channel_count(
                        nodes[GRAPH_OUT_NODE as int],
                        edges[e].edge_type,
                    ));
                    assert(crate::graph::src_channel_count(
                        nodes[GRAPH_OUT_NODE as int],
                        edges[e].edge_type,
                    ) == 0);
                    assert(false);
                }
            }
            assert(!crate::compiler::has_audio_in_edge(edges, GRAPH_IN_NODE as int)) by {
                if crate::compiler::has_audio_in_edge(edges, GRAPH_IN_NODE as int) {
                    let e = choose|e: int|
                        0 <= e < edges.len() && (#[trigger] edges[e]).edge_type
                            == crate::graph::PortType::Audio && edges[e].dst_node
                            == GRAPH_IN_NODE as int;
                    assert(edges[e].dst_node == GRAPH_OUT_NODE);
                }
            }
            assert(schedule.node_latencies@[GRAPH_IN_NODE as int] == 0);
            if crate::compiler::has_audio_in_edge(edges, GRAPH_OUT_NODE as int) {
                assert(nodes[GRAPH_OUT_NODE as int].alive);
                let e = choose|e: int|
                    0 <= e < edges.len() && (#[trigger] edges[e]).edge_type
                        == crate::graph::PortType::Audio && edges[e].dst_node
                        == GRAPH_OUT_NODE as int && schedule.edge_delays@[e] == 0;
                assert(edges[e].src_node == GRAPH_IN_NODE);
                assert(crate::compiler::effective_latency(nodes[GRAPH_IN_NODE as int]) == 0);
                assert(schedule.node_latencies@[GRAPH_IN_NODE as int] + 0 + 0
                    == schedule.node_latencies@[GRAPH_OUT_NODE as int]);
                assert(schedule.node_latencies@[GRAPH_OUT_NODE as int] == 0);
            }
            assert(schedule.graph_latency == 0);
        }

        let mut plugin_hosts: Vec<Option<PluginInstanceHost<S, F::MainThread>>> = Vec::new();
        plugin_hosts.push(
            Some(
                PluginInstanceHost::new_graph_in(
                    graph.graph_in_node_id(),
                    HostRequestChannelReceiver::new(),
                    settings.num_audio_in_channels,
                ),
            ),
        );
        plugin_hosts.push(
            Some(
                PluginInstanceHost::new_graph_out(
                    graph.graph_out_node_id(),
                    HostRequestChannelReceiver::new(),
                    settings.num_audio_out_channels,
                ),
            ),
        );

        self.activated = Some(
            ActivatedEngine {
                graph,
                plugin_hosts,
                schedule: Some(schedule.clone()),
                tempo_map: TempoMap { version: 0, tempo_bits: 0 },
            },
        );
        Ok(schedule)
    }

    /// Deactivates the engine, handing back each live instance's save
    /// state so the session can be restored later.
    pub fn deactivate_engine(&mut self) -> (r: Result<Vec<PluginSaveState>, EngineError>)
        requires
            old(self).inv(),
        ensures
            final(self).inv(),
            final(self).activated is None,
            match r {
                Ok(save_states) => old(self).activated matches Some(engine)
                    && save_states@.len() == live_count_from(engine.plugin_hosts@, 2),
                Err(e) => e == EngineError::NotActivated && old(self).activated is None,
            },
    {
        let mut activated = None;
        core::mem::swap(&mut activated, &mut self.activated);
        match activated {
            None => Err(EngineError::NotActivated),
            Some(mut engine) => {
                let mut save_states: Vec<PluginSaveState> = Vec::new();
                let n = engine.plugin_hosts.len();
                let ghost hosts0 = engine.plugin_hosts@;
                let mut i: usize = 2;
                while i < n
                    invariant
                        n == engine.plugin_hosts@.len(),
                        hosts0.len() == n,
                        2 <= i <= n,
                        forall|k: int|
                            0 <= k < n ==> ((#[trigger] engine.plugin_hosts@[k]) is Some <==> hosts0[
                                k
                            ] is Some),
                        save_states@.len() + live_count_from(hosts0, i as int) == live_count_from(
                            hosts0,
                            2,
                        ),
                    decreases n - i,
                {
                    match &mut engine.plugin_hosts[i] {
                        Some(host) => {
                            save_states.push(host.collect_save_state());
                        },
                        None => {},
                    }
                    i = i + 1;
                }
                proof {
                    lemma_live_count_same_pattern(hosts0, engine.plugin_hosts@, 2);
                }
                Ok(save_states)
            },
        }
    }

    /// Applies one batch of graph edits — disconnects first, then
    /// removals, then additions, then new connections — and recompiles.
    /// Refused only while the engine is deactivated; invalid edits inside
    /// the batch are skipped and reported, never fatal.  On a compile
    /// failure the engine deactivates itself, as a crashed engine does.
    pub fn modify_graph(&mut self, req: &ModifyGraphRequest) -> (r: Result<
        (ModifyGraphRes, Schedule),
        EngineError,
    >)
        requires
            old(self).inv(),
        ensures
            final(self).inv(),
            old(self).activated is None ==> (r matches Err(e) && e == EngineError::NotActivated
                && *final(self) == *old(self)),
            match r {
                Ok((res2, s)) => {
                    &&& old(self).activated is Some
                    &&& (final(self).activated matches Some(engine) && compiled_for(
                        s,
                        engine.graph,
                    )
                    // every requested instance was added, with consecutive
                    // fresh slots, and every reported removal left a dead
                    // slot
                     && res2.new_plugins@.len() == req.add_plugin_instances@.len() && (match old(
                        self,
                    ).activated {
                        Some(e0) => forall|i: int|
                            0 <= i < res2.new_plugins@.len() ==> (
                            #[trigger] res2.new_plugins@[i]).unique_id == e0.graph.nodes_spec()
                                .len() + i,
                        None => false,
                    }) && (forall|i: int|
                        0 <= i < res2.removed_plugins@.len() ==> (
                        #[trigger] res2.removed_plugins@[i]) < engine.graph.nodes_spec().len()
                            && !engine.graph.nodes_spec()[res2.removed_plugins@[i] as int].alive))
                },
                Err(_) => true,
            },
            // a compile failure after activation is fatal: the engine
            // deactivates itself and the caller restores from a save state
            old(self).activated is Some && r is Err ==> final(self).activated is None,
    {
        let mut taken: Option<ActivatedEngine<S, F>> = None;
        core::mem::swap(&mut taken, &mut self.activated);
        match taken {
            None => Err(EngineError::NotActivated),
            Some(mut engine) => {
                let ghost base_len = engine.graph.nodes_spec().len();
                // Disconnect first, so removed edges free their channels
                // for the new ones.
                let dn = req.disconnect_edges.len();
                let mut di: usize = 0;
                while di < dn
                    invariant
                        dn == req.disconnect_edges@.len(),
                        di <= dn,
                        engine.graph.wf(),
                        engine.plugin_hosts@.len() == engine.graph.nodes_spec().len(),
                        engine.graph.nodes_spec().len() == base_len,
                    decreases dn - di,
                {
                    let _ = engine.graph.disconnect_edge(&req.disconnect_edges[di]);
                    di = di + 1;
                }

                // Removals: ask each live instance to deactivate and mark
                // its slot dead.
                let mut removed: Vec<u64> = Vec::new();
                let rn = req.remove_plugin_instances.len();
                let mut ri: usize = 0;
                while ri < rn
                    invariant
                        rn == req.remove_plugin_instances@.len(),
                        ri <= rn,
                        engine.graph.wf(),
                        engine.plugin_hosts@.len() == engine.graph.nodes_spec().len(),
                        engine.graph.nodes_spec().len() == base_len,
                        forall|i: int|
                            0 <= i < removed@.len() ==> (#[trigger] removed@[i])
                                < engine.graph.nodes_spec().len() && !engine.graph.nodes_spec()[
                                removed@[i] as int
                            ].alive,
                    decreases rn - ri,
                {
                    let slot64 = req.remove_plugin_instances[ri];
                    if slot64 < 0x1000_0000 {
                        let slot = slot64 as usize;
                        if slot != GRAPH_IN_NODE && slot != GRAPH_OUT_NODE && slot
                            < engine.plugin_hosts.len() {
                            let was_alive = engine.graph.remove_plugin(slot);
                            if was_alive {
                                match &mut engine.plugin_hosts[slot] {
                                    Some(host) => {
                                        host.schedule_remove();
                                    },
                                    None => {},
                                }
                                removed.push(slot64);
                            }
                        }
                    }
                    ri = ri + 1;
                }

                // Additions: instantiate each new plugin and give it a
                // fresh slot.
                let mut new_plugins: Vec<PluginInstanceID> = Vec::new();
                let an = req.add_plugin_instances.len();
                let mut ai: usize = 0;
                while ai < an
                    invariant
                        an == req.add_plugin_instances@.len(),
                        ai <= an,
                        new_plugins@.len() == ai,
                        engine.graph.wf(),
                        engine.plugin_hosts@.len() == engine.graph.nodes_spec().len(),
                        engine.graph.nodes_spec().len() == base_len + ai,
                        forall|i: int|
                            0 <= i < new_plugins@.len() ==> (#[trigger] new_plugins@[i]).unique_id
                                == base_len + i,
                        forall|i: int|
                            0 <= i < removed@.len() ==> (#[trigger] removed@[i])
                                < engine.graph.nodes_spec().len() && !engine.graph.nodes_spec()[
                                removed@[i] as int
                            ].alive,
                    decreases an - ai,
                {
                    let save_state = &req.add_plugin_instances[ai];
                    let main_thread = match self.factory.instantiate(save_state) {
                        Ok(mt) => Some(mt),
                        Err(_) => None,
                    };
                    let (num_in, num_out): (u16, u16) = match &save_state.backup_audio_ports {
                        Some(ports) => (ports.main_in_channels, ports.main_out_channels),
                        None => (2, 2),
                    };
                    let (note_in, note_out): (u16, u16) = match &save_state.backup_note_ports {
                        Some(ports) => (ports.in_ports, ports.out_ports),
                        None => (0, 0),
                    };
                    let ghost nodes_pre = engine.graph.nodes_spec();
                    let slot_now = engine.graph.num_nodes();
                    let id = engine.graph.add_plugin(
                        NodeDesc {
                            alive: true,
                            active: false,
                            latency: 0,
                            num_audio_in: num_in,
                            num_audio_out: num_out,
                            num_note_in_ports: note_in,
                            num_note_out_ports: note_out,
                            has_automation_out: false,
                            format: save_state.key.format,
                            stable_hash: 0,
                        },
                    );
                    proof {
                        assert(id.unique_id == slot_now as u64);
                        assert(slot_now == base_len + ai);
                        assert forall|i: int|
                            0 <= i < removed@.len() implies (#[trigger] removed@[i])
                            < engine.graph.nodes_spec().len() && !engine.graph.nodes_spec()[
                            removed@[i] as int
                        ].alive by {
                            assert(engine.graph.nodes_spec()[removed@[i] as int] == nodes_pre[
                                removed@[i] as int
                            ]);
                        }
                    }
                    engine.plugin_hosts.push(
                        Some(
                            PluginInstanceHost::new(
                                id,
                                save_state.clone(),
                                main_thread,
                                HostRequestChannelReceiver::new(),
                                None,
                            ),
                        ),
                    );
                    new_plugins.push(id);
                    ai = ai + 1;
                }

                // New connections; failures are collected, and reported
                // loudly only where the request asked for it.
                let mut failed_edges: Vec<(EdgeReq, ConnectEdgeError)> = Vec::new();
                let cn = req.connect_new_edges.len();
                let mut ci: usize = 0;
                while ci < cn
                    invariant
                        cn == req.connect_new_edges@.len(),
                        ci <= cn,
                        engine.graph.wf(),
                        engine.plugin_hosts@.len() == engine.graph.nodes_spec().len(),
                        an == req.add_plugin_instances@.len(),
                        new_plugins@.len() == an,
                        engine.graph.nodes_spec().len() == base_len + an,
                        forall|i: int|
                            0 <= i < new_plugins@.len() ==> (#[trigger] new_plugins@[i]).unique_id
                                == base_len + i,
                        forall|i: int|
                            0 <= i < removed@.len() ==> (#[trigger] removed@[i])
                                < engine.graph.nodes_spec().len() && !engine.graph.nodes_spec()[
                                removed@[i] as int
                            ].alive,
                    decreases cn - ci,
                {
                    let er = req.connect_new_edges[ci];
                    let src_slot: Option<usize> = match er.src_plugin_id {
                        PluginIDReq::Existing(slot64) => if slot64 < 0x1000_0000 {
                            Some(slot64 as usize)
                        } else {
                            None
                        },
                        PluginIDReq::Added(index) => if index < new_plugins.len() {
                            let id64 = new_plugins[index].unique_id;
                            if id64 < 0x1000_0000 {
                                Some(id64 as usize)
                            } else {
                                None
                            }
                        } else {
                            None
                        },
                    };
                    let dst_slot: Option<usize> = match er.dst_plugin_id {
                        PluginIDReq::Existing(slot64) => if slot64 < 0x1000_0000 {
                            Some(slot64 as usize)
                        } else {
                            None
                        },
                        PluginIDReq::Added(index) => if index < new_plugins.len() {
                            let id64 = new_plugins[index].unique_id;
                            if id64 < 0x1000_0000 {
                                Some(id64 as usize)
                            } else {
                                None
                            }
                        } else {
                            None
                        },
                    };
                    match (src_slot, dst_slot) {
                        (Some(src), Some(dst)) => {
                            let res = engine.graph.connect_edge(
                                Edge {
                                    edge_type: er.edge_type,
                                    src_node: src,
                                    dst_node: dst,
                                    src_channel: er.src_port_channel,
                                    dst_channel: er.dst_port_channel,
                                },
                            );
                            match res {
                                Ok(()) => {},
                                Err(e) => {
                                    if er.log_error_on_fail {
                                        failed_edges.push((er, e));
                                    }
                                },
                            }
                        },
                        _ => {
                            if er.log_error_on_fail {
                                failed_edges.push((er, ConnectEdgeError::UnknownEndpoint));
                            }
                        },
                    }
                    ci = ci + 1;
                }

                let res = ModifyGraphRes { new_plugins, removed_plugins: removed, failed_edges };
                match engine.graph.compile() {
                    Ok(schedule) => {
                        engine.schedule = Some(schedule.clone());
                        self.activated = Some(engine);
                        Ok((res, schedule))
                    },
                    Err(_) => {
                        // A failed compile after activation is fatal: the
                        // graph is invalid, so the engine shuts down and
                        // the caller restores from a save state.
                        self.activated = None;
                        Err(EngineError::NotActivated)
                    },
                }
            },
        }
    }

    /// Recompiles the current graph without editing it, as restarts and
    /// plugin activations require.  On a compile failure the engine
    /// deactivates itself.
    pub fn compile_audio_graph(&mut self) -> (r: Result<Schedule, EngineError>)
        requires
            old(self).inv(),
        ensures
            final(self).inv(),
            old(self).activated is None ==> (r matches Err(e) && e == EngineError::NotActivated),
            match r {
                Ok(s) => {
                    &&& old(self).activated is Some
                    &&& (final(self).activated matches Some(engine) && compiled_for(
                        s,
                        engine.graph,
                    )
                    // recompiling edits nothing: the graph is carried over
                     && (match old(self).activated {
                        Some(e0) => engine.graph.nodes_spec() == e0.graph.nodes_spec()
                            && engine.graph.edges_spec() == e0.graph.edges_spec(),
                        None => false,
                    }))
                },
                Err(_) => true,
            },
            // a compile failure after activation is fatal
            old(self).activated is Some && r is Err ==> final(self).activated is None,
    {
        match &mut self.activated {
            None => Err(EngineError::NotActivated),
            Some(engine) => {
                match engine.graph.compile() {
                    Ok(schedule) => {
                        engine.schedule = Some(schedule.clone());
                        Ok(schedule)
                    },
                    Err(_) => {
                        self.activated = None;
                        Err(EngineError::NotActivated)
                    },
                }
            },
        }
    }

    /// The latest save state of every live plugin instance.
    pub fn request_latest_save_state(&mut self) -> (r: Result<Vec<PluginSaveState>, EngineError>)
        requires
            old(self).inv(),
        ensures
            final(self).inv(),
            old(self).activated is None ==> r is Err,
            match r {
                Ok(save_states) => old(self).activated matches Some(engine)
                    && save_states@.len() == live_count_from(engine.plugin_hosts@, 2),
                Err(e) => e == EngineError::NotActivated && old(self).activated is None,
            },
    {
        match &mut self.activated {
            None => Err(EngineError::NotActivated),
            Some(engine) => {
                let mut save_states: Vec<PluginSaveState> = Vec::new();
                let n = engine.plugin_hosts.len();
                let ghost hosts0 = engine.plugin_hosts@;
                proof {
                    assert(n >= 2);
                }
                let mut i: usize = 2;
                while i < n
                    invariant
                        n == engine.plugin_hosts@.len(),
                        hosts0.len() == n,
                        2 <= i <= n,
                        engine.graph.wf(),
                        engine.plugin_hosts@.len() == engine.graph.nodes_spec().len(),
                        forall|k: int|
                            0 <= k < n ==> ((#[trigger] engine.plugin_hosts@[k]) is Some <==> hosts0[
                                k
                            ] is Some),
                        save_states@.len() + live_count_from(hosts0, i as int) == live_count_from(
                            hosts0,
                            2,
                        ),
                    decreases n - i,
                {
                    match &mut engine.plugin_hosts[i] {
                        Some(host) => {
                            save_states.push(host.collect_save_state());
                        },
                        None => {},
                    }
                    i = i + 1;
                }
                proof {
                    lemma_live_count_same_pattern(hosts0, engine.plugin_hosts@, 2);
                }
                Ok(save_states)
            },
        }
    }

    /// Publishes a new tempo map: bumps the shared version stamp and
    /// hands the map to every live plugin.
    pub fn update_tempo_map(&mut self, tempo_bits: u64)
        requires
            old(self).inv(),
        ensures
            final(self).inv(),
            old(self).activated is None ==> *final(self) == *old(self),
            // the new map is published with a bumped version stamp
            match old(self).activated {
                Some(engine) => engine.tempo_map.version < u64::MAX ==> (final(self).activated
                    matches Some(engine2) && engine2.tempo_map.tempo_bits == tempo_bits
                    && engine2.tempo_map.version == engine.tempo_map.version + 1),
                None => true,
            },
    {
        match &mut self.activated {
            None => {},
            Some(engine) => {
                let new_version = if engine.tempo_map.version == u64::MAX {
                    engine.tempo_map.version
                } else {
                    engine.tempo_map.version + 1
                };
                engine.tempo_map = TempoMap { version: new_version, tempo_bits };
                let tempo_map = engine.tempo_map;
                let n = engine.plugin_hosts.len();
                let mut i: usize = 0;
                while i < n
                    invariant
                        n == engine.plugin_hosts@.len(),
                        i <= n,
                        engine.graph.wf(),
                        engine.plugin_hosts@.len() == engine.graph.nodes_spec().len(),
                        engine.tempo_map == tempo_map,
                    decreases n - i,
                {
                    match &mut engine.plugin_hosts[i] {
                        Some(host) => {
                            host.update_tempo_map(&tempo_map);
                        },
                        None => {},
                    }
                    i = i + 1;
                }
            },
        }
    }

    /// Routes a GUI request to one plugin instance.  Unknown instances
    /// are reported and ignored.
    pub fn plugin_request(&mut self, slot: usize, request: PluginRequest) -> (handled: bool)
        requires
            old(self).inv(),
        ensures
            final(self).inv(),
            // handled exactly for a loaded instance in range
            match old(self).activated {
                Some(engine) => handled == (slot < engine.plugin_hosts@.len() && (match engine
                    .plugin_hosts@[slot as int] {
                    Some(h) => h.main_thread is Some,
                    None => false,
                })),
                None => !handled,
            },
    {
        match &mut self.activated {
            None => false,
            Some(engine) => {
                if slot >= engine.plugin_hosts.len() {
                    return false;
                }
                match &mut engine.plugin_hosts[slot] {
                    Some(host) => {
                        match &mut host.main_thread {
                            Some(mt) => {
                                match request {
                                    PluginRequest::ShowGui => {
                                        if !mt.is_gui_open() {
                                            let _ = mt.open_gui();
                                        }
                                    },
                                    PluginRequest::CloseGui => {
                                        if mt.is_gui_open() {
                                            mt.close_gui();
                                        }
                                    },
                                }
                                true
                            },
                            None => false,
                        }
                    },
                    None => false,
                }
            },
        }
    }

    /// The whole graph as a save state: every live instance's save state
    /// plus the edges between them, with slots renumbered to positions.
    pub fn collect_graph_save_state(&mut self) -> (r: Result<AudioGraphSaveState, EngineError>)
        requires
            old(self).inv(),
        ensures
            final(self).inv(),
            old(self).activated is None ==> r is Err,
            // one save state per live instance, in slot order
            match r {
                Ok(st) => match old(self).activated {
                    Some(e0) => st.plugins@.len() == savable_count(
                        e0.graph.nodes_spec(),
                        e0.plugin_hosts@,
                        2,
                    ),
                    None => false,
                },
                Err(e) => e == EngineError::NotActivated && old(self).activated is None,
            },
    {
        match &mut self.activated {
            None => Err(EngineError::NotActivated),
            Some(engine) => {
                // Positions: 0 and 1 are the endpoints; live instances
                // follow in slot order.
                let n = engine.plugin_hosts.len();
                let ghost nodes0 = engine.graph.nodes_spec();
                let ghost hosts0 = engine.plugin_hosts@;
                let mut plugins: Vec<PluginSaveState> = Vec::new();
                let mut position_of_slot: Vec<usize> = Vec::new();
                let mut i: usize = 0;
                while i < n
                    invariant
                        n == engine.plugin_hosts@.len(),
                        hosts0.len() == n,
                        i <= n,
                        position_of_slot@.len() == i,
                        engine.graph.wf(),
                        engine.graph.nodes_spec() == nodes0,
                        engine.plugin_hosts@.len() == engine.graph.nodes_spec().len(),
                        forall|k: int|
                            0 <= k < n ==> ((#[trigger] engine.plugin_hosts@[k]) is Some <==> hosts0[
                                k
                            ] is Some),
                        i <= 2 ==> plugins@.len() == 0,
                        i >= 2 ==> plugins@.len() + 2 <= i,
                        i >= 2 ==> plugins@.len() + savable_count(nodes0, hosts0, i as int)
                            == savable_count(nodes0, hosts0, 2),
                    decreases n - i,
                {
                    if i == GRAPH_IN_NODE {
                        position_of_slot.push(0);
                    } else if i == GRAPH_OUT_NODE {
                        position_of_slot.push(1);
                    } else {
                        let mut position: usize = 0;
                        let mut live = false;
                        if engine.graph.node(i).alive {
                            match &mut engine.plugin_hosts[i] {
                                Some(host) => {
                                    position = plugins.len() + 2;
                                    live = true;
                                    plugins.push(host.collect_save_state());
                                },
                                None => {},
                            }
                        }
                        if live {
                            position_of_slot.push(position);
                        } else {
                            position_of_slot.push(usize::MAX);
                        }
                    }
                    i = i + 1;
                }
                proof {
                    lemma_savable_same_pattern(nodes0, hosts0, engine.plugin_hosts@, 2);
                }

                let mut edges: Vec<EdgeSaveState> = Vec::new();
                let all_edges = engine.graph.edges().clone();
                let m = all_edges.len();
                let mut e: usize = 0;
                while e < m
                    invariant
                        m == all_edges@.len(),
                        e <= m,
                        position_of_slot@.len() == n,
                    decreases m - e,
                {
                    let edge = all_edges[e];
                    if edge.src_node < n && edge.dst_node < n {
                        let src_index = position_of_slot[edge.src_node];
                        let dst_index = position_of_slot[edge.dst_node];
                        if src_index != usize::MAX && dst_index != usize::MAX {
                            edges.push(
                                EdgeSaveState {
                                    edge_type: edge.edge_type,
                                    src_index,
                                    dst_index,
                                    src_channel: edge.src_channel,
                                    dst_channel: edge.dst_channel,
                                },
                            );
                        }
                    }
                    e = e + 1;
                }
                Ok(AudioGraphSaveState { plugins, edges })
            },
        }
    }

    /// Restores a saved graph into the running engine: clears every
    /// instance, re-creates the saved ones in order, reconnects the saved
    /// edges, and recompiles.  Refused while deactivated.
    pub fn restore_audio_graph_from_save_state(&mut self, save_state: &AudioGraphSaveState) -> (r:
        Result<(ModifyGraphRes, Schedule), EngineError>)
        requires
            old(self).inv(),
        ensures
            final(self).inv(),
            old(self).activated is None ==> (r matches Err(e) && e == EngineError::NotActivated
                && *final(self) == *old(self)),
            match r {
                Ok((_, s)) => final(self).activated matches Some(engine) && compiled_for(
                    s,
                    engine.graph,
                ),
                Err(_) => true,
            },
    {
        if self.activated.is_none() {
            return Err(EngineError::NotActivated);
        }
        // Clear: drop every current edge and remove every live
        // non-endpoint instance.
        let mut remove: Vec<u64> = Vec::new();
        let mut disconnect: Vec<Edge> = Vec::new();
        match &self.activated {
            None => {},
            Some(engine) => {
                let all_edges = engine.graph.edges();
                let m = all_edges.len();
                let mut e0: usize = 0;
                while e0 < m
                    invariant
                        m == all_edges@.len(),
                        e0 <= m,
                    decreases m - e0,
                {
                    disconnect.push(all_edges[e0]);
                    e0 = e0 + 1;
                }
                let n = engine.plugin_hosts.len();
                let mut i: usize = 0;
                while i < n
                    invariant
                        n == engine.plugin_hosts@.len(),
                        i <= n,
                    decreases n - i,
                {
                    if i != GRAPH_IN_NODE && i != GRAPH_OUT_NODE && i < 0x1000_0000 {
                        match &engine.plugin_hosts[i] {
                            Some(_) => {
                                remove.push(i as u64);
                            },
                            None => {},
                        }
                    }
                    i = i + 1;
                }
            },
        }
        // Rebuild: add the saved plugins and reconnect the saved edges in
        // one batch.
        let mut connect: Vec<EdgeReq> = Vec::new();
        let en = save_state.edges.len();
        let mut e: usize = 0;
        while e < en
            invariant
                en == save_state.edges@.len(),
                e <= en,
            decreases en - e,
        {
            let es = save_state.edges[e];
            let src_plugin_id = if es.src_index == 0 {
                Some(PluginIDReq::Existing(GRAPH_IN_NODE as u64))
            } else if es.src_index == 1 {
                Some(PluginIDReq::Existing(GRAPH_OUT_NODE as u64))
            } else if es.src_index >= 2 {
                Some(PluginIDReq::Added(es.src_index - 2))
            } else {
                None
            };
            let dst_plugin_id = if es.dst_index == 0 {
                Some(PluginIDReq::Existing(GRAPH_IN_NODE as u64))
            } else if es.dst_index == 1 {
                Some(PluginIDReq::Existing(GRAPH_OUT_NODE as u64))
            } else if es.dst_index >= 2 {
                Some(PluginIDReq::Added(es.dst_index - 2))
            } else {
                None
            };
            match (src_plugin_id, dst_plugin_id) {
                (Some(src), Some(dst)) => {
                    connect.push(
                        EdgeReq {
                            edge_type: es.edge_type,
                            src_plugin_id: src,
                            dst_plugin_id: dst,
                            src_port_id: EdgeReqPortID::Main,
                            src_port_channel: es.src_channel,
                            dst_port_id: EdgeReqPortID::Main,
                            dst_port_channel: es.dst_channel,
                            log_error_on_fail: true,
                        },
                    );
                },
                _ => {},
            }
            e = e + 1;
        }
        let request = ModifyGraphRequest {
            add_plugin_instances: save_state.plugins.clone(),
            remove_plugin_instances: remove,
            connect_new_edges: connect,
            disconnect_edges: disconnect,
        };
        self.modify_graph(&request)
    }

    /// One idle tick over one plugin slot: runs the host's idle work and,
    /// when an activation happened, records the new port layout and
    /// latency in the graph so the next compile sees them.  Returns what
    /// happened, or `None` for an empty or endpoint slot.
    pub fn plugin_on_idle(&mut self, slot: usize) -> (r: Option<
        (OnIdleResult<S, <F::MainThread as PluginMainThread<S>>::AudioThread>, bool),
    >)
        requires
            old(self).inv(),
        ensures
            final(self).inv(),
            old(self).activated is None ==> r is None,
            // an activation is recorded in the graph, so the next compile
            // binds the instance as a live plugin task
            match r {
                Some((OnIdleResult::PluginActivated(_), _)) => (slot != GRAPH_IN_NODE && slot
                    != GRAPH_OUT_NODE) ==> (final(self).activated matches Some(engine) && slot
                    < engine.graph.nodes_spec().len() && engine.graph.nodes_spec()[
                    slot as int
                ].active),
                _ => true,
            },
    {
        match &mut self.activated {
            None => None,
            Some(engine) => {
                if slot >= engine.plugin_hosts.len() || slot >= engine.graph.num_nodes() {
                    return None;
                }
                let sample_rate = engine.graph.sample_rate();
                let min_frames = engine.graph.min_frames();
                let max_frames = engine.graph.max_frames();
                let result: Option<(
                    OnIdleResult<S, <F::MainThread as PluginMainThread<S>>::AudioThread>,
                    bool,
                )> = match &mut engine.plugin_hosts[slot] {
                    Some(host) => Some(host.on_idle(sample_rate, min_frames, max_frames)),
                    None => None,
                };
                match &result {
                    Some((OnIdleResult::PluginActivated(res), _)) if slot != GRAPH_IN_NODE
                        && slot != GRAPH_OUT_NODE => {
                        // Record the activated layout so the next compile
                        // binds the right buffers.
                        let latency: u32 = match &engine.plugin_hosts[slot] {
                            Some(host) => {
                                match &host.main_thread {
                                    Some(mt) => mt.latency(),
                                    None => 0,
                                }
                            },
                            None => 0,
                        };
                        let node = engine.graph.node(slot);
                        let audio = *res.handle.audio_ports();
                        let note = *res.handle.note_ports();
                        let has_auto_out = res.handle.has_automation_out_port();
                        let _ = engine.graph.update_node_layout(
                            slot,
                            NodeDesc {
                                alive: node.alive,
                                active: true,
                                latency,
                                num_audio_in: audio.main_in_channels,
                                num_audio_out: audio.main_out_channels,
                                num_note_in_ports: note.in_ports,
                                num_note_out_ports: note.out_ports,
                                has_automation_out: has_auto_out,
                                format: node.format,
                                stable_hash: node.stable_hash,
                            },
                        );
                    },
                    Some((OnIdleResult::PluginDeactivated, _)) => {
                        engine.graph.set_node_state(slot, false, 0);
                    },
                    Some((OnIdleResult::PluginReadyToRemove, _)) => {
                        engine.plugin_hosts[slot] = None;
                    },
                    _ => {},
                }
                result
            },
        }
    }
}

} // verus!
