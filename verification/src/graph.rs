//! The audio graph model the main thread owns: plugin instances as nodes,
//! and directed audio/note/automation connections between their port
//! channels.
//!
//! A node keeps its slot for the lifetime of the engine — removal leaves a
//! dead slot behind — so a slot index is a stable unique id.  Slots 0 and 1
//! are the two reserved pseudo-plugins *graph-in* and *graph-out* standing
//! for the system audio input and output.

use vstd::prelude::*;

verus! {

/// The slot of the reserved *graph-in* pseudo-plugin.
pub const GRAPH_IN_NODE: usize = 0;

/// The slot of the reserved *graph-out* pseudo-plugin.
pub const GRAPH_OUT_NODE: usize = 1;

/// Where a plugin instance came from.
#[derive(Debug, Clone, Copy, PartialEq, Eq, Structural)]
pub enum PluginFormat {
    /// A plugin built into the host.
    Internal,
    /// A plugin loaded from an external binary.
    External,
}

/// The identity of one plugin instance.  Equality is by the unique id,
/// which doubles as the instance's node slot and is never reused within a
/// run.
#[derive(Debug, Clone, Copy)]
pub struct PluginInstanceID {
    /// The unique numeric id; also the node slot in the graph.
    pub unique_id: u64,
    /// Which kind of plugin this is.
    pub format: PluginFormat,
    /// A stable hash carried for save states.
    pub stable_hash: u64,
}

impl PartialEq for PluginInstanceID {
    fn eq(&self, other: &Self) -> (r: bool) {
        self.unique_id == other.unique_id
    }
}

impl vstd::std_specs::cmp::PartialEqSpecImpl for PluginInstanceID {
    open spec fn obeys_eq_spec() -> bool {
        true
    }

    open spec fn eq_spec(&self, other: &Self) -> bool {
        self.unique_id == other.unique_id
    }
}

/// What kind of data a port carries.
#[derive(Debug, Clone, Copy, PartialEq, Eq, Structural)]
pub enum PortType {
    Audio,
    Note,
    Automation,
}

/// One plugin instance as the graph and its compiler see it.
#[derive(Debug, Clone, Copy, PartialEq, Eq, Structural)]
pub struct NodeDesc {
    /// Whether this slot still holds a live instance.
    pub alive: bool,
    /// Whether the instance is `Active` — inactive instances compile to
    /// pass-through tasks.
    pub active: bool,
    /// The instance's own processing latency in frames; counted only while
    /// it is active.
    pub latency: u32,
    /// Main audio input channels.
    pub num_audio_in: u16,
    /// Main audio output channels.
    pub num_audio_out: u16,
    /// Note input ports.
    pub num_note_in_ports: u16,
    /// Note output ports.
    pub num_note_out_ports: u16,
    /// Whether the plugin emits automation events for other plugins.
    pub has_automation_out: bool,
    /// Which kind of plugin sits in this slot.
    pub format: PluginFormat,
    /// The stable hash of the instance's identity.
    pub stable_hash: u64,
}

/// A directed connection between one source port channel and one
/// destination port channel of the same [`PortType`].
#[derive(Debug, Clone, Copy, PartialEq, Eq, Structural)]
pub struct Edge {
    pub edge_type: PortType,
    /// Source node slot.
    pub src_node: usize,
    /// Destination node slot.
    pub dst_node: usize,
    /// Channel (audio) or port index (note) on the source side.
    pub src_channel: u16,
    /// Channel (audio) or port index (note) on the destination side.
    pub dst_channel: u16,
}

/// Why a connection request was rejected.  A rejected request leaves the
/// graph untouched.
#[derive(Debug, Clone, Copy, PartialEq, Eq, Structural)]
pub enum ConnectEdgeError {
    /// An endpoint slot does not hold a live instance.
    UnknownEndpoint,
    /// The source side has no such output channel or port.
    SrcChannelOutOfRange,
    /// The destination side has no such input channel or port.
    DstChannelOutOfRange,
    /// Source and destination are the same instance.
    SelfLoop,
    /// The edge is already in the graph.
    DuplicateEdge,
    /// Adding the edge would close a cycle.
    WouldCycle,
}

/// How many output channels (audio) or ports (note, automation) a node
/// exposes for a port type.
pub open spec fn src_channel_count(n: NodeDesc, t: PortType) -> int {
    match t {
        PortType::Audio => n.num_audio_out as int,
        PortType::Note => n.num_note_out_ports as int,
        PortType::Automation => if n.has_automation_out {
            1int
        } else {
            0int
        },
    }
}

/// How many input channels (audio) or ports (note, automation) a node
/// exposes for a port type.  Every plugin has one automation input.
pub open spec fn dst_channel_count(n: NodeDesc, t: PortType) -> int {
    match t {
        PortType::Audio => n.num_audio_in as int,
        PortType::Note => n.num_note_in_ports as int,
        PortType::Automation => 1int,
    }
}

/// A well-formed edge over a node table: live distinct endpoints and
/// channels within the ports of its type.
pub open spec fn edge_wf(nodes: Seq<NodeDesc>, e: Edge) -> bool {
    &&& e.src_node < nodes.len()
    &&& e.dst_node < nodes.len()
    &&& e.src_node != e.dst_node
    &&& nodes[e.src_node as int].alive
    &&& nodes[e.dst_node as int].alive
    &&& (e.src_channel as int) < src_channel_count(nodes[e.src_node as int], e.edge_type)
    &&& (e.dst_channel as int) < dst_channel_count(nodes[e.dst_node as int], e.edge_type)
}

/// Whether some edge runs from node `a` to node `b`.
pub open spec fn has_edge_between(edges: Seq<Edge>, a: usize, b: usize) -> bool {
    exists|e: int|
        0 <= e < edges.len() && (#[trigger] edges[e]).src_node == a && edges[e].dst_node == b
}

/// A directed walk through the edges: consecutive nodes are joined by
/// some edge, starting at `from` and ending at `to`.
pub open spec fn is_graph_path(edges: Seq<Edge>, path: Seq<usize>, from: usize, to: usize) -> bool {
    &&& path.len() >= 1
    &&& path[0] == from
    &&& path.last() == to
    &&& forall|i: int|
        0 <= i < path.len() - 1 ==> has_edge_between(edges, #[trigger] path[i], path[i + 1])
}

/// Whether the edges hold a directed path from `from` to `to` (the empty
/// walk makes every node reach itself).
pub open spec fn graph_reachable(edges: Seq<Edge>, from: usize, to: usize) -> bool {
    exists|path: Seq<usize>| is_graph_path(edges, path, from, to)
}

proof fn lemma_path_extend(edges: Seq<Edge>, path: Seq<usize>, from: usize, mid: usize, next: usize)
    requires
        is_graph_path(edges, path, from, mid),
        has_edge_between(edges, mid, next),
    ensures
        is_graph_path(edges, path.push(next), from, mid) || is_graph_path(
            edges,
            path.push(next),
            from,
            next,
        ),
        graph_reachable(edges, from, next),
{
    let longer = path.push(next);
    assert(longer.last() == next);
    assert(longer[0] == from);
    assert forall|i: int|
        0 <= i < longer.len() - 1 implies has_edge_between(
        edges,
        #[trigger] longer[i],
        longer[i + 1],
    ) by {
        if i < path.len() - 1 {
            assert(longer[i] == path[i]);
            assert(longer[i + 1] == path[i + 1]);
            assert(has_edge_between(edges, path[i], path[i + 1]));
        } else {
            assert(longer[i] == path[path.len() - 1]);
            assert(longer[i] == mid);
            assert(longer[i + 1] == next);
        }
    }
    assert(is_graph_path(edges, longer, from, next));
}

/// Law: a node none of the edges leave cannot reach any other node, so
/// an edge set that only ever leaves one fixed source closes no cycle.
pub proof fn lemma_no_path_from_sourceless(edges: Seq<Edge>, from: usize, to: usize)
    requires
        from != to,
        forall|e: int| 0 <= e < edges.len() ==> (#[trigger] edges[e]).src_node != from,
    ensures
        !graph_reachable(edges, from, to),
{
    if graph_reachable(edges, from, to) {
        let path = choose|path: Seq<usize>| is_graph_path(edges, path, from, to);
        assert(path.len() >= 1);
        if path.len() == 1 {
            assert(path[0] == from && path.last() == to);
            assert(false);
        } else {
            assert(has_edge_between(edges, path[0], path[1]));
            let e = choose|e: int|
                0 <= e < edges.len() && (#[trigger] edges[e]).src_node == path[0] && edges[
                    e
                ].dst_node == path[1];
            assert(false);
        }
    }
}

/// The declarative audio graph: node slots, edges, and the global
/// processing parameters the compiler needs.
pub struct AudioGraph {
    nodes: Vec<NodeDesc>,
    edges: Vec<Edge>,
    sample_rate: u32,
    min_frames: u32,
    max_frames: u32,
    note_buffer_size: usize,
    event_buffer_size: usize,
    schedule_version: u64,
}

impl AudioGraph {
    /// The node slots, dead ones included.
    pub closed spec fn nodes_spec(self) -> Seq<NodeDesc> {
        self.nodes@
    }

    /// The current edges.
    pub closed spec fn edges_spec(self) -> Seq<Edge> {
        self.edges@
    }

    /// The engine sample rate in Hz.
    pub closed spec fn sample_rate_spec(self) -> u32 {
        self.sample_rate
    }

    /// The smallest block the engine will process.
    pub closed spec fn min_frames_spec(self) -> u32 {
        self.min_frames
    }

    /// The largest block the engine will process.
    pub closed spec fn max_frames_spec(self) -> u32 {
        self.max_frames
    }

    /// The capacity of each note event buffer.
    pub closed spec fn note_buffer_size_spec(self) -> usize {
        self.note_buffer_size
    }

    /// The capacity of each automation event buffer.
    pub closed spec fn event_buffer_size_spec(self) -> usize {
        self.event_buffer_size
    }

    /// The version the last successful compile produced.
    pub closed spec fn schedule_version_spec(self) -> u64 {
        self.schedule_version
    }

    /// The processing parameters, which graph edits never change.
    pub open spec fn config_spec(self) -> (u32, u32, u32, usize, usize) {
        (
            self.sample_rate_spec(),
            self.min_frames_spec(),
            self.max_frames_spec(),
            self.note_buffer_size_spec(),
            self.event_buffer_size_spec(),
        )
    }

    /// The engine sample rate in Hz.
    pub fn sample_rate(&self) -> (r: u32)
        ensures
            r == self.sample_rate_spec(),
    {
        self.sample_rate
    }

    /// The smallest block the engine will process.
    pub fn min_frames(&self) -> (r: u32)
        ensures
            r == self.min_frames_spec(),
    {
        self.min_frames
    }

    /// The largest block the engine will process.
    pub fn max_frames(&self) -> (r: u32)
        ensures
            r == self.max_frames_spec(),
    {
        self.max_frames
    }

    /// The capacity of each note event buffer.
    pub fn note_buffer_size(&self) -> (r: usize)
        ensures
            r == self.note_buffer_size_spec(),
    {
        self.note_buffer_size
    }

    /// The capacity of each automation event buffer.
    pub fn event_buffer_size(&self) -> (r: usize)
        ensures
            r == self.event_buffer_size_spec(),
    {
        self.event_buffer_size
    }

    /// The version the last successful compile produced.
    pub fn schedule_version(&self) -> (r: u64)
        ensures
            r == self.schedule_version_spec(),
    {
        self.schedule_version
    }

    /// The graph invariant: the two endpoint slots exist and are alive,
    /// and every edge is well-formed over the node table.
    pub open spec fn wf(self) -> bool {
        &&& self.nodes_spec().len() >= 2
        &&& self.nodes_spec()[GRAPH_IN_NODE as int].alive
        &&& self.nodes_spec()[GRAPH_OUT_NODE as int].alive
        &&& self.nodes_spec()[GRAPH_IN_NODE as int].num_audio_in == 0
        &&& self.nodes_spec()[GRAPH_OUT_NODE as int].num_audio_out == 0
        &&& forall|e: int|
            0 <= e < self.edges_spec().len() ==> edge_wf(
                self.nodes_spec(),
                #[trigger] self.edges_spec()[e],
            )
    }

    /// A fresh graph holding only the two endpoints, with the given audio
    /// channel counts on the system input and output.
    pub fn new(
        num_graph_in_channels: u16,
        num_graph_out_channels: u16,
        sample_rate: u32,
        min_frames: u32,
        max_frames: u32,
        note_buffer_size: usize,
        event_buffer_size: usize,
    ) -> (g: Self)
        ensures
            g.wf(),
            g.nodes_spec().len() == 2,
            g.edges_spec().len() == 0,
            g.nodes_spec()[GRAPH_IN_NODE as int].num_audio_out == num_graph_in_channels,
            g.nodes_spec()[GRAPH_OUT_NODE as int].num_audio_in == num_graph_out_channels,
            !g.nodes_spec()[GRAPH_IN_NODE as int].active,
            !g.nodes_spec()[GRAPH_OUT_NODE as int].active,
            g.nodes_spec()[GRAPH_IN_NODE as int].latency == 0,
            g.nodes_spec()[GRAPH_OUT_NODE as int].latency == 0,
            g.nodes_spec()[GRAPH_IN_NODE as int].num_note_in_ports == 0,
            g.nodes_spec()[GRAPH_IN_NODE as int].num_note_out_ports == 0,
            g.nodes_spec()[GRAPH_OUT_NODE as int].num_note_in_ports == 0,
            g.nodes_spec()[GRAPH_OUT_NODE as int].num_note_out_ports == 0,
            !g.nodes_spec()[GRAPH_IN_NODE as int].has_automation_out,
            !g.nodes_spec()[GRAPH_OUT_NODE as int].has_automation_out,
            g.sample_rate_spec() == sample_rate,
            g.min_frames_spec() == min_frames,
            g.max_frames_spec() == max_frames,
            g.note_buffer_size_spec() == note_buffer_size,
            g.event_buffer_size_spec() == event_buffer_size,
            g.schedule_version_spec() == 0,
    {
        let graph_in = NodeDesc {
            alive: true,
            active: false,
            latency: 0,
            num_audio_in: 0,
            num_audio_out: num_graph_in_channels,
            num_note_in_ports: 0,
            num_note_out_ports: 0,
            has_automation_out: false,
            format: PluginFormat::Internal,
            stable_hash: 0,
        };
        let graph_out = NodeDesc {
            alive: true,
            active: false,
            latency: 0,
            num_audio_in: num_graph_out_channels,
            num_audio_out: 0,
            num_note_in_ports: 0,
            num_note_out_ports: 0,
            has_automation_out: false,
            format: PluginFormat::Internal,
            stable_hash: 0,
        };
        let mut nodes: Vec<NodeDesc> = Vec::new();
        nodes.push(graph_in);
        nodes.push(graph_out);
        AudioGraph {
            nodes,
            edges: Vec::new(),
            sample_rate,
            min_frames,
            max_frames,
            note_buffer_size,
            event_buffer_size,
            schedule_version: 0,
        }
    }

    /// The id of the *graph-in* pseudo-plugin.
    pub fn graph_in_node_id(&self) -> (r: PluginInstanceID)
        ensures
            r.unique_id == GRAPH_IN_NODE as u64,
    {
        PluginInstanceID {
            unique_id: GRAPH_IN_NODE as u64,
            format: PluginFormat::Internal,
            stable_hash: 0,
        }
    }

    /// The id of the *graph-out* pseudo-plugin.
    pub fn graph_out_node_id(&self) -> (r: PluginInstanceID)
        ensures
            r.unique_id == GRAPH_OUT_NODE as u64,
    {
        PluginInstanceID {
            unique_id: GRAPH_OUT_NODE as u64,
            format: PluginFormat::Internal,
            stable_hash: 0,
        }
    }

    /// How many node slots exist (dead ones included).
    pub fn num_nodes(&self) -> (r: usize)
        ensures
            r == self.nodes_spec().len(),
    {
        self.nodes.len()
    }

    /// Reads the node in `slot`.
    pub fn node(&self, slot: usize) -> (r: NodeDesc)
        requires
            slot < self.nodes_spec().len(),
        ensures
            r == self.nodes_spec()[slot as int],
    {
        self.nodes[slot]
    }

    /// The current edges, in insertion order.
    pub fn edges(&self) -> (r: &Vec<Edge>)
        ensures
            r@ == self.edges_spec(),
    {
        &self.edges
    }

    /// Adds a new plugin instance and returns its id.  The instance starts
    /// out inactive with no connections.
    pub fn add_plugin(&mut self, desc: NodeDesc) -> (id: PluginInstanceID)
        requires
            old(self).wf(),
        ensures
            final(self).wf(),
            id.unique_id == old(self).nodes_spec().len() as u64,
            final(self).nodes_spec().len() == old(self).nodes_spec().len() + 1,
            final(self).nodes_spec() == old(self).nodes_spec().push(
                (NodeDesc { alive: true, active: false, ..desc }),
            ),
            final(self).edges_spec() == old(self).edges_spec(),
            final(self).schedule_version_spec() == old(self).schedule_version_spec(),
            final(self).config_spec() == old(self).config_spec(),
    {
        let slot = self.nodes.len();
        self.nodes.push(NodeDesc { alive: true, active: false, ..desc });
        proof {
            assert(self.edges_spec() == old(self).edges_spec());
            assert forall|e: int|
                0 <= e < self.edges_spec().len() implies edge_wf(
                self.nodes_spec(),
                #[trigger] self.edges_spec()[e],
            ) by {
                let ev = old(self).edges_spec()[e];
                assert(edge_wf(old(self).nodes_spec(), ev));
                assert(self.nodes_spec()[ev.src_node as int] == old(self).nodes_spec()[ev.src_node as int]);
                assert(self.nodes_spec()[ev.dst_node as int] == old(self).nodes_spec()[ev.dst_node as int]);
            }
        }
        PluginInstanceID {
            unique_id: slot as u64,
            format: desc.format,
            stable_hash: desc.stable_hash,
        }
    }

    /// Marks the instance in `slot` dead and removes every edge touching
    /// it.  The endpoint slots cannot be removed.  Returns whether the slot
    /// held a live instance.
    pub fn remove_plugin(&mut self, slot: usize) -> (removed: bool)
        requires
            old(self).wf(),
            slot != GRAPH_IN_NODE,
            slot != GRAPH_OUT_NODE,
        ensures
            final(self).wf(),
            removed == (slot < old(self).nodes_spec().len() && old(self).nodes_spec()[slot as int].alive),
            final(self).nodes_spec().len() == old(self).nodes_spec().len(),
            removed ==> !final(self).nodes_spec()[slot as int].alive,
            !removed ==> final(self).nodes_spec() == old(self).nodes_spec(),
            forall|i: int|
                0 <= i < old(self).nodes_spec().len() && i != slot ==> final(self).nodes_spec()[i]
                    == #[trigger] old(self).nodes_spec()[i],
            final(self).edges_spec() == old(self).edges_spec().filter(
                |e: Edge| e.src_node != slot && e.dst_node != slot,
            ),
            final(self).schedule_version_spec() == old(self).schedule_version_spec(),
            final(self).config_spec() == old(self).config_spec(),
    {
        if slot >= self.nodes.len() || !self.nodes[slot].alive {
            proof {
                let p = |e: Edge| e.src_node != slot && e.dst_node != slot;
                assert forall|i: int| 0 <= i < self.edges_spec().len() implies p(
                    #[trigger] self.edges_spec()[i],
                ) by {
                    assert(edge_wf(self.nodes_spec(), self.edges_spec()[i]));
                }
                lemma_filter_all(self.edges_spec(), p);
            }
            return false;
        }
        let mut node = self.nodes[slot];
        node.alive = false;
        node.active = false;
        self.nodes[slot] = node;

        let n = self.edges.len();
        let mut kept: Vec<Edge> = Vec::new();
        let mut i: usize = 0;
        while i < n
            invariant
                n == old(self).edges_spec().len(),
                self.edges@ == old(self).edges_spec(),
                i <= n,
                kept@ == old(self).edges_spec().take(i as int).filter(
                    |e: Edge| e.src_node != slot && e.dst_node != slot,
                ),
            decreases n - i,
        {
            let e = self.edges[i];
            proof {
                let p = |e2: Edge| e2.src_node != slot && e2.dst_node != slot;
                assert(old(self).edges_spec().take(i + 1) =~= old(self).edges_spec().take(
                    i as int,
                ).push(e));
                old(self).edges_spec().take(i as int).lemma_filter_push(e, p);
            }
            if !(e.src_node == slot || e.dst_node == slot) {
                kept.push(e);
            }
            i = i + 1;
        }
        proof {
            assert(old(self).edges_spec().take(n as int) =~= old(self).edges_spec());
        }
        self.edges = kept;
        proof {
            let p = |e2: Edge| e2.src_node != slot && e2.dst_node != slot;
            assert forall|e: int|
                0 <= e < self.edges_spec().len() implies edge_wf(
                self.nodes_spec(),
                #[trigger] self.edges_spec()[e],
            ) by {
                let ev = self.edges_spec()[e];
                assert(ev == old(self).edges_spec().filter(p)[e]);
                old(self).edges_spec().lemma_filter_pred(p, e);
                lemma_filter_subset(old(self).edges_spec(), p, e);
                let j = choose|j: int|
                    0 <= j < old(self).edges_spec().len() && old(self).edges_spec()[j] == ev;
                assert(edge_wf(old(self).nodes_spec(), old(self).edges_spec()[j]));
            }
        }
        true
    }

    /// Whether `edges` already holds `e`.
    pub open spec fn contains_edge(edges: Seq<Edge>, e: Edge) -> bool {
        exists|i: int| 0 <= i < edges.len() && edges[i] == e
    }

    fn find_edge(&self, e: &Edge) -> (r: bool)
        ensures
            r == Self::contains_edge(self.edges_spec(), *e),
    {
        let n = self.edges.len();
        let mut i: usize = 0;
        while i < n
            invariant
                n == self.edges_spec().len(),
                i <= n,
                forall|j: int| 0 <= j < i ==> (#[trigger] self.edges_spec()[j]) != *e,
            decreases n - i,
        {
            let c = self.edges[i];
            if c.edge_type == e.edge_type && c.src_node == e.src_node && c.dst_node == e.dst_node
                && c.src_channel == e.src_channel && c.dst_channel == e.dst_channel {
                proof {
                    assert(self.edges_spec()[i as int] == *e);
                }
                return true;
            }
            i = i + 1;
        }
        false
    }

    /// Connects one source port channel to one destination port channel.
    /// The request is validated against the invariant — unknown endpoints,
    /// out-of-range channels, self-loops, duplicates and cycle-closing
    /// edges are each rejected with their own error and leave the graph
    /// unchanged.
    pub fn connect_edge(&mut self, e: Edge) -> (r: Result<(), ConnectEdgeError>)
        requires
            old(self).wf(),
        ensures
            final(self).wf(),
            final(self).nodes_spec() == old(self).nodes_spec(),
            final(self).schedule_version_spec() == old(self).schedule_version_spec(),
            final(self).config_spec() == old(self).config_spec(),
            // success is owed: a well-formed, fresh, non-cycle-closing
            // edge is always connected
            (edge_wf(old(self).nodes_spec(), e) && !Self::contains_edge(old(self).edges_spec(), e)
                && !graph_reachable(old(self).edges_spec(), e.dst_node, e.src_node)) ==> r is Ok,
            match r {
                Ok(()) => {
                    &&& edge_wf(old(self).nodes_spec(), e)
                    &&& !Self::contains_edge(old(self).edges_spec(), e)
                    &&& final(self).edges_spec() == old(self).edges_spec().push(e)
                },
                Err(err) => {
                    &&& final(self).edges_spec() == old(self).edges_spec()
                    // a cycle refusal always names a real path back
                    &&& (err == ConnectEdgeError::WouldCycle ==> graph_reachable(
                        old(self).edges_spec(),
                        e.dst_node,
                        e.src_node,
                    ))
                    &&& (err == ConnectEdgeError::UnknownEndpoint ==> !(e.src_node < old(self).nodes_spec().len() && e.dst_node < old(self).nodes_spec().len() && old(self).nodes_spec()[e.src_node as int].alive && old(self).nodes_spec()[e.dst_node as int].alive))
                    &&& (err == ConnectEdgeError::SelfLoop ==> e.src_node == e.dst_node)
                    &&& (err == ConnectEdgeError::DuplicateEdge ==> Self::contains_edge(
                        old(self).edges_spec(),
                        e,
                    ))
                    &&& (err != ConnectEdgeError::WouldCycle && err != ConnectEdgeError::SelfLoop
                        && err != ConnectEdgeError::UnknownEndpoint && err
                        != ConnectEdgeError::DuplicateEdge ==> !edge_wf(old(self).nodes_spec(), e))
                },
            },
    {
        if e.src_node >= self.nodes.len() || e.dst_node >= self.nodes.len()
            || !self.nodes[e.src_node].alive || !self.nodes[e.dst_node].alive {
            return Err(ConnectEdgeError::UnknownEndpoint);
        }
        if e.src_node == e.dst_node {
            return Err(ConnectEdgeError::SelfLoop);
        }
        let src = self.nodes[e.src_node];
        let dst = self.nodes[e.dst_node];
        let src_count: u16 = match e.edge_type {
            PortType::Audio => src.num_audio_out,
            PortType::Note => src.num_note_out_ports,
            PortType::Automation => if src.has_automation_out {
                1
            } else {
                0
            },
        };
        let dst_count: u16 = match e.edge_type {
            PortType::Audio => dst.num_audio_in,
            PortType::Note => dst.num_note_in_ports,
            PortType::Automation => 1,
        };
        if e.src_channel >= src_count {
            return Err(ConnectEdgeError::SrcChannelOutOfRange);
        }
        if e.dst_channel >= dst_count {
            return Err(ConnectEdgeError::DstChannelOutOfRange);
        }
        if self.find_edge(&e) {
            return Err(ConnectEdgeError::DuplicateEdge);
        }
        if self.reaches(e.dst_node, e.src_node) {
            return Err(ConnectEdgeError::WouldCycle);
        }
        self.edges.push(e);
        proof {
            assert forall|e2: int|
                0 <= e2 < self.edges_spec().len() implies edge_wf(
                self.nodes_spec(),
                #[trigger] self.edges_spec()[e2],
            ) by {
                if e2 < old(self).edges_spec().len() {
                    assert(self.edges_spec()[e2] == old(self).edges_spec()[e2]);
                    assert(edge_wf(old(self).nodes_spec(), old(self).edges_spec()[e2]));
                } else {
                    assert(self.edges_spec()[e2] == e);
                }
            }
        }
        Ok(())
    }

    /// Whether the scan finds a directed path from `from` to `to`
    /// (including the empty path when they are equal).  Used to refuse
    /// edges that would close a cycle: a positive answer always comes
    /// with a real path through the edges.
    fn reaches(&self, from: usize, to: usize) -> (r: bool)
        requires
            self.wf(),
            from < self.nodes_spec().len(),
            to < self.nodes_spec().len(),
        ensures
            r ==> graph_reachable(self.edges_spec(), from, to),
    {
        let n = self.nodes.len();
        let mut reached: Vec<bool> = Vec::new();
        let mut i: usize = 0;
        while i < n
            invariant
                i <= n,
                reached@.len() == i,
                forall|v: int|
                    0 <= v < i && (#[trigger] reached@[v]) ==> graph_reachable(
                        self.edges_spec(),
                        from,
                        v as usize,
                    ),
            decreases n - i,
        {
            reached.push(i == from);
            proof {
                if i == from {
                    let path = seq![from];
                    assert(path.last() == from);
                    assert(is_graph_path(self.edges_spec(), path, from, from));
                }
            }
            i = i + 1;
        }
        // Propagate reachability; n rounds suffice on n nodes.
        let mut round: usize = 0;
        while round < n
            invariant
                reached@.len() == n,
                n == self.nodes_spec().len(),
                self.wf(),
                forall|v: int|
                    0 <= v < n && (#[trigger] reached@[v]) ==> graph_reachable(
                        self.edges_spec(),
                        from,
                        v as usize,
                    ),
            decreases n - round,
        {
            let m = self.edges.len();
            let mut j: usize = 0;
            while j < m
                invariant
                    reached@.len() == n,
                    n == self.nodes_spec().len(),
                    m == self.edges_spec().len(),
                    j <= m,
                    self.wf(),
                    forall|v: int|
                        0 <= v < n && (#[trigger] reached@[v]) ==> graph_reachable(
                            self.edges_spec(),
                            from,
                            v as usize,
                        ),
                decreases m - j,
            {
                let e = self.edges[j];
                proof {
                    assert(edge_wf(self.nodes_spec(), self.edges_spec()[j as int]));
                }
                if reached[e.src_node] && !reached[e.dst_node] {
                    proof {
                        assert(graph_reachable(self.edges_spec(), from, e.src_node));
                        let path = choose|path: Seq<usize>|
                            is_graph_path(self.edges_spec(), path, from, e.src_node);
                        assert(self.edges_spec()[j as int].src_node == e.src_node);
                        assert(has_edge_between(self.edges_spec(), e.src_node, e.dst_node));
                        lemma_path_extend(self.edges_spec(), path, from, e.src_node, e.dst_node);
                    }
                    reached[e.dst_node] = true;
                }
                j = j + 1;
            }
            round = round + 1;
        }
        reached[to]
    }

    /// Removes the given edge if it is present.  Returns whether an edge
    /// was removed.
    pub fn disconnect_edge(&mut self, e: &Edge) -> (removed: bool)
        requires
            old(self).wf(),
        ensures
            final(self).wf(),
            final(self).nodes_spec() == old(self).nodes_spec(),
            final(self).schedule_version_spec() == old(self).schedule_version_spec(),
            final(self).config_spec() == old(self).config_spec(),
            removed == Self::contains_edge(old(self).edges_spec(), *e),
            removed ==> final(self).edges_spec() == old(self).edges_spec().remove_value(*e),
            !removed ==> final(self).edges_spec() == old(self).edges_spec(),
    {
        let n = self.edges.len();
        let mut i: usize = 0;
        while i < n
            invariant
                n == self.edges_spec().len(),
                self.edges@ == old(self).edges_spec(),
                self.nodes@ == old(self).nodes_spec(),
                self.config_spec() == old(self).config_spec(),
                self.schedule_version_spec() == old(self).schedule_version_spec(),
                self.wf(),
                forall|j: int|
                    0 <= j < old(self).edges_spec().len() ==> edge_wf(
                        old(self).nodes_spec(),
                        #[trigger] old(self).edges_spec()[j],
                    ),
                i <= n,
                forall|j: int| 0 <= j < i ==> (#[trigger] self.edges_spec()[j]) != *e,
            decreases n - i,
        {
            let c = self.edges[i];
            if c.edge_type == e.edge_type && c.src_node == e.src_node && c.dst_node == e.dst_node
                && c.src_channel == e.src_channel && c.dst_channel == e.dst_channel {
                proof {
                    assert(self.edges_spec()[i as int] == *e);
                    assert(Self::contains_edge(self.edges_spec(), *e));
                    old(self).edges_spec().index_of_first_ensures(*e);
                }
                self.edges.remove(i);
                proof {
                    assert forall|e2: int|
                        0 <= e2 < self.edges_spec().len() implies edge_wf(
                        self.nodes_spec(),
                        #[trigger] self.edges_spec()[e2],
                    ) by {
                        if e2 < i {
                            assert(self.edges_spec()[e2] == old(self).edges_spec()[e2]);
                        } else {
                            assert(self.edges_spec()[e2] == old(self).edges_spec()[e2 + 1]);
                        }
                        assert(edge_wf(old(self).nodes_spec(), self.edges_spec()[e2]));
                    }
                    assert(self.edges_spec() =~= old(self).edges_spec().remove_value(*e));
                }
                return true;
            }
            i = i + 1;
        }
        false
    }

    fn edge_ok(&self, e: &Edge) -> (r: bool)
        ensures
            r == edge_wf(self.nodes_spec(), *e),
    {
        if e.src_node >= self.nodes.len() || e.dst_node >= self.nodes.len() {
            return false;
        }
        if e.src_node == e.dst_node {
            return false;
        }
        let src = self.nodes[e.src_node];
        let dst = self.nodes[e.dst_node];
        if !src.alive || !dst.alive {
            return false;
        }
        let src_count: u16 = match e.edge_type {
            PortType::Audio => src.num_audio_out,
            PortType::Note => src.num_note_out_ports,
            PortType::Automation => if src.has_automation_out {
                1
            } else {
                0
            },
        };
        let dst_count: u16 = match e.edge_type {
            PortType::Audio => dst.num_audio_in,
            PortType::Note => dst.num_note_in_ports,
            PortType::Automation => 1,
        };
        e.src_channel < src_count && e.dst_channel < dst_count
    }

    /// Replaces the description of the instance in `slot` — as a fresh
    /// activation reports its real port layout and latency — and drops
    /// any edge the new layout can no longer carry.  Returns how many
    /// edges were dropped.
    pub fn update_node_layout(&mut self, slot: usize, desc: NodeDesc) -> (dropped: usize)
        requires
            old(self).wf(),
            slot < old(self).nodes_spec().len(),
            slot == GRAPH_IN_NODE ==> desc.num_audio_in == 0,
            slot == GRAPH_OUT_NODE ==> desc.num_audio_out == 0,
            slot == GRAPH_IN_NODE || slot == GRAPH_OUT_NODE ==> desc.alive,
        ensures
            final(self).wf(),
            final(self).nodes_spec() == old(self).nodes_spec().update(slot as int, desc),
            final(self).schedule_version_spec() == old(self).schedule_version_spec(),
            final(self).config_spec() == old(self).config_spec(),
            // the surviving edges are exactly the old edges the new
            // layout still carries, in order
            final(self).edges_spec() == old(self).edges_spec().filter(
                |e: Edge| edge_wf(old(self).nodes_spec().update(slot as int, desc), e),
            ),
    {
        self.nodes[slot] = desc;
        let n = self.edges.len();
        let mut kept: Vec<Edge> = Vec::new();
        let mut dropped: usize = 0;
        let mut i: usize = 0;
        while i < n
            invariant
                n == self.edges_spec().len(),
                self.nodes@ == old(self).nodes_spec().update(slot as int, desc),
                self.edges@ == old(self).edges_spec(),
                self.config_spec() == old(self).config_spec(),
                self.schedule_version_spec() == old(self).schedule_version_spec(),
                i <= n,
                dropped <= i,
                kept@ == old(self).edges_spec().take(i as int).filter(
                    |e: Edge| edge_wf(old(self).nodes_spec().update(slot as int, desc), e),
                ),
                forall|j: int|
                    0 <= j < kept@.len() ==> edge_wf(self.nodes_spec(), #[trigger] kept@[j]),
            decreases n - i,
        {
            let e = self.edges[i];
            proof {
                let p = |e2: Edge| edge_wf(old(self).nodes_spec().update(slot as int, desc), e2);
                assert(old(self).edges_spec().take(i + 1) =~= old(self).edges_spec().take(
                    i as int,
                ).push(e));
                old(self).edges_spec().take(i as int).lemma_filter_push(e, p);
            }
            if self.edge_ok(&e) {
                kept.push(e);
            } else {
                dropped = dropped + 1;
            }
            i = i + 1;
        }
        proof {
            assert(old(self).edges_spec().take(n as int) =~= old(self).edges_spec());
        }
        self.edges = kept;
        dropped
    }

    /// Advances the schedule version for a successful compile.  Returns
    /// `None`, changing nothing, in the (unreachable in practice) case
    /// that the counter is exhausted.
    pub fn advance_schedule_version(&mut self) -> (r: Option<u64>)
        ensures
            final(self).nodes_spec() == old(self).nodes_spec(),
            final(self).edges_spec() == old(self).edges_spec(),
            final(self).config_spec() == old(self).config_spec(),
            match r {
                Some(ver) => {
                    &&& final(self).schedule_version_spec() == ver
                    &&& ver == old(self).schedule_version_spec() + 1
                },
                None => *final(self) == *old(self),
            },
    {
        if self.schedule_version == u64::MAX {
            return None;
        }
        self.schedule_version = self.schedule_version + 1;
        Some(self.schedule_version)
    }

    /// Marks the instance in `slot` active with the given processing
    /// parameters, or inactive.  Port counts may change only while more
    /// edges do not depend on them; the caller re-validates edges by
    /// recompiling.
    pub fn set_node_state(&mut self, slot: usize, active: bool, latency: u32)
        requires
            old(self).wf(),
            slot < old(self).nodes_spec().len(),
        ensures
            final(self).wf(),
            final(self).nodes_spec() == old(self).nodes_spec().update(
                slot as int,
                (NodeDesc { active, latency, ..old(self).nodes_spec()[slot as int] }),
            ),
            final(self).edges_spec() == old(self).edges_spec(),
            final(self).schedule_version_spec() == old(self).schedule_version_spec(),
            final(self).config_spec() == old(self).config_spec(),
    {
        let mut node = self.nodes[slot];
        node.active = active;
        node.latency = latency;
        self.nodes[slot] = node;
        proof {
            assert(self.edges_spec() == old(self).edges_spec());
            assert forall|e: int|
                0 <= e < self.edges_spec().len() implies edge_wf(
                self.nodes_spec(),
                #[trigger] self.edges_spec()[e],
            ) by {
                let ev = old(self).edges_spec()[e];
                assert(edge_wf(old(self).nodes_spec(), ev));
                assert(self.nodes_spec()[ev.src_node as int].alive == old(self).nodes_spec()[ev.src_node as int].alive);
                assert(src_channel_count(self.nodes_spec()[ev.src_node as int], ev.edge_type)
                    == src_channel_count(old(self).nodes_spec()[ev.src_node as int], ev.edge_type));
                assert(dst_channel_count(self.nodes_spec()[ev.dst_node as int], ev.edge_type)
                    == dst_channel_count(old(self).nodes_spec()[ev.dst_node as int], ev.edge_type));
            }
        }
    }
}

proof fn lemma_filter_subset<A>(s: Seq<A>, p: spec_fn(A) -> bool, i: int)
    requires
        0 <= i < s.filter(p).len(),
    ensures
        s.contains(s.filter(p)[i]),
    decreases s.len(),
{
    reveal(Seq::filter);
    if s.len() > 0 {
        let sub = s.drop_last().filter(p);
        if p(s.last()) && i == sub.len() {
            assert(s.filter(p)[i] == s.last());
            assert(s[s.len() - 1] == s.last());
        } else {
            lemma_filter_subset(s.drop_last(), p, i);
            let j = choose|j: int| 0 <= j < s.drop_last().len() && s.drop_last()[j] == sub[i];
            assert(s[j] == sub[i]);
        }
    }
}

proof fn lemma_filter_all<A>(s: Seq<A>, p: spec_fn(A) -> bool)
    requires
        forall|i: int| 0 <= i < s.len() ==> p(#[trigger] s[i]),
    ensures
        s.filter(p) == s,
    decreases s.len(),
{
    reveal(Seq::filter);
    if s.len() > 0 {
        lemma_filter_all(s.drop_last(), p);
    }
    assert(s.filter(p) =~= s);
}

} // verus!
