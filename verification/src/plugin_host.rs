//! The plugin host: the lifecycle of one plugin instance across the main
//! thread and the audio thread.
//!
//! Plugins are reached through two capability traits — a main-thread facet
//! and an audio-thread facet — so a built-in plugin and a foreign-format
//! plugin look identical to the core.  The traits are implemented by the
//! host's users; nothing here depends on what a plugin computes, only on
//! the statuses it reports.

use vstd::prelude::*;

use crate::buffer::BufferPool;
use crate::buffer::pool_shape_eq;
use crate::buffer::Sample;
use crate::compiler::PluginTask;
use crate::executor::ProcInfo;
use crate::graph::PluginFormat;
use crate::graph::PluginInstanceID;
use crate::params::AudioToMainParamValue;
use crate::params::ParamGestureInfo;
use crate::params::ParamInfo;
use crate::params::ParamModifiedInfo;
use crate::params::ParamQueuesAudioThread;
use crate::params::PluginParamsExt;
use crate::params::ReducingQueue;
use crate::params::lookup;
use crate::params::set_model;
use crate::proc_events::ProcEvent;
use crate::proc_events::is_note_event;
use crate::proc_events::ProcEventQueue;
use crate::state::PluginState;
use crate::state::SharedPluginState;
use crate::state::state_transition_allowed;

verus! {

/// The audio port configuration a plugin reports: its main input and
/// output channel counts.
#[derive(Debug, Clone, Copy, PartialEq, Eq, Structural)]
pub struct PluginAudioPortsExt {
    pub main_in_channels: u16,
    pub main_out_channels: u16,
}

impl PluginAudioPortsExt {
    /// All input channels of the layout.
    pub fn total_in_channels(&self) -> (r: u16)
        ensures
            r == self.main_in_channels,
    {
        self.main_in_channels
    }

    /// All output channels of the layout.
    pub fn total_out_channels(&self) -> (r: u16)
        ensures
            r == self.main_out_channels,
    {
        self.main_out_channels
    }
}

/// The note port configuration a plugin reports.
#[derive(Debug, Clone, Copy, PartialEq, Eq, Structural)]
pub struct PluginNotePortsExt {
    pub in_ports: u16,
    pub out_ports: u16,
}

/// The identity a plugin was scanned under: its reverse-domain name and
/// format.
#[derive(Debug, Clone, PartialEq, Eq)]
pub struct ScannedPluginKey {
    pub rdn: String,
    pub format: PluginFormat,
}

/// An opaque preset: bytes the plugin produced, with the plugin version
/// that produced them.
#[derive(Debug, Clone, PartialEq, Eq)]
pub struct PluginPreset {
    pub version: Option<String>,
    pub bytes: Vec<u8>,
}

/// Everything needed to re-create a plugin instance.
#[derive(Debug, Clone, PartialEq, Eq)]
pub struct PluginSaveState {
    pub key: ScannedPluginKey,
    pub is_active: bool,
    pub backup_audio_ports: Option<PluginAudioPortsExt>,
    pub backup_note_ports: Option<PluginNotePortsExt>,
    pub preset: Option<PluginPreset>,
}

/// The musical timeline shared with plugins, as plain values: a version
/// stamp and the tempo (an `f64`, travelling as its bit pattern).
#[derive(Debug, Clone, Copy, PartialEq, Eq, Structural)]
pub struct TempoMap {
    pub version: u64,
    pub tempo_bits: u64,
}

/// The plugin asked for a full restart (deactivate and activate again).
pub const HOST_REQUEST_RESTART: u32 = 1;

/// The plugin asked to be processed (woken from sleep).
pub const HOST_REQUEST_PROCESS: u32 = 2;

/// The plugin asked for a callback on the main thread.
pub const HOST_REQUEST_CALLBACK: u32 = 4;

/// The plugin's GUI was closed by the user.
pub const HOST_REQUEST_GUI_CLOSED: u32 = 8;

/// The plugin's GUI was destroyed.
pub const HOST_REQUEST_GUI_DESTROYED: u32 = 16;

/// The flag channel a plugin raises asynchronous requests on; the main
/// thread drains it once per idle tick.  In the running engine this is an
/// atomic bit set.
pub struct HostRequestChannelReceiver {
    flags: u32,
}

impl HostRequestChannelReceiver {
    /// The requests currently pending.
    pub closed spec fn flags_spec(self) -> u32 {
        self.flags
    }

    /// A channel with nothing pending.
    pub fn new() -> (c: Self)
        ensures
            c.flags_spec() == 0,
    {
        HostRequestChannelReceiver { flags: 0 }
    }

    /// Raises request flags, as the plugin side does.
    pub fn request(&mut self, flags: u32)
        ensures
            final(self).flags_spec() == (old(self).flags_spec() | flags),
    {
        self.flags = self.flags | flags;
    }

    /// Takes all pending requests, leaving none.
    pub fn fetch_requests(&mut self) -> (r: u32)
        ensures
            r == old(self).flags_spec(),
            final(self).flags_spec() == 0,
    {
        let r = self.flags;
        self.flags = 0;
        r
    }
}

/// What a plugin reports after processing one block.
#[derive(Debug, Clone, Copy, PartialEq, Eq, Structural)]
pub enum ProcessStatus {
    /// Keep processing.
    Continue,
    /// Keep processing unless every input is silent.
    ContinueIfNotQuiet,
    /// The plugin is ringing out a tail.
    Tail,
    /// The plugin can go to sleep until woken.
    Sleep,
    /// Processing failed; discard the block.
    Error,
}

/// The audio-side processing state of one plugin instance.
#[derive(Debug, Clone, Copy, PartialEq, Eq, Structural)]
pub enum ProcessingState {
    WaitingForStart,
    Started(ProcessStatus),
    Stopped,
    Errored,
}

/// The audio-thread facet of a plugin.  The host promises valid buffer
/// indices; the plugin promises to leave the pools' shapes alone and is
/// otherwise free to compute anything.
///
/// Implementations live outside this crate and are not verified, so the
/// shape-preservation promise of `process` is assumed of them, not
/// checked.
pub trait PluginAudioThread<S: Sample>: Sized {
    /// Called before the first `process` after a pause.  An error means
    /// the host must not call `process` this cycle.
    fn start_processing(&mut self) -> (r: Result<(), ()>);

    /// Called when the host pauses the plugin.
    fn stop_processing(&mut self);

    /// Processes one block: reads the `audio_in` buffers and `in_events`,
    /// writes the `audio_out` buffers and `out_events`.
    fn process(
        &mut self,
        proc_info: &ProcInfo,
        pool: &mut BufferPool<S>,
        audio_in: &Vec<usize>,
        audio_out: &Vec<usize>,
        in_events: &ProcEventQueue,
        out_events: &mut ProcEventQueue,
    ) -> (r: ProcessStatus)
        requires
            forall|i: int|
                0 <= i < audio_in@.len() ==> (#[trigger] audio_in@[i]) < old(pool).num_buffers_spec(),
            forall|i: int|
                0 <= i < audio_out@.len() ==> (#[trigger] audio_out@[i]) < old(pool).num_buffers_spec(),
        ensures
            pool_shape_eq(*old(pool), *final(pool)),
            forall|b: int|
                0 <= b < old(pool).num_buffers_spec() && !audio_out@.contains(b as usize)
                    ==> #[trigger] final(pool).buf_spec(b) == old(pool).buf_spec(b),
    ;

    /// Applies pending parameter events outside of processing.
    fn param_flush(&mut self, in_events: &ProcEventQueue, out_events: &mut ProcEventQueue);
}

/// The main-thread facet of a plugin.
pub trait PluginMainThread<S: Sample>: Sized {
    /// The audio-thread object `activate` hands back.
    type AudioThread: PluginAudioThread<S>;

    /// Restores the plugin from preset bytes.
    fn load_state(&mut self, preset: &Vec<u8>) -> (r: Result<(), String>);

    /// Collects the plugin's preset bytes, if it has any.
    fn collect_save_state(&mut self) -> (r: Result<Option<Vec<u8>>, String>);

    /// The plugin's current audio port layout.
    fn audio_ports_ext(&mut self) -> (r: Result<PluginAudioPortsExt, String>);

    /// The plugin's current note port layout.
    fn note_ports_ext(&mut self) -> (r: Result<PluginNotePortsExt, String>);

    /// How many parameters the plugin exposes.
    fn num_params(&mut self) -> (r: u32);

    /// The description of the parameter at `index`.
    fn param_info(&mut self, index: u32) -> (r: Result<ParamInfo, ()>);

    /// The current plain value of the parameter with stable id `id`, as
    /// `f64` bits.
    fn param_value(&mut self, id: u32) -> (r: Result<u64, ()>);

    /// The plugin's processing latency in frames, valid once activated.
    fn latency(&self) -> (r: u32);

    /// Prepares the plugin for processing and returns its audio-thread
    /// facet.
    fn activate(&mut self, sample_rate: u32, min_frames: u32, max_frames: u32) -> (r: Result<
        Self::AudioThread,
        String,
    >);

    /// Releases what `activate` prepared; called only after the
    /// audio-thread facet was dropped.
    fn deactivate(&mut self);

    /// Runs a main-thread callback the plugin asked for.
    fn on_main_thread(&mut self);

    /// Whether the plugin emits automation events for other plugins.
    /// Plugins always have an automation input.
    fn has_automation_out_port(&self) -> (r: bool);

    /// Hands the plugin a new tempo map.
    fn update_tempo_map(&mut self, tempo_map: &TempoMap);

    /// Whether the plugin's GUI is open.
    fn is_gui_open(&self) -> (r: bool);

    /// Opens the plugin's GUI.
    fn open_gui(&mut self) -> (r: Result<(), String>);

    /// Closes the plugin's GUI.
    fn close_gui(&mut self);

    /// Tells the plugin its GUI was closed (`destroyed` when the window
    /// is gone for good).
    fn on_gui_closed(&mut self, destroyed: bool);
}

/// Whether any connected note input of a plugin task holds a note-kind
/// event waiting to be routed.
pub open spec fn note_in_pending(event_pool: Seq<ProcEventQueue>, note_in: Seq<Vec<usize>>) -> bool {
    exists|p: int, j: int, x: int|
        0 <= p < note_in.len() && 0 <= j < note_in[p]@.len() && 0 <= x < event_pool[note_in[p]@[
            j
        ] as int].view_spec().len() && is_note_event(
            #[trigger] event_pool[note_in[p]@[j] as int].view_spec()[x],
        )
}

/// The processing state a block effectively starts from: a pending
/// start-processing request re-arms a paused plugin.
pub open spec fn effective_entry_state(p: ProcessingState, wake: bool) -> ProcessingState {
    if wake && !(p is Started) {
        ProcessingState::WaitingForStart
    } else {
        p
    }
}

/// Whether `flags` contains any bit of `mask`.
pub open spec fn intersects_flags(flags: u32, mask: u32) -> bool {
    flags & mask != 0
}


/// The audio-thread side of one hosted plugin instance: the plugin's
/// audio-thread facet, its private event buffers, the parameter queues and
/// the local processing state.
pub struct PluginInstanceHostAudioThread<S: Sample, P: PluginAudioThread<S>> {
    /// The identity of the instance this belongs to.
    pub id: PluginInstanceID,
    plugin: P,
    /// The audio-thread ends of the instance's parameter queues, when it
    /// has parameters.  The shell is the SPSC transport: the main thread
    /// writes UI values into `ui_to_audio_param_value_rx` /
    /// `ui_to_audio_param_mod_rx` through
    /// [`crate::params::PluginParamsExt::set_value`], and drains
    /// `audio_to_main_param_value_tx` through
    /// [`PluginInstanceHost::drain_param_updates`] on each idle tick.
    pub param_queues: Option<ParamQueuesAudioThread>,
    in_events: ProcEventQueue,
    out_events: ProcEventQueue,
    /// Which parameters are currently inside a user gesture.
    is_adjusting_parameter: Vec<(u32, bool)>,
    processing_state: ProcessingState,
    marker: core::marker::PhantomData<S>,
}

impl<S: Sample, P: PluginAudioThread<S>> PluginInstanceHostAudioThread<S, P> {
    /// The local processing state.
    pub closed spec fn processing_state_spec(self) -> ProcessingState {
        self.processing_state
    }

    /// The parameter queues, when the plugin has parameters.
    pub closed spec fn param_queues_spec(self) -> Option<ParamQueuesAudioThread> {
        self.param_queues
    }

    /// The plugin's private input event buffer.
    pub closed spec fn in_events_spec(self) -> Seq<ProcEvent> {
        self.in_events.view_spec()
    }

    /// The parameter queues never hold two pending entries for one key.
    pub open spec fn wf(self) -> bool {
        match self.param_queues_spec() {
            Some(q) => q.wf(),
            None => true,
        }
    }

    /// Wraps a freshly activated plugin.
    pub fn new(
        id: PluginInstanceID,
        plugin: P,
        param_queues: Option<ParamQueuesAudioThread>,
        event_capacity: usize,
    ) -> (host: Self)
        requires
            match param_queues {
                Some(q) => q.wf(),
                None => true,
            },
        ensures
            host.processing_state_spec() == ProcessingState::WaitingForStart,
            host.param_queues_spec() == param_queues,
            host.wf(),
    {
        PluginInstanceHostAudioThread {
            id,
            plugin,
            param_queues,
            in_events: ProcEventQueue::new(event_capacity),
            out_events: ProcEventQueue::new(event_capacity),
            is_adjusting_parameter: Vec::new(),
            processing_state: ProcessingState::WaitingForStart,
            marker: core::marker::PhantomData,
        }
    }

    /// Releases the plugin's audio-thread state, as dropping the sibling
    /// does in the running engine: stops processing if it was started and
    /// tells the main thread the instance is ready to deactivate.
    pub fn shutdown(&mut self, shared: &mut SharedPluginState)
        requires
            state_transition_allowed(
                old(shared).state_spec(),
                PluginState::DroppedAndReadyToDeactivate,
            ),
        ensures
            final(shared).state_spec() == PluginState::DroppedAndReadyToDeactivate,
    {
        if matches!(self.processing_state, ProcessingState::Started(_)) {
            self.plugin.stop_processing();
        }
        shared.set_state(PluginState::DroppedAndReadyToDeactivate);
    }

    /// Runs the plugin for one block: drains the parameter queues and the
    /// connected event buffers into the plugin's input events, decides
    /// whether the plugin must be started, stopped or left asleep, runs
    /// it, and routes its output events to the main thread and the
    /// connected output buffers.  Every lifecycle transition it takes
    /// follows the state table.
    #[verifier::rlimit(60)]
    pub fn process(
        &mut self,
        proc_info: &ProcInfo,
        pool: &mut BufferPool<S>,
        event_pool: &mut Vec<ProcEventQueue>,
        task: &PluginTask,
        shared: &mut SharedPluginState,
    )
        requires
            old(self).wf(),
            old(shared).state_spec() == PluginState::Active || old(shared).state_spec()
                == PluginState::WaitingToDrop,
            proc_info.frames >= 1,
            forall|i: int|
                0 <= i < task.audio_in@.len() ==> (#[trigger] task.audio_in@[i]) < old(pool).num_buffers_spec(),
            forall|i: int|
                0 <= i < task.audio_out@.len() ==> (#[trigger] task.audio_out@[i]) < old(pool).num_buffers_spec(),
            forall|i: int|
                0 <= i < task.audio_in@.len() ==> proc_info.frames <= old(pool).buf_spec(
                    (#[trigger] task.audio_in@[i]) as int,
                ).len(),
            forall|i: int|
                0 <= i < task.audio_out@.len() ==> proc_info.frames <= old(pool).buf_spec(
                    (#[trigger] task.audio_out@[i]) as int,
                ).len(),
            forall|i: int|
                0 <= i < task.automation_in_buffers@.len() ==> (
                #[trigger] task.automation_in_buffers@[i]) < old(event_pool)@.len(),
            (task.automation_out_buffer matches Some(b) ==> b < old(event_pool)@.len()),
            forall|i: int, j: int|
                0 <= i < task.note_in_buffers@.len() && 0 <= j < task.note_in_buffers@[i].len()
                    ==> (#[trigger] task.note_in_buffers@[i][j]) < old(event_pool)@.len(),
            forall|i: int|
                0 <= i < task.note_out_buffers@.len() ==> (#[trigger] task.note_out_buffers@[i])
                    < old(event_pool)@.len(),
        ensures
            final(self).wf(),
            pool_shape_eq(*old(pool), *final(pool)),
            final(event_pool)@.len() == old(event_pool)@.len(),
            state_transition_allowed(old(shared).state_spec(), final(shared).state_spec()),
            old(shared).state_spec() == PluginState::WaitingToDrop ==> final(shared).state_spec()
                == PluginState::WaitingToDrop,
            // the input event buffer never carries events into the next
            // block
            final(self).in_events_spec().len() == 0,
            // only the task's own output buffers are written
            forall|b: int|
                0 <= b < old(pool).num_buffers_spec() && !task.audio_out@.contains(b as usize)
                    ==> #[trigger] final(pool).buf_spec(b) == old(pool).buf_spec(b),
            // told to drop: the instance runs nothing, hands out silence
            // and empty event outputs, and keeps its processing state for
            // the hand-off
            old(shared).state_spec() == PluginState::WaitingToDrop ==> {
                &&& (forall|k: int, i: int|
                    0 <= k < task.audio_out@.len() && 0 <= i < proc_info.frames
                        ==> #[trigger] final(pool).buf_spec(task.audio_out@[k] as int)[i]
                        == S::zero_spec())
                &&& (task.automation_out_buffer matches Some(b) ==> final(event_pool)@[
                    b as int
                ].view_spec().len() == 0)
                &&& (forall|x: int|
                    0 <= x < task.note_out_buffers@.len() ==> final(event_pool)@[(
                    #[trigger] task.note_out_buffers@[x]) as int].view_spec().len() == 0)
                &&& final(self).processing_state_spec() == old(self).processing_state_spec()
            },
            // a plugin that failed to start processing stays silent
            (old(shared).state_spec() != PluginState::WaitingToDrop && old(self).processing_state_spec() == ProcessingState::Errored && !old(shared).start_processing_spec()) ==> {
                &&& (forall|k: int, i: int|
                    0 <= k < task.audio_out@.len() && 0 <= i < proc_info.frames
                        ==> #[trigger] final(pool).buf_spec(task.audio_out@[k] as int)[i]
                        == S::zero_spec())
                &&& (task.automation_out_buffer matches Some(b) ==> final(event_pool)@[
                    b as int
                ].view_spec().len() == 0)
                &&& (forall|x: int|
                    0 <= x < task.note_out_buffers@.len() ==> final(event_pool)@[(
                    #[trigger] task.note_out_buffers@[x]) as int].view_spec().len() == 0)
                &&& final(self).processing_state_spec() == ProcessingState::Errored
                &&& final(shared).state_spec() == old(shared).state_spec()
            },
            // a sleeping plugin with no note to wake it hands out silence
            // and keeps sleeping
            (old(shared).state_spec() != PluginState::WaitingToDrop && effective_entry_state(
                old(self).processing_state_spec(),
                old(shared).start_processing_spec(),
            ) == ProcessingState::Stopped && !note_in_pending(
                old(event_pool)@,
                task.note_in_buffers@,
            )) ==> {
                &&& (forall|k: int, i: int|
                    0 <= k < task.audio_out@.len() && 0 <= i < proc_info.frames
                        ==> #[trigger] final(pool).buf_spec(task.audio_out@[k] as int)[i]
                        == S::zero_spec())
                &&& (task.automation_out_buffer matches Some(b) ==> final(event_pool)@[
                    b as int
                ].view_spec().len() == 0)
                &&& (forall|x: int|
                    0 <= x < task.note_out_buffers@.len() ==> final(event_pool)@[(
                    #[trigger] task.note_out_buffers@[x]) as int].view_spec().len() == 0)
                &&& final(self).processing_state_spec() == ProcessingState::Stopped
                &&& final(shared).state_spec() == old(shared).state_spec()
            },
            // silent inputs put a quiet-sensitive plugin to sleep for the
            // block
            (old(shared).state_spec() != PluginState::WaitingToDrop && effective_entry_state(
                old(self).processing_state_spec(),
                old(shared).start_processing_spec(),
            ) == ProcessingState::Started(ProcessStatus::ContinueIfNotQuiet) && !note_in_pending(
                old(event_pool)@,
                task.note_in_buffers@,
            ) && old(pool).buffers_silent_spec(task.audio_in@, proc_info.frames as int)) ==> {
                &&& (forall|k: int, i: int|
                    0 <= k < task.audio_out@.len() && 0 <= i < proc_info.frames
                        ==> #[trigger] final(pool).buf_spec(task.audio_out@[k] as int)[i]
                        == S::zero_spec())
                &&& (task.automation_out_buffer matches Some(b) ==> final(event_pool)@[
                    b as int
                ].view_spec().len() == 0)
                &&& (forall|x: int|
                    0 <= x < task.note_out_buffers@.len() ==> final(event_pool)@[(
                    #[trigger] task.note_out_buffers@[x]) as int].view_spec().len() == 0)
                &&& final(self).processing_state_spec() == ProcessingState::Stopped
                &&& final(shared).state_spec() == old(shared).state_spec()
            },
    {
        // Always clear the event and note output buffers first.
        if let Some(b) = task.automation_out_buffer {
            event_pool[b].clear();
        }
        let non = task.note_out_buffers.len();
        let mut no: usize = 0;
        while no < non
            invariant
                non == task.note_out_buffers@.len(),
                no <= non,
                event_pool@.len() == old(event_pool)@.len(),
                pool_shape_eq(*old(pool), *pool),
                *pool == *old(pool),
                forall|i: int|
                    0 <= i < non ==> (#[trigger] task.note_out_buffers@[i])
                        < event_pool@.len(),
                (task.automation_out_buffer matches Some(b) ==> b < event_pool@.len()),
                (task.automation_out_buffer matches Some(b) ==> event_pool@[
                    b as int
                ].view_spec().len() == 0),
                forall|x: int|
                    0 <= x < no ==> event_pool@[(#[trigger] task.note_out_buffers@[x]) as int]
                        .view_spec().len() == 0,
                forall|b2: int|
                    0 <= b2 < event_pool@.len() ==> ((#[trigger] event_pool@[b2]).view_spec()
                        == old(event_pool)@[b2].view_spec() || event_pool@[b2].view_spec().len()
                        == 0),
            decreases non - no,
        {
            let b = task.note_out_buffers[no];
            let ghost ep_pre = event_pool@;
            event_pool[b].clear();
            proof {
                assert forall|x: int|
                    0 <= x < no + 1 implies event_pool@[(
                    #[trigger] task.note_out_buffers@[x]) as int].view_spec().len() == 0 by {
                    if task.note_out_buffers@[x] != b {
                        assert(event_pool@[task.note_out_buffers@[x] as int] == ep_pre[
                            task.note_out_buffers@[x] as int
                        ]);
                    }
                }
                assert forall|b2: int|
                    0 <= b2 < event_pool@.len() implies ((#[trigger] event_pool@[b2]).view_spec()
                    == old(event_pool)@[b2].view_spec() || event_pool@[b2].view_spec().len()
                    == 0) by {
                    if b2 != b {
                        assert(event_pool@[b2] == ep_pre[b2]);
                    }
                }
                match task.automation_out_buffer {
                    Some(ab) => {
                        if ab != b {
                            assert(event_pool@[ab as int] == ep_pre[ab as int]);
                        }
                    },
                    None => {},
                }
            }
            no = no + 1;
        }

        let state = shared.get_state();

        // The main thread wants this instance gone: stop and go quiet.
        if matches!(state, PluginState::WaitingToDrop) {
            if matches!(self.processing_state, ProcessingState::Started(_)) {
                self.plugin.stop_processing();
            }
            clear_task_outputs(pool, task, proc_info.frames);
            self.in_events.clear();
            proof {
                crate::buffer::lemma_pool_shape_trans(*old(pool), *old(pool), *pool);
            }
            return ;
        }
        if shared.take_start_processing() {
            if !matches!(self.processing_state, ProcessingState::Started(_)) {
                self.processing_state = ProcessingState::WaitingForStart;
            }
        }

        // A plugin that failed to start processing stays silent.
        if matches!(self.processing_state, ProcessingState::Errored) {
            clear_task_outputs(pool, task, proc_info.frames);
            self.in_events.clear();
            return ;
        }

        self.out_events.clear();

        let mut has_param_in_event = false;
        match &mut self.param_queues {
            Some(q) => {
                has_param_in_event = q.consume_into_event_buffer(&mut self.in_events);
            },
            None => {},
        }

        // Route the connected note inputs into the plugin's input events,
        // stamping each event with the port it arrived on.
        let mut has_note_in_event = false;
        let npn = task.note_in_buffers.len();
        let mut port_i: usize = 0;
        while port_i < npn
            invariant
                self.wf(),
                npn == task.note_in_buffers@.len(),
                port_i <= npn,
                event_pool@.len() == old(event_pool)@.len(),
                *pool == *old(pool),
                shared.state_spec() == old(shared).state_spec(),
                self.processing_state_spec() == effective_entry_state(
                    old(self).processing_state_spec(),
                    old(shared).start_processing_spec(),
                ),
                has_note_in_event ==> note_in_pending(old(event_pool)@, task.note_in_buffers@),
                forall|b2: int|
                    0 <= b2 < event_pool@.len() ==> ((#[trigger] event_pool@[b2]).view_spec()
                        == old(event_pool)@[b2].view_spec() || event_pool@[b2].view_spec().len()
                        == 0),
                (task.automation_out_buffer matches Some(ab) ==> ab < event_pool@.len()
                    && event_pool@[ab as int].view_spec().len() == 0),
                forall|x: int|
                    0 <= x < task.note_out_buffers@.len() ==> (#[trigger] task.note_out_buffers@[
                        x
                    ]) < event_pool@.len() && event_pool@[task.note_out_buffers@[x] as int]
                        .view_spec().len() == 0,
                forall|i: int, j: int|
                    0 <= i < npn && 0 <= j < task.note_in_buffers@[i].len() ==> (
                    #[trigger] task.note_in_buffers@[i][j]) < event_pool@.len(),
            decreases npn - port_i,
        {
            let bufs_n = task.note_in_buffers[port_i].len();
            let mut bi: usize = 0;
            while bi < bufs_n
                invariant
                    self.wf(),
                    npn == task.note_in_buffers@.len(),
                    port_i < npn,
                    bufs_n == task.note_in_buffers@[port_i as int].len(),
                    bi <= bufs_n,
                    event_pool@.len() == old(event_pool)@.len(),
                    *pool == *old(pool),
                    shared.state_spec() == old(shared).state_spec(),
                    self.processing_state_spec() == effective_entry_state(
                        old(self).processing_state_spec(),
                        old(shared).start_processing_spec(),
                    ),
                self.processing_state_spec() == effective_entry_state(
                    old(self).processing_state_spec(),
                    old(shared).start_processing_spec(),
                ),
                    has_note_in_event ==> note_in_pending(old(event_pool)@, task.note_in_buffers@),
                    forall|b2: int|
                        0 <= b2 < event_pool@.len() ==> ((#[trigger] event_pool@[b2]).view_spec()
                            == old(event_pool)@[b2].view_spec() || event_pool@[b2].view_spec().len()
                            == 0),
                    (task.automation_out_buffer matches Some(ab) ==> ab < event_pool@.len()
                        && event_pool@[ab as int].view_spec().len() == 0),
                    forall|x: int|
                        0 <= x < task.note_out_buffers@.len() ==> (#[trigger] task.note_out_buffers@[
                            x
                        ]) < event_pool@.len() && event_pool@[task.note_out_buffers@[x] as int]
                            .view_spec().len() == 0,
                    forall|i: int, j: int|
                        0 <= i < npn && 0 <= j < task.note_in_buffers@[i].len() ==> (
                        #[trigger] task.note_in_buffers@[i][j]) < event_pool@.len(),
                decreases bufs_n - bi,
            {
                let b = task.note_in_buffers[port_i][bi];
                let evn = event_pool[b].len();
                let mut ei: usize = 0;
                while ei < evn
                    invariant
                        self.wf(),
                        npn == task.note_in_buffers@.len(),
                        port_i < npn,
                        bi < task.note_in_buffers@[port_i as int].len(),
                        b == task.note_in_buffers@[port_i as int]@[bi as int],
                        b < event_pool@.len(),
                        evn == event_pool@[b as int].view_spec().len(),
                        ei <= evn,
                        event_pool@.len() == old(event_pool)@.len(),
                        *pool == *old(pool),
                        shared.state_spec() == old(shared).state_spec(),
                        self.processing_state_spec() == effective_entry_state(
                            old(self).processing_state_spec(),
                            old(shared).start_processing_spec(),
                        ),
                    self.processing_state_spec() == effective_entry_state(
                        old(self).processing_state_spec(),
                        old(shared).start_processing_spec(),
                    ),
                self.processing_state_spec() == effective_entry_state(
                    old(self).processing_state_spec(),
                    old(shared).start_processing_spec(),
                ),
                        has_note_in_event ==> note_in_pending(old(event_pool)@, task.note_in_buffers@),
                        forall|b2: int|
                            0 <= b2 < event_pool@.len() ==> ((#[trigger] event_pool@[b2]).view_spec()
                                == old(event_pool)@[b2].view_spec() || event_pool@[b2].view_spec().len()
                                == 0),
                        (task.automation_out_buffer matches Some(ab) ==> ab < event_pool@.len()
                            && event_pool@[ab as int].view_spec().len() == 0),
                        forall|x: int|
                            0 <= x < task.note_out_buffers@.len() ==> (#[trigger] task.note_out_buffers@[
                                x
                            ]) < event_pool@.len() && event_pool@[task.note_out_buffers@[x] as int]
                                .view_spec().len() == 0,
                    decreases evn - ei,
                {
                    let ev = event_pool[b].get(ei);
                    let routed: Option<ProcEvent> = match ev {
                        ProcEvent::Note(mut e) => {
                            e.port_index = #[verifier::truncate] (port_i as i16);
                            Some(ProcEvent::Note(e))
                        },
                        ProcEvent::NoteExpression(mut e) => {
                            e.port_index = #[verifier::truncate] (port_i as i16);
                            Some(ProcEvent::NoteExpression(e))
                        },
                        ProcEvent::Midi(mut e) => {
                            e.port_index = #[verifier::truncate] (port_i as u16);
                            Some(ProcEvent::Midi(e))
                        },
                        ProcEvent::Midi2(mut e) => {
                            e.port_index = #[verifier::truncate] (port_i as u16);
                            Some(ProcEvent::Midi2(e))
                        },
                        _ => None,
                    };
                    if let Some(e) = routed {
                        proof {
                            assert(event_pool@[b as int].view_spec().len() > 0);
                            assert(event_pool@[b as int].view_spec() == old(event_pool)@[
                                b as int
                            ].view_spec());
                            assert(is_note_event(
                                old(event_pool)@[task.note_in_buffers@[port_i as int]@[
                                    bi as int
                                ] as int].view_spec()[ei as int],
                            ));
                        }
                        has_note_in_event = true;
                        self.in_events.push(e);
                    }
                    ei = ei + 1;
                }
                let ghost ep_pre = event_pool@;
                event_pool[b].clear();
                proof {
                    assert forall|b2: int|
                        0 <= b2 < event_pool@.len() implies ((#[trigger] event_pool@[b2])
                        .view_spec() == old(event_pool)@[b2].view_spec() || event_pool@[b2]
                        .view_spec().len() == 0) by {
                        if b2 != b {
                            assert(event_pool@[b2] == ep_pre[b2]);
                        }
                    }
                    assert forall|x: int|
                        0 <= x < task.note_out_buffers@.len() implies event_pool@[(
                        #[trigger] task.note_out_buffers@[x]) as int].view_spec().len() == 0 by {
                        if task.note_out_buffers@[x] != b {
                            assert(event_pool@[task.note_out_buffers@[x] as int] == ep_pre[
                                task.note_out_buffers@[x] as int
                            ]);
                        }
                    }
                    match task.automation_out_buffer {
                        Some(ab) => {
                            if ab != b {
                                assert(event_pool@[ab as int] == ep_pre[ab as int]);
                            }
                        },
                        None => {},
                    }
                }
                bi = bi + 1;
            }
            port_i = port_i + 1;
        }

        // Automation inputs: parameter events aimed at this instance, and
        // transport events, go to the plugin.
        let ain = task.automation_in_buffers.len();
        let mut ai: usize = 0;
        while ai < ain
            invariant
                self.wf(),
                ain == task.automation_in_buffers@.len(),
                ai <= ain,
                event_pool@.len() == old(event_pool)@.len(),
                *pool == *old(pool),
                shared.state_spec() == old(shared).state_spec(),
                self.processing_state_spec() == effective_entry_state(
                    old(self).processing_state_spec(),
                    old(shared).start_processing_spec(),
                ),
                has_note_in_event ==> note_in_pending(old(event_pool)@, task.note_in_buffers@),
                forall|b2: int|
                    0 <= b2 < event_pool@.len() ==> ((#[trigger] event_pool@[b2]).view_spec()
                        == old(event_pool)@[b2].view_spec() || event_pool@[b2].view_spec().len()
                        == 0),
                (task.automation_out_buffer matches Some(ab) ==> ab < event_pool@.len()
                    && event_pool@[ab as int].view_spec().len() == 0),
                forall|x: int|
                    0 <= x < task.note_out_buffers@.len() ==> (#[trigger] task.note_out_buffers@[
                        x
                    ]) < event_pool@.len() && event_pool@[task.note_out_buffers@[x] as int]
                        .view_spec().len() == 0,
                forall|i: int|
                    0 <= i < ain ==> (#[trigger] task.automation_in_buffers@[i])
                        < event_pool@.len(),
            decreases ain - ai,
        {
            let b = task.automation_in_buffers[ai];
            let evn = event_pool[b].len();
            let mut ei: usize = 0;
            while ei < evn
                invariant
                    self.wf(),
                    b < event_pool@.len(),
                    evn <= event_pool@[b as int].view_spec().len(),
                    ei <= evn,
                    event_pool@.len() == old(event_pool)@.len(),
                    *pool == *old(pool),
                    shared.state_spec() == old(shared).state_spec(),
                    self.processing_state_spec() == effective_entry_state(
                        old(self).processing_state_spec(),
                        old(shared).start_processing_spec(),
                    ),
                self.processing_state_spec() == effective_entry_state(
                    old(self).processing_state_spec(),
                    old(shared).start_processing_spec(),
                ),
                    has_note_in_event ==> note_in_pending(old(event_pool)@, task.note_in_buffers@),
                    forall|b2: int|
                        0 <= b2 < event_pool@.len() ==> ((#[trigger] event_pool@[b2]).view_spec()
                            == old(event_pool)@[b2].view_spec() || event_pool@[b2].view_spec().len()
                            == 0),
                    (task.automation_out_buffer matches Some(ab) ==> ab < event_pool@.len()
                        && event_pool@[ab as int].view_spec().len() == 0),
                    forall|x: int|
                        0 <= x < task.note_out_buffers@.len() ==> (#[trigger] task.note_out_buffers@[
                            x
                        ]) < event_pool@.len() && event_pool@[task.note_out_buffers@[x] as int]
                            .view_spec().len() == 0,
                decreases evn - ei,
            {
                let ev = event_pool[b].get(ei);
                match ev {
                    ProcEvent::ParamValue(e, Some(target)) => {
                        if target == self.id.unique_id {
                            has_param_in_event = true;
                            self.in_events.push(ProcEvent::ParamValue(e, Some(target)));
                        }
                    },
                    ProcEvent::ParamMod(e, Some(target)) => {
                        if target == self.id.unique_id {
                            has_param_in_event = true;
                            self.in_events.push(ProcEvent::ParamMod(e, Some(target)));
                        }
                    },
                    ProcEvent::Transport(e) => {
                        self.in_events.push(ProcEvent::Transport(e));
                    },
                    _ => {},
                }
                ei = ei + 1;
            }
            ai = ai + 1;
        }

        if let Some(tr) = proc_info.transport {
            self.in_events.push(ProcEvent::Transport(tr));
        }

        // A plugin in quiet-sensitive mode goes to sleep when all of its
        // inputs are silent and no note event arrived.
        if matches!(
            self.processing_state,
            ProcessingState::Started(ProcessStatus::ContinueIfNotQuiet),
        ) && !has_note_in_event {
            if pool.buffers_silent(&task.audio_in, proc_info.frames) {
                self.plugin.stop_processing();
                self.processing_state = ProcessingState::Stopped;
                clear_task_outputs(pool, task, proc_info.frames);
                if has_param_in_event {
                    self.plugin.param_flush(&self.in_events, &mut self.out_events);
                }
                self.in_events.clear();
                return ;
            }
        }

        if matches!(
            self.processing_state,
            ProcessingState::Stopped | ProcessingState::WaitingForStart,
        ) {
            if matches!(self.processing_state, ProcessingState::Stopped) && !has_note_in_event {
                // Asleep, with no reason to wake up.
                clear_task_outputs(pool, task, proc_info.frames);
                if has_param_in_event {
                    self.plugin.param_flush(&self.in_events, &mut self.out_events);
                }
                self.in_events.clear();
                return ;
            }
            if self.plugin.start_processing().is_err() {
                self.processing_state = ProcessingState::Errored;
                clear_task_outputs(pool, task, proc_info.frames);
                if has_param_in_event {
                    self.plugin.param_flush(&self.in_events, &mut self.out_events);
                }
                self.in_events.clear();
                return ;
            }
            shared.set_state(PluginState::Active);
        }

        // Fresh output buffers for the plugin.
        let outn = task.audio_out.len();
        let mut oi: usize = 0;
        while oi < outn
            invariant
                outn == task.audio_out@.len(),
                oi <= outn,
                pool.num_buffers_spec() == old(pool).num_buffers_spec(),
                forall|b: int|
                    0 <= b < old(pool).num_buffers_spec() ==> #[trigger] pool.buf_spec(b) == old(pool).buf_spec(b),
                forall|i: int|
                    0 <= i < outn ==> (#[trigger] task.audio_out@[i]) < pool.num_buffers_spec(),
            decreases outn - oi,
        {
            let b = task.audio_out[oi];
            pool.set_constant(b, false);
            oi = oi + 1;
        }

        let ghost pool_bp = *pool;
        let new_status = self.plugin.process(
            proc_info,
            pool,
            &task.audio_in,
            &task.audio_out,
            &self.in_events,
            &mut self.out_events,
        );
        self.in_events.clear();

        self.route_out_events(event_pool, task);
        self.out_events.clear();

        proof {
            assert forall|i: int|
                0 <= i < task.audio_out@.len() implies proc_info.frames <= pool.buf_spec(
                (#[trigger] task.audio_out@[i]) as int,
            ).len() by {
                let b = task.audio_out@[i] as int;
                assert(pool.buf_spec(b).len() == pool_bp.buf_spec(b).len());
                assert(pool_bp.buf_spec(b) == old(pool).buf_spec(b));
            }
        }
        self.settle_process_status(new_status, pool, task, proc_info.frames);
    }

    /// Takes the status the plugin returned for a block and settles the
    /// next processing state exactly as the status table says: `Sleep`
    /// pauses the plugin and leaves it `Stopped`; `Error` discards the
    /// block (outputs cleared) and marks it `Errored`; any other status
    /// keeps it `Started` with that status.
    fn settle_process_status(
        &mut self,
        new_status: ProcessStatus,
        pool: &mut BufferPool<S>,
        task: &PluginTask,
        frames: usize,
    )
        requires
            forall|i: int|
                0 <= i < task.audio_out@.len() ==> (#[trigger] task.audio_out@[i]) < old(pool).num_buffers_spec(),
            forall|i: int|
                0 <= i < task.audio_out@.len() ==> frames <= old(pool).buf_spec(
                    (#[trigger] task.audio_out@[i]) as int,
                ).len(),
        ensures
            final(self).processing_state_spec() == (match new_status {
                ProcessStatus::Sleep => ProcessingState::Stopped,
                ProcessStatus::Error => ProcessingState::Errored,
                s => ProcessingState::Started(s),
            }),
            final(self).wf() == old(self).wf(),
            final(self).in_events_spec() == old(self).in_events_spec(),
            pool_shape_eq(*old(pool), *final(pool)),
            new_status != ProcessStatus::Error ==> *final(pool) == *old(pool),
            new_status == ProcessStatus::Error ==> {
                &&& (forall|k: int, i: int|
                    0 <= k < task.audio_out@.len() && 0 <= i < frames ==> #[trigger] final(pool).buf_spec(task.audio_out@[k] as int)[i] == S::zero_spec())
                &&& (forall|b: int|
                    0 <= b < old(pool).num_buffers_spec() && !task.audio_out@.contains(b as usize)
                        ==> #[trigger] final(pool).buf_spec(b) == old(pool).buf_spec(b))
            },
    {
        self.processing_state = match new_status {
            ProcessStatus::Sleep => {
                self.plugin.stop_processing();
                ProcessingState::Stopped
            },
            ProcessStatus::Error => {
                clear_task_outputs(pool, task, frames);
                ProcessingState::Errored
            },
            good_status => ProcessingState::Started(good_status),
        };
    }

    /// Routes the plugin's output events: gestures and plain values go to
    /// the main thread (stray gesture edges are dropped), modulation and
    /// transport events go to the automation output, and note events go to
    /// the note output port they name.
    fn route_out_events(&mut self, event_pool: &mut Vec<ProcEventQueue>, task: &PluginTask)
        requires
            old(self).wf(),
            (task.automation_out_buffer matches Some(b) ==> b < old(event_pool)@.len()),
            forall|i: int|
                0 <= i < task.note_out_buffers@.len() ==> (#[trigger] task.note_out_buffers@[i])
                    < old(event_pool)@.len(),
        ensures
            final(self).wf(),
            final(event_pool)@.len() == old(event_pool)@.len(),
            final(self).in_events_spec() == old(self).in_events_spec(),
    {
        let evn = self.out_events.len();
        let mut ei: usize = 0;
        while ei < evn
            invariant
                self.wf(),
                self.in_events_spec() == old(self).in_events_spec(),
                evn <= self.out_events.view_spec().len(),
                ei <= evn,
                event_pool@.len() == old(event_pool)@.len(),
                (task.automation_out_buffer matches Some(b) ==> b < event_pool@.len()),
                forall|i: int|
                    0 <= i < task.note_out_buffers@.len() ==> (
                    #[trigger] task.note_out_buffers@[i]) < event_pool@.len(),
            decreases evn - ei,
        {
            let ev = self.out_events.get(ei);
            let mut push_to_auto_out = false;
            let mut push_to_note_out: Option<usize> = None;
            match ev {
                ProcEvent::ParamGesture(g) => {
                    match &mut self.param_queues {
                        Some(q) => {
                            let adjusting = flag_get(&self.is_adjusting_parameter, g.param_id);
                            if g.is_begin == adjusting {
                                // A duplicate begin or a stray end; drop it.
                            } else {
                                flag_set(&mut self.is_adjusting_parameter, g.param_id, g.is_begin);
                                q.audio_to_main_param_value_tx.set_or_update(
                                    g.param_id,
                                    AudioToMainParamValue {
                                        value_bits: None,
                                        gesture: Some(ParamGestureInfo { is_begin: g.is_begin }),
                                    },
                                );
                            }
                        },
                        None => {},
                    }
                },
                ProcEvent::ParamValue(e, _) => {
                    match &mut self.param_queues {
                        Some(q) => {
                            q.audio_to_main_param_value_tx.set_or_update(
                                e.param_id,
                                AudioToMainParamValue {
                                    value_bits: Some(e.value_bits),
                                    gesture: None,
                                },
                            );
                        },
                        None => {},
                    }
                },
                ProcEvent::ParamMod(_, _) => {
                    if task.automation_out_buffer.is_some() {
                        push_to_auto_out = true;
                    }
                },
                ProcEvent::Transport(_) => {
                    if task.automation_out_buffer.is_some() {
                        push_to_auto_out = true;
                    }
                },
                ProcEvent::Note(e) => {
                    if e.port_index >= 0 && (e.port_index as usize) < task.note_out_buffers.len() {
                        push_to_note_out = Some(e.port_index as usize);
                    }
                },
                ProcEvent::NoteExpression(e) => {
                    if e.port_index >= 0 && (e.port_index as usize) < task.note_out_buffers.len() {
                        push_to_note_out = Some(e.port_index as usize);
                    }
                },
                ProcEvent::Midi(e) => {
                    if (e.port_index as usize) < task.note_out_buffers.len() {
                        push_to_note_out = Some(e.port_index as usize);
                    }
                },
                ProcEvent::MidiSysex(e) => {
                    if (e.port_index as usize) < task.note_out_buffers.len() {
                        push_to_note_out = Some(e.port_index as usize);
                    }
                },
                ProcEvent::Midi2(e) => {
                    if (e.port_index as usize) < task.note_out_buffers.len() {
                        push_to_note_out = Some(e.port_index as usize);
                    }
                },
            }
            if push_to_auto_out {
                match task.automation_out_buffer {
                    Some(b) => {
                        event_pool[b].push(ev);
                    },
                    None => {},
                }
            } else {
                match push_to_note_out {
                    Some(p) => {
                        let b = task.note_out_buffers[p];
                        event_pool[b].push(ev);
                    },
                    None => {},
                }
            }
            ei = ei + 1;
        }
    }
}

/// Clears every audio output buffer of a plugin task to silence.
fn clear_task_outputs<S: Sample>(pool: &mut BufferPool<S>, task: &PluginTask, frames: usize)
    requires
        forall|i: int|
            0 <= i < task.audio_out@.len() ==> (#[trigger] task.audio_out@[i]) < old(pool).num_buffers_spec(),
        forall|i: int|
            0 <= i < task.audio_out@.len() ==> frames <= old(pool).buf_spec(
                (#[trigger] task.audio_out@[i]) as int,
            ).len(),
    ensures
        pool_shape_eq(*old(pool), *final(pool)),
        forall|k: int, i: int|
            0 <= k < task.audio_out@.len() && 0 <= i < frames ==> #[trigger] final(pool).buf_spec(
                task.audio_out@[k] as int,
            )[i] == S::zero_spec(),
        forall|b: int|
            0 <= b < old(pool).num_buffers_spec() && !task.audio_out@.contains(b as usize)
                ==> #[trigger] final(pool).buf_spec(b) == old(pool).buf_spec(b),
{
    let outn = task.audio_out.len();
    let mut oi: usize = 0;
    while oi < outn
        invariant
            outn == task.audio_out@.len(),
            oi <= outn,
            pool_shape_eq(*old(pool), *pool),
            forall|i: int|
                0 <= i < outn ==> (#[trigger] task.audio_out@[i]) < pool.num_buffers_spec(),
            forall|i: int|
                0 <= i < outn ==> frames <= pool.buf_spec(
                    (#[trigger] task.audio_out@[i]) as int,
                ).len(),
            forall|k: int, i: int|
                0 <= k < oi && 0 <= i < frames ==> #[trigger] pool.buf_spec(
                    task.audio_out@[k] as int,
                )[i] == S::zero_spec(),
            forall|b: int|
                0 <= b < old(pool).num_buffers_spec() && !task.audio_out@.contains(b as usize)
                    ==> #[trigger] pool.buf_spec(b) == old(pool).buf_spec(b),
        decreases outn - oi,
    {
        let b = task.audio_out[oi];
        pool.clear_buffer(b, frames);
        proof {
            assert forall|b2: int|
                0 <= b2 < old(pool).num_buffers_spec() && !task.audio_out@.contains(b2 as usize)
                implies #[trigger] pool.buf_spec(b2) == old(pool).buf_spec(b2) by {
                assert(task.audio_out@[oi as int] == b);
                assert(b2 != b);
            }
        }
        proof {
            assert forall|k: int, i: int|
                0 <= k < oi + 1 && 0 <= i < frames implies #[trigger] pool.buf_spec(
                task.audio_out@[k] as int,
            )[i] == S::zero_spec() by {
                if k < oi && task.audio_out@[k] != b {
                }
            }
        }
        oi = oi + 1;
    }
}

/// Whether the gesture flag for `key` is set.
fn flag_get(v: &Vec<(u32, bool)>, key: u32) -> (r: bool)
    ensures
        r == match lookup(v@, key) {
            Some(b) => b,
            None => false,
        },
{
    let n = v.len();
    let mut i: usize = 0;
    proof {
        assert(v@.skip(0) =~= v@);
    }
    while i < n
        invariant
            n == v@.len(),
            i <= n,
            lookup(v@, key) == lookup(v@.skip(i as int), key),
        decreases n - i,
    {
        proof {
            let tail = v@.skip(i as int);
            assert(tail[0] == v@[i as int]);
            assert(tail.drop_first() =~= v@.skip(i as int + 1));
        }
        if v[i].0 == key {
            return v[i].1;
        }
        i = i + 1;
    }
    proof {
        assert(v@.skip(n as int) =~= Seq::<(u32, bool)>::empty());
    }
    false
}

/// Sets the gesture flag for `key`.
fn flag_set(v: &mut Vec<(u32, bool)>, key: u32, value: bool)
    ensures
        final(v)@ == set_model(old(v)@, key, value),
{
    let n = v.len();
    let mut i: usize = 0;
    while i < n
        invariant
            n == v@.len(),
            v@ == old(v)@,
            i <= n,
            forall|j: int| 0 <= j < i ==> (#[trigger] v@[j]).0 != key,
        decreases n - i,
    {
        if v[i].0 == key {
            v[i] = (key, value);
            proof {
                crate::params::lemma_set_model_at_first_pub(old(v)@, key, value, i as int);
            }
            return ;
        }
        i = i + 1;
    }
    v.push((key, value));
    proof {
        crate::params::lemma_set_model_absent_pub(old(v)@, key, value);
    }
}


/// Why activating a plugin failed.  A failed activation marks the
/// instance `InactiveWithError` but leaves the graph valid — the instance
/// compiles as a pass-through until activation succeeds.
#[derive(Debug, Clone, PartialEq, Eq)]
pub enum ActivatePluginError {
    /// The plugin never loaded; there is no main-thread object.
    NotLoaded,
    /// The instance is already part of the running schedule.
    AlreadyActive,
    /// A restart is under way; activation will be retried afterwards.
    RestartScheduled,
    /// The plugin failed to report its audio ports.
    PluginFailedToGetAudioPortsExt(String),
    /// The plugin failed to report its note ports.
    PluginFailedToGetNotePortsExt(String),
    /// The plugin failed to describe the parameter at this index.
    PluginFailedToGetParamInfo(u32),
    /// The plugin failed to report the value of this parameter.
    PluginFailedToGetParamValue(u32),
    /// The plugin's own activate call failed.
    PluginSpecific(String),
}

impl ActivatePluginError {
    /// A short description for logs and UIs.
    pub fn message(&self) -> (r: &'static str) {
        match self {
            ActivatePluginError::NotLoaded => "plugin failed to load from disk",
            ActivatePluginError::AlreadyActive => "plugin is already active",
            ActivatePluginError::RestartScheduled => "a restart is scheduled for this plugin",
            ActivatePluginError::PluginFailedToGetAudioPortsExt(_) => "plugin returned error while getting audio ports extension",
            ActivatePluginError::PluginFailedToGetNotePortsExt(_) => "plugin returned error while getting note ports extension",
            ActivatePluginError::PluginFailedToGetParamInfo(_) => "plugin returned error while getting parameter info at index",
            ActivatePluginError::PluginFailedToGetParamValue(_) => "plugin returned error while getting parameter value with id",
            ActivatePluginError::PluginSpecific(_) => "plugin returned error while activating",
        }
    }
}

/// What a successful activation hands back to the engine: the UI handle,
/// each parameter's initial value (by stable id, as `f64` bits), and the
/// audio-thread side of the instance, which the engine wires into the next
/// schedule.
pub struct PluginActivatedRes<S: Sample, AT: PluginAudioThread<S>> {
    pub handle: PluginHandle,
    pub initial_param_values: Vec<(u32, u64)>,
    pub audio_thread: PluginInstanceHostAudioThread<S, AT>,
}

/// The UI-facing handle of an activated plugin instance.
#[derive(Debug, Clone, PartialEq, Eq)]
pub struct PluginHandle {
    /// The parameter surface.
    pub params: PluginParamsExt,
    audio_ports: PluginAudioPortsExt,
    note_ports: PluginNotePortsExt,
    has_automation_out_port: bool,
}

impl PluginHandle {
    /// The audio port layout of this activation.
    pub closed spec fn audio_ports_spec(self) -> PluginAudioPortsExt {
        self.audio_ports
    }

    /// The note port layout of this activation.
    pub closed spec fn note_ports_spec(self) -> PluginNotePortsExt {
        self.note_ports
    }

    /// The parameter surface of this activation.
    pub closed spec fn params_spec(self) -> PluginParamsExt {
        self.params
    }

    /// The audio port layout of this activation.
    pub fn audio_ports(&self) -> (r: &PluginAudioPortsExt)
        ensures
            *r == self.audio_ports_spec(),
    {
        &self.audio_ports
    }

    /// The note port layout of this activation.
    pub fn note_ports(&self) -> (r: &PluginNotePortsExt)
        ensures
            *r == self.note_ports_spec(),
    {
        &self.note_ports
    }

    /// Whether the plugin sends parameter automation events to other
    /// plugins.  Only some internal plugins do; every plugin has an
    /// automation input.
    pub fn has_automation_out_port(&self) -> (r: bool) {
        self.has_automation_out_port
    }
}

/// What a main-thread idle tick observed for one plugin instance.
pub enum OnIdleResult<S: Sample, AT: PluginAudioThread<S>> {
    /// Nothing to report.
    Done,
    /// The instance finished deactivating and now sits `Inactive`.
    PluginDeactivated,
    /// The instance was (re)activated.
    PluginActivated(PluginActivatedRes<S, AT>),
    /// The instance finished deactivating and may now be dropped.
    PluginReadyToRemove,
    /// A requested (re)activation failed.
    PluginFailedToActivate(ActivatePluginError),
}

/// The main-thread side of one hosted plugin instance.
pub struct PluginInstanceHost<S: Sample, MT: PluginMainThread<S>> {
    /// The identity of this instance.
    pub id: PluginInstanceID,
    /// The audio port layout of the current activation.
    pub audio_ports: Option<PluginAudioPortsExt>,
    /// The note port layout of the current activation.
    pub note_ports: Option<PluginNotePortsExt>,
    /// Main audio input channels, from the activation or the save state.
    pub num_audio_in_channels: u16,
    /// Main audio output channels, from the activation or the save state.
    pub num_audio_out_channels: u16,
    /// The plugin's main-thread facet; `None` when loading failed.
    pub main_thread: Option<MT>,
    /// The lifecycle cell shared with the audio thread.
    pub state: SharedPluginState,
    /// The declarative description this instance was created from.
    pub save_state: PluginSaveState,
    /// The plugin version that produced the loaded preset.
    pub plugin_version: Option<String>,
    /// Which parameters the UI is currently gesturing on.
    pub gesturing_params: Vec<(u32, bool)>,
    /// The channel the plugin raises asynchronous requests on.
    pub host_request: HostRequestChannelReceiver,
    /// Whether the user asked to remove this instance.
    pub remove_requested: bool,
    /// Whether the save state may be stale.
    pub save_state_dirty: bool,
    /// Whether a plugin-requested restart is under way.
    pub restarting: bool,
    /// Ties the host to its sample type.
    pub marker: core::marker::PhantomData<S>,
}

impl<S: Sample, MT: PluginMainThread<S>> PluginInstanceHost<S, MT> {
    /// Hosts a newly created plugin instance: loads its preset if the
    /// save state carries one, and starts `Inactive` — or
    /// `InactiveWithError` when the plugin failed to load.
    pub fn new(
        id: PluginInstanceID,
        save_state: PluginSaveState,
        main_thread: Option<MT>,
        host_request: HostRequestChannelReceiver,
        plugin_version: Option<String>,
    ) -> (host: Self)
        ensures
            host.main_thread is Some ==> host.state.state_spec() == PluginState::Inactive,
            host.main_thread is None ==> host.state.state_spec() == PluginState::InactiveWithError,
            host.main_thread is Some <==> main_thread is Some,
            !host.remove_requested,
            !host.restarting,
            // the channel counts come from the saved port layout until an
            // activation reports the real one
            match save_state.backup_audio_ports {
                Some(ports) => host.num_audio_in_channels == ports.main_in_channels
                    && host.num_audio_out_channels == ports.main_out_channels,
                None => host.num_audio_in_channels == 0 && host.num_audio_out_channels == 0,
            },
    {
        let mut main_thread = main_thread;
        let mut state = SharedPluginState::new();

        match &save_state.preset {
            Some(preset) => {
                match &mut main_thread {
                    Some(mt) => {
                        // A failed preset load is reported and ignored.
                        let _ = mt.load_state(&preset.bytes);
                    },
                    None => {},
                }
            },
            None => {},
        }

        if main_thread.is_none() {
            state.set_state(PluginState::InactiveWithError);
        }

        let (num_in, num_out): (u16, u16) = match &save_state.backup_audio_ports {
            Some(ports) => (ports.main_in_channels, ports.main_out_channels),
            None => (0, 0),
        };

        PluginInstanceHost {
            id,
            audio_ports: None,
            note_ports: None,
            num_audio_in_channels: num_in,
            num_audio_out_channels: num_out,
            main_thread,
            state,
            save_state,
            plugin_version,
            gesturing_params: Vec::new(),
            host_request,
            remove_requested: false,
            save_state_dirty: false,
            restarting: false,
            marker: core::marker::PhantomData,
        }
    }

    /// Hosts the reserved *graph-in* pseudo-plugin, which only has audio
    /// outputs.
    pub fn new_graph_in(
        id: PluginInstanceID,
        host_request: HostRequestChannelReceiver,
        num_audio_out_channels: u16,
    ) -> (host: Self)
        ensures
            host.state.state_spec() == PluginState::Inactive,
            host.num_audio_in_channels == 0,
            host.num_audio_out_channels == num_audio_out_channels,
            host.main_thread is None,
    {
        PluginInstanceHost {
            id,
            audio_ports: None,
            note_ports: None,
            num_audio_in_channels: 0,
            num_audio_out_channels,
            main_thread: None,
            state: SharedPluginState::new(),
            save_state: graph_endpoint_save_state(true),
            plugin_version: None,
            gesturing_params: Vec::new(),
            host_request,
            remove_requested: false,
            save_state_dirty: false,
            restarting: false,
            marker: core::marker::PhantomData,
        }
    }

    /// Hosts the reserved *graph-out* pseudo-plugin, which only has audio
    /// inputs.
    pub fn new_graph_out(
        id: PluginInstanceID,
        host_request: HostRequestChannelReceiver,
        num_audio_in_channels: u16,
    ) -> (host: Self)
        ensures
            host.state.state_spec() == PluginState::Inactive,
            host.num_audio_in_channels == num_audio_in_channels,
            host.num_audio_out_channels == 0,
            host.main_thread is None,
    {
        PluginInstanceHost {
            id,
            audio_ports: None,
            note_ports: None,
            num_audio_in_channels,
            num_audio_out_channels: 0,
            main_thread: None,
            state: SharedPluginState::new(),
            save_state: graph_endpoint_save_state(false),
            plugin_version: None,
            gesturing_params: Vec::new(),
            host_request,
            remove_requested: false,
            save_state_dirty: false,
            restarting: false,
            marker: core::marker::PhantomData,
        }
    }

    /// Whether this instance can be activated right now: it must have
    /// loaded, and must not still be part of the running schedule.
    pub fn can_activate(&self) -> (r: Result<(), ActivatePluginError>)
        ensures
            match r {
                Ok(()) => {
                    &&& self.main_thread is Some
                    &&& (self.state.state_spec() == PluginState::Inactive
                        || self.state.state_spec() == PluginState::InactiveWithError)
                },
                Err(e) => {
                    &&& (e == ActivatePluginError::NotLoaded <==> self.main_thread is None)
                    &&& (self.main_thread is Some ==> e == ActivatePluginError::AlreadyActive
                        && self.state.state_spec() != PluginState::Inactive
                        && self.state.state_spec() != PluginState::InactiveWithError)
                },
            },
    {
        if self.main_thread.is_none() {
            return Err(ActivatePluginError::NotLoaded);
        }
        let st = self.state.get_state();
        if !(matches!(st, PluginState::Inactive) || matches!(st, PluginState::InactiveWithError)) {
            return Err(ActivatePluginError::AlreadyActive);
        }
        Ok(())
    }

    /// Activates this instance: queries its port layouts and parameters,
    /// asks the plugin to activate, and hands back the UI handle with the
    /// initial parameter values and the audio-thread side.  On success the
    /// instance is `Active`; when the plugin refuses a step the instance
    /// is `InactiveWithError` and the step is reported.
    pub fn activate(&mut self, sample_rate: u32, min_frames: u32, max_frames: u32) -> (r: Result<
        PluginActivatedRes<S, MT::AudioThread>,
        ActivatePluginError,
    >)
        ensures
            final(self).host_request == old(self).host_request,
            match r {
                Ok(res) => {
                    // activation only happens from a loaded, inactive
                    // instance
                    &&& old(self).main_thread is Some
                    &&& (old(self).state.state_spec() == PluginState::Inactive || old(
                        self,
                    ).state.state_spec() == PluginState::InactiveWithError)
                    &&& final(self).state.state_spec() == PluginState::Active
                    // the handle's parameters, their initial values and
                    // the queues agree with each other
                    &&& res.handle.params_spec().params@.len() == res.initial_param_values@.len()
                    &&& (forall|j: int|
                        0 <= j < res.initial_param_values@.len() ==> (
                        #[trigger] res.initial_param_values@[j]).0 == res.handle.params_spec()
                            .params@[j].stable_id)
                    &&& (res.audio_thread.param_queues_spec() is Some <==> res.handle
                        .params_spec().params@.len() > 0)
                    // the cached and saved layouts are the activated ones
                    &&& final(self).audio_ports == Some(res.handle.audio_ports_spec())
                    &&& final(self).save_state.backup_audio_ports == final(self).audio_ports
                    &&& final(self).note_ports == Some(res.handle.note_ports_spec())
                    &&& final(self).save_state.backup_note_ports == final(self).note_ports
                    &&& final(self).num_audio_in_channels == res.handle.audio_ports_spec()
                        .main_in_channels
                    &&& final(self).num_audio_out_channels == res.handle.audio_ports_spec()
                        .main_out_channels
                    &&& res.audio_thread.processing_state_spec()
                        == ProcessingState::WaitingForStart
                    &&& res.audio_thread.wf()
                },
                Err(e) => {
                    &&& (e == ActivatePluginError::NotLoaded <==> old(self).main_thread is None)
                    &&& (e == ActivatePluginError::NotLoaded || e
                        == ActivatePluginError::AlreadyActive ==> *final(self) == *old(self))
                    &&& (e == ActivatePluginError::AlreadyActive ==> !(old(self).state.state_spec() == PluginState::Inactive || old(self).state.state_spec()
                        == PluginState::InactiveWithError))
                    &&& (e != ActivatePluginError::NotLoaded && e
                        != ActivatePluginError::AlreadyActive ==> final(self).state.state_spec()
                        == PluginState::InactiveWithError)
                },
            },
    {
        match self.can_activate() {
            Ok(()) => {},
            Err(e) => {
                return Err(e);
            },
        }
        // A failed earlier activation is retried from `Inactive`.
        if matches!(self.state.get_state(), PluginState::InactiveWithError) {
            self.state.set_state(PluginState::Inactive);
        }

        let audio_ports: PluginAudioPortsExt;
        let note_ports: PluginNotePortsExt;
        let num_params: u32;
        match &mut self.main_thread {
            None => {
                proof {
                    assert(false);
                }
                return Err(ActivatePluginError::NotLoaded);
            },
            Some(mt) => {
                match mt.audio_ports_ext() {
                    Ok(ports) => {
                        audio_ports = ports;
                    },
                    Err(e) => {
                        self.audio_ports = None;
                        self.state.set_state(PluginState::InactiveWithError);
                        return Err(ActivatePluginError::PluginFailedToGetAudioPortsExt(e));
                    },
                }
                match mt.note_ports_ext() {
                    Ok(ports) => {
                        note_ports = ports;
                    },
                    Err(e) => {
                        self.note_ports = None;
                        self.state.set_state(PluginState::InactiveWithError);
                        return Err(ActivatePluginError::PluginFailedToGetNotePortsExt(e));
                    },
                }
                num_params = mt.num_params();
            },
        }
        self.num_audio_in_channels = audio_ports.main_in_channels;
        self.num_audio_out_channels = audio_ports.main_out_channels;
        self.save_state.backup_audio_ports = Some(audio_ports);
        self.save_state.backup_note_ports = Some(note_ports);
        self.audio_ports = Some(audio_ports);
        self.note_ports = Some(note_ports);

        let mut params: Vec<ParamInfo> = Vec::new();
        let mut initial_values: Vec<(u32, u64)> = Vec::new();
        let mut failed: Option<ActivatePluginError> = None;
        for i in 0..num_params
            invariant
                self.main_thread is Some,
                self.state.state_spec() == PluginState::Inactive,
                self.audio_ports == Some(audio_ports),
                self.note_ports == Some(note_ports),
                self.save_state.backup_audio_ports == Some(audio_ports),
                self.save_state.backup_note_ports == Some(note_ports),
                self.num_audio_in_channels == audio_ports.main_in_channels,
                self.num_audio_out_channels == audio_ports.main_out_channels,
                match failed {
                    Some(e) => e != ActivatePluginError::NotLoaded && e
                        != ActivatePluginError::AlreadyActive,
                    None => true,
                },
                self.host_request == old(self).host_request,
                params@.len() == initial_values@.len(),
                forall|j: int|
                    0 <= j < initial_values@.len() ==> (#[trigger] initial_values@[j]).0
                        == params@[j].stable_id,
                failed is None ==> params@.len() == i,
        {
            if failed.is_none() {
                match &mut self.main_thread {
                    None => {},
                    Some(mt) => {
                    match mt.param_info(i) {
                        Ok(info) => {
                            match mt.param_value(info.stable_id) {
                                Ok(value_bits) => {
                                    params.push(info);
                                    initial_values.push((info.stable_id, value_bits));
                                },
                                Err(()) => {
                                    failed = Some(
                                        ActivatePluginError::PluginFailedToGetParamValue(
                                            info.stable_id,
                                        ),
                                    );
                                },
                            }
                        },
                        Err(()) => {
                            failed = Some(ActivatePluginError::PluginFailedToGetParamInfo(i));
                        },
                    }
                },
                }
            }
        }
        match failed {
            Some(e) => {
                self.state.set_state(PluginState::InactiveWithError);
                return Err(e);
            },
            None => {},
        }

        let activated: Result<<MT as PluginMainThread<S>>::AudioThread, String> =
            match &mut self.main_thread {
            None => {
                proof {
                    assert(false);
                }
                return Err(ActivatePluginError::NotLoaded);
            },
            Some(mt) => mt.activate(sample_rate, min_frames, max_frames),
        };
        match activated {
            Err(e) => {
                self.state.set_state(PluginState::InactiveWithError);
                Err(ActivatePluginError::PluginSpecific(e))
            },
            Ok(plugin_audio_thread) => {
                self.state.set_state(PluginState::Active);
                self.save_state.is_active = true;

                let param_queues: Option<ParamQueuesAudioThread> = if num_params > 0 {
                    Some(ParamQueuesAudioThread::new())
                } else {
                    None
                };
                let has_automation_out_port = match &self.main_thread {
                    Some(mt) => mt.has_automation_out_port(),
                    None => false,
                };
                let event_capacity: usize = if num_params < 10000 {
                    (num_params * 3) as usize
                } else {
                    30000
                };
                let audio_thread = PluginInstanceHostAudioThread::new(
                    self.id,
                    plugin_audio_thread,
                    param_queues,
                    event_capacity,
                );
                Ok(
                    PluginActivatedRes {
                        handle: PluginHandle {
                            params: PluginParamsExt { params },
                            audio_ports,
                            note_ports,
                            has_automation_out_port,
                        },
                        initial_param_values: initial_values,
                        audio_thread,
                    },
                )
            },
        }
    }

    /// Asks the audio thread to release this instance: the next published
    /// schedule stops referencing it, and the instance waits in
    /// `WaitingToDrop` until the audio side confirms.
    pub fn schedule_deactivate(&mut self)
        ensures
            old(self).state.state_spec() == PluginState::Active ==> final(self).state.state_spec()
                == PluginState::WaitingToDrop,
            old(self).state.state_spec() != PluginState::Active ==> *final(self) == *old(self),
    {
        if !matches!(self.state.get_state(), PluginState::Active) {
            return ;
        }
        self.state.set_state(PluginState::WaitingToDrop);
    }

    /// Marks this instance for removal and starts deactivating it.
    pub fn schedule_remove(&mut self)
        ensures
            final(self).remove_requested,
            old(self).state.state_spec() == PluginState::Active ==> final(self).state.state_spec()
                == PluginState::WaitingToDrop,
            old(self).state.state_spec() != PluginState::Active ==> final(self).state.state_spec()
                == old(self).state.state_spec(),
    {
        self.schedule_deactivate();
        self.remove_requested = true;
    }

    /// The instance's audio port layout: the activated one, or the save
    /// state's backup while inactive.
    pub fn audio_ports_ext(&self) -> (r: Option<PluginAudioPortsExt>)
        ensures
            r == if self.audio_ports is Some {
                self.audio_ports
            } else {
                self.save_state.backup_audio_ports
            },
    {
        if self.audio_ports.is_some() {
            self.audio_ports
        } else {
            self.save_state.backup_audio_ports
        }
    }

    /// The instance's note port layout: the activated one, or the save
    /// state's backup while inactive.
    pub fn note_ports_ext(&self) -> (r: Option<PluginNotePortsExt>)
        ensures
            r == if self.note_ports is Some {
                self.note_ports
            } else {
                self.save_state.backup_note_ports
            },
    {
        if self.note_ports.is_some() {
            self.note_ports
        } else {
            self.save_state.backup_note_ports
        }
    }

    /// Whether this plugin emits automation events for other plugins.
    /// Unloaded instances do not.
    pub fn has_automation_out_port(&self) -> (r: bool)
        ensures
            self.main_thread is None ==> !r,
    {
        match &self.main_thread {
            Some(mt) => mt.has_automation_out_port(),
            None => false,
        }
    }

    /// Collects this instance's declarative save state, refreshing the
    /// preset bytes from the plugin when they may be stale.  The result
    /// mirrors the stored save state: same key format and activation
    /// flag, same backed-up port layouts, a preset exactly when one is
    /// stored.
    pub fn collect_save_state(&mut self) -> (r: PluginSaveState)
        ensures
            r.key.format == final(self).save_state.key.format,
            r.is_active == final(self).save_state.is_active,
            r.backup_audio_ports == final(self).save_state.backup_audio_ports,
            r.backup_note_ports == final(self).save_state.backup_note_ports,
            r.preset is Some <==> final(self).save_state.preset is Some,
            !old(self).save_state_dirty ==> *final(self) == *old(self),
    {
        if self.save_state_dirty {
            match &mut self.main_thread {
                Some(mt) => {
                    match mt.collect_save_state() {
                        Ok(preset_bytes) => {
                            let preset: Option<PluginPreset> = match preset_bytes {
                                Some(bytes) => Some(
                                    PluginPreset { version: self.plugin_version.clone(), bytes },
                                ),
                                None => None,
                            };
                            self.save_state.preset = preset;
                            self.save_state_dirty = false;
                        },
                        Err(_) => {
                            // The failure is reported; the old preset stays.
                        },
                    }
                },
                None => {},
            }
        }
        // Copy the save state field by field; the preset bytes and the
        // name strings are cloned.
        PluginSaveState {
            key: ScannedPluginKey {
                rdn: self.save_state.key.rdn.clone(),
                format: self.save_state.key.format,
            },
            is_active: self.save_state.is_active,
            backup_audio_ports: self.save_state.backup_audio_ports,
            backup_note_ports: self.save_state.backup_note_ports,
            preset: match &self.save_state.preset {
                Some(p) => Some(
                    PluginPreset { version: p.version.clone(), bytes: p.bytes.clone() },
                ),
                None => None,
            },
        }
    }

    /// Hands the plugin a new tempo map.
    pub fn update_tempo_map(&mut self, tempo_map: &TempoMap) {
        match &mut self.main_thread {
            Some(mt) => {
                mt.update_tempo_map(tempo_map);
            },
            None => {},
        }
    }

    /// Reports the parameter changes the audio thread published since the
    /// last idle tick, folding gesture edges into the per-parameter
    /// gesturing flags.
    pub fn drain_param_updates(
        &mut self,
        rx: &mut ReducingQueue<AudioToMainParamValue>,
    ) -> (modified: Vec<ParamModifiedInfo>)
        ensures
            final(rx).view_spec().len() == 0,
            final(rx).wf(),
            modified@.len() == old(rx).view_spec().len(),
            // each pending update becomes one report carrying its id and
            // value, and a gesture edge sets the reported gesturing state
            forall|i: int|
                0 <= i < modified@.len() ==> {
                    &&& (#[trigger] modified@[i]).param_id == old(rx).view_spec()[i].0
                    &&& modified@[i].new_value == old(rx).view_spec()[i].1.value_bits
                    &&& (old(rx).view_spec()[i].1.gesture matches Some(g) ==> modified@[i]
                        .is_gesturing == g.is_begin)
                },
    {
        let mut modified: Vec<ParamModifiedInfo> = Vec::new();
        let updates = rx.consume();
        let n = updates.len();
        let mut i: usize = 0;
        while i < n
            invariant
                n == updates@.len(),
                i <= n,
                modified@.len() == i,
                forall|j: int|
                    0 <= j < i ==> {
                        &&& (#[trigger] modified@[j]).param_id == updates@[j].0
                        &&& modified@[j].new_value == updates@[j].1.value_bits
                        &&& (updates@[j].1.gesture matches Some(g) ==> modified@[j].is_gesturing
                            == g.is_begin)
                    },
            decreases n - i,
        {
            let (param_id, update) = updates[i];
            let is_gesturing: bool = match update.gesture {
                Some(gesture) => {
                    flag_set(&mut self.gesturing_params, param_id, gesture.is_begin);
                    gesture.is_begin
                },
                None => flag_get(&self.gesturing_params, param_id),
            };
            modified.push(
                ParamModifiedInfo { param_id, new_value: update.value_bits, is_gesturing },
            );
            i = i + 1;
        }
        modified
    }

    /// One main-thread idle tick for this instance: drains the plugin's
    /// asynchronous requests, finishes deactivations the audio thread
    /// confirmed, and (re)activates the plugin where a restart or wake-up
    /// request asks for it.  Returns what happened and whether the
    /// plugin's GUI was closed.
    pub fn on_idle(&mut self, sample_rate: u32, min_frames: u32, max_frames: u32) -> (r: (
        OnIdleResult<S, MT::AudioThread>,
        bool,
    ))
        ensures
            old(self).main_thread is None ==> (match r.0 {
                OnIdleResult::PluginReadyToRemove => old(self).remove_requested,
                OnIdleResult::Done => !old(self).remove_requested,
                _ => false,
            }),
            // the audio thread released its state: deactivate for real,
            // then reactivate where a restart or wake-up asks for it
            (old(self).main_thread is Some && old(self).state.state_spec()
                == PluginState::DroppedAndReadyToDeactivate) ==> {
                let flags = old(self).host_request.flags_spec();
                &&& (old(self).remove_requested ==> r.0 is PluginReadyToRemove && final(self).state.state_spec() == PluginState::Inactive)
                &&& (!old(self).remove_requested && !old(self).restarting && !intersects_flags(
                    flags,
                    HOST_REQUEST_RESTART,
                ) && !intersects_flags(flags, HOST_REQUEST_PROCESS)
                    ==> r.0 is PluginDeactivated && final(self).state.state_spec()
                    == PluginState::Inactive)
                &&& (!old(self).remove_requested && (old(self).restarting || intersects_flags(
                    flags,
                    HOST_REQUEST_RESTART,
                ) || intersects_flags(flags, HOST_REQUEST_PROCESS)) ==> {
                    ||| (r.0 is PluginActivated && final(self).state.state_spec()
                        == PluginState::Active)
                    ||| (r.0 is PluginFailedToActivate && final(self).state.state_spec()
                        == PluginState::InactiveWithError)
                })
            },
            // the pending requests are drained every tick, and a GUI
            // close is reported back
            old(self).main_thread is Some ==> {
                &&& final(self).host_request.flags_spec() == 0
                &&& r.1 == intersects_flags(
                    old(self).host_request.flags_spec(),
                    HOST_REQUEST_GUI_CLOSED | HOST_REQUEST_GUI_DESTROYED,
                )
            },
            // a wake-up request on a running instance raises the
            // start-processing flag for the audio thread
            (old(self).main_thread is Some && old(self).state.state_spec() == PluginState::Active
                && intersects_flags(old(self).host_request.flags_spec(), HOST_REQUEST_PROCESS)
                && !intersects_flags(old(self).host_request.flags_spec(), HOST_REQUEST_RESTART)
                && !old(self).remove_requested && !old(self).restarting) ==> {
                &&& final(self).state.start_processing_spec()
                &&& r.0 is Done
            },
    {
        if self.main_thread.is_none() {
            if self.remove_requested {
                return (OnIdleResult::PluginReadyToRemove, false);
            } else {
                return (OnIdleResult::Done, false);
            }
        }

        let request_flags = self.host_request.fetch_requests();
        let mut state = self.state.get_state();

        if request_flags & HOST_REQUEST_CALLBACK != 0 {
            match &mut self.main_thread {
                Some(mt) => {
                    mt.on_main_thread();
                },
                None => {},
            }
        }

        // A restart drives the instance through `WaitingToDrop` and back.
        if request_flags & HOST_REQUEST_RESTART != 0 && !self.remove_requested {
            self.restarting = true;
            if matches!(state, PluginState::Active) {
                self.state.set_state(PluginState::WaitingToDrop);
                state = PluginState::WaitingToDrop;
            }
        }

        let mut gui_closed = false;
        if request_flags & (HOST_REQUEST_GUI_CLOSED | HOST_REQUEST_GUI_DESTROYED) != 0 {
            let destroyed = request_flags & HOST_REQUEST_GUI_DESTROYED != 0;
            match &mut self.main_thread {
                Some(mt) => {
                    mt.on_gui_closed(destroyed);
                },
                None => {},
            }
            gui_closed = true;
        }

        if matches!(state, PluginState::DroppedAndReadyToDeactivate) {
            // The audio thread released its state; deactivate for real.
            match &mut self.main_thread {
                Some(mt) => {
                    mt.deactivate();
                },
                None => {},
            }
            self.state.set_state(PluginState::Inactive);

            if !self.remove_requested {
                let mut res: OnIdleResult<S, MT::AudioThread> = OnIdleResult::PluginDeactivated;
                if self.restarting || request_flags & HOST_REQUEST_PROCESS != 0 {
                    self.restarting = false;
                    res = match self.activate(sample_rate, min_frames, max_frames) {
                        Ok(activated) => OnIdleResult::PluginActivated(activated),
                        Err(e) => OnIdleResult::PluginFailedToActivate(e),
                    };
                }
                return (res, gui_closed);
            } else {
                return (OnIdleResult::PluginReadyToRemove, gui_closed);
            }
        } else if request_flags & HOST_REQUEST_PROCESS != 0 && !self.remove_requested
            && !self.restarting {
            if matches!(state, PluginState::Active) {
                self.state.request_start_processing();
            } else if matches!(state, PluginState::Inactive) || matches!(
                state,
                PluginState::InactiveWithError,
            ) {
                let res = match self.activate(sample_rate, min_frames, max_frames) {
                    Ok(activated) => OnIdleResult::PluginActivated(activated),
                    Err(e) => OnIdleResult::PluginFailedToActivate(e),
                };
                return (res, gui_closed);
            }
        }

        (OnIdleResult::Done, gui_closed)
    }
}

/// The placeholder save state of the two endpoint pseudo-plugins; kept
/// only so every node slot carries one.
fn graph_endpoint_save_state(is_input: bool) -> PluginSaveState {
    let rdn: &'static str = if is_input {
        "app.graph-in"
    } else {
        "app.graph-out"
    };
    PluginSaveState {
        key: ScannedPluginKey { rdn: rdn.to_string(), format: PluginFormat::Internal },
        is_active: false,
        backup_audio_ports: None,
        backup_note_ports: None,
        preset: None,
    }
}

} // verus!
