//! The plugin host lifecycle: activation, deactivation, restarts and
//! removal all follow the state table, and parameter updates reach the
//! main thread.

use dropseed::buffer::BufferPool;
use dropseed::executor::ProcInfo;
use dropseed::graph::PluginFormat;
use dropseed::graph::PluginInstanceID;
use dropseed::params::AudioToMainParamValue;
use dropseed::params::ParamGestureInfo;
use dropseed::params::ParamInfo;
use dropseed::params::ReducingQueue;
use dropseed::params::SetParamResult;
use dropseed::proc_events::ProcEvent;
use dropseed::plugin_host::ActivatePluginError;
use dropseed::plugin_host::HOST_REQUEST_PROCESS;
use dropseed::plugin_host::HOST_REQUEST_RESTART;
use dropseed::plugin_host::HostRequestChannelReceiver;
use dropseed::plugin_host::OnIdleResult;
use dropseed::plugin_host::PluginAudioPortsExt;
use dropseed::plugin_host::PluginAudioThread;
use dropseed::plugin_host::PluginInstanceHost;
use dropseed::plugin_host::PluginMainThread;
use dropseed::plugin_host::PluginNotePortsExt;
use dropseed::plugin_host::PluginSaveState;
use dropseed::plugin_host::ProcessStatus;
use dropseed::plugin_host::ScannedPluginKey;
use dropseed::plugin_host::TempoMap;
use dropseed::proc_events::ProcEventQueue;
use dropseed::state::PluginState;

struct StubAudio;

impl PluginAudioThread<i64> for StubAudio {
    fn start_processing(&mut self) -> Result<(), ()> {
        Ok(())
    }
    fn stop_processing(&mut self) {}
    fn process(
        &mut self,
        _proc_info: &ProcInfo,
        _pool: &mut BufferPool<i64>,
        _audio_in: &Vec<usize>,
        _audio_out: &Vec<usize>,
        _in_events: &ProcEventQueue,
        _out_events: &mut ProcEventQueue,
    ) -> ProcessStatus {
        ProcessStatus::Continue
    }
    fn param_flush(&mut self, _in_events: &ProcEventQueue, _out_events: &mut ProcEventQueue) {}
}

struct StubMain {
    fail_audio_ports: bool,
    fail_activate: bool,
}

impl StubMain {
    fn good() -> StubMain {
        StubMain { fail_audio_ports: false, fail_activate: false }
    }
}

impl PluginMainThread<i64> for StubMain {
    type AudioThread = StubAudio;

    fn load_state(&mut self, _preset: &Vec<u8>) -> Result<(), String> {
        Ok(())
    }
    fn collect_save_state(&mut self) -> Result<Option<Vec<u8>>, String> {
        Ok(Some(vec![1, 2, 3]))
    }
    fn audio_ports_ext(&mut self) -> Result<PluginAudioPortsExt, String> {
        if self.fail_audio_ports {
            Err(String::from("no ports today"))
        } else {
            Ok(PluginAudioPortsExt { main_in_channels: 2, main_out_channels: 2 })
        }
    }
    fn note_ports_ext(&mut self) -> Result<PluginNotePortsExt, String> {
        Ok(PluginNotePortsExt { in_ports: 0, out_ports: 0 })
    }
    fn num_params(&mut self) -> u32 {
        1
    }
    fn param_info(&mut self, index: u32) -> Result<ParamInfo, ()> {
        if index == 0 {
            Ok(ParamInfo { stable_id: 40, flags: 0 })
        } else {
            Err(())
        }
    }
    fn param_value(&mut self, id: u32) -> Result<u64, ()> {
        if id == 40 {
            Ok((0.75f64).to_bits())
        } else {
            Err(())
        }
    }
    fn latency(&self) -> u32 {
        0
    }
    fn activate(
        &mut self,
        _sample_rate: u32,
        _min_frames: u32,
        _max_frames: u32,
    ) -> Result<StubAudio, String> {
        if self.fail_activate {
            Err(String::from("refused"))
        } else {
            Ok(StubAudio)
        }
    }
    fn deactivate(&mut self) {}
    fn on_main_thread(&mut self) {}
    fn has_automation_out_port(&self) -> bool {
        false
    }
    fn update_tempo_map(&mut self, _tempo_map: &TempoMap) {}
    fn is_gui_open(&self) -> bool {
        false
    }
    fn open_gui(&mut self) -> Result<(), String> {
        Ok(())
    }
    fn close_gui(&mut self) {}
    fn on_gui_closed(&mut self, _destroyed: bool) {}
}

fn test_id(n: u64) -> PluginInstanceID {
    PluginInstanceID { unique_id: n, format: PluginFormat::Internal, stable_hash: 0 }
}

fn test_save_state() -> PluginSaveState {
    PluginSaveState {
        key: ScannedPluginKey {
            rdn: String::from("org.example.stub"),
            format: PluginFormat::Internal,
        },
        is_active: false,
        backup_audio_ports: None,
        backup_note_ports: None,
        preset: None,
    }
}

fn new_host() -> PluginInstanceHost<i64, StubMain> {
    PluginInstanceHost::new(
        test_id(2),
        test_save_state(),
        Some(StubMain::good()),
        HostRequestChannelReceiver::new(),
        None,
    )
}

#[test]
fn lifecycle_follows_the_state_table() {
    let mut host = new_host();
    assert_eq!(host.state.get_state(), PluginState::Inactive);

    // Activation: Inactive -> Active, with the initial parameter values.
    let res = host.activate(48000, 1, 512).expect("activation succeeds");
    assert_eq!(host.state.get_state(), PluginState::Active);
    assert_eq!(res.initial_param_values, vec![(40, (0.75f64).to_bits())]);
    assert_eq!(res.handle.audio_ports().main_in_channels, 2);
    let mut audio_thread = res.audio_thread;

    // Deactivation: Active -> WaitingToDrop, then the audio side drops
    // its state, then the main thread observes and finishes.
    host.schedule_deactivate();
    assert_eq!(host.state.get_state(), PluginState::WaitingToDrop);
    audio_thread.shutdown(&mut host.state);
    assert_eq!(host.state.get_state(), PluginState::DroppedAndReadyToDeactivate);
    let (result, gui_closed) = host.on_idle(48000, 1, 512);
    assert!(matches!(result, OnIdleResult::PluginDeactivated));
    assert!(!gui_closed);
    assert_eq!(host.state.get_state(), PluginState::Inactive);
}

#[test]
fn can_activate_reports_not_loaded_and_already_active() {
    let mut unloaded: PluginInstanceHost<i64, StubMain> = PluginInstanceHost::new(
        test_id(3),
        test_save_state(),
        None,
        HostRequestChannelReceiver::new(),
        None,
    );
    assert_eq!(unloaded.state.get_state(), PluginState::InactiveWithError);
    assert_eq!(unloaded.can_activate(), Err(ActivatePluginError::NotLoaded));
    assert!(matches!(
        unloaded.activate(48000, 1, 512),
        Err(ActivatePluginError::NotLoaded)
    ));

    let mut host = new_host();
    let _res = host.activate(48000, 1, 512).unwrap();
    assert_eq!(host.can_activate(), Err(ActivatePluginError::AlreadyActive));
}

#[test]
fn failed_activation_marks_inactive_with_error() {
    let mut host: PluginInstanceHost<i64, StubMain> = PluginInstanceHost::new(
        test_id(4),
        test_save_state(),
        Some(StubMain { fail_audio_ports: true, fail_activate: false }),
        HostRequestChannelReceiver::new(),
        None,
    );
    match host.activate(48000, 1, 512) {
        Err(ActivatePluginError::PluginFailedToGetAudioPortsExt(_)) => {}
        other => panic!("unexpected result: {:?}", other.is_ok()),
    }
    assert_eq!(host.state.get_state(), PluginState::InactiveWithError);

    // The next attempt retries from Inactive; with the plugin's own
    // activate failing it lands in InactiveWithError again.
    let mut host2: PluginInstanceHost<i64, StubMain> = PluginInstanceHost::new(
        test_id(5),
        test_save_state(),
        Some(StubMain { fail_audio_ports: false, fail_activate: true }),
        HostRequestChannelReceiver::new(),
        None,
    );
    match host2.activate(48000, 1, 512) {
        Err(ActivatePluginError::PluginSpecific(_)) => {}
        other => panic!("unexpected result: {:?}", other.is_ok()),
    }
    assert_eq!(host2.state.get_state(), PluginState::InactiveWithError);
}

#[test]
fn restart_request_drives_the_drop_and_reactivate_path() {
    let mut host = new_host();
    let res = host.activate(48000, 1, 512).unwrap();
    let mut audio_thread = res.audio_thread;

    host.host_request.request(HOST_REQUEST_RESTART);
    let (result, _) = host.on_idle(48000, 1, 512);
    assert!(matches!(result, OnIdleResult::Done));
    assert_eq!(host.state.get_state(), PluginState::WaitingToDrop);

    audio_thread.shutdown(&mut host.state);
    let (result, _) = host.on_idle(48000, 1, 512);
    assert!(matches!(result, OnIdleResult::PluginActivated(_)));
    assert_eq!(host.state.get_state(), PluginState::Active);
}

#[test]
fn process_request_wakes_or_activates() {
    let mut host = new_host();
    // While inactive, a process request triggers activation.
    host.host_request.request(HOST_REQUEST_PROCESS);
    let (result, _) = host.on_idle(48000, 1, 512);
    assert!(matches!(result, OnIdleResult::PluginActivated(_)));
    assert_eq!(host.state.get_state(), PluginState::Active);

    // While active, it just raises the start-processing flag.
    host.host_request.request(HOST_REQUEST_PROCESS);
    let (result, _) = host.on_idle(48000, 1, 512);
    assert!(matches!(result, OnIdleResult::Done));
    assert!(host.state.take_start_processing());
}

#[test]
fn remove_reports_ready_after_the_audio_side_drops() {
    let mut host = new_host();
    let res = host.activate(48000, 1, 512).unwrap();
    let mut audio_thread = res.audio_thread;

    host.schedule_remove();
    assert_eq!(host.state.get_state(), PluginState::WaitingToDrop);
    audio_thread.shutdown(&mut host.state);
    let (result, _) = host.on_idle(48000, 1, 512);
    assert!(matches!(result, OnIdleResult::PluginReadyToRemove));
}

#[test]
fn drained_param_updates_track_gesturing() {
    let mut host = new_host();
    let mut rx: ReducingQueue<AudioToMainParamValue> = ReducingQueue::new();
    rx.set_or_update(
        40,
        AudioToMainParamValue {
            value_bits: Some(7),
            gesture: Some(ParamGestureInfo { is_begin: true }),
        },
    );
    let modified = host.drain_param_updates(&mut rx);
    assert_eq!(modified.len(), 1);
    assert_eq!(modified[0].param_id, 40);
    assert_eq!(modified[0].new_value, Some(7));
    assert!(modified[0].is_gesturing);

    // A later plain value while the gesture is still on reports
    // is_gesturing from the remembered flag.
    rx.set_or_update(40, AudioToMainParamValue { value_bits: Some(8), gesture: None });
    let modified = host.drain_param_updates(&mut rx);
    assert_eq!(modified.len(), 1);
    assert!(modified[0].is_gesturing);

    // The gesture end clears the flag.
    rx.set_or_update(
        40,
        AudioToMainParamValue {
            value_bits: None,
            gesture: Some(ParamGestureInfo { is_begin: false }),
        },
    );
    let modified = host.drain_param_updates(&mut rx);
    assert_eq!(modified.len(), 1);
    assert!(!modified[0].is_gesturing);
}

#[test]
fn param_queues_of_a_running_instance_carry_both_directions() {
    // The activation's own queues — not detached ones — carry a UI write
    // into the plugin's input events, and a plugin-emitted value back to
    // the main thread's mirror.
    let mut host = new_host();
    let res = host.activate(48000, 1, 512).unwrap();
    let mut audio_thread = res.audio_thread;
    let handle = res.handle;

    let queues = audio_thread.param_queues.as_mut().expect("one parameter, so queues exist");

    // UI -> audio on the instance's queue.
    let bits = (0.25f64).to_bits();
    let r = handle.params.set_value(40, bits, &mut queues.ui_to_audio_param_value_rx);
    assert_eq!(r, SetParamResult::Queued);
    let mut in_events = ProcEventQueue::new(8);
    assert!(queues.consume_into_event_buffer(&mut in_events));
    match in_events.get(0) {
        ProcEvent::ParamValue(ev, _) => {
            assert_eq!(ev.param_id, 40);
            assert_eq!(ev.value_bits, bits);
        }
        _ => panic!("expected the written value to reach the plugin"),
    }

    // Audio -> UI on the same instance's queue.
    queues.audio_to_main_param_value_tx.set_or_update(
        40,
        AudioToMainParamValue { value_bits: Some(77), gesture: None },
    );
    let modified = host.drain_param_updates(&mut queues.audio_to_main_param_value_tx);
    assert_eq!(modified.len(), 1);
    assert_eq!(modified[0].param_id, 40);
    assert_eq!(modified[0].new_value, Some(77));
}
