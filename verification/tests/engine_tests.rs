//! The engine main-thread layer: activation with defaults, graph edits
//! through requests, and removal of a live instance.

use dropseed::buffer::BufferPool;
use dropseed::engine::ActivateEngineSettings;
use dropseed::engine::DSEngineMainThread;
use dropseed::engine::EdgeReq;
use dropseed::engine::EdgeReqPortID;
use dropseed::engine::EngineError;
use dropseed::engine::ModifyGraphRequest;
use dropseed::engine::PluginDescriptor;
use dropseed::engine::PluginFactory;
use dropseed::engine::PluginIDReq;
use dropseed::executor::ProcInfo;
use dropseed::graph::PluginFormat;
use dropseed::graph::PortType;
use dropseed::plugin_host::OnIdleResult;
use dropseed::plugin_host::PluginAudioPortsExt;
use dropseed::plugin_host::PluginAudioThread;
use dropseed::plugin_host::PluginMainThread;
use dropseed::plugin_host::PluginNotePortsExt;
use dropseed::plugin_host::PluginSaveState;
use dropseed::plugin_host::ProcessStatus;
use dropseed::plugin_host::ScannedPluginKey;
use dropseed::plugin_host::TempoMap;
use dropseed::params::ParamInfo;
use dropseed::plugin_host::HOST_REQUEST_PROCESS;
use dropseed::proc_events::ProcEventQueue;
use dropseed::state::PluginState;

struct StubAudio;

impl PluginAudioThread<i64> for StubAudio {
    fn start_processing(&mut self) -> Result<(), ()> {
        Ok(())
    }
    fn stop_processing(&mut self) {}
    fn process(
        &mut self,
        _proc_info: &ProcInfo,
        _pool: &mut BufferPool<i64>,
        _audio_in: &Vec<usize>,
        _audio_out: &Vec<usize>,
        _in_events: &ProcEventQueue,
        _out_events: &mut ProcEventQueue,
    ) -> ProcessStatus {
        ProcessStatus::Continue
    }
    fn param_flush(&mut self, _in_events: &ProcEventQueue, _out_events: &mut ProcEventQueue) {}
}

struct StubMain;

impl PluginMainThread<i64> for StubMain {
    type AudioThread = StubAudio;

    fn load_state(&mut self, _preset: &Vec<u8>) -> Result<(), String> {
        Ok(())
    }
    fn collect_save_state(&mut self) -> Result<Option<Vec<u8>>, String> {
        Ok(None)
    }
    fn audio_ports_ext(&mut self) -> Result<PluginAudioPortsExt, String> {
        Ok(PluginAudioPortsExt { main_in_channels: 2, main_out_channels: 2 })
    }
    fn note_ports_ext(&mut self) -> Result<PluginNotePortsExt, String> {
        Ok(PluginNotePortsExt { in_ports: 0, out_ports: 0 })
    }
    fn num_params(&mut self) -> u32 {
        0
    }
    fn param_info(&mut self, _index: u32) -> Result<ParamInfo, ()> {
        Err(())
    }
    fn param_value(&mut self, _id: u32) -> Result<u64, ()> {
        Err(())
    }
    fn latency(&self) -> u32 {
        0
    }
    fn activate(
        &mut self,
        _sample_rate: u32,
        _min_frames: u32,
        _max_frames: u32,
    ) -> Result<StubAudio, String> {
        Ok(StubAudio)
    }
    fn deactivate(&mut self) {}
    fn on_main_thread(&mut self) {}
    fn has_automation_out_port(&self) -> bool {
        false
    }
    fn update_tempo_map(&mut self, _tempo_map: &TempoMap) {}
    fn is_gui_open(&self) -> bool {
        false
    }
    fn open_gui(&mut self) -> Result<(), String> {
        Ok(())
    }
    fn close_gui(&mut self) {}
    fn on_gui_closed(&mut self, _destroyed: bool) {}
}

struct StubFactory;

impl PluginFactory<i64> for StubFactory {
    type MainThread = StubMain;

    fn description(&self) -> PluginDescriptor {
        PluginDescriptor {
            id: String::from("org.example.stub"),
            name: String::from("Stub"),
            vendor: String::from("Example"),
            version: String::from("1.0"),
        }
    }
    fn instantiate(&mut self, _save_state: &PluginSaveState) -> Result<StubMain, String> {
        Ok(StubMain)
    }
}

fn stub_save_state() -> PluginSaveState {
    PluginSaveState {
        key: ScannedPluginKey {
            rdn: String::from("org.example.stub"),
            format: PluginFormat::Internal,
        },
        is_active: false,
        backup_audio_ports: Some(PluginAudioPortsExt {
            main_in_channels: 2,
            main_out_channels: 2,
        }),
        backup_note_ports: None,
        preset: None,
    }
}

fn add_stub_request() -> ModifyGraphRequest {
    ModifyGraphRequest {
        add_plugin_instances: vec![stub_save_state()],
        remove_plugin_instances: vec![],
        connect_new_edges: vec![
            EdgeReq {
                edge_type: PortType::Audio,
                src_plugin_id: PluginIDReq::Existing(0),
                dst_plugin_id: PluginIDReq::Added(0),
                src_port_id: EdgeReqPortID::Main,
                src_port_channel: 0,
                dst_port_id: EdgeReqPortID::Main,
                dst_port_channel: 0,
                log_error_on_fail: true,
            },
            EdgeReq {
                edge_type: PortType::Audio,
                src_plugin_id: PluginIDReq::Added(0),
                dst_plugin_id: PluginIDReq::Existing(1),
                src_port_id: EdgeReqPortID::Main,
                src_port_channel: 0,
                dst_port_id: EdgeReqPortID::Main,
                dst_port_channel: 0,
                log_error_on_fail: true,
            },
        ],
        disconnect_edges: vec![],
    }
}

#[test]
fn engine_activates_with_defaults_and_refuses_twice() {
    let mut engine = DSEngineMainThread::new(StubFactory);
    let settings = ActivateEngineSettings::default();
    assert_eq!(settings.sample_rate, 44100);
    assert_eq!(settings.max_frames, 512);
    assert_eq!(settings.num_audio_out_channels, 2);

    let schedule = engine.activate_engine(&settings).expect("activation succeeds");
    // The default stereo pass-through makes the empty engine valid.
    assert_eq!(schedule.graph_audio_in.len(), 2);
    assert_eq!(schedule.graph_audio_out.len(), 2);
    assert_eq!(schedule.graph_latency, 0);

    match engine.activate_engine(&settings) {
        Err(EngineError::AlreadyActivated) => {}
        _ => panic!("expected the second activation to be refused"),
    }
}

#[test]
fn invalid_settings_are_refused() {
    let mut engine = DSEngineMainThread::new(StubFactory);
    let mut settings = ActivateEngineSettings::default();
    settings.min_frames = 0;
    match engine.activate_engine(&settings) {
        Err(EngineError::InvalidSettings) => {}
        _ => panic!("expected min_frames of zero to be refused"),
    }
    settings.min_frames = 1024;
    match engine.activate_engine(&settings) {
        Err(EngineError::InvalidSettings) => {}
        _ => panic!("expected min_frames above max_frames to be refused"),
    }
}

#[test]
fn requests_against_a_deactivated_engine_are_refused() {
    let mut engine: DSEngineMainThread<i64, StubFactory> = DSEngineMainThread::new(StubFactory);
    assert!(engine.modify_graph(&add_stub_request()).is_err());
    assert!(engine.compile_audio_graph().is_err());
    assert!(engine.request_latest_save_state().is_err());
    assert!(engine.plugin_on_idle(2).is_none());
    assert_eq!(engine.deactivate_engine().err(), Some(EngineError::NotActivated));
}

#[test]
fn modify_graph_adds_wires_and_activates_a_plugin() {
    let mut engine = DSEngineMainThread::new(StubFactory);
    engine.activate_engine(&ActivateEngineSettings::default()).unwrap();

    let (res, schedule) = engine.modify_graph(&add_stub_request()).expect("edits apply");
    assert_eq!(res.new_plugins.len(), 1);
    assert_eq!(res.failed_edges.len(), 0);
    let slot = res.new_plugins[0].unique_id as usize;
    assert_eq!(slot, 2);
    // The new instance is inactive, so it compiles as a pass-through.
    let printed = format!("{:?}", schedule.tasks);
    assert!(printed.contains("DeactivatedPlugin"));

    // A process request activates it on the next idle tick, and the next
    // compile binds it as a live plugin task.
    {
        let engine_state = engine.activated.as_mut().unwrap();
        let host = engine_state.plugin_hosts[slot].as_mut().unwrap();
        host.host_request.request(HOST_REQUEST_PROCESS);
    }
    let (result, _gui) = engine.plugin_on_idle(slot).expect("slot is live");
    let activated = match result {
        OnIdleResult::PluginActivated(res) => res,
        _ => panic!("expected an activation"),
    };
    assert!(matches!(
        engine.activated.as_ref().unwrap().plugin_hosts[slot]
            .as_ref()
            .unwrap()
            .state
            .get_state(),
        PluginState::Active
    ));
    let schedule = engine.compile_audio_graph().expect("the graph recompiles");
    let printed = format!("{:?}", schedule.tasks);
    assert!(printed.contains("Plugin"));
    assert!(activated.initial_param_values.is_empty());
}

#[test]
fn removing_a_live_instance_reports_ready_after_the_audio_side_drops() {
    let mut engine = DSEngineMainThread::new(StubFactory);
    engine.activate_engine(&ActivateEngineSettings::default()).unwrap();
    let (res, _schedule) = engine.modify_graph(&add_stub_request()).unwrap();
    let slot = res.new_plugins[0].unique_id as usize;

    // Activate it first.
    {
        let engine_state = engine.activated.as_mut().unwrap();
        let host = engine_state.plugin_hosts[slot].as_mut().unwrap();
        host.host_request.request(HOST_REQUEST_PROCESS);
    }
    let (result, _) = engine.plugin_on_idle(slot).unwrap();
    let activated = match result {
        OnIdleResult::PluginActivated(r) => r,
        _ => panic!("expected an activation"),
    };
    let mut audio_thread = activated.audio_thread;

    // Remove it: the instance waits for the audio side, then reports
    // ready to remove, and its slot is freed.
    let remove = ModifyGraphRequest {
        add_plugin_instances: vec![],
        remove_plugin_instances: vec![slot as u64],
        connect_new_edges: vec![],
        disconnect_edges: vec![],
    };
    let (res, schedule) = engine.modify_graph(&remove).unwrap();
    assert_eq!(res.removed_plugins, vec![slot as u64]);
    let printed = format!("{:?}", schedule.tasks);
    assert!(!printed.contains("DeactivatedPlugin"));

    {
        let engine_state = engine.activated.as_mut().unwrap();
        let host = engine_state.plugin_hosts[slot].as_mut().unwrap();
        assert_eq!(host.state.get_state(), PluginState::WaitingToDrop);
        audio_thread.shutdown(&mut host.state);
    }
    let (result, _) = engine.plugin_on_idle(slot).unwrap();
    assert!(matches!(result, OnIdleResult::PluginReadyToRemove));
    assert!(engine.activated.as_ref().unwrap().plugin_hosts[slot].is_none());
}

#[test]
fn deactivate_engine_returns_save_states() {
    let mut engine = DSEngineMainThread::new(StubFactory);
    engine.activate_engine(&ActivateEngineSettings::default()).unwrap();
    engine.modify_graph(&add_stub_request()).unwrap();
    let save_states = engine.deactivate_engine().expect("was activated");
    assert_eq!(save_states.len(), 1);
    assert_eq!(save_states[0].key.rdn, "org.example.stub");
    assert!(engine.activated.is_none());
}


#[test]
fn save_state_round_trips_through_restore() {
    let mut engine = DSEngineMainThread::new(StubFactory);
    engine.activate_engine(&ActivateEngineSettings::default()).unwrap();
    engine.modify_graph(&add_stub_request()).unwrap();

    let saved = engine.collect_graph_save_state().expect("engine is activated");
    assert_eq!(saved.plugins.len(), 1);
    assert_eq!(saved.plugins[0].key.rdn, "org.example.stub");
    // The two request edges plus the default stereo pass-through.
    assert_eq!(saved.edges.len(), 4);

    let (res, schedule) = engine
        .restore_audio_graph_from_save_state(&saved)
        .expect("restore applies");
    assert_eq!(res.new_plugins.len(), 1);
    assert_eq!(res.failed_edges.len(), 0);
    let printed = format!("{:?}", schedule.tasks);
    assert!(printed.contains("DeactivatedPlugin"));

    // Collecting again shows the same shape.
    let saved2 = engine.collect_graph_save_state().unwrap();
    assert_eq!(saved2.plugins.len(), 1);
    assert_eq!(saved2.edges.len(), saved.edges.len());
}

#[test]
fn tempo_map_updates_bump_the_version() {
    let mut engine = DSEngineMainThread::new(StubFactory);
    engine.activate_engine(&ActivateEngineSettings::default()).unwrap();
    let bits = (120.0f64).to_bits();
    engine.update_tempo_map(bits);
    {
        let engine_state = engine.activated.as_ref().unwrap();
        assert_eq!(engine_state.tempo_map.version, 1);
        assert_eq!(engine_state.tempo_map.tempo_bits, bits);
    }
    engine.update_tempo_map(bits);
    assert_eq!(engine.activated.as_ref().unwrap().tempo_map.version, 2);
}
