//! Parameter queue behaviour: coalescing, round trips, and the UI write
//! paths.

use dropseed::params::AudioToMainParamValue;
use dropseed::params::MainToAudioParamValue;
use dropseed::params::PARAM_FLAG_READONLY;
use dropseed::params::ParamGestureInfo;
use dropseed::params::ParamInfo;
use dropseed::params::ParamQueuesAudioThread;
use dropseed::params::PluginParamsExt;
use dropseed::params::ReducingQueue;
use dropseed::params::SetParamResult;
use dropseed::proc_events::ProcEvent;
use dropseed::proc_events::ProcEventQueue;

#[test]
fn reducing_queue_coalesces_same_key() {
    // Setting the same parameter three times before the consumer runs
    // delivers only the latest value.
    let mut q: ReducingQueue<MainToAudioParamValue> = ReducingQueue::new();
    q.set(7, MainToAudioParamValue { value_bits: (0.1f64).to_bits() });
    q.set(7, MainToAudioParamValue { value_bits: (0.2f64).to_bits() });
    q.set(7, MainToAudioParamValue { value_bits: (0.3f64).to_bits() });
    let taken = q.consume();
    assert_eq!(taken.len(), 1);
    assert_eq!(taken[0].0, 7);
    assert_eq!(taken[0].1.value_bits, (0.3f64).to_bits());
    assert_eq!(q.len(), 0);
}

#[test]
fn reducing_queue_keeps_first_arrival_order() {
    let mut q: ReducingQueue<MainToAudioParamValue> = ReducingQueue::new();
    q.set(5, MainToAudioParamValue { value_bits: 50 });
    q.set(9, MainToAudioParamValue { value_bits: 90 });
    q.set(5, MainToAudioParamValue { value_bits: 51 });
    let taken = q.consume();
    assert_eq!(taken.len(), 2);
    assert_eq!(taken[0], (5, MainToAudioParamValue { value_bits: 51 }));
    assert_eq!(taken[1], (9, MainToAudioParamValue { value_bits: 90 }));
}

#[test]
fn audio_to_main_updates_fold_parts() {
    let mut q: ReducingQueue<AudioToMainParamValue> = ReducingQueue::new();
    q.set_or_update(
        3,
        AudioToMainParamValue {
            value_bits: None,
            gesture: Some(ParamGestureInfo { is_begin: true }),
        },
    );
    q.set_or_update(
        3,
        AudioToMainParamValue { value_bits: Some(42), gesture: None },
    );
    let taken = q.consume();
    assert_eq!(taken.len(), 1);
    let (key, v) = taken[0];
    assert_eq!(key, 3);
    // The value arrived later but the earlier gesture is still pending.
    assert_eq!(v.value_bits, Some(42));
    assert_eq!(v.gesture, Some(ParamGestureInfo { is_begin: true }));
}

#[test]
fn param_round_trip_delivers_one_event_with_same_bits() {
    // A UI write travels through the queue and arrives in the plugin's
    // input event buffer exactly once, with the same value.
    let params = PluginParamsExt {
        params: vec![ParamInfo { stable_id: 11, flags: 0 }],
    };
    let mut queues = ParamQueuesAudioThread::new();
    let bits = (0.3f64).to_bits();
    let r = params.set_value(11, bits, &mut queues.ui_to_audio_param_value_rx);
    assert_eq!(r, SetParamResult::Queued);

    let mut buffer = ProcEventQueue::new(16);
    let had_events = queues.consume_into_event_buffer(&mut buffer);
    assert!(had_events);
    assert_eq!(buffer.len(), 1);
    match buffer.get(0) {
        ProcEvent::ParamValue(ev, target) => {
            assert_eq!(ev.param_id, 11);
            assert_eq!(ev.value_bits, bits);
            assert_eq!(ev.time, 0);
            assert_eq!(target, None);
        }
        _ => panic!("expected a parameter value event"),
    }
}

#[test]
fn param_coalescing_delivers_only_latest() {
    // Three writes before one block: exactly one event, value 0.3.
    let params = PluginParamsExt {
        params: vec![ParamInfo { stable_id: 4, flags: 0 }],
    };
    let mut queues = ParamQueuesAudioThread::new();
    params.set_value(4, (0.1f64).to_bits(), &mut queues.ui_to_audio_param_value_rx);
    params.set_value(4, (0.2f64).to_bits(), &mut queues.ui_to_audio_param_value_rx);
    params.set_value(4, (0.3f64).to_bits(), &mut queues.ui_to_audio_param_value_rx);

    let mut buffer = ProcEventQueue::new(16);
    queues.consume_into_event_buffer(&mut buffer);
    assert_eq!(buffer.len(), 1);
    match buffer.get(0) {
        ProcEvent::ParamValue(ev, _) => {
            assert_eq!(ev.value_bits, (0.3f64).to_bits());
        }
        _ => panic!("expected a parameter value event"),
    }
}

#[test]
fn read_only_and_unknown_params_are_refused() {
    let params = PluginParamsExt {
        params: vec![ParamInfo { stable_id: 1, flags: PARAM_FLAG_READONLY }],
    };
    let mut queue: ReducingQueue<MainToAudioParamValue> = ReducingQueue::new();
    assert_eq!(params.set_value(1, 5, &mut queue), SetParamResult::ReadOnly);
    assert_eq!(params.set_value(2, 5, &mut queue), SetParamResult::UnknownParam);
    assert_eq!(queue.len(), 0);
    // Modulation is allowed on a read-only parameter.
    assert_eq!(params.set_mod_amount(1, 5, &mut queue), SetParamResult::Queued);
    assert_eq!(queue.len(), 1);
}
