use odysseus_daemon::codec::{decode_inbound, encode_envelope, Envelope};
use odysseus_daemon::hub::{classify_topic, Hub, HubAction, TopicKind};
use odysseus_daemon::layout::event_dir_path;
use odysseus_daemon::{HVOnData, HVTransition, HV_EN_TOPIC, MUTE_EN_TOPIC};

fn sample_payload(value: f32, time_us: u64) -> Vec<u8> {
    let e = Envelope {
        topic: String::new(),
        values: vec![value.to_bits()],
        unit: String::new(),
        time_us,
    };
    encode_envelope(&e)
}

fn first_code(e: &Envelope) -> u8 {
    match e.values.first().map(|b| f32::from_bits(*b)) {
        Some(v) if v >= 0.0 => v as u8,
        _ => u8::MAX,
    }
}

#[test]
fn hv_on_while_off_creates_directory_then_broadcasts() {
    let mut hub = Hub::new(false);
    let payload = sample_payload(1.0, 1_700_000_123_456);
    let env = decode_inbound(HV_EN_TOPIC.to_string(), &payload).unwrap();
    let kind = classify_topic(&env.topic);
    assert_eq!(kind, TopicKind::HvEnable);
    let action = hub.on_inbound(kind, first_code(&env), env.time_us);
    assert_eq!(action, HubAction::CreateEventDir { time_ms: 1_700_000_123 });
    assert_eq!(event_dir_path("/data", 1_700_000_123), "/data/event-1700000123");
    // nothing is broadcast before the directory is reported
    assert_eq!(hub.hv_state(), HVTransition::TransitionOff);
    let mut broadcasts = Vec::new();
    if let Some(t) = hub.event_dir_result(true) {
        broadcasts.push(t);
    }
    let on = HVTransition::TransitionOn(HVOnData { time_ms: 1_700_000_123 });
    assert_eq!(broadcasts, vec![on]);
    assert_eq!(hub.hv_state(), on);
}

#[test]
fn hv_on_twice_transitions_once() {
    let mut hub = Hub::new(false);
    let mut broadcasts = 0;
    let mut dirs = 0;
    for t in [5_000_000u64, 6_000_000u64] {
        let payload = sample_payload(1.0, t);
        let env = decode_inbound(HV_EN_TOPIC.to_string(), &payload).unwrap();
        match hub.on_inbound(classify_topic(&env.topic), first_code(&env), env.time_us) {
            HubAction::CreateEventDir { .. } => {
                dirs += 1;
                if hub.event_dir_result(true).is_some() {
                    broadcasts += 1;
                }
            }
            HubAction::BroadcastHv(_) => broadcasts += 1,
            _ => {}
        }
    }
    assert_eq!(dirs, 1);
    assert_eq!(broadcasts, 1);
    assert_eq!(hub.hv_state(), HVTransition::TransitionOn(HVOnData { time_ms: 5_000 }));
}

#[test]
fn mute_value_two_is_dropped() {
    let mut hub = Hub::new(false);
    let payload = sample_payload(2.0, 10);
    let env = decode_inbound(MUTE_EN_TOPIC.to_string(), &payload).unwrap();
    let kind = classify_topic(&env.topic);
    assert_eq!(kind, TopicKind::Mute);
    assert_eq!(hub.on_inbound(kind, first_code(&env), env.time_us), HubAction::InvalidMute);
    assert_eq!(hub.hv_state(), HVTransition::TransitionOff);
}

#[test]
fn mute_values_broadcast_every_time() {
    let mut hub = Hub::new(false);
    assert_eq!(hub.on_inbound(TopicKind::Mute, 1, 0), HubAction::BroadcastMute(true));
    assert_eq!(hub.on_inbound(TopicKind::Mute, 1, 0), HubAction::BroadcastMute(true));
    assert_eq!(hub.on_inbound(TopicKind::Mute, 0, 0), HubAction::BroadcastMute(false));
}

#[test]
fn hv_off_after_on_broadcasts_off() {
    let mut hub = Hub::new(false);
    assert_eq!(hub.on_hv_sample(1, 2_000), HubAction::CreateEventDir { time_ms: 2 });
    assert!(hub.event_dir_result(true).is_some());
    assert_eq!(hub.on_hv_sample(0, 3_000), HubAction::BroadcastHv(HVTransition::TransitionOff));
    assert_eq!(hub.on_hv_sample(0, 4_000), HubAction::Ignore);
    assert_eq!(hub.hv_state(), HVTransition::TransitionOff);
}

#[test]
fn hv_directory_failure_keeps_off_and_retries() {
    let mut hub = Hub::new(false);
    assert_eq!(hub.on_hv_sample(1, 7_000), HubAction::CreateEventDir { time_ms: 7 });
    assert_eq!(hub.event_dir_result(false), None);
    assert_eq!(hub.hv_state(), HVTransition::TransitionOff);
    assert_eq!(hub.on_hv_sample(1, 8_000), HubAction::CreateEventDir { time_ms: 8 });
}

#[test]
fn hv_invalid_value_is_reported() {
    let mut hub = Hub::new(false);
    assert_eq!(hub.on_hv_sample(3, 0), HubAction::InvalidHv);
    assert_eq!(hub.on_hv_sample(0, 0), HubAction::Ignore);
}

#[test]
fn augment_forces_on_and_ignores_samples() {
    let mut hub = Hub::new(true);
    assert_eq!(hub.start(42), HubAction::CreateEventDir { time_ms: 42 });
    assert_eq!(
        hub.event_dir_result(true),
        Some(HVTransition::TransitionOn(HVOnData { time_ms: 42 }))
    );
    assert_eq!(hub.on_hv_sample(0, 0), HubAction::Ignore);
    assert_eq!(hub.on_hv_sample(7, 0), HubAction::Ignore);
    assert!(hub.hv_state().is_on());
    let mut plain = Hub::new(false);
    assert_eq!(plain.start(42), HubAction::Ignore);
}

#[test]
fn upload_topics_trigger_on_one() {
    let mut hub = Hub::new(false);
    let logs = classify_topic("Scylla/Logger/Send");
    let serial = classify_topic("Scylla/Serial/Send");
    let video = classify_topic("Scylla/Video/Send");
    assert_eq!(
        hub.on_inbound(logs, 1, 0),
        HubAction::Upload { logs: true, video: false, serial: false }
    );
    assert_eq!(
        hub.on_inbound(serial, 1, 0),
        HubAction::Upload { logs: false, video: false, serial: true }
    );
    assert_eq!(
        hub.on_inbound(video, 1, 0),
        HubAction::Upload { logs: false, video: true, serial: false }
    );
    assert_eq!(hub.on_inbound(video, 0, 0), HubAction::Ignore);
}

#[test]
fn topics_match_exactly() {
    assert_eq!(classify_topic("MPU/State/TSMS"), TopicKind::HvEnable);
    assert_eq!(classify_topic("mpu/state/tsms"), TopicKind::Other);
    assert_eq!(classify_topic("MPU/State/TSMS/"), TopicKind::Other);
    assert_eq!(classify_topic("WHEEL/Buttons/Mute"), TopicKind::Mute);
    assert_eq!(classify_topic(""), TopicKind::Other);
}

#[test]
fn empty_or_negative_values_are_ignored() {
    let mut hub = Hub::new(false);
    assert_eq!(hub.on_hv_sample(1, 1_000), HubAction::CreateEventDir { time_ms: 1 });
    assert!(hub.event_dir_result(true).is_some());
    let empty = Envelope { topic: String::new(), values: vec![], unit: String::new(), time_us: 0 };
    let negative =
        Envelope { topic: String::new(), values: vec![(-1.0f32).to_bits()], unit: String::new(), time_us: 0 };
    for e in [&empty, &negative] {
        assert_eq!(hub.on_inbound(TopicKind::HvEnable, first_code(e), 0), HubAction::InvalidHv);
        assert_eq!(hub.on_inbound(TopicKind::Mute, first_code(e), 0), HubAction::InvalidMute);
    }
    assert!(hub.hv_state().is_on());
}

#[test]
fn broadcasts_follow_value_changes_not_samples() {
    let mut hub = Hub::new(false);
    let samples = [0u8, 1, 1, 3, 1, 0, 0, 1, 1];
    let mut broadcasts = 0;
    for (i, code) in samples.iter().enumerate() {
        match hub.on_hv_sample(*code, 1_000 * i as u64) {
            HubAction::CreateEventDir { .. } => {
                if hub.event_dir_result(true).is_some() {
                    broadcasts += 1;
                }
            }
            HubAction::BroadcastHv(_) => broadcasts += 1,
            _ => {}
        }
    }
    // Off -> On (index 1), On -> Off (index 5), Off -> On (index 7)
    assert_eq!(broadcasts, 3);
    assert_eq!(hub.hv_state(), HVTransition::TransitionOn(HVOnData { time_ms: 7 }));
}
