use odysseus_daemon::codec::{
    decode_envelope, decode_inbound, encode_envelope, encode_outbound, encode_record, Envelope,
};
use odysseus_daemon::PublishableMessage;

fn env(topic: &str, values: &[f32], unit: &str, time_us: u64) -> Envelope {
    Envelope {
        topic: topic.to_string(),
        values: values.iter().map(|v| v.to_bits()).collect(),
        unit: unit.to_string(),
        time_us,
    }
}

#[test]
fn envelope_round_trip() {
    let e = env("TPU/DAQ/Shockpots", &[1.5, -2.25, 0.0, 1e9], "in", 1_730_247_194_876_123);
    let bytes = encode_envelope(&e);
    let d = decode_envelope(&bytes).unwrap();
    assert_eq!(d.topic, e.topic);
    assert_eq!(d.values, e.values);
    assert_eq!(d.unit, e.unit);
    assert_eq!(d.time_us, e.time_us);
}

#[test]
fn envelope_round_trip_unicode_and_empty() {
    let e = env("Wheel/Température", &[], "", 0);
    let d = decode_envelope(&encode_envelope(&e)).unwrap();
    assert_eq!(d.topic, "Wheel/Température");
    assert!(d.values.is_empty());
    assert_eq!(d.unit, "");
    assert_eq!(d.time_us, 0);
}

#[test]
fn envelope_exact_bytes() {
    let e = env("", &[1.0], "V", 300);
    assert_eq!(
        encode_envelope(&e),
        vec![0x12, 0x01, b'V', 0x18, 0xAC, 0x02, 0x22, 0x04, 0x00, 0x00, 0x80, 0x3F]
    );
    assert_eq!(encode_envelope(&env("", &[], "", 0)), Vec::<u8>::new());
}

#[test]
fn record_is_length_delimited() {
    let e = env("a", &[], "", 0);
    assert_eq!(encode_record(&e), vec![0x03, 0x0A, 0x01, b'a']);
}

#[test]
fn decode_skips_unknown_fields_and_reads_unpacked_values() {
    // field 5 varint, field 6 fixed64, field 7 bytes, field 8 fixed32, then two unpacked floats
    let mut b = vec![0x28, 0x96, 0x01];
    b.extend([0x31, 1, 2, 3, 4, 5, 6, 7, 8]);
    b.extend([0x3A, 0x02, 9, 9]);
    b.extend([0x45, 1, 2, 3, 4]);
    b.push(0x25);
    b.extend(2.0f32.to_bits().to_le_bytes());
    b.push(0x25);
    b.extend(3.0f32.to_bits().to_le_bytes());
    let d = decode_envelope(&b).unwrap();
    assert_eq!(d.values, vec![2.0f32.to_bits(), 3.0f32.to_bits()]);
    assert_eq!(d.topic, "");
}

#[test]
fn decode_refuses_malformed_input() {
    // truncated length-delimited field
    assert!(decode_envelope(&[0x12, 0x05, b'a']).is_none());
    // invalid UTF-8 in the unit
    assert!(decode_envelope(&[0x12, 0x01, 0xFF]).is_none());
    // packed values whose length is not a multiple of four
    assert!(decode_envelope(&[0x22, 0x03, 1, 2, 3]).is_none());
    // field number zero
    assert!(decode_envelope(&[0x00, 0x01]).is_none());
    // truncated varint
    assert!(decode_envelope(&[0x18, 0x80]).is_none());
    // time with the wrong wire type
    assert!(decode_envelope(&[0x1A, 0x00]).is_none());
}

#[test]
fn decode_keeps_last_scalar() {
    let b = vec![0x18, 0x01, 0x18, 0x02];
    assert_eq!(decode_envelope(&b).unwrap().time_us, 2);
}

#[test]
fn publish_round_trip_restamps_time() {
    let m = PublishableMessage {
        topic: "TPU/OnBoard/CpuTemp".to_string(),
        data: vec![45.5f32.to_bits()],
        unit: "celsius".to_string(),
        time: 11,
    };
    let frame = encode_outbound(&m, 99_000_000);
    assert_eq!(frame.topic, "TPU/OnBoard/CpuTemp");
    let d = decode_inbound(frame.topic.clone(), &frame.payload).unwrap();
    assert_eq!(d.topic, m.topic);
    assert_eq!(d.values, m.data);
    assert_eq!(d.unit, m.unit);
    assert_eq!(d.time_us, 99_000_000);
}

#[test]
fn outbound_queue_failure_drops_only_that_message() {
    let msgs: Vec<PublishableMessage> = (1..=3)
        .map(|i| PublishableMessage {
            topic: format!("T/{i}"),
            data: vec![(i as f32).to_bits()],
            unit: "u".to_string(),
            time: 0,
        })
        .collect();
    let mut attempted = Vec::new();
    let mut published = Vec::new();
    let mut dropped = Vec::new();
    for (n, m) in msgs.iter().enumerate() {
        let frame = encode_outbound(m, 1_000 + n as u64);
        attempted.push(frame.topic.clone());
        let publish_ok = n != 1;
        if publish_ok {
            published.push(decode_inbound(frame.topic, &frame.payload).unwrap());
        } else {
            dropped.push(frame.topic);
        }
    }
    assert_eq!(attempted, vec!["T/1", "T/2", "T/3"]);
    assert_eq!(dropped, vec!["T/2"]);
    assert_eq!(published.len(), 2);
    assert_eq!(published[0].values, vec![1.0f32.to_bits()]);
    assert_eq!(published[1].values, vec![3.0f32.to_bits()]);
}
