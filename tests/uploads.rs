use odysseus_daemon::broker::{
    broker_pid, client_id, parse_broker_address, sys_topic, AddressError,
};
use odysseus_daemon::layout::{artifact_path, event_dir_path, LOG_FILE};
use odysseus_daemon::upload::{
    event_stamp, extract_timestamp, is_event_dir, parse_i64, plan_upload, plan_with_stamp,
    UploadEndpoint, UploadFlags, UploadSkip,
};

#[test]
fn extract_timestamp_takes_text_after_first_dash() {
    assert_eq!(extract_timestamp("event-1730247194876"), Some("1730247194876"));
    assert_eq!(extract_timestamp("event- 12 \n"), Some("12"));
    assert_eq!(extract_timestamp("a-b-c"), Some("b-c"));
    assert_eq!(extract_timestamp("event-"), Some(""));
    assert_eq!(extract_timestamp("event"), None);
}

#[test]
fn event_directory_names() {
    assert!(is_event_dir("event-1"));
    assert!(is_event_dir("event-"));
    assert!(!is_event_dir("events"));
    assert!(!is_event_dir("Event-1"));
    assert_eq!(event_dir_path("/out", 0), "/out/event-0");
    assert_eq!(
        artifact_path("/out", 1730247194876, LOG_FILE),
        "/out/event-1730247194876/data_dump.log"
    );
}

#[test]
fn upload_plan_for_log() {
    let flags = UploadFlags { logs: true, video: false, serial: false };
    let p = plan_upload("http://s:8000", "event-5", "data_dump.log", flags).unwrap();
    assert_eq!(p.endpoint, UploadEndpoint::Log);
    assert_eq!(p.url, "http://s:8000/insert/log");
    assert_eq!(p.remote_name, "_");
}

#[test]
fn upload_plan_for_video_and_serial() {
    let flags = UploadFlags { logs: false, video: true, serial: true };
    let p = plan_upload("http://s", "event-1730247194876", "ner24-frontcam.mp4", flags).unwrap();
    assert_eq!(p.endpoint, UploadEndpoint::File);
    assert_eq!(p.url, "http://s/insert/file");
    assert_eq!(p.remote_name, "10-30-2024_00_13_14_ner24-frontcam.mp4");
    let q = plan_upload("http://s", "event-77", "shepherd-dump.cap", flags).unwrap();
    assert_eq!(q.remote_name, "01-01-1970_00_00_00_shepherd-dump.cap");
}

#[test]
fn upload_plan_skips() {
    let none = UploadFlags { logs: false, video: false, serial: false };
    assert_eq!(
        plan_upload("u", "event-1", "data_dump.log", none).err(),
        Some(UploadSkip::NotSelected)
    );
    let serial = UploadFlags { logs: false, video: false, serial: true };
    assert_eq!(
        plan_upload("u", "event-1", "other.txt", serial).err(),
        Some(UploadSkip::NotSelected)
    );
    assert_eq!(
        plan_upload("u", "eventX", "cerberus-dump.cap", serial).err(),
        Some(UploadSkip::NoTimestamp)
    );
    assert_eq!(
        plan_upload("u", "event-abc", "cerberus-dump.cap", serial).err(),
        Some(UploadSkip::NoTimestamp)
    );
}

#[test]
fn broker_address_is_split() {
    assert_eq!(parse_broker_address("localhost:1883"), Ok(("localhost".to_string(), 1883)));
    assert_eq!(parse_broker_address("nocolon"), Err(AddressError::MissingPort));
    assert_eq!(parse_broker_address("h:65536"), Err(AddressError::InvalidPort));
    assert_eq!(parse_broker_address("h:"), Err(AddressError::InvalidPort));
    assert_eq!(parse_broker_address("h:1:2"), Err(AddressError::InvalidPort));
    assert_eq!(parse_broker_address(":65535"), Ok((String::new(), 65535)));
}

#[test]
fn client_id_carries_time() {
    assert_eq!(client_id(1730247194876), "Ody-1730247194876");
}

#[test]
fn plan_with_given_stamp() {
    let flags = UploadFlags { logs: true, video: true, serial: true };
    let p = plan_with_stamp("b", "cerberus-dump.cap", flags, Some("S")).unwrap();
    assert_eq!(p.endpoint, UploadEndpoint::File);
    assert_eq!(p.url, "b/insert/file");
    assert_eq!(p.remote_name, "S_cerberus-dump.cap");
    assert_eq!(
        plan_with_stamp("b", "cerberus-dump.cap", flags, None).err(),
        Some(UploadSkip::NoTimestamp)
    );
    let l = plan_with_stamp("b", "data_dump.log", flags, None).unwrap();
    assert_eq!(l.url, "b/insert/log");
    assert_eq!(l.remote_name, "_");
}

#[test]
fn event_stamp_formats_utc() {
    assert_eq!(event_stamp("event-1730247194876").as_deref(), Some("10-30-2024_00_13_14"));
    assert_eq!(event_stamp("event-0").as_deref(), Some("01-01-1970_00_00_00"));
    assert_eq!(event_stamp("event--1000").as_deref(), Some("12-31-1969_23_59_59"));
    assert_eq!(event_stamp("event-x"), None);
    assert_eq!(event_stamp("event"), None);
    assert_eq!(event_stamp("event-9223372036854775807"), None);
}

#[test]
fn signed_decimal_grammar() {
    assert_eq!(parse_i64("42"), Some(42));
    assert_eq!(parse_i64("+42"), Some(42));
    assert_eq!(parse_i64("-42"), Some(-42));
    assert_eq!(parse_i64("-9223372036854775808"), Some(i64::MIN));
    assert_eq!(parse_i64("9223372036854775807"), Some(i64::MAX));
    assert_eq!(parse_i64("9223372036854775808"), None);
    assert_eq!(parse_i64("-"), None);
    assert_eq!(parse_i64("-+1"), None);
    assert_eq!(parse_i64(""), None);
    assert_eq!(parse_i64(" 1"), None);
}

#[test]
fn sys_topics_are_renamed() {
    assert_eq!(sys_topic("$SYS/broker/load/bytes/received"), "SYS_tpu/broker/load/bytes/received");
    assert_eq!(sys_topic("a/$SYS/$SYS"), "a/SYS_tpu/SYS_tpu");
    assert_eq!(sys_topic("$SY"), "$SY");
    assert_eq!(sys_topic("$$SYS"), "$SYS_tpu");
    assert_eq!(sys_topic(""), "");
}

#[test]
fn broker_pid_reads_pid_file() {
    assert_eq!(broker_pid("1234\n"), 1234);
    assert_eq!(broker_pid("1234"), 1234);
    assert_eq!(broker_pid("1234\n\n"), 1);
    assert_eq!(broker_pid("4294967296"), 1);
    assert_eq!(broker_pid(""), 1);
}
