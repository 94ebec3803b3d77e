use odysseus_daemon::reactors::{
    capture_command, ffmpeg_command, mute_command, stty_command, usbip_command, CommandLine,
    LockdownAction, LockdownSession, LoggerAction, LoggerSession, RecorderAction, RecorderSession,
};
use odysseus_daemon::{HVOnData, HVTransition};

fn on(t: u64) -> HVTransition {
    HVTransition::TransitionOn(HVOnData { time_ms: t })
}

fn argv(c: &CommandLine) -> Vec<String> {
    let mut v = vec![c.program.clone()];
    v.extend(c.args.iter().cloned());
    v
}

#[test]
fn logger_opens_and_closes() {
    let mut l = LoggerSession::new();
    assert!(!l.is_recording());
    assert_eq!(l.on_hv(HVTransition::TransitionOff), LoggerAction::UnexpectedOff);
    assert_eq!(l.on_hv(on(9)), LoggerAction::OpenLog { time_ms: 9 });
    assert!(l.is_recording());
    assert_eq!(l.on_hv(HVTransition::TransitionOff), LoggerAction::FlushAndClose);
    assert!(!l.is_recording());
}

#[test]
fn recorder_starts_and_stops() {
    let mut r = RecorderSession::new();
    assert_eq!(r.on_hv(HVTransition::TransitionOff), RecorderAction::Nothing);
    assert_eq!(r.on_hv(on(3)), RecorderAction::Start { time_ms: 3 });
    assert!(r.is_recording());
    assert_eq!(r.on_hv(HVTransition::TransitionOff), RecorderAction::Stop);
    assert!(!r.is_recording());
}

#[test]
fn recorder_stops_gracefully_on_cancel() {
    let mut r = RecorderSession::new();
    assert_eq!(r.on_cancel(), RecorderAction::Nothing);
    r.on_hv(on(5));
    assert_eq!(r.on_cancel(), RecorderAction::Stop);
    assert!(!r.is_recording());
    assert_eq!(r.on_cancel(), RecorderAction::Nothing);
}

#[test]
fn lockdown_unlocks_and_kills_captures() {
    let mut l = LockdownSession::new();
    assert_eq!(l.unlock(), LockdownAction::Unlock { kill_captures: false });
    assert_eq!(l.on_hv(on(4)), LockdownAction::Lock { time_ms: 4 });
    l.locked(true);
    assert_eq!(
        l.on_hv(HVTransition::TransitionOff),
        LockdownAction::Unlock { kill_captures: true }
    );
    assert_eq!(l.unlock(), LockdownAction::Unlock { kill_captures: false });
}

#[test]
fn command_lines() {
    assert_eq!(argv(&usbip_command(true, "1-1")), vec!["usbip", "bind", "--busid", "1-1"]);
    assert_eq!(argv(&usbip_command(false, "1-2")), vec!["usbip", "unbind", "--busid", "1-2"]);
    assert_eq!(argv(&stty_command("/dev/ttyX")), vec!["stty", "-F", "/dev/ttyX", "115200"]);
    assert_eq!(
        argv(&capture_command("/dev/ttyX", "/o/c.cap")),
        vec!["minicom", "-D", "/dev/ttyX", "-O", "timestamp=extended", "-C", "/o/c.cap"]
    );
    assert_eq!(argv(&mute_command(true)), vec!["linphonecsh", "generic", "mute"]);
    assert_eq!(argv(&mute_command(false)), vec!["linphonecsh", "generic", "unmute"]);
    let f = argv(&ffmpeg_command("/dev/video0", "/o/v.mp4"));
    assert_eq!(f.len(), 25);
    assert_eq!(&f[3..5], &["-framerate", "25"]);
    assert_eq!(f[8], "/dev/video0");
    assert_eq!(f[16], r#"drawtext=text='%{localtime\:%F %r}':fontcolor='#EE4245': x=0: y=0:fontsize=24'"#);
    assert_eq!(f[24], "/o/v.mp4");
}
