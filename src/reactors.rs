//! The decisions of the reactors that follow the HV state (logger, video
//! recorder, lockdown) and the mute state (audio), and the command lines of
//! the external programs they run.
use vstd::prelude::*;

use crate::{HVOnData, HVTransition};

verus! {

/// A program to run and its arguments.
pub struct CommandLine {
    pub program: String,
    pub args: Vec<String>,
}

/// The view of a command line: the program and each argument.
pub open spec fn command_view(c: &CommandLine) -> (Seq<char>, Seq<Seq<char>>) {
    (c.program@, c.args@.map_values(|a: String| a@))
}

fn command(program: &str) -> (r: CommandLine)
    ensures
        command_view(&r) == (program@, Seq::<Seq<char>>::empty()),
{
    let r = CommandLine { program: String::from_str(program), args: Vec::new() };
    proof {
        assert(command_view(&r).1 =~= Seq::<Seq<char>>::empty());
    }
    r
}

fn push_arg(c: &mut CommandLine, a: &str)
    ensures
        command_view(final(c)) == (command_view(old(c)).0, command_view(old(c)).1.push(a@)),
{
    c.args.push(String::from_str(a));
    proof {
        assert(command_view(final(c)).1 =~= command_view(old(c)).1.push(a@));
    }
}

/// Hands the USB device `busid` to the USB/IP server (`bind`) or takes it back.
pub fn usbip_command(bind: bool, busid: &str) -> (r: CommandLine)
    ensures
        command_view(&r) == ("usbip"@, seq![if bind { "bind"@ } else { "unbind"@ }, "--busid"@, busid@]),
{
    let mut c = command("usbip");
    push_arg(&mut c, if bind { "bind" } else { "unbind" });
    push_arg(&mut c, "--busid");
    push_arg(&mut c, busid);
    proof {
        assert(command_view(&c).1 =~= seq![if bind { "bind"@ } else { "unbind"@ }, "--busid"@, busid@]);
    }
    c
}

/// Sets the serial device to the capture speed.
pub fn stty_command(device: &str) -> (r: CommandLine)
    ensures
        command_view(&r) == ("stty"@, seq!["-F"@, device@, "115200"@]),
{
    let mut c = command("stty");
    push_arg(&mut c, "-F");
    push_arg(&mut c, device);
    push_arg(&mut c, "115200");
    proof {
        assert(command_view(&c).1 =~= seq!["-F"@, device@, "115200"@]);
    }
    c
}

/// Captures the serial device into the file at `path`, with timestamps.
pub fn capture_command(device: &str, path: &str) -> (r: CommandLine)
    ensures
        command_view(&r) == ("minicom"@, seq!["-D"@, device@, "-O"@, "timestamp=extended"@, "-C"@, path@]),
{
    let mut c = command("minicom");
    push_arg(&mut c, "-D");
    push_arg(&mut c, device);
    push_arg(&mut c, "-O");
    push_arg(&mut c, "timestamp=extended");
    push_arg(&mut c, "-C");
    push_arg(&mut c, path);
    proof {
        assert(command_view(&c).1 =~= seq!["-D"@, device@, "-O"@, "timestamp=extended"@, "-C"@, path@]);
    }
    c
}

/// Mutes or unmutes the voice link.
pub fn mute_command(muted: bool) -> (r: CommandLine)
    ensures
        command_view(&r) == ("linphonecsh"@, seq!["generic"@, if muted { "mute"@ } else { "unmute"@ }]),
{
    let mut c = command("linphonecsh");
    push_arg(&mut c, "generic");
    push_arg(&mut c, if muted { "mute" } else { "unmute" });
    proof {
        assert(command_view(&c).1 =~= seq!["generic"@, if muted { "mute"@ } else { "unmute"@ }]);
    }
    c
}

/// The overlay that stamps each video frame with the local time.
pub const VIDEO_OVERLAY: &'static str = "drawtext=text='%{localtime\\:%F %r}':fontcolor='#EE4245': x=0: y=0:fontsize=24'";

/// Frames per second captured; one keyframe group (`-g`) per second.
pub const VIDEO_FRAMERATE: &'static str = "25";

/// Records video from `device` into the file at `path`.
pub fn ffmpeg_command(device: &str, path: &str) -> (r: CommandLine)
    ensures
        command_view(&r) == (
            "ffmpeg"@,
            seq![
                "-f"@, "v4l2"@, "-framerate"@, VIDEO_FRAMERATE@, "-video_size"@, "640x480"@, "-i"@, device@, "-c:v"@,
                "libx264"@, "-b:v"@, "1600k"@, "-preset"@, "ultrafast"@, "-vf"@, VIDEO_OVERLAY@,
                "-x264opts"@, "keyint=50"@, "-g"@, "25"@, "-pix_fmt"@, "yuv420p"@, "-y"@, path@,
            ],
        ),
{
    let mut c = command("ffmpeg");
    push_arg(&mut c, "-f");
    push_arg(&mut c, "v4l2");
    push_arg(&mut c, "-framerate");
    push_arg(&mut c, VIDEO_FRAMERATE);
    push_arg(&mut c, "-video_size");
    push_arg(&mut c, "640x480");
    push_arg(&mut c, "-i");
    push_arg(&mut c, device);
    push_arg(&mut c, "-c:v");
    push_arg(&mut c, "libx264");
    push_arg(&mut c, "-b:v");
    push_arg(&mut c, "1600k");
    push_arg(&mut c, "-preset");
    push_arg(&mut c, "ultrafast");
    push_arg(&mut c, "-vf");
    push_arg(&mut c, VIDEO_OVERLAY);
    push_arg(&mut c, "-x264opts");
    push_arg(&mut c, "keyint=50");
    push_arg(&mut c, "-g");
    push_arg(&mut c, "25");
    push_arg(&mut c, "-pix_fmt");
    push_arg(&mut c, "yuv420p");
    push_arg(&mut c, "-y");
    push_arg(&mut c, path);
    proof {
        assert(command_view(&c).1 =~= seq![
            "-f"@, "v4l2"@, "-framerate"@, VIDEO_FRAMERATE@, "-video_size"@, "640x480"@, "-i"@, device@, "-c:v"@,
            "libx264"@, "-b:v"@, "1600k"@, "-preset"@, "ultrafast"@, "-vf"@, VIDEO_OVERLAY@,
            "-x264opts"@, "keyint=50"@, "-g"@, "25"@, "-pix_fmt"@, "yuv420p"@, "-y"@, path@,
        ]);
    }
    c
}

/// The first serial device captured on an event.
pub const CERBERUS_DEVICE: &'static str = "/dev/ttyCerberus";

/// The second serial device configured on an event.
pub const SHEPHERD_DEVICE: &'static str = "/dev/ttyShepherd";

/// Seconds to let the devices settle after they are taken back from USB/IP.
pub const LOCKDOWN_SETTLE_SECS: u64 = 2;

/// What the logger does on an HV transition.
#[derive(Clone, Copy, Debug, PartialEq, Eq, Structural)]
pub enum LoggerAction {
    /// Create the event's log file and record into it.
    OpenLog { time_ms: u64 },
    /// Flush and close the open log.
    FlushAndClose,
    /// An Off transition with no log open: log a warning.
    UnexpectedOff,
}

/// The logger's state: the event whose log is open, if any.
pub struct LoggerSession {
    open: Option<u64>,
}

impl View for LoggerSession {
    type V = Option<u64>;

    closed spec fn view(&self) -> Option<u64> {
        self.open
    }
}

/// One HV transition applied to the logger.
pub open spec fn logger_step(open: Option<u64>, t: HVTransition) -> (Option<u64>, LoggerAction) {
    match t {
        HVTransition::TransitionOn(d) => (Some(d.time_ms), LoggerAction::OpenLog { time_ms: d.time_ms }),
        HVTransition::TransitionOff => if open is Some {
            (None, LoggerAction::FlushAndClose)
        } else {
            (None, LoggerAction::UnexpectedOff)
        },
    }
}

impl LoggerSession {
    /// A logger with no log open.
    pub fn new() -> (r: LoggerSession)
        ensures
            r@ is None,
    {
        LoggerSession { open: None }
    }

    /// Whether incoming envelopes are recorded: only while a log is open.
    pub fn is_recording(&self) -> (r: bool)
        ensures
            r == self@ is Some,
    {
        self.open.is_some()
    }

    /// Applies an HV transition.
    pub fn on_hv(&mut self, t: HVTransition) -> (r: LoggerAction)
        ensures
            (final(self)@, r) == logger_step(old(self)@, t),
    {
        match t {
            HVTransition::TransitionOn(HVOnData { time_ms }) => {
                self.open = Some(time_ms);
                LoggerAction::OpenLog { time_ms }
            },
            HVTransition::TransitionOff => {
                let was_open = self.open.is_some();
                self.open = None;
                if was_open {
                    LoggerAction::FlushAndClose
                } else {
                    LoggerAction::UnexpectedOff
                }
            },
        }
    }
}

/// What the video recorder does on an HV transition.
#[derive(Clone, Copy, Debug, PartialEq, Eq, Structural)]
pub enum RecorderAction {
    /// Start recording into the event's video file.
    Start { time_ms: u64 },
    /// Stop the recording with the graceful escalation.
    Stop,
    /// Nothing to do.
    Nothing,
}

/// The recorder's state: whether a recording runs.
pub struct RecorderSession {
    recording: bool,
}

impl View for RecorderSession {
    type V = bool;

    closed spec fn view(&self) -> bool {
        self.recording
    }
}

/// One HV transition applied to the recorder.
pub open spec fn recorder_step(recording: bool, t: HVTransition) -> (bool, RecorderAction) {
    match t {
        HVTransition::TransitionOn(d) => (true, RecorderAction::Start { time_ms: d.time_ms }),
        HVTransition::TransitionOff => if recording {
            (false, RecorderAction::Stop)
        } else {
            (false, RecorderAction::Nothing)
        },
    }
}

impl RecorderSession {
    /// A recorder that does not record.
    pub fn new() -> (r: RecorderSession)
        ensures
            !r@,
    {
        RecorderSession { recording: false }
    }

    /// Whether a recording runs, to be awaited on shutdown.
    pub fn is_recording(&self) -> (r: bool)
        ensures
            r == self@,
    {
        self.recording
    }

    /// The decision at shutdown: stop a running recording with the graceful
    /// escalation.
    pub fn on_cancel(&mut self) -> (r: RecorderAction)
        ensures
            r == (if old(self)@ { RecorderAction::Stop } else { RecorderAction::Nothing }),
            !final(self)@,
    {
        let was = self.recording;
        self.recording = false;
        if was {
            RecorderAction::Stop
        } else {
            RecorderAction::Nothing
        }
    }

    /// Applies an HV transition.
    pub fn on_hv(&mut self, t: HVTransition) -> (r: RecorderAction)
        ensures
            (final(self)@, r) == recorder_step(old(self)@, t),
    {
        match t {
            HVTransition::TransitionOn(HVOnData { time_ms }) => {
                self.recording = true;
                RecorderAction::Start { time_ms }
            },
            HVTransition::TransitionOff => {
                let was = self.recording;
                self.recording = false;
                if was {
                    RecorderAction::Stop
                } else {
                    RecorderAction::Nothing
                }
            },
        }
    }
}

/// What the lockdown controller does on an HV transition.
#[derive(Clone, Copy, Debug, PartialEq, Eq, Structural)]
pub enum LockdownAction {
    /// Take the devices back, configure them and start the serial captures
    /// for the event; report the outcome with `LockdownSession::locked`.
    Lock { time_ms: u64 },
    /// Hand the devices to USB/IP and end the captures, if `kill_captures`.
    Unlock { kill_captures: bool },
}

/// The lockdown controller's state: whether serial captures run.
pub struct LockdownSession {
    captures: bool,
}

impl View for LockdownSession {
    type V = bool;

    closed spec fn view(&self) -> bool {
        self.captures
    }
}

impl LockdownSession {
    /// A controller with no capture running.
    pub fn new() -> (r: LockdownSession)
        ensures
            !r@,
    {
        LockdownSession { captures: false }
    }

    /// The action at startup and at shutdown: unlock.
    pub fn unlock(&mut self) -> (r: LockdownAction)
        ensures
            r == (LockdownAction::Unlock { kill_captures: old(self)@ }),
            !final(self)@,
    {
        let kill_captures = self.captures;
        self.captures = false;
        LockdownAction::Unlock { kill_captures }
    }

    /// Applies an HV transition.
    pub fn on_hv(&mut self, t: HVTransition) -> (r: LockdownAction)
        ensures
            t matches HVTransition::TransitionOn(d) ==> r == (LockdownAction::Lock { time_ms: d.time_ms })
                && final(self)@ == old(self)@,
            t is TransitionOff ==> r == (LockdownAction::Unlock { kill_captures: old(self)@ }) && !final(self)@,
    {
        match t {
            HVTransition::TransitionOn(HVOnData { time_ms }) => LockdownAction::Lock { time_ms },
            HVTransition::TransitionOff => self.unlock(),
        }
    }

    /// Reports whether locking down started the captures.
    pub fn locked(&mut self, captures_started: bool)
        ensures
            final(self)@ == (old(self)@ || captures_started),
    {
        if captures_started {
            self.captures = true;
        }
    }
}

} // verus!
