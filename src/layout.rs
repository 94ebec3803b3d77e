//! The on-disk layout of captured data: one directory per event under the
//! output root, `<root>/event-<time_ms>/`, holding artifacts under fixed names.
use vstd::prelude::*;

use crate::text::push_char;

verus! {

/// The prefix of an event directory's name.
pub const EVENT_DIR_PREFIX: &'static str = "event-";

/// The logger's record file.
pub const LOG_FILE: &'static str = "data_dump.log";

/// The video recorder's file.
pub const VIDEO_FILE: &'static str = "ner24-frontcam.mp4";

/// The first serial capture.
pub const CERBERUS_CAPTURE: &'static str = "cerberus-dump.cap";

/// The second serial capture.
pub const SHEPHERD_CAPTURE: &'static str = "shepherd-dump.cap";

/// The character of a decimal digit.
pub open spec fn digit_char(d: nat) -> char {
    ((d + 48) as u8) as char
}

/// The decimal representation of `v`, without leading zeros.
pub open spec fn decimal(v: nat) -> Seq<char>
    decreases v,
{
    if v < 10 {
        seq![digit_char(v)]
    } else {
        decimal(v / 10).push(digit_char(v % 10))
    }
}

/// Appends the decimal representation of `v`.
pub fn push_decimal(s: &mut String, v: u64)
    ensures
        final(s)@ == old(s)@ + decimal(v as nat),
    decreases v,
{
    if v < 10 {
        push_char(s, ((v as u8) + 48) as char);
        proof {
            assert(final(s)@ =~= old(s)@ + decimal(v as nat));
        }
    } else {
        push_decimal(s, v / 10);
        push_char(s, (((v % 10) as u8) + 48) as char);
        proof {
            assert(final(s)@ =~= old(s)@ + decimal(v as nat));
        }
    }
}

/// The path of the event directory for `time_ms` under `root`.
pub open spec fn event_dir_spec(root: Seq<char>, time_ms: u64) -> Seq<char> {
    root + seq!['/'] + EVENT_DIR_PREFIX@ + decimal(time_ms as nat)
}

/// The path of the event directory for `time_ms` under `root`.
pub fn event_dir_path(root: &str, time_ms: u64) -> (r: String)
    ensures
        r@ == event_dir_spec(root@, time_ms),
{
    let mut s = String::from_str(root);
    push_char(&mut s, '/');
    s.append(EVENT_DIR_PREFIX);
    push_decimal(&mut s, time_ms);
    s
}

/// The path of the artifact `file` in the event directory for `time_ms`.
pub fn artifact_path(root: &str, time_ms: u64, file: &str) -> (r: String)
    ensures
        r@ == event_dir_spec(root@, time_ms) + seq!['/'] + file@,
{
    let mut s = event_dir_path(root, time_ms);
    push_char(&mut s, '/');
    s.append(file);
    s
}

} // verus!
