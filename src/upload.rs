//! Which captured artifacts are uploaded, where to, and under which name.
//!
//! The application walks the event directories under the output root and asks
//! `plan_upload` about each regular file; it then posts the file as a
//! multipart upload to the URL of the plan, under the plan's remote name.
use chrono::{TimeZone, Utc};
use vstd::prelude::*;

use crate::layout::{CERBERUS_CAPTURE, EVENT_DIR_PREFIX, LOG_FILE, SHEPHERD_CAPTURE, VIDEO_FILE};
use crate::daq::{parse_u64_at, parse_u64_spec};
use crate::text::{push_char, str_equal};
use vstd::utf8::encode_utf8;

verus! {

/// The path under the base URI that takes log files.
pub const LOG_ENDPOINT: &'static str = "/insert/log";

/// The path under the base URI that takes other artifacts.
pub const FILE_ENDPOINT: &'static str = "/insert/file";

/// Whether `c` is white space in the sense of Unicode's `White_Space` property.
pub open spec fn is_white_space(c: char) -> bool {
    let u = c as u32;
    (0x09 <= u <= 0x0d) || u == 0x20 || u == 0x85 || u == 0xa0 || u == 0x1680 || (0x2000 <= u <= 0x200a)
        || u == 0x2028 || u == 0x2029 || u == 0x202f || u == 0x205f || u == 0x3000
}

fn white_space(c: char) -> (r: bool)
    ensures
        r == is_white_space(c),
{
    let u = c as u32;
    (0x09 <= u && u <= 0x0d) || u == 0x20 || u == 0x85 || u == 0xa0 || u == 0x1680 || (0x2000 <= u && u
        <= 0x200a) || u == 0x2028 || u == 0x2029 || u == 0x202f || u == 0x205f || u == 0x3000
}

/// `s` without its leading white space.
pub open spec fn trim_start(s: Seq<char>) -> Seq<char>
    decreases s.len(),
{
    if s.len() > 0 && is_white_space(s[0]) {
        trim_start(s.drop_first())
    } else {
        s
    }
}

/// `s` without its trailing white space.
pub open spec fn trim_end(s: Seq<char>) -> Seq<char>
    decreases s.len(),
{
    if s.len() > 0 && is_white_space(s.last()) {
        trim_end(s.drop_last())
    } else {
        s
    }
}

/// The index of the first `c` in `s`.
pub open spec fn first_index_of(s: Seq<char>, c: char) -> Option<nat>
    decreases s.len(),
{
    if s.len() == 0 {
        None
    } else if s[0] == c {
        Some(0)
    } else {
        match first_index_of(s.drop_first(), c) {
            Some(i) => Some(i + 1),
            None => None,
        }
    }
}

/// The timestamp of an event directory's name: what follows its first `-`,
/// without surrounding white space.
pub open spec fn timestamp_spec(name: Seq<char>) -> Option<Seq<char>> {
    match first_index_of(name, '-') {
        Some(i) => Some(trim_end(trim_start(name.skip((i + 1) as int)))),
        None => None,
    }
}

proof fn lemma_first_index_of(s: Seq<char>, c: char, i: int)
    requires
        0 <= i <= s.len(),
        forall|k: int| 0 <= k < i ==> s[k] != c,
    ensures
        first_index_of(s, c) == (match first_index_of(s.skip(i), c) {
            Some(j) => Some((j + i) as nat),
            None => None::<nat>,
        }),
    decreases i,
{
    if i > 0 {
        lemma_first_index_of(s.drop_first(), c, i - 1);
        assert(s.drop_first().skip(i - 1) =~= s.skip(i));
    } else {
        assert(s.skip(0) =~= s);
    }
}

/// The timestamp of an event directory's name: what follows its first `-`,
/// trimmed; `None` where the name holds no `-`.
pub fn extract_timestamp(input: &str) -> (r: Option<&str>)
    ensures
        r is None <==> timestamp_spec(input@) is None,
        r matches Some(t) ==> timestamp_spec(input@) == Some(t@),
{
    let n = input.unicode_len();
    let mut i: usize = 0;
    while i < n
        invariant
            n == input@.len(),
            i <= n,
            forall|k: int| 0 <= k < i ==> input@[k] != '-',
        ensures
            i < n ==> input@[i as int] == '-',
            i <= n,
            forall|k: int| 0 <= k < i ==> input@[k] != '-',
        decreases n - i,
    {
        if input.get_char(i) == '-' {
            break;
        }
        i = i + 1;
    }
    proof {
        lemma_first_index_of(input@, '-', i as int);
    }
    if i == n {
        return None;
    }
    proof {
        assert(input@.skip(i as int)[0] == '-');
    }
    let ghost rest = input@.skip(i + 1);
    let mut lo: usize = i + 1;
    while lo < n && white_space(input.get_char(lo))
        invariant
            n == input@.len(),
            i + 1 <= lo <= n,
            trim_start(rest) == trim_start(input@.skip(lo as int)),
        decreases n - lo,
    {
        proof {
            assert(input@.skip(lo as int).drop_first() =~= input@.skip(lo + 1));
        }
        lo = lo + 1;
    }
    proof {
        assert(input@.skip(i + 1) =~= rest);
        assert(trim_start(input@.skip(lo as int)) == input@.skip(lo as int));
    }
    let ghost mid = input@.skip(lo as int);
    let mut hi: usize = n;
    while hi > lo && white_space(input.get_char(hi - 1))
        invariant
            n == input@.len(),
            lo <= hi <= n,
            mid == input@.skip(lo as int),
            trim_end(mid) == trim_end(input@.subrange(lo as int, hi as int)),
        decreases hi,
    {
        proof {
            assert(input@.subrange(lo as int, hi as int).drop_last() =~= input@.subrange(lo as int, hi - 1));
        }
        hi = hi - 1;
    }
    proof {
        assert(input@.subrange(lo as int, n as int) =~= mid);
    }
    Some(input.substring_char(lo, hi))
}

/// Which endpoint takes an artifact.
#[derive(Clone, Copy, Debug, PartialEq, Eq, Structural)]
pub enum UploadEndpoint {
    Log,
    File,
}

/// Which artifact classes are to be uploaded.
#[derive(Clone, Copy, Debug, PartialEq, Eq, Structural)]
pub struct UploadFlags {
    pub logs: bool,
    pub video: bool,
    pub serial: bool,
}

/// Why a file is not uploaded.
#[derive(Clone, Copy, Debug, PartialEq, Eq, Structural)]
pub enum UploadSkip {
    /// The file is of no class asked for.
    NotSelected,
    /// The directory's name yields no timestamp.
    NoTimestamp,
}

/// How to upload one file.
pub struct UploadPlan {
    pub endpoint: UploadEndpoint,
    /// The URL to post to.
    pub url: String,
    /// The name the file is sent under.
    pub remote_name: String,
}

/// Whether a directory's name marks an event directory.
pub open spec fn is_event_dir_spec(name: Seq<char>) -> bool {
    name.len() >= EVENT_DIR_PREFIX@.len() && name.take(EVENT_DIR_PREFIX@.len() as int) == EVENT_DIR_PREFIX@
}

/// Whether a directory's name marks an event directory.
pub fn is_event_dir(name: &str) -> (r: bool)
    ensures
        r == is_event_dir_spec(name@),
{
    let n = name.unicode_len();
    let p = EVENT_DIR_PREFIX.unicode_len();
    if n < p {
        return false;
    }
    str_equal(name.substring_char(0, p), EVENT_DIR_PREFIX)
}

/// The format of the date and time an uploaded artifact is named by.
pub const EVENT_STAMP_FORMAT: &'static str = "%m-%d-%Y_%H_%M_%S";

/// The text chrono gives for the UTC date and time `millis` milliseconds
/// after the epoch, in the format `fmt`.
pub uninterp spec fn utc_format_of(millis: int, fmt: Seq<char>) -> Seq<char>;

/// An epoch offset in milliseconds, either way, that chrono's calendar
/// reaches (it spans about 262,000 years each side of year 0).
pub const CALENDAR_REACH_MS: i64 = 8_000_000_000_000_000;

/// Relies on chrono's `Utc.timestamp_millis_opt(..).single()` and
/// `DateTime::format(..).to_string()`: the UTC date and time of an epoch
/// offset in milliseconds, formatted; a result for every offset within
/// `CALENDAR_REACH_MS`, none where chrono's calendar does not reach. The
/// format is one that chrono formats without error.
#[verifier::external_body]
fn utc_format(millis: i64, fmt: &str) -> (r: Option<String>)
    requires
        fmt@ == EVENT_STAMP_FORMAT@,
    ensures
        -CALENDAR_REACH_MS <= millis <= CALENDAR_REACH_MS ==> r is Some,
        r matches Some(s) ==> s@ == utc_format_of(millis as int, fmt@),
{
    match Utc.timestamp_millis_opt(millis).single() {
        Some(d) => Some(d.format(fmt).to_string()),
        None => None,
    }
}

/// A field read as a signed 64-bit decimal: an optional sign and one or more
/// digits whose value fits.
pub open spec fn parse_i64_spec(f: Seq<u8>) -> Option<i64> {
    if f.len() > 0 && f[0] == 45 {
        let d = f.drop_first();
        if d.len() > 0 && d[0] != 43 {
            match parse_u64_spec(d) {
                Some(v) => if v <= 0x8000_0000_0000_0000 {
                    Some((0 - v) as i64)
                } else {
                    None
                },
                None => None,
            }
        } else {
            None
        }
    } else {
        match parse_u64_spec(f) {
            Some(v) => if v <= i64::MAX {
                Some(v as i64)
            } else {
                None
            },
            None => None,
        }
    }
}

/// Reads a string as a signed 64-bit decimal.
pub fn parse_i64(s: &str) -> (r: Option<i64>)
    ensures
        r == parse_i64_spec(encode_utf8(s@)),
{
    let b = s.as_bytes();
    let n = b.len();
    if n > 0 && b[0] == 45 {
        proof {
            assert(b@.drop_first() =~= b@.subrange(1, n as int));
        }
        if n == 1 || b[1] == 43 {
            return None;
        }
        match parse_u64_at(b, 1, n) {
            Some(v) => if v <= 0x8000_0000_0000_0000 {
                if v == 0x8000_0000_0000_0000 {
                    Some(i64::MIN)
                } else {
                    Some(0 - (v as i64))
                }
            } else {
                None
            },
            None => None,
        }
    } else {
        proof {
            assert(b@ =~= b@.subrange(0, n as int));
        }
        match parse_u64_at(b, 0, n) {
            Some(v) => if v <= 0x7fff_ffff_ffff_ffff {
                Some(v as i64)
            } else {
                None
            },
            None => None,
        }
    }
}

/// The epoch offset, in milliseconds, an event directory's name carries.
pub open spec fn event_millis(dir_name: Seq<char>) -> Option<i64> {
    match timestamp_spec(dir_name) {
        Some(t) => parse_i64_spec(encode_utf8(t)),
        None => None,
    }
}

/// The date and time an event directory's name stands for, formatted with
/// `EVENT_STAMP_FORMAT`; `None` where the name carries no epoch offset in
/// milliseconds, or chrono's calendar does not reach it.
pub fn event_stamp(dir_name: &str) -> (r: Option<String>)
    ensures
        event_millis(dir_name@) is None ==> r is None,
        event_millis(dir_name@) matches Some(m) && -CALENDAR_REACH_MS <= m <= CALENDAR_REACH_MS ==> r is Some,
        r matches Some(s) ==> event_millis(dir_name@) matches Some(m) && s@ == utc_format_of(
            m as int,
            EVENT_STAMP_FORMAT@,
        ),
{
    match extract_timestamp(dir_name) {
        Some(raw) => match parse_i64(raw) {
            Some(millis) => utc_format(millis, EVENT_STAMP_FORMAT),
            None => None,
        },
        None => None,
    }
}

/// The endpoint that takes the file `file_name`, if its class is asked for.
pub open spec fn upload_endpoint_spec(file_name: Seq<char>, flags: UploadFlags) -> Option<UploadEndpoint> {
    if flags.logs && file_name == LOG_FILE@ {
        Some(UploadEndpoint::Log)
    } else if (flags.video && file_name == VIDEO_FILE@) || (flags.serial && (file_name == CERBERUS_CAPTURE@
        || file_name == SHEPHERD_CAPTURE@)) {
        Some(UploadEndpoint::File)
    } else {
        None
    }
}

/// What becomes of the file `file_name`, given the stamp of its event.
pub open spec fn upload_spec(base: Seq<char>, file_name: Seq<char>, flags: UploadFlags, stamp: Option<Seq<char>>) -> Result<
    (UploadEndpoint, Seq<char>, Seq<char>),
    UploadSkip,
> {
    match upload_endpoint_spec(file_name, flags) {
        Some(UploadEndpoint::Log) => Ok((UploadEndpoint::Log, base + LOG_ENDPOINT@, seq!['_'])),
        Some(UploadEndpoint::File) => match stamp {
            Some(t) => Ok((UploadEndpoint::File, base + FILE_ENDPOINT@, t + seq!['_'] + file_name)),
            None => Err(UploadSkip::NoTimestamp),
        },
        None => Err(UploadSkip::NotSelected),
    }
}

/// The view of a planning outcome.
pub open spec fn plan_view(r: &Result<UploadPlan, UploadSkip>) -> Result<(UploadEndpoint, Seq<char>, Seq<char>), UploadSkip> {
    match r {
        Ok(p) => Ok((p.endpoint, p.url@, p.remote_name@)),
        Err(e) => Err(*e),
    }
}

/// Which endpoint takes the file `file_name`, if its class is asked for.
pub fn upload_endpoint(file_name: &str, flags: UploadFlags) -> (r: Option<UploadEndpoint>)
    ensures
        r == upload_endpoint_spec(file_name@, flags),
{
    if flags.logs && str_equal(file_name, LOG_FILE) {
        Some(UploadEndpoint::Log)
    } else if (flags.video && str_equal(file_name, VIDEO_FILE)) || (flags.serial && (str_equal(
        file_name,
        CERBERUS_CAPTURE,
    ) || str_equal(file_name, SHEPHERD_CAPTURE))) {
        Some(UploadEndpoint::File)
    } else {
        None
    }
}

/// Decides whether and how the file `file_name` is uploaded to the server at
/// `base`, given the stamp of its event (`None` where there is none).
pub fn plan_with_stamp(base: &str, file_name: &str, flags: UploadFlags, stamp: Option<&str>) -> (r: Result<
    UploadPlan,
    UploadSkip,
>)
    ensures
        plan_view(&r) == upload_spec(
            base@,
            file_name@,
            flags,
            match stamp {
                Some(t) => Some(t@),
                None => None,
            },
        ),
{
    match upload_endpoint(file_name, flags) {
        Some(UploadEndpoint::Log) => {
            let mut url = String::from_str(base);
            url.append(LOG_ENDPOINT);
            let mut remote_name = String::new();
            push_char(&mut remote_name, '_');
            proof {
                assert(remote_name@ =~= seq!['_']);
            }
            Ok(UploadPlan { endpoint: UploadEndpoint::Log, url, remote_name })
        },
        Some(UploadEndpoint::File) => match stamp {
            Some(t) => {
                let mut url = String::from_str(base);
                url.append(FILE_ENDPOINT);
                let mut remote_name = String::from_str(t);
                push_char(&mut remote_name, '_');
                remote_name.append(file_name);
                proof {
                    assert(remote_name@ =~= t@ + seq!['_'] + file_name@);
                }
                Ok(UploadPlan { endpoint: UploadEndpoint::File, url, remote_name })
            },
            None => Err(UploadSkip::NoTimestamp),
        },
        None => Err(UploadSkip::NotSelected),
    }
}

/// Decides whether and how the file `file_name` of the event directory
/// `dir_name` is uploaded to the server at `base`. Logs go to the log endpoint
/// under a fixed name; other artifacts go to the file endpoint, named by the
/// date and time of their event.
pub fn plan_upload(base: &str, dir_name: &str, file_name: &str, flags: UploadFlags) -> (r: Result<
    UploadPlan,
    UploadSkip,
>)
    ensures
        upload_endpoint_spec(file_name@, flags) is None ==> r matches Err(UploadSkip::NotSelected),
        upload_endpoint_spec(file_name@, flags) == Some(UploadEndpoint::Log) ==> plan_view(&r) == upload_spec(
            base@,
            file_name@,
            flags,
            None,
        ),
        upload_endpoint_spec(file_name@, flags) == Some(UploadEndpoint::File) ==> match event_millis(
            dir_name@,
        ) {
            None => r matches Err(UploadSkip::NoTimestamp),
            Some(m) => {
                &&& (r matches Err(UploadSkip::NoTimestamp) || plan_view(&r) == upload_spec(
                    base@,
                    file_name@,
                    flags,
                    Some(utc_format_of(m as int, EVENT_STAMP_FORMAT@)),
                ))
                &&& (-CALENDAR_REACH_MS <= m <= CALENDAR_REACH_MS ==> plan_view(&r) == upload_spec(
                    base@,
                    file_name@,
                    flags,
                    Some(utc_format_of(m as int, EVENT_STAMP_FORMAT@)),
                ))
            },
        },
{
    match upload_endpoint(file_name, flags) {
        Some(UploadEndpoint::File) => {
            let stamp = event_stamp(dir_name);
            match stamp {
                Some(s) => {
                    let r = plan_with_stamp(base, file_name, flags, Some(s.as_str()));
                    proof {
                        assert(plan_view(&r) == upload_spec(base@, file_name@, flags, Some(s@)));
                    }
                    r
                },
                None => Err(UploadSkip::NoTimestamp),
            }
        },
        _ => plan_with_stamp(base, file_name, flags, None),
    }
}

} // verus!
