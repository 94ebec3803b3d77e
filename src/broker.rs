//! The bus connection settings.
use vstd::prelude::*;
use vstd::utf8::encode_utf8;

use crate::daq::{parse_u64_at, parse_u64_spec};
use crate::layout::{decimal, push_decimal};
use crate::text::push_char;
use crate::upload::first_index_of;

verus! {

/// The prefix of the client identifier the hub connects with.
pub const CLIENT_ID_PREFIX: &'static str = "Ody-";

/// Why a broker address is refused.
#[derive(Clone, Copy, Debug, PartialEq, Eq, Structural)]
pub enum AddressError {
    /// The address holds no `:`.
    MissingPort,
    /// What follows the first `:` is not a port number.
    InvalidPort,
}

/// The host and port of an address `host:port`, split at the first `:`.
pub open spec fn broker_spec(path: Seq<char>) -> Result<(Seq<char>, u16), AddressError> {
    match first_index_of(path, ':') {
        None => Err(AddressError::MissingPort),
        Some(i) => match parse_u64_spec(encode_utf8(path.skip((i + 1) as int))) {
            Some(v) => if v <= u16::MAX {
                Ok((path.take(i as int), v as u16))
            } else {
                Err(AddressError::InvalidPort)
            },
            None => Err(AddressError::InvalidPort),
        },
    }
}

proof fn lemma_first_colon(s: Seq<char>, i: int)
    requires
        0 <= i <= s.len(),
        forall|k: int| 0 <= k < i ==> s[k] != ':',
        i < s.len() ==> s[i] == ':',
    ensures
        first_index_of(s, ':') == (if i < s.len() { Some(i as nat) } else { None }),
    decreases i,
{
    if i > 0 {
        lemma_first_colon(s.drop_first(), i - 1);
    }
}

/// Splits a broker address `host:port`.
pub fn parse_broker_address(path: &str) -> (r: Result<(String, u16), AddressError>)
    ensures
        match r {
            Ok((host, port)) => broker_spec(path@) == Ok::<(Seq<char>, u16), AddressError>((host@, port)),
            Err(e) => broker_spec(path@) == Err::<(Seq<char>, u16), AddressError>(e),
        },
{
    let n = path.unicode_len();
    let mut i: usize = 0;
    while i < n
        invariant
            n == path@.len(),
            i <= n,
            forall|k: int| 0 <= k < i ==> path@[k] != ':',
        ensures
            i <= n,
            i < n ==> path@[i as int] == ':',
            forall|k: int| 0 <= k < i ==> path@[k] != ':',
        decreases n - i,
    {
        if path.get_char(i) == ':' {
            break;
        }
        i = i + 1;
    }
    proof {
        lemma_first_colon(path@, i as int);
    }
    if i == n {
        return Err(AddressError::MissingPort);
    }
    let host = path.substring_char(0, i);
    let port_text = path.substring_char(i + 1, n);
    let bytes = port_text.as_bytes();
    proof {
        assert(bytes@.subrange(0, bytes@.len() as int) =~= bytes@);
    }
    match parse_u64_at(bytes, 0, bytes.len()) {
        Some(v) => if v <= 65535 {
            Ok((String::from_str(host), v as u16))
        } else {
            Err(AddressError::InvalidPort)
        },
        None => Err(AddressError::InvalidPort),
    }
}

/// The client identifier for a connection made at `now_ms`.
pub fn client_id(now_ms: u64) -> (r: String)
    ensures
        r@ == CLIENT_ID_PREFIX@ + decimal(now_ms as nat),
{
    let mut s = String::from_str(CLIENT_ID_PREFIX);
    push_decimal(&mut s, now_ms);
    s
}

/// What replaces the broker's `$SYS` in republished topics.
pub const SYS_REPLACEMENT: &'static str = "SYS_tpu";

/// Whether `s` starts with `$SYS`.
pub open spec fn starts_with_sys(s: Seq<char>) -> bool {
    s.len() >= 4 && s[0] == '$' && s[1] == 'S' && s[2] == 'Y' && s[3] == 'S'
}

/// `s` with every `$SYS` replaced, left to right.
pub open spec fn sys_topic_spec(s: Seq<char>) -> Seq<char>
    decreases s.len(),
{
    if s.len() == 0 {
        s
    } else if starts_with_sys(s) {
        SYS_REPLACEMENT@ + sys_topic_spec(s.skip(4))
    } else {
        seq![s[0]] + sys_topic_spec(s.drop_first())
    }
}

/// The topic a broker statistic is republished under: every `$SYS` becomes
/// `SYS_tpu`.
pub fn sys_topic(topic: &str) -> (r: String)
    ensures
        r@ == sys_topic_spec(topic@),
{
    let n = topic.unicode_len();
    let mut out = String::new();
    let mut i: usize = 0;
    proof {
        assert(topic@.skip(0) =~= topic@);
    }
    while i < n
        invariant
            n == topic@.len(),
            i <= n,
            out@ + sys_topic_spec(topic@.skip(i as int)) == sys_topic_spec(topic@),
        decreases n - i,
    {
        let ghost rest = topic@.skip(i as int);
        let c = topic.get_char(i);
        if n - i >= 4 && c == '$' && topic.get_char(i + 1) == 'S' && topic.get_char(i + 2) == 'Y'
            && topic.get_char(i + 3) == 'S' {
            out.append(SYS_REPLACEMENT);
            proof {
                assert(rest.skip(4) =~= topic@.skip(i + 4));
            }
            i = i + 4;
        } else {
            push_char(&mut out, c);
            proof {
                assert(rest.drop_first() =~= topic@.skip(i + 1));
            }
            i = i + 1;
        }
    }
    proof {
        assert(topic@.skip(n as int) =~= Seq::<char>::empty());
        assert(out@ =~= sys_topic_spec(topic@));
    }
    out
}

/// The broker's process id written in a pid file: one trailing newline is
/// dropped; text that is no `u32` gives process 1.
pub open spec fn broker_pid_spec(b: Seq<u8>) -> u32 {
    let t = if b.len() > 0 && b.last() == 10 {
        b.drop_last()
    } else {
        b
    };
    match parse_u64_spec(t) {
        Some(v) => if v <= u32::MAX {
            v as u32
        } else {
            1
        },
        None => 1,
    }
}

/// Reads the broker's process id from the text of its pid file.
pub fn broker_pid(text: &str) -> (r: u32)
    ensures
        r == broker_pid_spec(encode_utf8(text@)),
{
    let b = text.as_bytes();
    let mut end = b.len();
    if end > 0 && b[end - 1] == 10 {
        end = end - 1;
        proof {
            assert(b@.drop_last() =~= b@.subrange(0, end as int));
        }
    } else {
        proof {
            assert(b@ =~= b@.subrange(0, end as int));
        }
    }
    match parse_u64_at(b, 0, end) {
        Some(v) => if v <= 0xffff_ffff {
            v as u32
        } else {
            1
        },
        None => 1,
    }
}

} // verus!
