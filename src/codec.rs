//! The telemetry envelope and its binary wire format.
//!
//! An envelope is `{topic, values, unit, time_us}`; values are 32-bit floats
//! carried as their IEEE-754 bit patterns. On the wire it is a tagged record:
//! field 1 the topic (length-delimited UTF-8), field 2 the unit (the same),
//! field 3 the time in microseconds (varint), field 4 the values (packed
//! little-endian 32-bit words, or one word per occurrence). Fields that hold
//! their default (empty, zero) are left out; a decoder accepts fields in any
//! order, keeps the last occurrence of a scalar, concatenates the values, and
//! skips fields it does not know.
use vstd::prelude::*;
use vstd::utf8::{decode_utf8, encode_utf8, valid_utf8};

use crate::PublishableMessage;

verus! {

/// A decoded or to-be-encoded telemetry envelope.
pub struct Envelope {
    pub topic: String,
    /// The values, as IEEE-754 single-precision bit patterns.
    pub values: Vec<u32>,
    pub unit: String,
    /// Time since the epoch in microseconds.
    pub time_us: u64,
}

/// The mathematical view of an envelope.
pub struct EnvelopeModel {
    pub topic: Seq<char>,
    pub values: Seq<u32>,
    pub unit: Seq<char>,
    pub time_us: u64,
}

impl View for Envelope {
    type V = EnvelopeModel;

    open spec fn view(&self) -> EnvelopeModel {
        EnvelopeModel { topic: self.topic@, values: self.values@, unit: self.unit@, time_us: self.time_us }
    }
}

/// Tag of the topic field: field 1, length-delimited.
pub const TAG_TOPIC: u8 = 10;

/// Tag of the unit field: field 2, length-delimited.
pub const TAG_UNIT: u8 = 18;

/// Tag of the time field: field 3, varint.
pub const TAG_TIME: u8 = 24;

/// Tag of the packed values field: field 4, length-delimited.
pub const TAG_VALUES: u8 = 34;

/// The longest varint read, in bytes.
pub const MAX_VARINT_LEN: usize = 10;

/// The base-128 little-endian encoding of `v`, the high bit marking continuation.
pub open spec fn varint_bytes(v: nat) -> Seq<u8>
    decreases v,
{
    if v < 128 {
        seq![v as u8]
    } else {
        seq![(v % 128 + 128) as u8] + varint_bytes(v / 128)
    }
}

/// Reads a varint of at most `fuel` bytes from the front of `b`: its value
/// and its length. Fails on a truncated varint or a value beyond `u64`.
pub open spec fn parse_varint(b: Seq<u8>, fuel: nat) -> Option<(u64, nat)>
    decreases fuel,
{
    if fuel == 0 || b.len() == 0 {
        None
    } else if b[0] < 128 {
        Some((b[0] as u64, 1))
    } else {
        match parse_varint(b.drop_first(), (fuel - 1) as nat) {
            Some((v, n)) => if (b[0] - 128) + 128 * v <= u64::MAX {
                Some((((b[0] - 128) + 128 * v) as u64, n + 1))
            } else {
                None
            },
            None => None,
        }
    }
}

/// The four little-endian bytes of a 32-bit word.
pub open spec fn le32_bytes(v: u32) -> Seq<u8> {
    seq![
        (v & 0xff) as u8,
        ((v >> 8u32) & 0xff) as u8,
        ((v >> 16u32) & 0xff) as u8,
        ((v >> 24u32) & 0xff) as u8,
    ]
}

/// The 32-bit word held little-endian by the first four bytes of `b`.
pub open spec fn le32_value(b: Seq<u8>) -> u32 {
    (b[0] as u32) | ((b[1] as u32) << 8u32) | ((b[2] as u32) << 16u32) | ((b[3] as u32) << 24u32)
}

/// The packed encoding of a sequence of words.
pub open spec fn values_bytes(vs: Seq<u32>) -> Seq<u8>
    decreases vs.len(),
{
    if vs.len() == 0 {
        Seq::empty()
    } else {
        values_bytes(vs.drop_last()) + le32_bytes(vs.last())
    }
}

/// The words of a packed payload, four bytes each.
pub open spec fn parse_values(b: Seq<u8>) -> Seq<u32>
    decreases b.len(),
{
    if b.len() < 4 {
        Seq::empty()
    } else {
        parse_values(b.take(b.len() - 4)).push(le32_value(b.skip(b.len() - 4)))
    }
}

/// A length-delimited string field, left out when the string is empty.
pub open spec fn string_field(tag: nat, s: Seq<char>) -> Seq<u8> {
    if s.len() == 0 {
        Seq::empty()
    } else {
        varint_bytes(tag) + varint_bytes(encode_utf8(s).len()) + encode_utf8(s)
    }
}

/// The time field, left out when zero.
pub open spec fn time_field(t: u64) -> Seq<u8> {
    if t == 0 {
        Seq::empty()
    } else {
        varint_bytes(TAG_TIME as nat) + varint_bytes(t as nat)
    }
}

/// The packed values field, left out when there are none.
pub open spec fn values_field(vs: Seq<u32>) -> Seq<u8> {
    if vs.len() == 0 {
        Seq::empty()
    } else {
        varint_bytes(TAG_VALUES as nat) + varint_bytes(4 * vs.len()) + values_bytes(vs)
    }
}

/// The wire encoding of an envelope.
pub open spec fn encode_spec(e: EnvelopeModel) -> Seq<u8> {
    string_field(TAG_TOPIC as nat, e.topic) + string_field(TAG_UNIT as nat, e.unit) + time_field(e.time_us)
        + values_field(e.values)
}

/// The envelope with every field at its default.
pub open spec fn empty_model() -> EnvelopeModel {
    EnvelopeModel { topic: Seq::empty(), values: Seq::empty(), unit: Seq::empty(), time_us: 0 }
}

/// Applies one field whose tag was read; `b` is what follows the tag.
/// Gives the updated envelope and the number of bytes the field's body takes.
pub open spec fn decode_field(tag: u64, b: Seq<u8>, acc: EnvelopeModel) -> Option<(EnvelopeModel, nat)> {
    let field = tag / 8;
    let wt = tag % 8;
    if field == 0 {
        None
    } else if wt == 0 {
        if field == 1 || field == 2 || field == 4 {
            None
        } else {
            match parse_varint(b, MAX_VARINT_LEN as nat) {
                Some((v, n)) => Some(
                    (if field == 3 { EnvelopeModel { time_us: v, ..acc } } else { acc }, n),
                ),
                None => None,
            }
        }
    } else if wt == 1 {
        if field <= 4 || b.len() < 8 {
            None
        } else {
            Some((acc, 8))
        }
    } else if wt == 2 {
        if field == 3 {
            None
        } else {
            match parse_varint(b, MAX_VARINT_LEN as nat) {
                None => None,
                Some((len, n)) => if n + len > b.len() {
                    None
                } else {
                    let payload = b.subrange(n as int, n + len);
                    if field == 1 {
                        if valid_utf8(payload) {
                            Some((EnvelopeModel { topic: decode_utf8(payload), ..acc }, (n + len) as nat))
                        } else {
                            None
                        }
                    } else if field == 2 {
                        if valid_utf8(payload) {
                            Some((EnvelopeModel { unit: decode_utf8(payload), ..acc }, (n + len) as nat))
                        } else {
                            None
                        }
                    } else if field == 4 {
                        if len % 4 == 0 {
                            Some(
                                (
                                    EnvelopeModel { values: acc.values + parse_values(payload), ..acc },
                                    (n + len) as nat,
                                ),
                            )
                        } else {
                            None
                        }
                    } else {
                        Some((acc, (n + len) as nat))
                    }
                },
            }
        }
    } else if wt == 5 {
        if field == 1 || field == 2 || field == 3 || b.len() < 4 {
            None
        } else if field == 4 {
            Some((EnvelopeModel { values: acc.values.push(le32_value(b)), ..acc }, 4))
        } else {
            Some((acc, 4))
        }
    } else {
        None
    }
}

/// Decodes the fields of `b` onto `acc`.
pub open spec fn decode_from(b: Seq<u8>, acc: EnvelopeModel) -> Option<EnvelopeModel>
    decreases b.len(),
{
    if b.len() == 0 {
        Some(acc)
    } else {
        match parse_varint(b, MAX_VARINT_LEN as nat) {
            None => None,
            Some((tag, n)) => match decode_field(tag, b.skip(n as int), acc) {
                None => None,
                Some((acc2, m)) => if 1 <= n && n + m <= b.len() {
                    decode_from(b.skip((n + m) as int), acc2)
                } else {
                    None
                },
            },
        }
    }
}

/// The envelope that `b` encodes, if it is a well-formed record.
pub open spec fn decode_spec(b: Seq<u8>) -> Option<EnvelopeModel> {
    decode_from(b, empty_model())
}

/// Relies on `String::from_utf8`: the bytes are taken as a string exactly
/// when they are valid UTF-8.
#[verifier::external_body]
fn utf8_string(b: &[u8]) -> (r: Option<String>)
    ensures
        r is Some <==> valid_utf8(b@),
        r matches Some(s) ==> s@ == decode_utf8(b@),
{
    String::from_utf8(b.to_vec()).ok()
}

/// Appends the varint encoding of `v`.
fn write_varint(out: &mut Vec<u8>, v: u64)
    ensures
        final(out)@ == old(out)@ + varint_bytes(v as nat),
    decreases v,
{
    if v < 128 {
        out.push(v as u8);
    } else {
        out.push((v % 128 + 128) as u8);
        write_varint(out, v / 128);
        proof {
            assert(final(out)@ =~= old(out)@ + varint_bytes(v as nat));
        }
    }
}

/// Appends bytes.
fn write_bytes(out: &mut Vec<u8>, b: &[u8])
    ensures
        final(out)@ == old(out)@ + b@,
{
    let mut i: usize = 0;
    while i < b.len()
        invariant
            i <= b@.len(),
            out@ == old(out)@ + b@.take(i as int),
        decreases b@.len() - i,
    {
        out.push(b[i]);
        i = i + 1;
        proof {
            assert(out@ =~= old(out)@ + b@.take(i as int));
        }
    }
    proof {
        assert(b@.take(i as int) =~= b@);
    }
}

/// Appends a string field, left out when the string is empty.
fn write_string_field(out: &mut Vec<u8>, tag: u8, s: &str)
    ensures
        final(out)@ == old(out)@ + string_field(tag as nat, s@),
{
    if !s.is_empty() {
        let b = s.as_bytes();
        write_varint(out, tag as u64);
        write_varint(out, b.len() as u64);
        write_bytes(out, b);
        proof {
            assert(final(out)@ =~= old(out)@ + string_field(tag as nat, s@));
        }
    } else {
        proof {
            assert(final(out)@ =~= old(out)@ + string_field(tag as nat, s@));
        }
    }
}

/// Appends the packed values field, left out when there are none.
fn write_values_field(out: &mut Vec<u8>, vs: &Vec<u32>)
    requires
        4 * vs@.len() <= u64::MAX,
    ensures
        final(out)@ == old(out)@ + values_field(vs@),
{
    if vs.len() == 0 {
        proof {
            assert(final(out)@ =~= old(out)@ + values_field(vs@));
        }
        return;
    }
    write_varint(out, TAG_VALUES as u64);
    write_varint(out, 4 * vs.len() as u64);
    let ghost head = out@;
    let mut i: usize = 0;
    while i < vs.len()
        invariant
            i <= vs@.len(),
            out@ == head + values_bytes(vs@.take(i as int)),
        decreases vs@.len() - i,
    {
        let v = vs[i];
        out.push((v & 0xff) as u8);
        out.push(((v >> 8u32) & 0xff) as u8);
        out.push(((v >> 16u32) & 0xff) as u8);
        out.push(((v >> 24u32) & 0xff) as u8);
        proof {
            let t = vs@.take(i + 1);
            assert(t.drop_last() =~= vs@.take(i as int));
            assert(values_bytes(t) == values_bytes(t.drop_last()) + le32_bytes(t.last()));
        }
        i = i + 1;
        proof {
            assert(out@ =~= head + values_bytes(vs@.take(i as int)));
        }
    }
    proof {
        assert(vs@.take(i as int) =~= vs@);
        assert(final(out)@ =~= old(out)@ + values_field(vs@));
    }
}

/// Encodes an envelope.
pub fn encode_envelope(e: &Envelope) -> (r: Vec<u8>)
    requires
        4 * e.values@.len() <= u64::MAX,
    ensures
        r@ == encode_spec(e@),
{
    let mut out: Vec<u8> = Vec::new();
    write_string_field(&mut out, TAG_TOPIC, e.topic.as_str());
    write_string_field(&mut out, TAG_UNIT, e.unit.as_str());
    if e.time_us != 0 {
        write_varint(&mut out, TAG_TIME as u64);
        write_varint(&mut out, e.time_us);
    }
    write_values_field(&mut out, &e.values);
    proof {
        assert(out@ =~= encode_spec(e@));
    }
    out
}

/// Reads a varint of at most `fuel` bytes at `pos`: its value and length.
fn read_varint(b: &[u8], pos: usize, fuel: usize) -> (r: Option<(u64, usize)>)
    requires
        pos <= b@.len(),
    ensures
        r is None ==> parse_varint(b@.skip(pos as int), fuel as nat) is None,
        r matches Some((v, n)) ==> parse_varint(b@.skip(pos as int), fuel as nat) == Some((v, n as nat))
            && 1 <= n <= b@.len() - pos,
    decreases fuel,
{
    if fuel == 0 || pos >= b.len() {
        return None;
    }
    let byte = b[pos];
    if byte < 128 {
        return Some((byte as u64, 1));
    }
    proof {
        assert(b@.skip(pos as int).drop_first() =~= b@.skip(pos + 1));
    }
    match read_varint(b, pos + 1, fuel - 1) {
        None => None,
        Some((v, n)) => {
            let low = (byte - 128) as u64;
            if v > (u64::MAX - low) / 128 {
                proof {
                    assert(low + 128 * v > u64::MAX) by (nonlinear_arith)
                        requires
                            v > (u64::MAX - low) / 128,
                            low < 128,
                    ;
                }
                None
            } else {
                proof {
                    assert(low + 128 * v <= u64::MAX) by (nonlinear_arith)
                        requires
                            v <= (u64::MAX - low) / 128,
                            low < 128,
                    ;
                }
                Some((low + 128 * v, n + 1))
            }
        },
    }
}

/// The little-endian word at `pos`.
fn read_le32(b: &[u8], pos: usize) -> (r: u32)
    requires
        pos + 4 <= b@.len(),
    ensures
        r == le32_value(b@.skip(pos as int)),
{
    (b[pos] as u32) | ((b[pos + 1] as u32) << 8u32) | ((b[pos + 2] as u32) << 16u32) | ((b[pos + 3] as u32) << 24u32)
}

/// Appends the words of a packed payload of `len` bytes at `pos`.
fn read_values(b: &[u8], pos: usize, len: usize, values: &mut Vec<u32>)
    requires
        pos + len <= b@.len(),
        len % 4 == 0,
    ensures
        final(values)@ == old(values)@ + parse_values(b@.subrange(pos as int, pos + len)),
{
    let ghost payload = b@.subrange(pos as int, pos + len);
    let blen = b.len();
    let mut j: usize = 0;
    while j < len
        invariant
            blen == b@.len(),
            pos + len <= b@.len(),
            len % 4 == 0,
            payload == b@.subrange(pos as int, pos + len),
            j <= len,
            j % 4 == 0,
            values@ == old(values)@ + parse_values(payload.take(j as int)),
        decreases len - j,
    {
        let w = read_le32(b, pos + j);
        values.push(w);
        proof {
            let t = payload.take(j + 4);
            assert(t.take(t.len() - 4) =~= payload.take(j as int));
            assert(t.skip(t.len() - 4) =~= b@.skip(pos + j).take(4));
            assert(le32_value(t.skip(t.len() - 4)) == le32_value(b@.skip(pos + j)));
        }
        j = j + 4;
        proof {
            assert(values@ =~= old(values)@ + parse_values(payload.take(j as int)));
        }
    }
    proof {
        assert(payload.take(j as int) =~= payload);
    }
}

/// Applies one field whose tag was read, the field's body starting at `pos`.
/// Gives the number of bytes the body takes.
fn decode_field_at(b: &[u8], pos: usize, tag: u64, acc: &mut Envelope) -> (r: Option<usize>)
    requires
        pos <= b@.len(),
    ensures
        r is None ==> decode_field(tag, b@.skip(pos as int), old(acc)@) is None,
        r matches Some(m) ==> decode_field(tag, b@.skip(pos as int), old(acc)@) == Some((final(acc)@, m as nat))
            && m <= b@.len() - pos,
{
    let field = tag / 8;
    let wt = tag % 8;
    let ghost rest = b@.skip(pos as int);
    if field == 0 {
        None
    } else if wt == 0 {
        if field == 1 || field == 2 || field == 4 {
            return None;
        }
        match read_varint(b, pos, MAX_VARINT_LEN) {
            Some((v, n)) => {
                if field == 3 {
                    acc.time_us = v;
                }
                Some(n)
            },
            None => None,
        }
    } else if wt == 1 {
        if field <= 4 || b.len() - pos < 8 {
            None
        } else {
            Some(8)
        }
    } else if wt == 2 {
        if field == 3 {
            return None;
        }
        match read_varint(b, pos, MAX_VARINT_LEN) {
            None => None,
            Some((len, n)) => {
                if len > (b.len() - pos - n) as u64 {
                    return None;
                }
                let len = len as usize;
                let start = pos + n;
                proof {
                    assert(rest.subrange(n as int, n + len) =~= b@.subrange(start as int, start + len));
                }
                if field == 1 || field == 2 {
                    let payload = &b[start..start + len];
                    match utf8_string(payload) {
                        Some(text) => {
                            if field == 1 {
                                acc.topic = text;
                            } else {
                                acc.unit = text;
                            }
                            Some(n + len)
                        },
                        None => None,
                    }
                } else if field == 4 {
                    if len % 4 == 0 {
                        read_values(b, start, len, &mut acc.values);
                        Some(n + len)
                    } else {
                        None
                    }
                } else {
                    Some(n + len)
                }
            },
        }
    } else if wt == 5 {
        if field == 1 || field == 2 || field == 3 || b.len() - pos < 4 {
            None
        } else if field == 4 {
            let w = read_le32(b, pos);
            acc.values.push(w);
            Some(4)
        } else {
            Some(4)
        }
    } else {
        None
    }
}

/// Decodes an envelope; `None` where the bytes are not a well-formed record.
pub fn decode_envelope(b: &[u8]) -> (r: Option<Envelope>)
    ensures
        r is None ==> decode_spec(b@) is None,
        r matches Some(e) ==> decode_spec(b@) == Some(e@),
{
    let mut acc = Envelope { topic: String::new(), values: Vec::new(), unit: String::new(), time_us: 0 };
    let mut pos: usize = 0;
    proof {
        assert(b@.skip(0) =~= b@);
        assert(acc@ =~= empty_model());
    }
    while pos < b.len()
        invariant
            pos <= b@.len(),
            decode_from(b@.skip(pos as int), acc@) == decode_spec(b@),
        decreases b@.len() - pos,
    {
        let ghost before = acc@;
        let (tag, n) = match read_varint(b, pos, MAX_VARINT_LEN) {
            Some(x) => x,
            None => return None,
        };
        proof {
            assert(b@.skip(pos as int).skip(n as int) =~= b@.skip(pos + n));
        }
        let m = match decode_field_at(b, pos + n, tag, &mut acc) {
            Some(m) => m,
            None => return None,
        };
        proof {
            assert(b@.skip(pos as int).skip((n + m) as int) =~= b@.skip(pos + n + m));
        }
        pos = pos + n + m;
    }
    proof {
        assert(b@.skip(pos as int).len() == 0);
    }
    Some(acc)
}

/// `128` to the power `k`.
pub open spec fn pow128(k: nat) -> nat
    decreases k,
{
    if k == 0 {
        1
    } else {
        128 * pow128((k - 1) as nat)
    }
}

proof fn lemma_varint_len(v: nat, k: nat)
    requires
        v < pow128(k),
        k >= 1,
    ensures
        varint_bytes(v).len() <= k,
    decreases k,
{
    if v >= 128 {
        let p = pow128((k - 1) as nat);
        assert(k >= 2) by {
            if k == 1 {
                assert(pow128(0) == 1);
            }
        }
        assert(v / 128 < p) by (nonlinear_arith)
            requires
                v < 128 * p,
        ;
        lemma_varint_len(v / 128, (k - 1) as nat);
    }
}

/// Every 64-bit value has a varint of at most `MAX_VARINT_LEN` bytes.
proof fn lemma_varint_fits(v: nat)
    requires
        v <= u64::MAX,
    ensures
        1 <= varint_bytes(v).len() <= MAX_VARINT_LEN,
{
    reveal_with_fuel(pow128, 11);
    assert(pow128(10) == 1180591620717411303424nat);
    lemma_varint_len(v, 10);
}

proof fn lemma_varint_round_trip(v: nat, rest: Seq<u8>, fuel: nat)
    requires
        v <= u64::MAX,
        varint_bytes(v).len() <= fuel,
    ensures
        parse_varint(varint_bytes(v) + rest, fuel) == Some((v as u64, varint_bytes(v).len())),
    decreases v,
{
    let b = varint_bytes(v) + rest;
    if v >= 128 {
        assert(b.drop_first() =~= varint_bytes(v / 128) + rest);
        lemma_varint_round_trip(v / 128, rest, (fuel - 1) as nat);
        assert(b[0] == (v % 128 + 128) as u8);
    }
}

/// A varint followed by anything reads back as its value.
proof fn lemma_read_varint(v: nat, rest: Seq<u8>)
    requires
        v <= u64::MAX,
    ensures
        parse_varint(varint_bytes(v) + rest, MAX_VARINT_LEN as nat) == Some((v as u64, varint_bytes(v).len())),
        1 <= varint_bytes(v).len() <= MAX_VARINT_LEN,
{
    lemma_varint_fits(v);
    lemma_varint_round_trip(v, rest, MAX_VARINT_LEN as nat);
}

proof fn lemma_le32_round_trip(v: u32)
    ensures
        le32_value(le32_bytes(v)) == v,
{
    assert((((v & 0xff) as u8) as u32) | (((((v >> 8u32) & 0xff) as u8) as u32) << 8u32) | (((((v
        >> 16u32) & 0xff) as u8) as u32) << 16u32) | (((((v >> 24u32) & 0xff) as u8) as u32) << 24u32)
        == v) by (bit_vector);
}

proof fn lemma_values_round_trip(vs: Seq<u32>)
    ensures
        values_bytes(vs).len() == 4 * vs.len(),
        parse_values(values_bytes(vs)) == vs,
    decreases vs.len(),
{
    if vs.len() > 0 {
        lemma_values_round_trip(vs.drop_last());
        let b = values_bytes(vs);
        assert(b.take(b.len() - 4) =~= values_bytes(vs.drop_last()));
        assert(b.skip(b.len() - 4) =~= le32_bytes(vs.last()));
        lemma_le32_round_trip(vs.last());
        assert(vs.drop_last().push(vs.last()) =~= vs);
    }
}

/// A single-byte tag reads back as itself.
proof fn lemma_read_tag(tag: u8, rest: Seq<u8>)
    requires
        tag < 128,
    ensures
        varint_bytes(tag as nat) == seq![tag],
        parse_varint(varint_bytes(tag as nat) + rest, MAX_VARINT_LEN as nat) == Some((tag as u64, 1nat)),
{
    assert((varint_bytes(tag as nat) + rest)[0] == tag);
}

proof fn lemma_decode_string_field(tag: u8, s: Seq<char>, rest: Seq<u8>, acc: EnvelopeModel)
    requires
        tag == TAG_TOPIC || tag == TAG_UNIT,
        s.len() > 0,
        encode_utf8(s).len() <= u64::MAX,
    ensures
        decode_from(string_field(tag as nat, s) + rest, acc) == decode_from(
            rest,
            if tag == TAG_TOPIC {
                EnvelopeModel { topic: s, ..acc }
            } else {
                EnvelopeModel { unit: s, ..acc }
            },
        ),
{
    let e = encode_utf8(s);
    let len = e.len();
    let b = string_field(tag as nat, s) + rest;
    let body = varint_bytes(len) + (e + rest);
    lemma_read_tag(tag, body);
    assert(b =~= varint_bytes(tag as nat) + body);
    assert(b.skip(1) =~= body);
    lemma_read_varint(len, e + rest);
    let n = varint_bytes(len).len();
    assert(body.subrange(n as int, (n + len) as int) =~= e);
    vstd::utf8::encode_utf8_valid_utf8(s);
    vstd::utf8::encode_utf8_decode_utf8(s);
    assert(b.skip((1 + n + len) as int) =~= rest);
}

proof fn lemma_decode_time_field(t: u64, rest: Seq<u8>, acc: EnvelopeModel)
    requires
        t != 0,
    ensures
        decode_from(time_field(t) + rest, acc) == decode_from(rest, EnvelopeModel { time_us: t, ..acc }),
{
    let b = time_field(t) + rest;
    let body = varint_bytes(t as nat) + rest;
    lemma_read_tag(TAG_TIME, body);
    assert(b =~= varint_bytes(TAG_TIME as nat) + body);
    assert(b.skip(1) =~= body);
    lemma_read_varint(t as nat, rest);
    let n = varint_bytes(t as nat).len();
    assert(b.skip((1 + n) as int) =~= rest);
}

proof fn lemma_decode_values_field(vs: Seq<u32>, rest: Seq<u8>, acc: EnvelopeModel)
    requires
        vs.len() > 0,
        4 * vs.len() <= u64::MAX,
    ensures
        decode_from(values_field(vs) + rest, acc) == decode_from(
            rest,
            EnvelopeModel { values: acc.values + vs, ..acc },
        ),
{
    let p = values_bytes(vs);
    lemma_values_round_trip(vs);
    let len = 4 * vs.len();
    let b = values_field(vs) + rest;
    let body = varint_bytes(len) + (p + rest);
    lemma_read_tag(TAG_VALUES, body);
    assert(b =~= varint_bytes(TAG_VALUES as nat) + body);
    assert(b.skip(1) =~= body);
    lemma_read_varint(len, p + rest);
    let n = varint_bytes(len).len();
    assert(body.subrange(n as int, (n + len) as int) =~= p);
    assert(b.skip((1 + n + len) as int) =~= rest);
}

/// Decoding an encoded envelope gives back the same topic, values, unit and
/// time.
pub proof fn lemma_round_trip(e: EnvelopeModel)
    requires
        encode_utf8(e.topic).len() <= u64::MAX,
        encode_utf8(e.unit).len() <= u64::MAX,
        4 * e.values.len() <= u64::MAX,
    ensures
        decode_spec(encode_spec(e)) == Some(e),
{
    let s1 = string_field(TAG_TOPIC as nat, e.topic);
    let s2 = string_field(TAG_UNIT as nat, e.unit);
    let s3 = time_field(e.time_us);
    let s4 = values_field(e.values);
    assert(encode_spec(e) =~= s1 + (s2 + (s3 + s4)));
    let a0 = empty_model();
    let a1 = EnvelopeModel { topic: e.topic, ..a0 };
    let a2 = EnvelopeModel { unit: e.unit, ..a1 };
    let a3 = EnvelopeModel { time_us: e.time_us, ..a2 };
    let a4 = EnvelopeModel { values: a3.values + e.values, ..a3 };
    if e.topic.len() > 0 {
        lemma_decode_string_field(TAG_TOPIC, e.topic, s2 + (s3 + s4), a0);
    } else {
        assert(s1 + (s2 + (s3 + s4)) =~= s2 + (s3 + s4));
        assert(e.topic =~= Seq::<char>::empty());
    }
    if e.unit.len() > 0 {
        lemma_decode_string_field(TAG_UNIT, e.unit, s3 + s4, a1);
    } else {
        assert(s2 + (s3 + s4) =~= s3 + s4);
        assert(e.unit =~= Seq::<char>::empty());
    }
    if e.time_us != 0 {
        lemma_decode_time_field(e.time_us, s4, a2);
    } else {
        assert(s3 + s4 =~= s4);
    }
    if e.values.len() > 0 {
        lemma_decode_values_field(e.values, Seq::empty(), a3);
        assert(s4 + Seq::empty() =~= s4);
    } else {
        assert(a3.values + e.values =~= e.values);
    }
    assert(a4.values =~= e.values);
}

/// A bus message ready to publish: the topic travels beside the payload.
pub struct OutboundFrame {
    pub topic: String,
    pub payload: Vec<u8>,
}

/// The payload published for a measurement whose values are `data` and unit
/// `unit`, stamped `now_us`.
pub open spec fn outbound_payload(data: Seq<u32>, unit: Seq<char>, now_us: u64) -> Seq<u8> {
    encode_spec(EnvelopeModel { topic: Seq::empty(), values: data, unit, time_us: now_us })
}

/// Encodes a measurement for publishing. The time is stamped at encoding,
/// `now_us`, not taken from the measurement.
pub fn encode_outbound(m: &PublishableMessage, now_us: u64) -> (r: OutboundFrame)
    requires
        4 * m.data@.len() <= u64::MAX,
    ensures
        r.topic@ == m.topic@,
        r.payload@ == outbound_payload(m.data@, m.unit@, now_us),
{
    let mut out: Vec<u8> = Vec::new();
    write_string_field(&mut out, TAG_UNIT, m.unit.as_str());
    if now_us != 0 {
        write_varint(&mut out, TAG_TIME as u64);
        write_varint(&mut out, now_us);
    }
    write_values_field(&mut out, &m.data);
    proof {
        let e = EnvelopeModel { topic: Seq::empty(), values: m.data@, unit: m.unit@, time_us: now_us };
        assert(string_field(TAG_TOPIC as nat, e.topic) =~= Seq::<u8>::empty());
        assert(out@ =~= encode_spec(e));
    }
    OutboundFrame { topic: m.topic.clone(), payload: out }
}

/// The envelope received on `topic` with payload `payload`: the topic is the
/// one the bus delivered it on.
pub open spec fn inbound_spec(topic: Seq<char>, payload: Seq<u8>) -> Option<EnvelopeModel> {
    match decode_spec(payload) {
        Some(e) => Some(EnvelopeModel { topic, ..e }),
        None => None,
    }
}

/// Decodes a payload received on `topic`.
pub fn decode_inbound(topic: String, payload: &[u8]) -> (r: Option<Envelope>)
    ensures
        r is None ==> inbound_spec(topic@, payload@) is None,
        r matches Some(e) ==> inbound_spec(topic@, payload@) == Some(e@),
{
    match decode_envelope(payload) {
        Some(e) => Some(Envelope { topic, ..e }),
        None => None,
    }
}

/// The length-delimited record of an envelope: its length as a varint, then
/// its encoding.
pub open spec fn record_spec(e: EnvelopeModel) -> Seq<u8> {
    varint_bytes(encode_spec(e).len()) + encode_spec(e)
}

/// Encodes an envelope as a length-delimited record.
pub fn encode_record(e: &Envelope) -> (r: Vec<u8>)
    requires
        4 * e.values@.len() <= u64::MAX,
    ensures
        r@ == record_spec(e@),
{
    let body = encode_envelope(e);
    let mut out: Vec<u8> = Vec::new();
    write_varint(&mut out, body.len() as u64);
    write_bytes(&mut out, body.as_slice());
    proof {
        assert(out@ =~= record_spec(e@));
    }
    out
}

/// A published measurement decodes, on the topic it was published on, to the
/// same topic, values and unit; its time is the one stamped at encoding.
pub proof fn lemma_publish_round_trip(topic: Seq<char>, data: Seq<u32>, unit: Seq<char>, now_us: u64)
    requires
        encode_utf8(unit).len() <= u64::MAX,
        4 * data.len() <= u64::MAX,
    ensures
        inbound_spec(topic, outbound_payload(data, unit, now_us)) == Some(
            EnvelopeModel { topic, values: data, unit, time_us: now_us },
        ),
{
    let e = EnvelopeModel { topic: Seq::empty(), values: data, unit, time_us: now_us };
    assert(encode_utf8(Seq::<char>::empty()) =~= Seq::<u8>::empty());
    lemma_round_trip(e);
}

} // verus!
