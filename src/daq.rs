//! The DAQ serial record: a line of comma-separated decimal channels,
//! possibly preceded by noise up to a `$` marker.
//!
//! The part after the last `$` is split at commas; a record with fewer than
//! `DAQ_MIN_FIELDS` fields is refused, and so is a record in which any field is
//! not a decimal integer. Fields are channels numbered from 0: channels 1, 2,
//! 3 and 7 are the shock potentiometers, channel 6 the steering angle.
use vstd::prelude::*;
use vstd::utf8::encode_utf8;

verus! {

/// The fewest fields a record may have.
pub const DAQ_MIN_FIELDS: usize = 10;

/// The CAN identifier the steering angle is sent under.
pub const DAQ_CAN_ID: u16 = 0x630;

/// Raw readings of one record.
#[derive(Clone, Copy, Debug, PartialEq, Eq, Structural)]
pub struct DaqSample {
    /// Shock potentiometer on channel 1.
    pub shock_1: u64,
    /// Shock potentiometer on channel 2.
    pub shock_2: u64,
    /// Shock potentiometer on channel 3.
    pub shock_3: u64,
    /// Shock potentiometer on channel 7.
    pub shock_7: u64,
    /// Steering angle sensor on channel 6.
    pub steering: u64,
}

/// Why a line gave no sample.
#[derive(Clone, Copy, Debug, PartialEq, Eq, Structural)]
pub enum DaqParseError {
    /// Fewer than `DAQ_MIN_FIELDS` fields.
    UnderCount,
    /// A field is not a decimal integer.
    BadField,
}

pub open spec fn is_digit(c: u8) -> bool {
    48 <= c <= 57
}

/// The value of a string of decimal digits.
pub open spec fn digits_value(d: Seq<u8>) -> nat
    decreases d.len(),
{
    if d.len() == 0 {
        0
    } else {
        digits_value(d.drop_last()) * 10 + (d.last() - 48) as nat
    }
}

/// The digits of a field: without a leading `+`.
pub open spec fn field_digits(f: Seq<u8>) -> Seq<u8> {
    if f.len() > 0 && f[0] == 43 {
        f.drop_first()
    } else {
        f
    }
}

/// A field read as an unsigned 64-bit decimal: an optional `+` and one or
/// more digits whose value fits.
pub open spec fn parse_u64_spec(f: Seq<u8>) -> Option<u64> {
    let d = field_digits(f);
    if d.len() > 0 && (forall|i: int| 0 <= i < d.len() ==> is_digit(#[trigger] d[i])) && digits_value(d)
        <= u64::MAX {
        Some(digits_value(d) as u64)
    } else {
        None
    }
}

/// The part of `b` after its last `$`; all of `b` where it holds none.
pub open spec fn after_last_dollar(b: Seq<u8>) -> Seq<u8>
    decreases b.len(),
{
    if b.len() == 0 {
        b
    } else if b.last() == 36 {
        Seq::empty()
    } else {
        after_last_dollar(b.drop_last()).push(b.last())
    }
}

/// `b` split at every comma; never empty.
pub open spec fn split_fields(b: Seq<u8>) -> Seq<Seq<u8>>
    decreases b.len(),
{
    if b.len() == 0 {
        seq![Seq::empty()]
    } else if b.last() == 44 {
        split_fields(b.drop_last()).push(Seq::empty())
    } else {
        let f = split_fields(b.drop_last());
        f.update(f.len() - 1, f.last().push(b.last()))
    }
}

/// The values of the fields, in order; `None` where a field is not a
/// decimal integer.
pub open spec fn channels(fields: Seq<Seq<u8>>) -> Option<Seq<u64>>
    decreases fields.len(),
{
    if fields.len() == 0 {
        Some(Seq::empty())
    } else {
        match (channels(fields.drop_last()), parse_u64_spec(fields.last())) {
            (Some(c), Some(v)) => Some(c.push(v)),
            _ => None,
        }
    }
}

/// The sample a record's bytes give.
pub open spec fn daq_record_spec(b: Seq<u8>) -> Result<DaqSample, DaqParseError> {
    let fields = split_fields(after_last_dollar(b));
    if fields.len() < DAQ_MIN_FIELDS {
        Err(DaqParseError::UnderCount)
    } else {
        match channels(fields) {
            Some(c) => Ok(DaqSample { shock_1: c[1], shock_2: c[2], shock_3: c[3], shock_7: c[7], steering: c[6] }),
            None => Err(DaqParseError::BadField),
        }
    }
}

proof fn lemma_digits_value_grows(d: Seq<u8>, j: int)
    requires
        0 <= j <= d.len(),
        forall|i: int| 0 <= i < d.len() ==> is_digit(#[trigger] d[i]),
    ensures
        digits_value(d.take(j)) <= digits_value(d),
    decreases d.len() - j,
{
    if j < d.len() {
        lemma_digits_value_grows(d, j + 1);
        assert(d.take(j + 1).drop_last() =~= d.take(j));
    } else {
        assert(d.take(j) =~= d);
    }
}

/// Reads `b[from..to]` as an unsigned 64-bit decimal.
pub(crate) fn parse_u64_at(b: &[u8], from: usize, to: usize) -> (r: Option<u64>)
    requires
        from <= to <= b@.len(),
    ensures
        r == parse_u64_spec(b@.subrange(from as int, to as int)),
{
    let ghost f = b@.subrange(from as int, to as int);
    let mut start = from;
    if from < to && b[from] == 43 {
        start = from + 1;
    }
    let ghost d = field_digits(f);
    proof {
        assert(d =~= b@.subrange(start as int, to as int));
    }
    if start == to {
        return None;
    }
    let mut acc: u64 = 0;
    let mut i = start;
    while i < to
        invariant
            start <= i <= to <= b@.len(),
            start < to,
            d == b@.subrange(start as int, to as int),
            d == field_digits(b@.subrange(from as int, to as int)),
            forall|k: int| 0 <= k < i - start ==> is_digit(#[trigger] d[k]),
            acc as nat == digits_value(d.take(i - start)),
        decreases to - i,
    {
        let c = b[i];
        if c < 48 || c > 57 {
            assert(!is_digit(d[i - start]));
            return None;
        }
        let digit = (c - 48) as u64;
        proof {
            assert(d.take(i - start + 1).drop_last() =~= d.take(i - start));
        }
        if acc > (u64::MAX - digit) / 10 {
            proof {
                assert(acc * 10 + digit > u64::MAX) by (nonlinear_arith)
                    requires
                        acc > (u64::MAX - digit) / 10,
                        digit <= 9,
                ;
                if forall|k: int| 0 <= k < d.len() ==> is_digit(#[trigger] d[k]) {
                    lemma_digits_value_grows(d, i - start + 1);
                }
            }
            return None;
        }
        proof {
            assert(acc * 10 + digit <= u64::MAX) by (nonlinear_arith)
                requires
                    acc <= (u64::MAX - digit) / 10,
                    digit <= 9,
            ;
        }
        acc = acc * 10 + digit;
        i = i + 1;
    }
    proof {
        assert(d.take(d.len() as int) =~= d);
    }
    Some(acc)
}

/// Parses one DAQ line.
pub fn parse_daq_line(line: &str) -> (r: Result<DaqSample, DaqParseError>)
    ensures
        r == daq_record_spec(encode_utf8(line@)),
{
    let b = line.as_bytes();
    let ghost bs = b@;
    let n = b.len();
    // the record starts after the last '$'
    let mut start: usize = 0;
    let mut i: usize = 0;
    while i < n
        invariant
            n == bs.len(),
            bs == b@,
            start <= i <= n,
            after_last_dollar(bs.take(i as int)) == bs.subrange(start as int, i as int),
        decreases n - i,
    {
        proof {
            assert(bs.take(i + 1).drop_last() =~= bs.take(i as int));
        }
        if b[i] == 36 {
            start = i + 1;
            proof {
                assert(bs.subrange(start as int, i + 1) =~= Seq::<u8>::empty());
            }
        } else {
            proof {
                assert(bs.subrange(start as int, i + 1) =~= bs.subrange(start as int, i as int).push(bs[i as int]));
            }
        }
        i = i + 1;
    }
    let ghost seg = bs.subrange(start as int, n as int);
    proof {
        assert(bs.take(n as int) =~= bs);
    }
    // split the record at commas, reading each finished field
    let mut clean: Vec<u64> = Vec::new();
    let mut ok = true;
    let mut count: usize = 0;
    let mut fs = start;
    let mut j = start;
    proof {
        assert(seg.take(0) =~= Seq::<u8>::empty());
        assert(split_fields(seg.take(0)).drop_last() =~= Seq::<Seq<u8>>::empty());
    }
    while j < n
        invariant
            n == bs.len(),
            bs == b@,
            seg == bs.subrange(start as int, n as int),
            start <= fs <= j <= n,
            split_fields(seg.take(j - start)).last() == bs.subrange(fs as int, j as int),
            count == split_fields(seg.take(j - start)).len() - 1,
            ok ==> channels(split_fields(seg.take(j - start)).drop_last()) == Some(clean@),
            ok ==> clean@.len() == count,
            !ok ==> channels(split_fields(seg.take(j - start)).drop_last()) is None,
            count <= j - start,
        decreases n - j,
    {
        let ghost k = j - start;
        let ghost before = split_fields(seg.take(k));
        proof {
            assert(seg.take(k + 1).drop_last() =~= seg.take(k));
            assert(seg.take(k + 1).last() == bs[j as int]);
        }
        if b[j] == 44 {
            let v = parse_u64_at(b, fs, j);
            proof {
                let after = split_fields(seg.take(k + 1));
                assert(after == before.push(Seq::empty()));
                assert(after.drop_last() =~= before);
                assert(before.drop_last().push(before.last()) =~= before);
            }
            match v {
                Some(x) => clean.push(x),
                None => ok = false,
            }
            count = count + 1;
            fs = j + 1;
            proof {
                assert(bs.subrange(fs as int, j + 1) =~= Seq::<u8>::empty());
            }
        } else {
            proof {
                let after = split_fields(seg.take(k + 1));
                assert(after.drop_last() =~= before.drop_last());
                assert(bs.subrange(fs as int, j + 1) =~= bs.subrange(fs as int, j as int).push(bs[j as int]));
            }
        }
        j = j + 1;
    }
    let last = parse_u64_at(b, fs, n);
    let ghost fields = split_fields(seg);
    proof {
        assert(seg.take(n - start) =~= seg);
        assert(fields.drop_last().push(fields.last()) =~= fields);
    }
    match last {
        Some(x) => clean.push(x),
        None => ok = false,
    }
    if count < DAQ_MIN_FIELDS - 1 {
        return Err(DaqParseError::UnderCount);
    }
    if !ok {
        return Err(DaqParseError::BadField);
    }
    Ok(DaqSample {
        shock_1: clean[1],
        shock_2: clean[2],
        shock_3: clean[3],
        shock_7: clean[7],
        steering: clean[6],
    })
}

} // verus!
