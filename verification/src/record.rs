//! Dense binary layout of one capture record.
//!
//! A record is the unit delivered to the host: channel id, capture
//! timestamp, payload length, then the payload bytes, with the two integers
//! little endian.  Serialization is byte exact and parsing inverts it,
//! rejecting anything whose length field does not match the bytes present.

use vstd::prelude::*;

use crate::queue::Report;

verus! {

/// Bytes of the fixed header in front of the payload: channel id (1),
/// timestamp (4), payload length (4).
pub const RECORD_HEADER_BYTES: usize = 9;

/// Abstract value of one record.
pub struct RecordModel {
    pub channel_id: u8,
    pub timestamp: u32,
    pub payload: Seq<u8>,
}

/// A capture record as reassembled on the receiving side.
pub struct Record {
    pub channel_id: u8,
    pub timestamp: u32,
    pub payload: Vec<u8>,
}

impl View for Record {
    type V = RecordModel;

    open spec fn view(&self) -> RecordModel {
        RecordModel {
            channel_id: self.channel_id,
            timestamp: self.timestamp,
            payload: self.payload@,
        }
    }
}

/// The four little-endian bytes of a 32-bit value.
pub open spec fn le32_bytes(x: u32) -> Seq<u8> {
    seq![
        (x % 256) as u8,
        ((x / 256) % 256) as u8,
        ((x / 65536) % 256) as u8,
        ((x / 16777216) % 256) as u8,
    ]
}

/// The 32-bit value of four little-endian bytes.
pub open spec fn le32_value(b0: u8, b1: u8, b2: u8, b3: u8) -> u32 {
    (b0 + b1 * 256 + b2 * 65536 + b3 * 16777216) as u32
}

/// Reading back the four little-endian bytes of a value gives the value.
pub proof fn lemma_le32_round_trip(x: u32)
    ensures
        ({
            let b = le32_bytes(x);
            le32_value(b[0], b[1], b[2], b[3]) == x
        }),
{
    assert(x % 256 + ((x / 256) % 256) * 256 + ((x / 65536) % 256) * 65536 + ((x / 16777216) % 256)
        * 16777216 == x) by (bit_vector);
}

/// The serialized bytes of one record.
pub open spec fn record_bytes(m: RecordModel) -> Seq<u8> {
    seq![m.channel_id] + le32_bytes(m.timestamp) + le32_bytes(m.payload.len() as u32) + m.payload
}

/// Parse one serialized record; `None` when the bytes are too short or the
/// length field disagrees with the bytes present.
pub open spec fn spec_parse_record(s: Seq<u8>) -> Option<RecordModel> {
    if s.len() < RECORD_HEADER_BYTES {
        None
    } else {
        let len = le32_value(s[5], s[6], s[7], s[8]);
        if s.len() == RECORD_HEADER_BYTES + len {
            Some(
                RecordModel {
                    channel_id: s[0],
                    timestamp: le32_value(s[1], s[2], s[3], s[4]),
                    payload: s.skip(RECORD_HEADER_BYTES as int),
                },
            )
        } else {
            None
        }
    }
}

/// A record fits the wire format: its payload length is expressible in the
/// 32-bit length field.
pub open spec fn record_fits(m: RecordModel) -> bool {
    m.payload.len() <= u32::MAX
}

/// Law: parsing the serialized bytes of any record that fits the wire
/// format gives back exactly that record.
pub proof fn lemma_record_round_trip(m: RecordModel)
    requires
        record_fits(m),
    ensures
        spec_parse_record(record_bytes(m)) == Some(m),
{
    let s = record_bytes(m);
    let n = m.payload.len() as u32;
    lemma_le32_round_trip(m.timestamp);
    lemma_le32_round_trip(n);
    assert(s[5] == le32_bytes(n)[0]);
    assert(s[6] == le32_bytes(n)[1]);
    assert(s[7] == le32_bytes(n)[2]);
    assert(s[8] == le32_bytes(n)[3]);
    assert(s[1] == le32_bytes(m.timestamp)[0]);
    assert(s[2] == le32_bytes(m.timestamp)[1]);
    assert(s[3] == le32_bytes(m.timestamp)[2]);
    assert(s[4] == le32_bytes(m.timestamp)[3]);
    assert(s.skip(RECORD_HEADER_BYTES as int) =~= m.payload);
}

/// Append the four little-endian bytes of `x` to `out`.
fn push_le32(out: &mut Vec<u8>, x: u32)
    ensures
        final(out)@ == old(out)@ + le32_bytes(x),
{
    out.push((x % 256) as u8);
    out.push(((x / 256) % 256) as u8);
    out.push(((x / 65536) % 256) as u8);
    out.push(((x / 16777216) % 256) as u8);
    proof {
        assert(out@ =~= old(out)@ + le32_bytes(x));
    }
}

/// Serialize one report: header, then exactly its valid payload bytes.
pub fn serialize_report(r: &Report) -> (out: Vec<u8>)
    requires
        r.wf(),
    ensures
        out@ == record_bytes(
            RecordModel {
                channel_id: r.channel_id,
                timestamp: r.timestamp,
                payload: r.payload(),
            },
        ),
        out@.len() == RECORD_HEADER_BYTES + r.length,
{
    let mut out: Vec<u8> = Vec::new();
    out.push(r.channel_id);
    push_le32(&mut out, r.timestamp);
    push_le32(&mut out, r.length);
    let mut i: usize = 0;
    while i < r.length as usize
        invariant
            r.wf(),
            i <= r.length,
            out@ == seq![r.channel_id] + le32_bytes(r.timestamp) + le32_bytes(r.length)
                + r.block.data@.take(i as int),
        decreases r.length - i,
    {
        let b = r.block.data[i];
        out.push(b);
        proof {
            assert(r.block.data@.take(i + 1) =~= r.block.data@.take(i as int).push(b));
            assert(out@ =~= seq![r.channel_id] + le32_bytes(r.timestamp) + le32_bytes(r.length)
                + r.block.data@.take(i + 1));
        }
        i += 1;
    }
    proof {
        assert(r.payload().len() == r.length);
    }
    out
}

/// Serialize one record value; used by tests and by the receiving side.
pub fn serialize_record(r: &Record) -> (out: Vec<u8>)
    requires
        r.payload@.len() <= u32::MAX,
    ensures
        out@ == record_bytes(r@),
{
    let mut out: Vec<u8> = Vec::new();
    out.push(r.channel_id);
    push_le32(&mut out, r.timestamp);
    let len = r.payload.len() as u32;
    push_le32(&mut out, len);
    let mut i: usize = 0;
    while i < r.payload.len()
        invariant
            r.payload@.len() <= u32::MAX,
            len == r.payload@.len() as u32,
            i <= r.payload@.len(),
            out@ == seq![r.channel_id] + le32_bytes(r.timestamp) + le32_bytes(len)
                + r.payload@.take(i as int),
        decreases r.payload@.len() - i,
    {
        let b = r.payload[i];
        out.push(b);
        proof {
            assert(r.payload@.take(i + 1) =~= r.payload@.take(i as int).push(b));
            assert(out@ =~= seq![r.channel_id] + le32_bytes(r.timestamp) + le32_bytes(len)
                + r.payload@.take(i + 1));
        }
        i += 1;
    }
    proof {
        assert(r.payload@.take(r.payload@.len() as int) =~= r.payload@);
    }
    out
}

/// Read the little-endian 32-bit value at offset `at`.
fn read_le32(s: &Vec<u8>, at: usize) -> (r: u32)
    requires
        at + 4 <= s@.len(),
    ensures
        r == le32_value(s@[at as int], s@[at as int + 1], s@[at as int + 2], s@[at as int + 3]),
{
    let n = s.len();
    assert(at + 4 <= n);
    let b0 = s[at] as u32;
    let b1 = s[at + 1] as u32;
    let b2 = s[at + 2] as u32;
    let b3 = s[at + 3] as u32;
    proof {
        let x0 = s@[at as int];
        let x1 = s@[at as int + 1];
        let x2 = s@[at as int + 2];
        let x3 = s@[at as int + 3];
        assert(x0 + x1 * 256 + x2 * 65536 + x3 * 16777216 <= 0xFFFF_FFFF) by (bit_vector);
    }
    b0 + b1 * 256 + b2 * 65536 + b3 * 16777216
}

/// Parse one serialized record.  Returns `None` exactly when the bytes are
/// shorter than a header or the length field disagrees with what follows.
pub fn parse_record(s: &Vec<u8>) -> (r: Option<Record>)
    ensures
        match r {
            Some(rec) => spec_parse_record(s@) == Some(rec@),
            None => spec_parse_record(s@) is None,
        },
{
    if s.len() < RECORD_HEADER_BYTES {
        return None;
    }
    let len = read_le32(s, 5);
    if s.len() - RECORD_HEADER_BYTES != len as usize || s.len() != RECORD_HEADER_BYTES + len as usize {
        return None;
    }
    let channel_id = s[0];
    let timestamp = read_le32(s, 1);
    let mut payload: Vec<u8> = Vec::new();
    let mut i: usize = RECORD_HEADER_BYTES;
    while i < s.len()
        invariant
            RECORD_HEADER_BYTES <= i <= s@.len(),
            payload@ == s@.subrange(RECORD_HEADER_BYTES as int, i as int),
        decreases s@.len() - i,
    {
        let b = s[i];
        payload.push(b);
        proof {
            assert(s@.subrange(RECORD_HEADER_BYTES as int, i + 1) =~= s@.subrange(
                RECORD_HEADER_BYTES as int,
                i as int,
            ).push(b));
        }
        i += 1;
    }
    proof {
        assert(payload@ =~= s@.skip(RECORD_HEADER_BYTES as int));
    }
    Some(Record { channel_id, timestamp, payload })
}

} // verus!
