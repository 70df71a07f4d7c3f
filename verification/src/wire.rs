//! Length-prefixed framing shared by the telemetry client and server.
//!
//! A frame is a four-byte little-endian payload length followed by the
//! payload itself — here the payload is an already-encoded telemetry
//! record, which the caller encodes and decodes; this module only frames
//! and unframes the bytes. The parser accepts a frame with trailing bytes
//! after the announced payload and ignores them, but it rejects anything
//! too short to hold a prefix and a byte of payload.

use vstd::prelude::*;

verus! {

/// The value of a four-byte little-endian length prefix.
pub open spec fn le32(b0: u8, b1: u8, b2: u8, b3: u8) -> int {
    b0 + 256 * b1 + 65536 * b2 + 16777216 * b3
}

/// The payload length a frame announces in its first four bytes.
pub open spec fn frame_len(v: Seq<u8>) -> int
    recommends
        v.len() >= 4,
{
    le32(v[0], v[1], v[2], v[3])
}

/// Whether `v` is a parsable frame: long enough for a prefix and at least
/// one payload byte, and holding at least as many bytes as it announces.
pub open spec fn parsable(v: Seq<u8>) -> bool {
    v.len() > 4 && frame_len(v) <= v.len() - 4
}

/// Prefixes `payload` with its little-endian four-byte length, producing
/// the bytes the telemetry client writes to its connection.
pub fn frame_payload(payload: &Vec<u8>) -> (r: Vec<u8>)
    requires
        payload@.len() <= u32::MAX,
    ensures
        r@.len() == payload@.len() + 4,
        frame_len(r@) == payload@.len(),
        r@.skip(4) == payload@,
{
    let len: u32 = payload.len() as u32;
    let mut r: Vec<u8> = Vec::new();
    r.push((len % 256) as u8);
    r.push((len / 256 % 256) as u8);
    r.push((len / 65536 % 256) as u8);
    r.push((len / 16777216 % 256) as u8);
    proof {
        assert(le32(
            (len % 256) as u8,
            (len / 256 % 256) as u8,
            (len / 65536 % 256) as u8,
            (len / 16777216 % 256) as u8,
        ) == len);
    }
    let mut i: usize = 0;
    while i < payload.len()
        invariant
            i <= payload@.len(),
            r@.len() == 4 + i,
            frame_len(r@) == payload@.len(),
            r@.skip(4) == payload@.take(i as int),
        decreases payload@.len() - i,
    {
        r.push(payload[i]);
        proof {
            assert(r@.skip(4) =~= payload@.take(i + 1));
        }
        i = i + 1;
    }
    proof {
        assert(payload@.take(payload@.len() as int) =~= payload@);
    }
    r
}

/// Unframes one received message: reads the four-byte little-endian length,
/// checks that the buffer holds that much payload after the prefix, and
/// returns exactly the announced payload bytes for the caller to decode.
/// A buffer of four bytes or fewer, or one announcing more payload than it
/// carries, is rejected.
pub fn vec_to_data_proto(vec: Vec<u8>) -> (r: Result<Vec<u8>, ()>)
    ensures
        r is Ok <==> parsable(vec@),
        r is Ok ==> r->Ok_0@ == vec@.subrange(4, 4 + frame_len(vec@)),
{
    if vec.len() > 4 {
        let b0 = vec[0];
        let b1 = vec[1];
        let b2 = vec[2];
        let b3 = vec[3];
        let announced: u64 = b0 as u64 + 256 * (b1 as u64) + 65536 * (b2 as u64) + 16777216 * (
        b3 as u64);
        let rest = vec.len() - 4;
        if announced <= rest as u64 {
            let payload_len = announced as usize;
            let n = vec.len();
            let mut payload: Vec<u8> = Vec::new();
            let mut i: usize = 0;
            while i < payload_len
                invariant
                    i <= payload_len,
                    payload_len == frame_len(vec@),
                    n == vec@.len(),
                    n >= 4 + payload_len,
                    payload@ == vec@.subrange(4, 4 + i),
                decreases payload_len - i,
            {
                payload.push(vec[4 + i]);
                proof {
                    assert(payload@ =~= vec@.subrange(4, 4 + i + 1));
                }
                i = i + 1;
            }
            Ok(payload)
        } else {
            Err(())
        }
    } else {
        Err(())
    }
}

/// Round trip: a non-empty payload that is framed and then unframed comes
/// back unchanged. Stated over the byte sequences that `frame_payload`
/// guarantees and `vec_to_data_proto` requires; an empty payload is the one
/// exception, since a four-byte buffer is rejected as too short.
pub proof fn lemma_frame_round_trip(framed: Seq<u8>, payload: Seq<u8>)
    requires
        framed.len() == payload.len() + 4,
        frame_len(framed) == payload.len(),
        framed.skip(4) == payload,
        payload.len() >= 1,
    ensures
        parsable(framed),
        framed.subrange(4, 4 + frame_len(framed)) == payload,
{
    assert(framed.subrange(4, 4 + frame_len(framed)) =~= framed.skip(4));
}

} // verus!
