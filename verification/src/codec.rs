//! Wire framing for the replication protocol: each request is one frame
//! with a stable tag byte and a fixed field layout — identities and
//! lengths as 64-bit little-endian values, coordinates as their 64-bit
//! two's-complement image, the template reference length-prefixed.
//!
//! Encoding and decoding are each pinned to the same specification-level
//! byte layout, and decoding an encoded request provably returns the
//! request itself.

use vstd::prelude::*;

use crate::geometry::{Vec2, Vec3};
use crate::orientation::{Dir, Orientation};
use crate::protocol::{
    DespawnRequest, MoveRequest, Request, RequestModel, SpawnModel, SpawnRequest,
};

verus! {

/// Frame tag of a spawn request.
pub const TAG_SPAWN: u8 = 1;

/// Frame tag of a move request.
pub const TAG_MOVE: u8 = 2;

/// Frame tag of a despawn request.
pub const TAG_DESPAWN: u8 = 3;

/// The eight little-endian bytes of a 64-bit value.
pub open spec fn le_bytes(x: u64) -> Seq<u8> {
    seq![
        (x & 0xff) as u8,
        ((x >> 8) & 0xff) as u8,
        ((x >> 16) & 0xff) as u8,
        ((x >> 24) & 0xff) as u8,
        ((x >> 32) & 0xff) as u8,
        ((x >> 40) & 0xff) as u8,
        ((x >> 48) & 0xff) as u8,
        ((x >> 56) & 0xff) as u8,
    ]
}

/// The 64-bit value eight little-endian bytes carry.
pub open spec fn le_to_u64(s: Seq<u8>) -> u64
    recommends
        s.len() == 8,
{
    (s[0] as u64) | (s[1] as u64) << 8 | (s[2] as u64) << 16 | (s[3] as u64) << 24 | (
    s[4] as u64) << 32 | (s[5] as u64) << 40 | (s[6] as u64) << 48 | (s[7] as u64) << 56
}

/// A signed coordinate travels as its two's-complement 64-bit image.
pub open spec fn le_i64(x: i64) -> Seq<u8> {
    le_bytes(x as u64)
}

pub open spec fn le_to_i64(s: Seq<u8>) -> i64 {
    le_to_u64(s) as i64
}

/// An orientation travels as its reference direction and step count.
pub open spec fn encode_orientation(o: Orientation) -> Seq<u8> {
    le_i64(o.base.x) + le_i64(o.base.y) + seq![o.eighths]
}

/// The byte layout of one request frame.
pub open spec fn spec_encode(m: RequestModel) -> Seq<u8> {
    match m {
        RequestModel::Spawn(s) => seq![TAG_SPAWN] + le_bytes(s.template_path.len() as u64)
            + s.template_path + le_i64(s.position.x) + le_i64(s.position.y) + encode_orientation(
            s.rotation,
        ),
        RequestModel::Move(mv) => seq![TAG_MOVE] + le_bytes(mv.object) + le_i64(mv.translation.x)
            + le_i64(mv.translation.y) + le_i64(mv.translation.z) + encode_orientation(mv.rotation),
        RequestModel::Despawn(d) => seq![TAG_DESPAWN] + le_bytes(d.object),
    }
}

/// The request a frame carries, or nothing for bytes that are no frame.
pub open spec fn spec_decode(b: Seq<u8>) -> Option<RequestModel> {
    if b.len() < 1 {
        None
    } else if b[0] == TAG_SPAWN {
        if b.len() < 42 {
            None
        } else if le_to_u64(b.subrange(1, 9)) != (b.len() - 42) as u64 {
            None
        } else {
            let n = b.len() as int;
            Some(
                RequestModel::Spawn(
                    SpawnModel {
                        template_path: b.subrange(9, n - 33),
                        position: Vec2 {
                            x: le_to_i64(b.subrange(n - 33, n - 25)),
                            y: le_to_i64(b.subrange(n - 25, n - 17)),
                        },
                        rotation: Orientation {
                            base: Dir {
                                x: le_to_i64(b.subrange(n - 17, n - 9)),
                                y: le_to_i64(b.subrange(n - 9, n - 1)),
                            },
                            eighths: b[n - 1],
                        },
                    },
                ),
            )
        }
    } else if b[0] == TAG_MOVE {
        if b.len() != 50 {
            None
        } else {
            Some(
                RequestModel::Move(
                    MoveRequest {
                        object: le_to_u64(b.subrange(1, 9)),
                        translation: Vec3 {
                            x: le_to_i64(b.subrange(9, 17)),
                            y: le_to_i64(b.subrange(17, 25)),
                            z: le_to_i64(b.subrange(25, 33)),
                        },
                        rotation: Orientation {
                            base: Dir {
                                x: le_to_i64(b.subrange(33, 41)),
                                y: le_to_i64(b.subrange(41, 49)),
                            },
                            eighths: b[49],
                        },
                    },
                ),
            )
        }
    } else if b[0] == TAG_DESPAWN {
        if b.len() != 9 {
            None
        } else {
            Some(RequestModel::Despawn(DespawnRequest { object: le_to_u64(b.subrange(1, 9)) }))
        }
    } else {
        None
    }
}

/// Eight little-endian bytes carry their value back.
pub proof fn lemma_le_round_trip(x: u64)
    ensures
        le_to_u64(le_bytes(x)) == x,
{
    let s = le_bytes(x);
    assert(((x & 0xff) as u8 as u64) | (((x >> 8) & 0xff) as u8 as u64) << 8 | (((x >> 16)
        & 0xff) as u8 as u64) << 16 | (((x >> 24) & 0xff) as u8 as u64) << 24 | (((x >> 32)
        & 0xff) as u8 as u64) << 32 | (((x >> 40) & 0xff) as u8 as u64) << 40 | (((x >> 48)
        & 0xff) as u8 as u64) << 48 | (((x >> 56) & 0xff) as u8 as u64) << 56 == x)
        by (bit_vector);
}

/// A signed coordinate survives its trip through the unsigned image.
pub proof fn lemma_le_i64_round_trip(x: i64)
    ensures
        le_to_i64(le_i64(x)) == x,
{
    lemma_le_round_trip(x as u64);
    assert((x as u64) as i64 == x) by (bit_vector);
}

/// Decoding an encoded frame returns the request itself: the wire layout
/// loses nothing. The template reference must fit the length prefix's
/// range, which every executable request satisfies.
pub proof fn lemma_decode_encode(m: RequestModel)
    requires
        m matches RequestModel::Spawn(s) ==> s.template_path.len() <= 0xFFFF_FFFF_FFFFu64,
    ensures
        spec_decode(spec_encode(m)) == Some(m),
{
    let enc = spec_encode(m);
    match m {
        RequestModel::Spawn(s) => {
            let tl = s.template_path.len() as int;
            let n = enc.len() as int;
            assert(n == 42 + tl);
            assert(enc[0] == TAG_SPAWN);
            assert(enc.subrange(1, 9) =~= le_bytes(s.template_path.len() as u64));
            lemma_le_round_trip(s.template_path.len() as u64);
            assert(le_to_u64(enc.subrange(1, 9)) == (n - 42) as u64);
            assert(enc.subrange(9, n - 33) =~= s.template_path);
            assert(enc.subrange(n - 33, n - 25) =~= le_i64(s.position.x));
            assert(enc.subrange(n - 25, n - 17) =~= le_i64(s.position.y));
            assert(enc.subrange(n - 17, n - 9) =~= le_i64(s.rotation.base.x));
            assert(enc.subrange(n - 9, n - 1) =~= le_i64(s.rotation.base.y));
            assert(enc[n - 1] == s.rotation.eighths);
            lemma_le_i64_round_trip(s.position.x);
            lemma_le_i64_round_trip(s.position.y);
            lemma_le_i64_round_trip(s.rotation.base.x);
            lemma_le_i64_round_trip(s.rotation.base.y);
        },
        RequestModel::Move(mv) => {
            assert(enc.len() == 50);
            assert(enc[0] == TAG_MOVE);
            assert(enc.subrange(1, 9) =~= le_bytes(mv.object));
            assert(enc.subrange(9, 17) =~= le_i64(mv.translation.x));
            assert(enc.subrange(17, 25) =~= le_i64(mv.translation.y));
            assert(enc.subrange(25, 33) =~= le_i64(mv.translation.z));
            assert(enc.subrange(33, 41) =~= le_i64(mv.rotation.base.x));
            assert(enc.subrange(41, 49) =~= le_i64(mv.rotation.base.y));
            assert(enc[49] == mv.rotation.eighths);
            lemma_le_round_trip(mv.object);
            lemma_le_i64_round_trip(mv.translation.x);
            lemma_le_i64_round_trip(mv.translation.y);
            lemma_le_i64_round_trip(mv.translation.z);
            lemma_le_i64_round_trip(mv.rotation.base.x);
            lemma_le_i64_round_trip(mv.rotation.base.y);
        },
        RequestModel::Despawn(d) => {
            assert(enc.len() == 9);
            assert(enc[0] == TAG_DESPAWN);
            assert(enc.subrange(1, 9) =~= le_bytes(d.object));
            lemma_le_round_trip(d.object);
        },
    }
}

/// Appends the eight little-endian bytes of a 64-bit value.
fn push_le(out: &mut Vec<u8>, x: u64)
    ensures
        final(out)@ == old(out)@ + le_bytes(x),
{
    out.push((x & 0xff) as u8);
    out.push(((x >> 8) & 0xff) as u8);
    out.push(((x >> 16) & 0xff) as u8);
    out.push(((x >> 24) & 0xff) as u8);
    out.push(((x >> 32) & 0xff) as u8);
    out.push(((x >> 40) & 0xff) as u8);
    out.push(((x >> 48) & 0xff) as u8);
    out.push(((x >> 56) & 0xff) as u8);
    proof {
        assert(out@ =~= old(out)@ + le_bytes(x));
    }
}

/// Appends a signed coordinate as its two's-complement 64-bit image.
fn push_le_i64(out: &mut Vec<u8>, x: i64)
    ensures
        final(out)@ == old(out)@ + le_i64(x),
{
    push_le(out, x as u64);
}

/// Appends an orientation: reference direction, then the step count.
fn push_orientation(out: &mut Vec<u8>, o: &Orientation)
    ensures
        final(out)@ == old(out)@ + encode_orientation(*o),
{
    push_le_i64(out, o.base.x);
    push_le_i64(out, o.base.y);
    out.push(o.eighths);
    proof {
        assert(out@ =~= old(out)@ + encode_orientation(*o));
    }
}

/// Encodes one request as one frame for the transport.
pub fn encode_request(request: &Request) -> (r: Vec<u8>)
    ensures
        r@ == spec_encode(request@),
{
    let mut out: Vec<u8> = Vec::new();
    match request {
        Request::Spawn(s) => {
            out.push(TAG_SPAWN);
            push_le(&mut out, s.template_path.len() as u64);
            let mut i: usize = 0;
            let ghost prefix = out@;
            while i < s.template_path.len()
                invariant
                    0 <= i <= s.template_path@.len(),
                    out@ == prefix + s.template_path@.take(i as int),
                decreases s.template_path@.len() - i,
            {
                let c = s.template_path[i];
                out.push(c);
                proof {
                    assert(out@ =~= prefix + s.template_path@.take(i as int + 1));
                }
                i += 1;
            }
            proof {
                assert(s.template_path@.take(s.template_path@.len() as int) =~= s.template_path@);
            }
            push_le_i64(&mut out, s.position.x);
            push_le_i64(&mut out, s.position.y);
            push_orientation(&mut out, &s.rotation);
            proof {
                assert(out@ =~= spec_encode(request@));
            }
        },
        Request::Move(m) => {
            out.push(TAG_MOVE);
            push_le(&mut out, m.object);
            push_le_i64(&mut out, m.translation.x);
            push_le_i64(&mut out, m.translation.y);
            push_le_i64(&mut out, m.translation.z);
            push_orientation(&mut out, &m.rotation);
            proof {
                assert(out@ =~= spec_encode(request@));
            }
        },
        Request::Despawn(d) => {
            out.push(TAG_DESPAWN);
            push_le(&mut out, d.object);
            proof {
                assert(out@ =~= spec_encode(request@));
            }
        },
    }
    out
}

/// Reads a 64-bit little-endian value at the given offset.
fn read_le(bytes: &Vec<u8>, off: usize) -> (r: u64)
    requires
        off + 8 <= bytes@.len(),
    ensures
        r == le_to_u64(bytes@.subrange(off as int, off as int + 8)),
{
    let n = bytes.len();
    assert(off + 8 <= n);
    let r = (bytes[off] as u64) | (bytes[off + 1] as u64) << 8 | (bytes[off + 2] as u64) << 16 | (
    bytes[off + 3] as u64) << 24 | (bytes[off + 4] as u64) << 32 | (bytes[off + 5] as u64) << 40 | (
    bytes[off + 6] as u64) << 48 | (bytes[off + 7] as u64) << 56;
    proof {
        let s = bytes@.subrange(off as int, off as int + 8);
        assert(s[0] == bytes@[off as int]);
        assert(s[1] == bytes@[off as int + 1]);
        assert(s[2] == bytes@[off as int + 2]);
        assert(s[3] == bytes@[off as int + 3]);
        assert(s[4] == bytes@[off as int + 4]);
        assert(s[5] == bytes@[off as int + 5]);
        assert(s[6] == bytes@[off as int + 6]);
        assert(s[7] == bytes@[off as int + 7]);
    }
    r
}

/// Reads a signed coordinate at the given offset.
fn read_le_i64(bytes: &Vec<u8>, off: usize) -> (r: i64)
    requires
        off + 8 <= bytes@.len(),
    ensures
        r == le_to_i64(bytes@.subrange(off as int, off as int + 8)),
{
    read_le(bytes, off) as i64
}

/// Decodes one frame back into the request it carries; bytes that are no
/// frame give nothing.
pub fn decode_request(bytes: &Vec<u8>) -> (r: Option<Request>)
    ensures
        match spec_decode(bytes@) {
            Some(m) => r matches Some(q) && q@ == m,
            None => r is None,
        },
{
    let n = bytes.len();
    if n < 1 {
        return None;
    }
    let tag = bytes[0];
    if tag == TAG_SPAWN {
        if n < 42 {
            return None;
        }
        let tlen = read_le(bytes, 1);
        if tlen != (n - 42) as u64 {
            return None;
        }
        let mut template_path: Vec<u8> = Vec::new();
        let mut i: usize = 9;
        while i < n - 33
            invariant
                42 <= n == bytes@.len(),
                9 <= i <= n - 33,
                template_path@ == bytes@.subrange(9, i as int),
            decreases n - 33 - i,
        {
            let c = bytes[i];
            template_path.push(c);
            proof {
                assert(template_path@ =~= bytes@.subrange(9, i as int + 1));
            }
            i += 1;
        }
        let position = Vec2 { x: read_le_i64(bytes, n - 33), y: read_le_i64(bytes, n - 25) };
        let rotation = Orientation {
            base: Dir { x: read_le_i64(bytes, n - 17), y: read_le_i64(bytes, n - 9) },
            eighths: bytes[n - 1],
        };
        Some(Request::Spawn(SpawnRequest { template_path, position, rotation }))
    } else if tag == TAG_MOVE {
        if n != 50 {
            return None;
        }
        let object = read_le(bytes, 1);
        let translation = Vec3 {
            x: read_le_i64(bytes, 9),
            y: read_le_i64(bytes, 17),
            z: read_le_i64(bytes, 25),
        };
        let rotation = Orientation {
            base: Dir { x: read_le_i64(bytes, 33), y: read_le_i64(bytes, 41) },
            eighths: bytes[49],
        };
        Some(Request::Move(MoveRequest { object, translation, rotation }))
    } else if tag == TAG_DESPAWN {
        if n != 9 {
            return None;
        }
        Some(Request::Despawn(DespawnRequest { object: read_le(bytes, 1) }))
    } else {
        None
    }
}

} // verus!
