//! The coordinate-pair codec.
//!
//! A layer's occupied tiles are written four bytes per point: the high byte
//! of x, the low byte of x, the high byte of y, the low byte of y.

use vstd::prelude::*;
use crate::error::CodecError;

verus! {

/// The number of bytes that one point takes.
pub const POINT_BYTES: usize = 4;

/// Byte `k` (0 to 3) of the record of `point`.
pub open spec fn point_byte(point: (u16, u16), k: int) -> u8 {
    if k == 0 {
        (point.0 / 256) as u8
    } else if k == 1 {
        (point.0 % 256) as u8
    } else if k == 2 {
        (point.1 / 256) as u8
    } else {
        (point.1 % 256) as u8
    }
}

/// The records of `points`, one after the other.
pub open spec fn packed_points(points: Seq<(u16, u16)>) -> Seq<u8> {
    Seq::new(4 * points.len(), |i: int| point_byte(points[i / 4], i % 4))
}

/// The number that a high and a low byte make.
pub open spec fn joined(high: u8, low: u8) -> u16 {
    (high * 256 + low) as u16
}

/// The point that the record starting at byte `4 * c` holds.
pub open spec fn unpacked_point(bytes: Seq<u8>, c: int) -> (u16, u16) {
    (joined(bytes[4 * c], bytes[4 * c + 1]), joined(bytes[4 * c + 2], bytes[4 * c + 3]))
}

/// The points that the whole records of `bytes` hold.
pub open spec fn unpacked_points(bytes: Seq<u8>) -> Seq<(u16, u16)> {
    Seq::new((bytes.len() / 4) as nat, |c: int| unpacked_point(bytes, c))
}

/// What unpacking gives: the points, or an error where the last record is
/// cut short. No bytes at all are no points.
pub open spec fn points_decoding(bytes: Seq<u8>) -> Result<Seq<(u16, u16)>, CodecError> {
    if bytes.len() % 4 == 0 {
        Ok(unpacked_points(bytes))
    } else {
        Err(CodecError::MalformedLength)
    }
}

/// Unpacking the records of a list of points gives the list back.
pub proof fn lemma_points_round_trip(points: Seq<(u16, u16)>)
    ensures
        points_decoding(packed_points(points)) == Ok::<Seq<(u16, u16)>, CodecError>(points),
{
    let bytes = packed_points(points);
    assert(bytes.len() == 4 * points.len());
    assert forall|c: int| 0 <= c < points.len() implies unpacked_point(bytes, c) == points[c] by {
        assert((4 * c) / 4 == c && (4 * c) % 4 == 0);
        assert((4 * c + 1) / 4 == c && (4 * c + 1) % 4 == 1);
        assert((4 * c + 2) / 4 == c && (4 * c + 2) % 4 == 2);
        assert((4 * c + 3) / 4 == c && (4 * c + 3) % 4 == 3);
    }
    assert(unpacked_points(bytes) =~= points);
}

/// Packing the points of a whole number of records gives the bytes back.
pub proof fn lemma_bytes_round_trip(bytes: Seq<u8>)
    requires
        bytes.len() % 4 == 0,
    ensures
        packed_points(unpacked_points(bytes)) == bytes,
{
    let points = unpacked_points(bytes);
    assert forall|i: int| 0 <= i < bytes.len() implies packed_points(points)[i] == bytes[i] by {
        let c = i / 4;
        assert(i == 4 * c + i % 4);
    }
    assert(packed_points(points) =~= bytes);
}

/// Bytes whose number is no multiple of four are refused as malformed.
pub proof fn lemma_cut_short_malformed(bytes: Seq<u8>)
    requires
        bytes.len() % 4 != 0,
    ensures
        points_decoding(bytes) == Err::<Seq<(u16, u16)>, CodecError>(CodecError::MalformedLength),
{
}

/// No bytes decode to no points.
pub proof fn lemma_empty_is_no_points()
    ensures
        points_decoding(Seq::<u8>::empty()) == Ok::<Seq<(u16, u16)>, CodecError>(Seq::empty()),
{
    assert(unpacked_points(Seq::<u8>::empty()) =~= Seq::<(u16, u16)>::empty());
}

/// The high and the low byte of a number.
fn split(value: u16) -> (halves: (u8, u8))
    ensures
        halves.0 == (value / 256) as u8,
        halves.1 == (value % 256) as u8,
{
    assert((value >> 8) == value / 256 && (value & 0xff) == value % 256 && (value >> 8) < 256)
        by (bit_vector);
    ((value >> 8) as u8, (value & 0xff) as u8)
}

/// Writes each point as four bytes, in order. What it gives reads back as
/// the points.
pub fn encode_points(points: &[(u16, u16)]) -> (bytes: Vec<u8>)
    ensures
        bytes@ == packed_points(points@),
        points_decoding(bytes@) == Ok::<Seq<(u16, u16)>, CodecError>(points@),
{
    let mut bytes: Vec<u8> = Vec::new();
    let mut i: usize = 0;
    while i < points.len()
        invariant
            i <= points.len(),
            bytes@.len() == 4 * i,
            forall|k: int|
                0 <= k < 4 * i ==> #[trigger] bytes@[k] == point_byte(points@[k / 4], k % 4),
        decreases points.len() - i,
    {
        let point: (u16, u16) = points[i];
        let x: (u8, u8) = split(point.0);
        let y: (u8, u8) = split(point.1);
        bytes.push(x.0);
        bytes.push(x.1);
        bytes.push(y.0);
        bytes.push(y.1);
        i = i + 1;
    }
    assert(bytes@ =~= packed_points(points@));
    proof {
        lemma_points_round_trip(points@);
    }
    bytes
}

/// Reads four-byte records back into points. Fails where the last record is
/// cut short; no bytes at all give no points.
pub fn decode_points(bytes: &[u8]) -> (r: Result<Vec<(u16, u16)>, CodecError>)
    ensures
        match r {
            Ok(points) => points_decoding(bytes@) == Ok::<Seq<(u16, u16)>, CodecError>(points@),
            Err(e) => points_decoding(bytes@) == Err::<Seq<(u16, u16)>, CodecError>(e),
        },
{
    if bytes.len() % POINT_BYTES != 0 {
        return Err(CodecError::MalformedLength);
    }
    let count: usize = bytes.len() / POINT_BYTES;
    let mut points: Vec<(u16, u16)> = Vec::new();
    let mut c: usize = 0;
    while c < count
        invariant
            c <= count,
            count == bytes@.len() / 4,
            bytes@.len() % 4 == 0,
            4 * count <= usize::MAX,
            points@.len() == c,
            forall|j: int| 0 <= j < c ==> #[trigger] points@[j] == unpacked_point(bytes@, j),
        decreases count - c,
    {
        let x: u16 = bytes[4 * c] as u16 * 256 + bytes[4 * c + 1] as u16;
        let y: u16 = bytes[4 * c + 2] as u16 * 256 + bytes[4 * c + 3] as u16;
        points.push((x, y));
        c = c + 1;
    }
    assert(points@ =~= unpacked_points(bytes@));
    Ok(points)
}

} // verus!
