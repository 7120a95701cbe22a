//! Frame codec: the two fixed-width little-endian record formats.
//!
//! A point record is 16 bytes: four little-endian 32-bit words, stored on
//! disk as `(a, c, b, remission)` and mapped to position `(x=a, y=b, z=c)`.
//! The word values are IEEE-754 bit patterns; this core carries them as
//! `u32` so that decoding and re-encoding are exact, bit for bit.  A label
//! record is 4 bytes: two little-endian 16-bit unsigned integers.
//! Trailing bytes that do not form a complete record are dropped silently.

use vstd::prelude::*;

verus! {

/// One decoded point: position and remission as 32-bit IEEE-754 bit patterns.
#[derive(PartialEq, Eq, Structural, Debug, Clone, Copy)]
pub struct Point {
    pub x: u32,
    pub y: u32,
    pub z: u32,
    pub remission: u32,
}

/// One decoded label: label-class id and instance id.
#[derive(PartialEq, Eq, Structural, Debug, Clone, Copy, Default)]
pub struct Label {
    pub label: u16,
    pub instance_id: u16,
}

/// One decoded frame: points, with an optional parallel label sequence.
#[derive(Debug, Clone)]
pub struct Frame {
    pub points: Vec<Point>,
    pub labels: Option<Vec<Label>>,
}

/// Why a frame could not be read: the file was unreadable, or its bytes
/// could not be parsed.  Both are per-frame and recoverable.
#[derive(Debug, Clone)]
pub enum FrameReadError {
    ReadFile(String),
    ParseFile(String),
}

/// The little-endian 16-bit word at byte offset `i`.
pub open spec fn le16_at(bytes: Seq<u8>, i: int) -> u16 {
    (bytes[i] + bytes[i + 1] * 0x100) as u16
}

/// The little-endian 32-bit word at byte offset `i`.
pub open spec fn le32_at(bytes: Seq<u8>, i: int) -> u32 {
    (bytes[i] + bytes[i + 1] * 0x100 + bytes[i + 2] * 0x10000 + bytes[i + 3] * 0x1000000) as u32
}

/// The point encoded in record `i`: on-disk word order `(a, c, b, remission)`
/// maps to `(x=a, y=b, z=c)` — the second and third axes are swapped to match
/// the consuming coordinate convention.
pub open spec fn point_at(bytes: Seq<u8>, i: int) -> Point {
    Point {
        x: le32_at(bytes, 16 * i),
        z: le32_at(bytes, 16 * i + 4),
        y: le32_at(bytes, 16 * i + 8),
        remission: le32_at(bytes, 16 * i + 12),
    }
}

/// The label encoded in record `i`.
pub open spec fn label_at(bytes: Seq<u8>, i: int) -> Label {
    Label { label: le16_at(bytes, 4 * i), instance_id: le16_at(bytes, 4 * i + 2) }
}

/// All complete point records of `bytes`; trailing bytes are dropped.
pub open spec fn decoded_points(bytes: Seq<u8>) -> Seq<Point> {
    Seq::new((bytes.len() / 16) as nat, |i: int| point_at(bytes, i))
}

/// All complete label records of `bytes`; trailing bytes are dropped.
pub open spec fn decoded_labels(bytes: Seq<u8>) -> Seq<Label> {
    Seq::new((bytes.len() / 4) as nat, |i: int| label_at(bytes, i))
}

/// Decodes every complete 16-byte point record of `bytes`.
pub fn decode_points(bytes: &Vec<u8>) -> (r: Vec<Point>)
    ensures
        r@ == decoded_points(bytes@),
        r@.len() == bytes@.len() / 16,
{
    let len: usize = bytes.len();
    let n: usize = len / 16;
    let mut r: Vec<Point> = Vec::new();
    let mut i: usize = 0;
    while i < n
        invariant
            i <= n,
            len == bytes@.len(),
            n == bytes@.len() / 16,
            r@ =~= decoded_points(bytes@).take(i as int),
        decreases n - i,
    {
        assert(16 * i + 16 <= len) by {
            assert(n * 16 <= len);
        };
        let p = Point {
            x: le32(bytes, 16 * i),
            z: le32(bytes, 16 * i + 4),
            y: le32(bytes, 16 * i + 8),
            remission: le32(bytes, 16 * i + 12),
        };
        r.push(p);
        i = i + 1;
        assert(r@ =~= decoded_points(bytes@).take(i as int));
    }
    assert(r@ =~= decoded_points(bytes@));
    r
}

/// Decodes every complete 4-byte label record of `bytes`.
pub fn decode_labels(bytes: &Vec<u8>) -> (r: Vec<Label>)
    ensures
        r@ == decoded_labels(bytes@),
        r@.len() == bytes@.len() / 4,
{
    let len: usize = bytes.len();
    let n: usize = len / 4;
    let mut r: Vec<Label> = Vec::new();
    let mut i: usize = 0;
    while i < n
        invariant
            i <= n,
            len == bytes@.len(),
            n == bytes@.len() / 4,
            r@ =~= decoded_labels(bytes@).take(i as int),
        decreases n - i,
    {
        assert(4 * i + 4 <= len) by {
            assert(n * 4 <= len);
        };
        let l = Label { label: le16(bytes, 4 * i), instance_id: le16(bytes, 4 * i + 2) };
        r.push(l);
        i = i + 1;
        assert(r@ =~= decoded_labels(bytes@).take(i as int));
    }
    assert(r@ =~= decoded_labels(bytes@));
    r
}

/// Assembles a frame from the raw bytes of its points file and, where a
/// label folder is configured, its labels file.  The two record counts are
/// not required to agree; consumers must not assume equal lengths.
pub fn decode_frame(point_bytes: &Vec<u8>, label_bytes: &Option<Vec<u8>>) -> (r: Frame)
    ensures
        r.points@ == decoded_points(point_bytes@),
        match label_bytes {
            Some(lb) => r.labels matches Some(ls) && ls@ == decoded_labels(lb@),
            None => r.labels is None,
        },
{
    let points = decode_points(point_bytes);
    let labels = match label_bytes {
        Some(lb) => Some(decode_labels(lb)),
        None => None,
    };
    Frame { points, labels }
}

/// The four bytes of `w` in little-endian order.
pub open spec fn le32_bytes(w: u32) -> Seq<u8> {
    seq![
        (w % 0x100) as u8,
        ((w / 0x100) % 0x100) as u8,
        ((w / 0x10000) % 0x100) as u8,
        ((w / 0x1000000) % 0x100) as u8,
    ]
}

/// The two bytes of `w` in little-endian order.
pub open spec fn le16_bytes(w: u16) -> Seq<u8> {
    seq![(w % 0x100) as u8, (w / 0x100) as u8]
}

/// The 16-byte record of a point, in on-disk word order `(x, z, y, remission)`.
pub open spec fn point_bytes(p: Point) -> Seq<u8> {
    le32_bytes(p.x) + le32_bytes(p.z) + le32_bytes(p.y) + le32_bytes(p.remission)
}

/// The 4-byte record of a label.
pub open spec fn label_bytes(l: Label) -> Seq<u8> {
    le16_bytes(l.label) + le16_bytes(l.instance_id)
}

/// The byte stream that encodes the point sequence `ps`, record by record.
pub open spec fn encoded_points(ps: Seq<Point>) -> Seq<u8>
    decreases ps.len(),
{
    if ps.len() == 0 {
        Seq::empty()
    } else {
        encoded_points(ps.drop_last()) + point_bytes(ps.last())
    }
}

/// The byte stream that encodes the label sequence `ls`, record by record.
pub open spec fn encoded_labels(ls: Seq<Label>) -> Seq<u8>
    decreases ls.len(),
{
    if ls.len() == 0 {
        Seq::empty()
    } else {
        encoded_labels(ls.drop_last()) + label_bytes(ls.last())
    }
}

proof fn lemma_le32_recompose(w: u32)
    ensures
        le32_at(le32_bytes(w), 0) == w,
{
    assert(w % 0x100 + ((w / 0x100) % 0x100) * 0x100 + ((w / 0x10000) % 0x100) * 0x10000 + ((w
        / 0x1000000) % 0x100) * 0x1000000 == w) by (bit_vector);
}

proof fn lemma_le16_recompose(w: u16)
    ensures
        le16_at(le16_bytes(w), 0) == w,
{
    assert(w % 0x100 + (w / 0x100) * 0x100 == w) by (bit_vector);
}

/// Encoding a point sequence yields 16 bytes per point, and decoding that
/// stream gives the sequence back unchanged: the codec loses nothing, bit
/// for bit.
#[verifier::rlimit(50)]
pub proof fn lemma_points_round_trip(ps: Seq<Point>)
    ensures
        encoded_points(ps).len() == 16 * ps.len(),
        decoded_points(encoded_points(ps)) == ps,
    decreases ps.len(),
{
    if ps.len() == 0 {
        assert(decoded_points(encoded_points(ps)) =~= ps);
    } else {
        let pre = ps.drop_last();
        let p = ps.last();
        lemma_points_round_trip(pre);
        let ep = encoded_points(pre);
        let enc = encoded_points(ps);
        assert(enc == ep + point_bytes(p));
        assert(enc.len() == 16 * ps.len());
        let n = ps.len() as int;
        assert forall|i: int| 0 <= i < n implies point_at(enc, i) == ps[i] by {
            if i < n - 1 {
                assert(point_at(ep, i) == decoded_points(ep)[i]);
                assert(point_at(enc, i) == point_at(ep, i));
            } else {
                let base = 16 * (n - 1);
                assert(base == ep.len());
                lemma_le32_recompose(p.x);
                lemma_le32_recompose(p.z);
                lemma_le32_recompose(p.y);
                lemma_le32_recompose(p.remission);
                assert forall|k: int| 0 <= k < 16 implies enc[base + k] == point_bytes(p)[k] by {}
                assert(le32_at(enc, base) == le32_at(le32_bytes(p.x), 0));
                assert(le32_at(enc, base + 4) == le32_at(le32_bytes(p.z), 0));
                assert(le32_at(enc, base + 8) == le32_at(le32_bytes(p.y), 0));
                assert(le32_at(enc, base + 12) == le32_at(le32_bytes(p.remission), 0));
            }
        }
        assert(decoded_points(enc) =~= ps);
    }
}

/// Encoding a label sequence yields 4 bytes per label, and decoding that
/// stream gives the sequence back unchanged.
#[verifier::rlimit(50)]
pub proof fn lemma_labels_round_trip(ls: Seq<Label>)
    ensures
        encoded_labels(ls).len() == 4 * ls.len(),
        decoded_labels(encoded_labels(ls)) == ls,
    decreases ls.len(),
{
    if ls.len() == 0 {
        assert(decoded_labels(encoded_labels(ls)) =~= ls);
    } else {
        let pre = ls.drop_last();
        let l = ls.last();
        lemma_labels_round_trip(pre);
        let ep = encoded_labels(pre);
        let enc = encoded_labels(ls);
        assert(enc == ep + label_bytes(l));
        assert(enc.len() == 4 * ls.len());
        let n = ls.len() as int;
        assert forall|i: int| 0 <= i < n implies label_at(enc, i) == ls[i] by {
            if i < n - 1 {
                assert(label_at(ep, i) == decoded_labels(ep)[i]);
                assert(label_at(enc, i) == label_at(ep, i));
            } else {
                let base = 4 * (n - 1);
                assert(base == ep.len());
                lemma_le16_recompose(l.label);
                lemma_le16_recompose(l.instance_id);
                assert forall|k: int| 0 <= k < 4 implies enc[base + k] == label_bytes(l)[k] by {}
                assert(le16_at(enc, base) == le16_at(le16_bytes(l.label), 0));
                assert(le16_at(enc, base + 2) == le16_at(le16_bytes(l.instance_id), 0));
            }
        }
        assert(decoded_labels(enc) =~= ls);
    }
}

/// Decoding, re-encoding and decoding again is idempotent: the second decode
/// sees exactly what the first one produced, whatever the input bytes were.
pub proof fn lemma_points_reencode_idempotent(bytes: Seq<u8>)
    ensures
        decoded_points(encoded_points(decoded_points(bytes))) == decoded_points(bytes),
{
    lemma_points_round_trip(decoded_points(bytes));
}

/// The label analogue: decode, re-encode, decode returns the same labels.
pub proof fn lemma_labels_reencode_idempotent(bytes: Seq<u8>)
    ensures
        decoded_labels(encoded_labels(decoded_labels(bytes))) == decoded_labels(bytes),
{
    lemma_labels_round_trip(decoded_labels(bytes));
}

/// Encodes the points back into the on-disk record format.
pub fn encode_points(points: &Vec<Point>) -> (r: Vec<u8>)
    ensures
        r@ == encoded_points(points@),
{
    let mut r: Vec<u8> = Vec::new();
    let mut i: usize = 0;
    while i < points.len()
        invariant
            i <= points@.len(),
            r@ == encoded_points(points@.take(i as int)),
        decreases points@.len() - i,
    {
        let p = points[i];
        push_le32(&mut r, p.x);
        push_le32(&mut r, p.z);
        push_le32(&mut r, p.y);
        push_le32(&mut r, p.remission);
        proof {
            assert(points@.take(i + 1).drop_last() =~= points@.take(i as int));
            assert(points@.take(i + 1).last() == points@[i as int]);
            assert(r@ =~= encoded_points(points@.take(i + 1)));
        }
        i = i + 1;
    }
    proof {
        assert(points@.take(points@.len() as int) =~= points@);
    }
    r
}

/// Encodes the labels back into the on-disk record format.
pub fn encode_labels(labels: &Vec<Label>) -> (r: Vec<u8>)
    ensures
        r@ == encoded_labels(labels@),
{
    let mut r: Vec<u8> = Vec::new();
    let mut i: usize = 0;
    while i < labels.len()
        invariant
            i <= labels@.len(),
            r@ == encoded_labels(labels@.take(i as int)),
        decreases labels@.len() - i,
    {
        let l = labels[i];
        push_le16(&mut r, l.label);
        push_le16(&mut r, l.instance_id);
        proof {
            assert(labels@.take(i + 1).drop_last() =~= labels@.take(i as int));
            assert(labels@.take(i + 1).last() == labels@[i as int]);
            assert(r@ =~= encoded_labels(labels@.take(i + 1)));
        }
        i = i + 1;
    }
    proof {
        assert(labels@.take(labels@.len() as int) =~= labels@);
    }
    r
}

fn push_le32(v: &mut Vec<u8>, w: u32)
    ensures
        final(v)@ == old(v)@ + le32_bytes(w),
{
    v.push((w % 0x100) as u8);
    v.push(((w / 0x100) % 0x100) as u8);
    v.push(((w / 0x10000) % 0x100) as u8);
    v.push(((w / 0x1000000) % 0x100) as u8);
    assert(v@ =~= old(v)@ + le32_bytes(w));
}

fn push_le16(v: &mut Vec<u8>, w: u16)
    ensures
        final(v)@ == old(v)@ + le16_bytes(w),
{
    v.push((w % 0x100) as u8);
    v.push((w / 0x100) as u8);
    assert(v@ =~= old(v)@ + le16_bytes(w));
}

fn le16(bytes: &Vec<u8>, i: usize) -> (r: u16)
    requires
        i + 2 <= bytes@.len(),
    ensures
        r == le16_at(bytes@, i as int),
{
    let len: usize = bytes.len();
    assert(i + 2 <= len);
    bytes[i] as u16 + (bytes[i + 1] as u16) * 0x100
}

fn le32(bytes: &Vec<u8>, i: usize) -> (r: u32)
    requires
        i + 4 <= bytes@.len(),
    ensures
        r == le32_at(bytes@, i as int),
{
    let len: usize = bytes.len();
    assert(i + 4 <= len);
    bytes[i] as u32 + (bytes[i + 1] as u32) * 0x100 + (bytes[i + 2] as u32) * 0x10000
        + (bytes[i + 3] as u32) * 0x1000000
}

} // verus!
