//! Protobuf wire primitives: varints, field keys and length-delimited fields.
use vstd::prelude::*;

verus! {

/// Wire type of a varint-encoded scalar field.
pub const WIRE_VARINT: u64 = 0;

/// Wire type of a length-delimited field (bytes or a nested message).
pub const WIRE_LEN: u64 = 2;

/// Largest field tag that protobuf allows.
pub const MAX_TAG: u64 = 536870911;

/// LEB128 encoding of `v`: seven bits per byte, least significant group first,
/// high bit set on every byte but the last.
pub open spec fn varint(v: nat) -> Seq<u8>
    decreases v,
{
    if v < 128 {
        seq![v as u8]
    } else {
        seq![(v % 128 + 128) as u8] + varint(v / 128)
    }
}

/// Key of a field: its tag and wire type packed into one varint.
pub open spec fn key(tag: nat, wire_type: nat) -> Seq<u8> {
    varint(tag * 8 + wire_type)
}

/// A length-delimited field: key, payload length, payload.
pub open spec fn len_field(tag: nat, payload: Seq<u8>) -> Seq<u8> {
    key(tag, WIRE_LEN as nat) + varint(payload.len()) + payload
}

/// A varint scalar field.
pub open spec fn varint_field(tag: nat, v: nat) -> Seq<u8> {
    key(tag, WIRE_VARINT as nat) + varint(v)
}

/// `t` occurs in `s` starting at index `i`.
pub open spec fn occurs_at(s: Seq<u8>, i: int, t: Seq<u8>) -> bool {
    0 <= i && i + t.len() <= s.len() && s.subrange(i, i + t.len()) == t
}

/// A varint has at least one byte, and its first byte holds the low bits.
pub proof fn lemma_varint_nonempty(v: nat)
    ensures
        varint(v).len() >= 1,
        varint(v)[0] == (if v < 128 { v as u8 } else { (v % 128 + 128) as u8 }),
    decreases v,
{
    if v >= 128 {
        lemma_varint_nonempty(v / 128);
    }
}

/// Relies on prost::encoding::encode_varint: appends the LEB128 encoding of
/// `v` to the buffer.
#[verifier::external_body]
fn put_varint_raw(v: u64, buf: &mut Vec<u8>)
    ensures
        final(buf)@ == old(buf)@ + varint(v as nat),
{
    prost::encoding::encode_varint(v, buf)
}

/// Appends the varint encoding of `v`.
pub fn put_varint(v: u64, buf: &mut Vec<u8>)
    ensures
        final(buf)@ == old(buf)@ + varint(v as nat),
{
    put_varint_raw(v, buf);
}

/// Appends every byte of `src`.
pub fn put_bytes(src: &Vec<u8>, buf: &mut Vec<u8>)
    ensures
        final(buf)@ == old(buf)@ + src@,
{
    let ghost start = buf@;
    let mut i: usize = 0;
    while i < src.len()
        invariant
            i <= src@.len(),
            buf@ == start + src@.subrange(0, i as int),
        decreases src@.len() - i,
    {
        buf.push(src[i]);
        i = i + 1;
        assert(src@.subrange(0, i as int) == src@.subrange(0, i - 1) + seq![src@[i - 1]]);
    }
    assert(src@.subrange(0, src@.len() as int) == src@);
}

/// Appends a length-delimited field with the given tag.
pub fn put_len_field(tag: u64, payload: &Vec<u8>, buf: &mut Vec<u8>)
    requires
        1 <= tag <= MAX_TAG,
    ensures
        final(buf)@ == old(buf)@ + len_field(tag as nat, payload@),
{
    put_varint(tag * 8 + WIRE_LEN, buf);
    put_varint(payload.len() as u64, buf);
    put_bytes(payload, buf);
    assert(final(buf)@ == old(buf)@ + len_field(tag as nat, payload@));
}

/// Appends a varint scalar field with the given tag.
pub fn put_varint_field(tag: u64, v: u64, buf: &mut Vec<u8>)
    requires
        1 <= tag <= MAX_TAG,
    ensures
        final(buf)@ == old(buf)@ + varint_field(tag as nat, v as nat),
{
    put_varint(tag * 8 + WIRE_VARINT, buf);
    put_varint(v, buf);
}

/// Reads a varint starting at `pos`, returning its value and the index just
/// past it. Every canonical encoding of a `u64` found at `pos` is read back.
pub fn read_varint(b: &Vec<u8>, pos: usize) -> (r: Option<(u64, usize)>)
    requires
        pos <= b@.len(),
    ensures
        r matches Some((v, end)) ==> pos < end <= b@.len(),
        forall|v: nat|
            v <= u64::MAX && occurs_at(b@, pos as int, #[trigger] varint(v)) ==> r == Some(
                (v as u64, (pos + varint(v).len()) as usize),
            ),
    decreases b@.len() - pos,
{
    if pos >= b.len() {
        proof {
            assert forall|v: nat| v <= u64::MAX && occurs_at(b@, pos as int, #[trigger] varint(v)) implies false by {
                lemma_varint_nonempty(v);
            }
        }
        return None;
    }
    let byte = b[pos];
    if byte < 128 {
        proof {
            assert forall|v: nat| v <= u64::MAX && occurs_at(b@, pos as int, #[trigger] varint(v)) implies r_is(v, byte, pos) by {
                lemma_varint_nonempty(v);
                assert(b@[pos as int] == varint(v)[0]);
            }
        }
        return Some((byte as u64, pos + 1));
    }
    match read_varint(b, pos + 1) {
        None => {
            proof {
                assert forall|v: nat| v <= u64::MAX && occurs_at(b@, pos as int, #[trigger] varint(v)) implies false by {
                    lemma_varint_nonempty(v);
                    assert(b@[pos as int] == varint(v)[0]);
                    lemma_varint_tail(b@, pos as int, v);
                }
            }
            None
        },
        Some((rest, end)) => {
            if rest <= 144115188075855871 {
                let value: u64 = (byte - 128) as u64 + 128 * rest;
                proof {
                    assert forall|v: nat| v <= u64::MAX && occurs_at(b@, pos as int, #[trigger] varint(v)) implies
                        value == v && end == pos + varint(v).len() by {
                        lemma_varint_nonempty(v);
                        assert(b@[pos as int] == varint(v)[0]);
                        lemma_varint_tail(b@, pos as int, v);
                        assert(v == 128 * (v / 128) + v % 128);
                    }
                }
                Some((value, end))
            } else {
                proof {
                    assert forall|v: nat| v <= u64::MAX && occurs_at(b@, pos as int, #[trigger] varint(v)) implies false by {
                        lemma_varint_nonempty(v);
                        assert(b@[pos as int] == varint(v)[0]);
                        lemma_varint_tail(b@, pos as int, v);
                    }
                }
                None
            }
        },
    }
}

/// Copies `b[start..end]` into a new vector.
pub fn copy_range(b: &Vec<u8>, start: usize, end: usize) -> (r: Vec<u8>)
    requires
        start <= end <= b@.len(),
    ensures
        r@ == b@.subrange(start as int, end as int),
{
    let mut r: Vec<u8> = Vec::new();
    let mut i: usize = start;
    while i < end
        invariant
            start <= i <= end <= b@.len(),
            r@ == b@.subrange(start as int, i as int),
        decreases end - i,
    {
        r.push(b[i]);
        i = i + 1;
        assert(b@.subrange(start as int, i as int) == b@.subrange(start as int, i - 1) + seq![b@[i - 1]]);
    }
    r
}

/// Byte-wise equality of two vectors.
pub fn bytes_equal(a: &Vec<u8>, b: &Vec<u8>) -> (r: bool)
    ensures
        r == (a@ == b@),
{
    if a.len() != b.len() {
        return false;
    }
    let mut i: usize = 0;
    while i < a.len()
        invariant
            a@.len() == b@.len(),
            i <= a@.len(),
            forall|j: int| 0 <= j < i ==> a@[j] == b@[j],
        decreases a@.len() - i,
    {
        if a[i] != b[i] {
            return false;
        }
        i = i + 1;
    }
    assert(a@ =~= b@);
    true
}

/// Varints are prefix-free: one never extends another.
pub proof fn lemma_varint_prefix_free(a: nat, b: nat, x: Seq<u8>, y: Seq<u8>)
    requires
        varint(a) + x == varint(b) + y,
    ensures
        a == b,
        x == y,
    decreases a,
{
    lemma_varint_nonempty(a);
    lemma_varint_nonempty(b);
    assert((varint(a) + x)[0] == varint(a)[0]);
    assert((varint(b) + y)[0] == varint(b)[0]);
    if a < 128 {
        assert(x =~= (varint(a) + x).subrange(1, (varint(a) + x).len() as int));
        assert(y =~= (varint(b) + y).subrange(1, (varint(b) + y).len() as int));
    } else {
        let ta = varint(a / 128);
        let tb = varint(b / 128);
        assert(varint(a) + x =~= seq![(a % 128 + 128) as u8] + (ta + x));
        assert(varint(b) + y =~= seq![(b % 128 + 128) as u8] + (tb + y));
        assert(ta + x =~= (varint(a) + x).subrange(1, (varint(a) + x).len() as int));
        assert(tb + y =~= (varint(b) + y).subrange(1, (varint(b) + y).len() as int));
        lemma_varint_prefix_free(a / 128, b / 128, x, y);
        assert(a == 128 * (a / 128) + a % 128);
        assert(b == 128 * (b / 128) + b % 128);
    }
}

/// Length-delimited fields with one tag are prefix-free.
pub proof fn lemma_len_field_prefix_free(tag: nat, p: Seq<u8>, q: Seq<u8>, x: Seq<u8>, y: Seq<u8>)
    requires
        len_field(tag, p) + x == len_field(tag, q) + y,
    ensures
        p == q,
        x == y,
{
    let k = key(tag, WIRE_LEN as nat);
    assert(len_field(tag, p) + x =~= k + (varint(p.len()) + (p + x)));
    assert(len_field(tag, q) + y =~= k + (varint(q.len()) + (q + y)));
    assert(varint(p.len()) + (p + x) =~= (len_field(tag, p) + x).subrange(k.len() as int, (len_field(tag, p) + x).len() as int));
    assert(varint(q.len()) + (q + y) =~= (len_field(tag, q) + y).subrange(k.len() as int, (len_field(tag, q) + y).len() as int));
    lemma_varint_prefix_free(p.len(), q.len(), p + x, q + y);
    assert(p =~= (p + x).subrange(0, p.len() as int));
    assert(q =~= (q + y).subrange(0, q.len() as int));
    assert(x =~= (p + x).subrange(p.len() as int, (p + x).len() as int));
    assert(y =~= (q + y).subrange(q.len() as int, (q + y).len() as int));
}

/// `v` is the one-byte varint `byte`.
spec fn r_is(v: nat, byte: u8, pos: usize) -> bool {
    v == byte as nat && varint(v).len() == 1
}

/// A multi-byte varint at `i` continues with the varint of the higher bits.
proof fn lemma_varint_tail(s: Seq<u8>, i: int, v: nat)
    requires
        occurs_at(s, i, varint(v)),
        v >= 128,
    ensures
        occurs_at(s, i + 1, varint(v / 128)),
        varint(v).len() == 1 + varint(v / 128).len(),
{
    let t = varint(v / 128);
    assert(varint(v) == seq![(v % 128 + 128) as u8] + t);
    assert(s.subrange(i + 1, i + 1 + t.len()) == varint(v).subrange(1, 1 + t.len() as int));
    assert(varint(v).subrange(1, 1 + t.len() as int) == t);
}

} // verus!
