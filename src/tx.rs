//! Canonical encoding of a transaction: executable code plus optional data.
use vstd::prelude::*;
use crate::wire::{
    bytes_equal, copy_range, key, len_field, lemma_len_field_prefix_free, occurs_at, put_len_field,
    read_varint, varint, WIRE_LEN,
};

verus! {

/// Field tag of the code.
pub const CODE_TAG: u64 = 1;

/// Field tag of the auxiliary data.
pub const DATA_TAG: u64 = 2;

/// A transaction submitted to the node.
#[derive(Debug, Clone)]
pub struct Transaction {
    pub code: Vec<u8>,
    pub data: Option<Vec<u8>>,
}

/// The byte sequence inside an optional byte vector.
pub open spec fn opt_bytes(o: Option<Vec<u8>>) -> Option<Seq<u8>> {
    match o {
        Some(v) => Some(v@),
        None => None,
    }
}

impl View for Transaction {
    type V = (Seq<u8>, Option<Seq<u8>>);

    open spec fn view(&self) -> (Seq<u8>, Option<Seq<u8>>) {
        (self.code@, opt_bytes(self.data))
    }
}

/// The code field; protobuf leaves an empty scalar out.
pub open spec fn code_part(code: Seq<u8>) -> Seq<u8> {
    if code.len() > 0 {
        len_field(CODE_TAG as nat, code)
    } else {
        Seq::empty()
    }
}

/// The data field, present exactly when the data is.
pub open spec fn data_part(data: Option<Seq<u8>>) -> Seq<u8> {
    match data {
        Some(d) => len_field(DATA_TAG as nat, d),
        None => Seq::empty(),
    }
}

/// The canonical encoding: fields in tag order, each length-delimited.
pub open spec fn tx_encoding(code: Seq<u8>, data: Option<Seq<u8>>) -> Seq<u8> {
    code_part(code) + data_part(data)
}

/// The transaction whose canonical encoding is `b`, if there is one.
pub open spec fn tx_decoding(b: Seq<u8>) -> Option<(Seq<u8>, Option<Seq<u8>>)> {
    if exists|t: (Seq<u8>, Option<Seq<u8>>)| tx_encoding(t.0, t.1) == b {
        Some(choose|t: (Seq<u8>, Option<Seq<u8>>)| tx_encoding(t.0, t.1) == b)
    } else {
        None
    }
}

proof fn lemma_first_bytes(p: Seq<u8>, d: Seq<u8>)
    ensures
        len_field(CODE_TAG as nat, p).len() >= 1,
        len_field(CODE_TAG as nat, p)[0] == 10,
        len_field(DATA_TAG as nat, d).len() >= 1,
        len_field(DATA_TAG as nat, d)[0] == 18,
{
    assert(key(1, 2) == varint(10));
    assert(key(2, 2) == varint(18));
    assert(varint(10) == seq![10u8]);
    assert(varint(18) == seq![18u8]);
}

proof fn lemma_data_part_injective(d1: Option<Seq<u8>>, d2: Option<Seq<u8>>)
    requires
        data_part(d1) == data_part(d2),
    ensures
        d1 == d2,
{
    match (d1, d2) {
        (Some(x), Some(y)) => {
            assert(len_field(DATA_TAG as nat, x) + Seq::empty() == len_field(DATA_TAG as nat, x));
            assert(len_field(DATA_TAG as nat, y) + Seq::empty() == len_field(DATA_TAG as nat, y));
            lemma_len_field_prefix_free(DATA_TAG as nat, x, y, Seq::empty(), Seq::empty());
        },
        (Some(x), None) => {
            lemma_first_bytes(Seq::empty(), x);
        },
        (None, Some(y)) => {
            lemma_first_bytes(Seq::empty(), y);
        },
        (None, None) => {},
    }
}

/// Distinct transactions have distinct encodings.
pub proof fn lemma_encoding_injective(
    c1: Seq<u8>,
    d1: Option<Seq<u8>>,
    c2: Seq<u8>,
    d2: Option<Seq<u8>>,
)
    requires
        tx_encoding(c1, d1) == tx_encoding(c2, d2),
    ensures
        c1 == c2,
        d1 == d2,
{
    let e = tx_encoding(c1, d1);
    if c1.len() > 0 && c2.len() > 0 {
        lemma_len_field_prefix_free(CODE_TAG as nat, c1, c2, data_part(d1), data_part(d2));
        lemma_data_part_injective(d1, d2);
    } else if c1.len() > 0 {
        lemma_first_bytes(c1, Seq::empty());
        assert(e[0] == 10);
        assert(e == data_part(d2));
        if let Some(y) = d2 {
            lemma_first_bytes(c1, y);
        }
    } else if c2.len() > 0 {
        lemma_first_bytes(c2, Seq::empty());
        assert(tx_encoding(c2, d2)[0] == 10);
        assert(e == data_part(d1));
        if let Some(y) = d1 {
            lemma_first_bytes(c2, y);
        }
    } else {
        assert(c1 =~= c2);
        assert(data_part(d1) =~= e);
        assert(data_part(d2) =~= e);
        lemma_data_part_injective(d1, d2);
    }
}

/// Decoding recovers exactly the code and data that were encoded.
pub proof fn lemma_round_trip(code: Seq<u8>, data: Option<Seq<u8>>)
    ensures
        tx_decoding(tx_encoding(code, data)) == Some((code, data)),
{
    let b = tx_encoding(code, data);
    assert(tx_encoding((code, data).0, (code, data).1) == b);
    let t = choose|t: (Seq<u8>, Option<Seq<u8>>)| tx_encoding(t.0, t.1) == b;
    lemma_encoding_injective(t.0, t.1, code, data);
}

/// Appends the canonical encoding of a code and optional data.
fn put_tx(code: &Vec<u8>, data: &Option<Vec<u8>>, buf: &mut Vec<u8>)
    ensures
        final(buf)@ == old(buf)@ + tx_encoding(code@, opt_bytes(*data)),
{
    let ghost start = buf@;
    if code.len() > 0 {
        put_len_field(CODE_TAG, code, buf);
    }
    match data {
        Some(d) => put_len_field(DATA_TAG, d, buf),
        None => {},
    }
    assert(buf@ =~= start + tx_encoding(code@, opt_bytes(*data)));
}

/// Reads the length-delimited field with key byte `tag * 8 + 2` at `pos`.
fn read_len_field(b: &Vec<u8>, pos: usize, tag: u64) -> (r: Option<(Vec<u8>, usize)>)
    requires
        pos < b@.len(),
        tag == CODE_TAG || tag == DATA_TAG,
    ensures
        r matches Some((_, end)) ==> end <= b@.len(),
        forall|p: Seq<u8>|
            occurs_at(b@, pos as int, #[trigger] len_field(tag as nat, p)) ==> (r matches Some((q, end))
                && q@ == p && end == pos + len_field(tag as nat, p).len()),
{
    let ghost k = key(tag as nat, WIRE_LEN as nat);
    proof {
        assert(k == varint((tag * 8 + 2) as nat));
        assert(k == seq![(tag * 8 + 2) as u8]);
    }
    if b[pos] as u64 != tag * 8 + WIRE_LEN {
        proof {
            assert forall|p: Seq<u8>| occurs_at(b@, pos as int, #[trigger] len_field(tag as nat, p)) implies false by {
                assert(b@[pos as int] == len_field(tag as nat, p)[0]);
            }
        }
        return None;
    }
    let len = b.len();
    let start = pos + 1;
    match read_varint(b, start) {
        None => {
            proof {
                assert forall|p: Seq<u8>| occurs_at(b@, pos as int, #[trigger] len_field(tag as nat, p)) implies false by {
                    lemma_len_field_at(b@, pos as int, tag as nat, p);
                }
            }
            None
        },
        Some((n, end)) => {
            if n as u128 > (b.len() - end) as u128 {
                proof {
                    assert forall|p: Seq<u8>| occurs_at(b@, pos as int, #[trigger] len_field(tag as nat, p)) implies false by {
                        lemma_len_field_at(b@, pos as int, tag as nat, p);
                    }
                }
                return None;
            }
            let stop = end + n as usize;
            let q = copy_range(b, end, stop);
            proof {
                assert forall|p: Seq<u8>| occurs_at(b@, pos as int, #[trigger] len_field(tag as nat, p)) implies
                    q@ == p && stop == pos + len_field(tag as nat, p).len() by {
                    lemma_len_field_at(b@, pos as int, tag as nat, p);
                }
            }
            Some((q, stop))
        },
    }
}

/// Splits a length-delimited field found at `i` into its parts.
proof fn lemma_len_field_at(s: Seq<u8>, i: int, tag: nat, p: Seq<u8>)
    requires
        occurs_at(s, i, len_field(tag, p)),
        tag == 1 || tag == 2,
        s.len() <= usize::MAX,
    ensures
        p.len() <= u64::MAX,
        occurs_at(s, i + 1, varint(p.len())),
        occurs_at(s, i + 1 + varint(p.len()).len(), p),
        len_field(tag, p).len() == 1 + varint(p.len()).len() + p.len(),
{
    let f = len_field(tag, p);
    let v = varint(p.len());
    assert(key(tag, 2) == varint(tag * 8 + 2));
    assert(key(tag, 2) == seq![(tag * 8 + 2) as u8]);
    assert(f =~= seq![(tag * 8 + 2) as u8] + v + p);
    assert(s.subrange(i, i + f.len()) == f);
    assert(f.subrange(1, 1 + v.len() as int) =~= v);
    assert(f.subrange(1 + v.len() as int, f.len() as int) =~= p);
    assert(s.subrange(i + 1, i + 1 + v.len()) =~= s.subrange(i, i + f.len()).subrange(1, 1 + v.len() as int));
    assert(s.subrange(i + 1 + v.len(), i + 1 + v.len() + p.len()) =~= s.subrange(i, i + f.len()).subrange(
        1 + v.len() as int,
        f.len() as int,
    ));
    assert(s.subrange(i + 1, i + 1 + v.len()) =~= f.subrange(1, 1 + v.len() as int));
    assert(s.subrange(i + 1 + v.len(), i + 1 + v.len() + p.len()) =~= f.subrange(
        1 + v.len() as int,
        f.len() as int,
    ));
}

impl Transaction {
    /// A transaction with the given code and data.
    pub fn new(code: Vec<u8>, data: Option<Vec<u8>>) -> (r: Transaction)
        ensures
            r.code == code,
            r.data == data,
    {
        Transaction { code, data }
    }

    /// The canonical encoding of this transaction. The code must be non-empty.
    pub fn encode(&self) -> (r: Vec<u8>)
        requires
            self.code@.len() > 0,
        ensures
            r@ == tx_encoding(self.code@, opt_bytes(self.data)),
    {
        let mut buf: Vec<u8> = Vec::new();
        put_tx(&self.code, &self.data, &mut buf);
        assert(buf@ =~= tx_encoding(self.code@, opt_bytes(self.data)));
        buf
    }

    /// Reads a transaction back from its canonical encoding; any other byte
    /// sequence gives `None`.
    pub fn decode(bytes: &Vec<u8>) -> (r: Option<Transaction>)
        ensures
            match r {
                Some(t) => tx_decoding(bytes@) == Some(t@),
                None => tx_decoding(bytes@) is None,
            },
    {
        let ghost b = bytes@;
        let n = bytes.len();
        let mut pos: usize = 0;
        let mut code: Vec<u8> = Vec::new();
        let mut data: Option<Vec<u8>> = None;
        if pos < n && bytes[pos] == 10 {
            match read_len_field(bytes, pos, CODE_TAG) {
                Some((c, e)) => {
                    code = c;
                    pos = e;
                    proof {
                        assert forall|t: (Seq<u8>, Option<Seq<u8>>)| #[trigger] tx_encoding(t.0, t.1) == b implies
                            code@ == t.0 && pos == code_part(t.0).len() by {
                            lemma_encoding_shape(t.0, t.1);
                        }
                    }
                },
                None => {
                    proof {
                        assert forall|t: (Seq<u8>, Option<Seq<u8>>)| #[trigger] tx_encoding(t.0, t.1) != b by {
                            lemma_encoding_shape(t.0, t.1);
                        }
                    }
                    return None;
                },
            }
        } else {
            proof {
                assert forall|t: (Seq<u8>, Option<Seq<u8>>)| #[trigger] tx_encoding(t.0, t.1) == b implies
                    code@ == t.0 && pos == code_part(t.0).len() by {
                    lemma_encoding_shape(t.0, t.1);
                    assert(code@ =~= t.0);
                }
            }
        }
        if pos < n && bytes[pos] == 18 {
            match read_len_field(bytes, pos, DATA_TAG) {
                Some((d, e)) => {
                    data = Some(d);
                    pos = e;
                },
                None => {
                    proof {
                        assert forall|t: (Seq<u8>, Option<Seq<u8>>)| #[trigger] tx_encoding(t.0, t.1) != b by {
                            lemma_encoding_shape(t.0, t.1);
                        }
                    }
                    return None;
                },
            }
        }
        proof {
            assert forall|t: (Seq<u8>, Option<Seq<u8>>)| #[trigger] tx_encoding(t.0, t.1) == b implies
                code@ == t.0 && opt_bytes(data) == t.1 by {
                lemma_encoding_shape(t.0, t.1);
            }
        }
        let mut enc: Vec<u8> = Vec::new();
        put_tx(&code, &data, &mut enc);
        assert(enc@ =~= tx_encoding(code@, opt_bytes(data)));
        if bytes_equal(&enc, bytes) {
            proof {
                lemma_round_trip(code@, opt_bytes(data));
            }
            Some(Transaction { code, data })
        } else {
            None
        }
    }
}

/// Where the fields of an encoding stand.
proof fn lemma_encoding_shape(c: Seq<u8>, d: Option<Seq<u8>>)
    ensures
        ({
            let b = tx_encoding(c, d);
            let p = code_part(c).len();
            &&& c.len() > 0 ==> occurs_at(b, 0, len_field(CODE_TAG as nat, c)) && b[0] == 10
            &&& c.len() == 0 ==> p == 0 && (b.len() > 0 ==> b[0] == 18)
            &&& p <= b.len()
            &&& d matches Some(x) ==> occurs_at(b, p as int, len_field(DATA_TAG as nat, x)) && b[p as int] == 18
            &&& d is None ==> p == b.len()
        }),
{
    let b = tx_encoding(c, d);
    let p = code_part(c).len();
    lemma_first_bytes(c, Seq::empty());
    if c.len() > 0 {
        assert(b.subrange(0, len_field(CODE_TAG as nat, c).len() as int) =~= len_field(CODE_TAG as nat, c));
    }
    if let Some(x) = d {
        lemma_first_bytes(c, x);
        assert(b.subrange(p as int, p + len_field(DATA_TAG as nat, x).len() as int) =~= len_field(DATA_TAG as nat, x));
    }
}

} // verus!
