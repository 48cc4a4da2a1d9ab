//! Properties of the format that hold for every input.
use vstd::prelude::*;
use crate::codec::Codecs;
use crate::codec::md5_digest;
use crate::consts::{
    CHECKSUM_SET, COMPRESSION_BZ2, COMPRESSION_NOT_SET, COMPRESSION_ZLIB, TAG_BLOB, LARGE_SIZE, TAG_F32, TAG_F64, TAG_FALSE, TAG_INT16, TAG_INT64, TAG_TRUE, TAG_VOID,
};
use crate::error::{Error, InvalidExtension};
use vstd::utf8::{decode_utf8, valid_utf8};
use crate::format::{
    le_value, pow256, prefix_seq, spec_fixed, spec_header, spec_item, spec_map, spec_parse, spec_size, spec_string,
};
use crate::item::Value;

verus! {

/// The `n` little-endian bytes of `v`.
pub open spec fn le_bytes(v: nat, n: nat) -> Seq<u8>
    decreases n,
{
    if n == 0 {
        Seq::empty()
    } else {
        seq![(v % 256) as u8] + le_bytes(v / 256, (n - 1) as nat)
    }
}

/// Reading back the little-endian bytes of a number that fits gives the
/// number.
pub proof fn lemma_le_round_trip(v: nat, n: nat)
    requires
        v < pow256(n),
    ensures
        le_bytes(v, n).len() == n,
        le_value(le_bytes(v, n)) == v,
    decreases n,
{
    if n > 0 {
        let m = (n - 1) as nat;
        assert(v / 256 < pow256(m)) by (nonlinear_arith)
            requires
                v < 256 * pow256(m),
        ;
        lemma_le_round_trip(v / 256, m);
        let b = le_bytes(v, n);
        assert(b.drop_first() =~= le_bytes(v / 256, m));
        assert(v == (v % 256) + 256 * (v / 256)) by (nonlinear_arith);
    }
}

/// A fixed-width field holding the little-endian bytes of a number reads
/// back as that number, and as the same 16- or 64-bit integer or float bit
/// pattern, and ends right after its bytes.
pub proof fn lemma_fixed_round_trip(s: Seq<u8>, p: int, v: nat, n: nat)
    requires
        0 <= p,
        v < pow256(n),
        p + n <= s.len(),
        s.subrange(p, p + n) == le_bytes(v, n),
    ensures
        spec_fixed(s, p, n as int) == Ok::<(nat, int), Error>((v, p + n)),
        n == 2 ==> ((v as u16) as i16) as u16 == v,
        n == 8 ==> ((v as u64) as i64) as u64 == v,
{
    lemma_le_round_trip(v, n);
    reveal_with_fuel(pow256, 9);
    if n == 2 {
        let w = v as u16;
        assert((w as i16) as u16 == w) by (bit_vector);
    }
    if n == 8 {
        let w = v as u64;
        assert((w as i64) as u64 == w) by (bit_vector);
    }
}

/// The encoding of a scalar value: its tag byte, then its fixed-width
/// little-endian payload. Empty for the other kinds.
pub open spec fn encode_scalar(v: Value) -> Seq<u8> {
    match v {
        Value::Void => seq![TAG_VOID],
        Value::Bool(b) => if b { seq![TAG_TRUE] } else { seq![TAG_FALSE] },
        Value::Int16(x) => seq![TAG_INT16] + le_bytes(x as u16 as nat, 2),
        Value::Int64(x) => seq![TAG_INT64] + le_bytes(x as u64 as nat, 8),
        Value::F32(x) => seq![TAG_F32] + le_bytes(x as nat, 4),
        Value::F64(x) => seq![TAG_F64] + le_bytes(x as nat, 8),
        _ => Seq::empty(),
    }
}

pub open spec fn is_scalar(v: Value) -> bool {
    match v {
        Value::Void | Value::Bool(_) | Value::Int16(_) | Value::Int64(_) | Value::F32(_) | Value::F64(_) => true,
        _ => false,
    }
}

/// Decoding the encoding of any scalar value, wherever it stands in the
/// input, gives that value back, bit for bit, and ends right after it.
pub proof fn lemma_scalar_round_trip(s: Seq<u8>, p: int, v: Value, c: Codecs)
    requires
        is_scalar(v),
        0 <= p,
        p + encode_scalar(v).len() <= s.len(),
        s.subrange(p, p + encode_scalar(v).len()) == encode_scalar(v),
    ensures
        spec_item(s, p, c) == Ok::<(Option<Value>, int), Error>((Some(v), p + encode_scalar(v).len())),
{
    reveal_with_fuel(pow256, 9);
    let e = encode_scalar(v);
    assert(s[p] == e[0]);
    match v {
        Value::Int16(x) => {
            lemma_le_round_trip(x as u16 as nat, 2);
            assert(s.subrange(p + 1, p + 3) =~= e.subrange(1, 3));
            assert(e.subrange(1, 3) =~= le_bytes(x as u16 as nat, 2));
            assert((x as u16) as i16 == x) by (bit_vector);
        },
        Value::Int64(x) => {
            lemma_le_round_trip(x as u64 as nat, 8);
            assert(s.subrange(p + 1, p + 9) =~= e.subrange(1, 9));
            assert(e.subrange(1, 9) =~= le_bytes(x as u64 as nat, 8));
            assert((x as u64) as i64 == x) by (bit_vector);
        },
        Value::F32(x) => {
            lemma_le_round_trip(x as nat, 4);
            assert(s.subrange(p + 1, p + 5) =~= e.subrange(1, 5));
            assert(e.subrange(1, 5) =~= le_bytes(x as nat, 4));
        },
        Value::F64(x) => {
            lemma_le_round_trip(x as nat, 8);
            assert(s.subrange(p + 1, p + 9) =~= e.subrange(1, 9));
            assert(e.subrange(1, 9) =~= le_bytes(x as nat, 8));
        },
        _ => {},
    }
}

/// A size byte up to 250 is the size itself; 251, 252, 254 and 255 are
/// always invalid; 253 followed by eight bytes gives their little-endian
/// value, and any 64-bit size can be written that way.
pub proof fn lemma_size_field(s: Seq<u8>, p: int, v: u64)
    requires
        0 <= p < s.len(),
    ensures
        s[p] <= 250 ==> spec_size(s, p) == Ok::<(nat, int), Error>((s[p] as nat, p + 1)),
        (s[p] == 251 || s[p] == 252 || s[p] == 254 || s[p] == 255) ==> spec_size(s, p)
            == Err::<(nat, int), Error>(Error::InvalidSize),
        s[p] == LARGE_SIZE && p + 9 <= s.len() ==> spec_size(s, p) == Ok::<(nat, int), Error>(
            (le_value(s.subrange(p + 1, p + 9)), p + 9),
        ),
        s[p] == LARGE_SIZE && p + 9 <= s.len() && s.subrange(p + 1, p + 9) == le_bytes(v as nat, 8)
            ==> spec_size(s, p) == Ok::<(nat, int), Error>((v as nat, p + 9)),
{
    reveal_with_fuel(pow256, 9);
    lemma_le_round_trip(v as nat, 8);
}

/// On its first call the reader fails with `MissingData` on any input
/// shorter than the header, and with `InvalidHeader` on any longer one
/// that does not start with the prefix. Otherwise the version is the
/// little-endian value of bytes 4 and 5.
pub proof fn lemma_header_checks(s: Seq<u8>, c: Codecs)
    ensures
        s.len() < 6 ==> spec_parse(s, 0, None, c) == Err::<(Option<Value>, int, u16), Error>(
            Error::MissingData,
        ),
        s.len() >= 6 && s.subrange(0, 4) != prefix_seq() ==> spec_parse(s, 0, None, c)
            == Err::<(Option<Value>, int, u16), Error>(Error::InvalidHeader),
        s.len() < 6 ==> spec_header(s) == Err::<u16, Error>(Error::MissingData),
        s.len() >= 6 && s.subrange(0, 4) != prefix_seq() ==> spec_header(s) == Err::<u16, Error>(
            Error::InvalidHeader,
        ),
        s.len() >= 6 && s.subrange(0, 4) == prefix_seq() ==> spec_header(s) == Ok::<u16, Error>(
            le_value(s.subrange(4, 6)) as u16,
        ),
{
}

/// A blob with inline sizes, no unused allocation, no padding and an
/// announced MD5 digest.
pub open spec fn encode_blob(compression: u8, stored: Seq<u8>, digest: Seq<u8>) -> Seq<u8> {
    let n = stored.len() as u8;
    seq![TAG_BLOB, n, n, n, compression, CHECKSUM_SET] + digest + seq![0u8] + stored
}

/// A blob that announces a digest fails with `InvalidBlobHash` exactly
/// when MD5 is switched on and the digest is not that of the stored bytes.
/// Past that check, compression "none" gives the stored bytes unchanged, a
/// compression byte other than 0, 1 and 2 fails with that byte, and a
/// known codec that is switched off fails naming that codec.
pub proof fn lemma_blob_checks(s: Seq<u8>, p: int, compression: u8, stored: Seq<u8>, digest: Seq<u8>, c: Codecs)
    requires
        stored.len() <= 250,
        digest.len() == 16,
        0 <= p,
        p + encode_blob(compression, stored, digest).len() <= s.len(),
        s.subrange(p, p + encode_blob(compression, stored, digest).len()) == encode_blob(compression, stored, digest),
    ensures
        ({
            let end = p + encode_blob(compression, stored, digest).len();
            let r = spec_item(s, p, c);
            &&& c.md5 && md5_digest(stored) != digest ==> r == Err::<(Option<Value>, int), Error>(Error::InvalidBlobHash)
            &&& !(c.md5 && md5_digest(stored) != digest) ==> {
                &&& compression == COMPRESSION_NOT_SET ==> r == Ok::<(Option<Value>, int), Error>((Some(Value::Blob(stored)), end))
                &&& compression > COMPRESSION_BZ2 ==> r == Err::<(Option<Value>, int), Error>(
                    Error::InvalidExtension(InvalidExtension::InvalidCompressionSetting(compression)),
                )
                &&& compression == COMPRESSION_ZLIB && !c.zlib ==> r == Err::<(Option<Value>, int), Error>(
                    Error::InvalidExtension(InvalidExtension::ZlibNotCompiled),
                )
                &&& compression == COMPRESSION_BZ2 && !c.bz2 ==> r == Err::<(Option<Value>, int), Error>(
                    Error::InvalidExtension(InvalidExtension::Bz2NotCompiled),
                )
            }
        }),
{
    let e = encode_blob(compression, stored, digest);
    let n = stored.len() as int;
    assert(e.len() == 23 + n);
    assert forall|i: int| 0 <= i < e.len() implies s[p + i] == e[i] by {
        assert(s.subrange(p, p + e.len())[i] == s[p + i]);
    }
    let h = seq![TAG_BLOB, n as u8, n as u8, n as u8, compression, CHECKSUM_SET];
    assert(e == h + digest + seq![0u8] + stored);
    assert(e[0] == h[0] && e[1] == h[1] && e[2] == h[2] && e[3] == h[3]);
    assert(e[4] == h[4] && e[5] == h[5] && e[22] == 0u8);
    assert(e.subrange(6, 22) =~= digest);
    assert(e.subrange(23, 23 + n) =~= stored);
    assert(s.subrange(p + 6, p + 22) =~= e.subrange(6, 22));
    assert(s.subrange(p + 23, p + 23 + n) =~= e.subrange(23, 23 + n));
    assert(s[p] == TAG_BLOB);
    assert(s[p + 1] == n as u8);
    assert(s[p + 2] == n as u8);
    assert(s[p + 3] == n as u8);
    assert(s[p + 4] == compression);
    assert(s[p + 5] == CHECKSUM_SET);
    assert(s[p + 22] == 0u8);
    assert(s.subrange(p + 6, p + 22) =~= digest);
    assert(s.subrange(p + 23, p + 23 + n) =~= stored);
}

/// A string with an inline size: its length byte, then its bytes.
pub open spec fn encode_key(b: Seq<u8>) -> Seq<u8> {
    seq![b.len() as u8] + b
}

/// A key read from its encoding gives the characters its bytes encode.
pub proof fn lemma_key_round_trip(s: Seq<u8>, r: int, b: Seq<u8>)
    requires
        b.len() <= 250,
        valid_utf8(b),
        0 <= r,
        r + b.len() + 1 <= s.len(),
        s.subrange(r, r + b.len() + 1) == encode_key(b),
    ensures
        spec_string(s, r) == Ok::<(Seq<char>, int), Error>((decode_utf8(b), r + b.len() + 1)),
{
    let e = encode_key(b);
    assert(s[r] == s.subrange(r, r + b.len() + 1)[0]);
    assert(e[0] == b.len() as u8);
    assert(s.subrange(r + 1, r + b.len() + 1) =~= e.subrange(1, (b.len() + 1) as int));
    assert(e.subrange(1, (b.len() + 1) as int) =~= b);
}

/// Where two keys and two values stand back to back, each lies at its
/// offset.
proof fn lemma_pairs_layout(s: Seq<u8>, r: int, k: Seq<u8>, e1: Seq<u8>, e2: Seq<u8>)
    requires
        0 <= r,
        r + (k + e1 + k + e2).len() <= s.len(),
        s.subrange(r, r + (k + e1 + k + e2).len()) == k + e1 + k + e2,
    ensures
        s.subrange(r, r + k.len()) == k,
        s.subrange(r + k.len(), r + k.len() + e1.len()) == e1,
        s.subrange(r + k.len() + e1.len(), r + 2 * k.len() + e1.len()) == k,
        s.subrange(r + 2 * k.len() + e1.len(), r + 2 * k.len() + e1.len() + e2.len()) == e2,
{
    let w = k + e1 + k + e2;
    let n1 = k.len() as int;
    let n2 = n1 + e1.len();
    let n3 = n2 + k.len();
    let whole = s.subrange(r, r + w.len());
    assert(s.subrange(r, r + n1) =~= whole.subrange(0, n1));
    assert(w.subrange(0, n1) =~= k);
    assert(s.subrange(r + n1, r + n2) =~= whole.subrange(n1, n2));
    assert(w.subrange(n1, n2) =~= e1);
    assert(s.subrange(r + n2, r + n3) =~= whole.subrange(n2, n3));
    assert(w.subrange(n2, n3) =~= k);
    assert(s.subrange(r + n3, r + w.len()) =~= whole.subrange(n3, w.len() as int));
    assert(w.subrange(n3, w.len() as int) =~= e2);
}

/// In a map whose two pairs have the same key, the later value wins: the
/// result is the earlier entries with that key mapped to the second value.
pub proof fn lemma_map_last_write_wins(
    s: Seq<u8>,
    r: int,
    key: Seq<u8>,
    v1: Value,
    v2: Value,
    acc: Map<Seq<char>, Value>,
    c: Codecs,
)
    requires
        key.len() <= 250,
        valid_utf8(key),
        is_scalar(v1),
        is_scalar(v2),
        0 <= r,
        r + (encode_key(key) + encode_scalar(v1) + encode_key(key) + encode_scalar(v2)).len() <= s.len(),
        s.subrange(r, r + (encode_key(key) + encode_scalar(v1) + encode_key(key) + encode_scalar(v2)).len())
            == encode_key(key) + encode_scalar(v1) + encode_key(key) + encode_scalar(v2),
    ensures
        spec_map(s, r, 2, acc, c) == Ok::<(Map<Seq<char>, Value>, int), Error>(
            (
                acc.insert(decode_utf8(key), v2),
                r + (encode_key(key) + encode_scalar(v1) + encode_key(key) + encode_scalar(v2)).len(),
            ),
        ),
{
    let k = encode_key(key);
    let e1 = encode_scalar(v1);
    let e2 = encode_scalar(v2);
    let w = k + e1 + k + e2;
    let end = r + w.len();
    let r1 = r + k.len();
    let t1 = r1 + e1.len();
    let r2 = t1 + k.len();
    assert(end == r2 + e2.len());
    lemma_pairs_layout(s, r, k, e1, e2);
    lemma_key_round_trip(s, r, key);
    lemma_scalar_round_trip(s, r1, v1, c);
    lemma_key_round_trip(s, t1, key);
    lemma_scalar_round_trip(s, r2, v2, c);
    let kc = decode_utf8(key);
    let a1 = acc.insert(kc, v1);
    assert(a1.insert(kc, v2) =~= acc.insert(kc, v2));
    assert(spec_map(s, end, 0, a1.insert(kc, v2), c) == Ok::<(Map<Seq<char>, Value>, int), Error>(
        (acc.insert(kc, v2), end),
    ));
    assert(spec_map(s, t1, 1, a1, c) == spec_map(s, end, 0, a1.insert(kc, v2), c));
    assert(spec_map(s, r, 2, acc, c) == spec_map(s, t1, 1, a1, c));
}

} // verus!
