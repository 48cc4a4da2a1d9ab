//! The wire format, stated as spec functions over the whole input `s` and
//! a position `p` in it. Each returns what is read and the position after
//! it, or the error that reading meets.
use vstd::prelude::*;
use vstd::utf8::{decode_utf8, valid_utf8};
use crate::codec::{bz2_inflated, md5_digest, zlib_inflated, Codecs};
use crate::consts::{
    CHECKSUM_SET, COMPRESSION_BZ2, COMPRESSION_NOT_SET, COMPRESSION_ZLIB, LARGE_SIZE, PREFIX,
    SMALL_SIZE_CUTOFF, TAG_BLOB, TAG_F32, TAG_F64, TAG_FALSE, TAG_INT16, TAG_INT64, TAG_LIST,
    TAG_MAP, TAG_STRING, TAG_TRUE, TAG_VOID,
};
use crate::error::{Error, InvalidExtension};
use crate::item::Value;

verus! {

/// The number that bytes spell in little-endian order.
pub open spec fn le_value(b: Seq<u8>) -> nat
    decreases b.len(),
{
    if b.len() == 0 {
        0
    } else {
        b[0] as nat + 256 * le_value(b.drop_first())
    }
}

/// 256 to the power `k`.
pub open spec fn pow256(k: nat) -> nat
    decreases k,
{
    if k == 0 {
        1
    } else {
        256 * pow256((k - 1) as nat)
    }
}

pub proof fn lemma_pow256_mono(a: nat, b: nat)
    requires
        a <= b,
    ensures
        pow256(a) <= pow256(b),
    decreases b,
{
    if a < b {
        lemma_pow256_mono(a, (b - 1) as nat);
    }
}

/// The magic prefix as a sequence.
pub open spec fn prefix_seq() -> Seq<u8> {
    seq![PREFIX[0], PREFIX[1], PREFIX[2], PREFIX[3]]
}

/// The header: the prefix, then a little-endian 16-bit version.
pub open spec fn spec_header(s: Seq<u8>) -> Result<u16, Error> {
    if s.len() < 6 {
        Err(Error::MissingData)
    } else if s.subrange(0, 4) != prefix_seq() {
        Err(Error::InvalidHeader)
    } else {
        Ok(le_value(s.subrange(4, 6)) as u16)
    }
}

/// Where skipping up to `n` bytes from `p` stops: the input may end sooner.
pub open spec fn take_end(s: Seq<u8>, p: int, n: int) -> int {
    if p + n <= s.len() {
        p + n
    } else {
        s.len() as int
    }
}

/// Exactly `n` bytes from `p`: a region whose size was announced, so an
/// input that ends sooner is `MissingData`.
pub open spec fn spec_bytes(s: Seq<u8>, p: int, n: int) -> Result<(Seq<u8>, int), Error> {
    if 0 <= p && p + n <= s.len() {
        Ok((s.subrange(p, p + n), p + n))
    } else {
        Err(Error::MissingData)
    }
}

/// One byte.
pub open spec fn spec_next(s: Seq<u8>, p: int) -> Result<(u8, int), Error> {
    if 0 <= p < s.len() {
        Ok((s[p], p + 1))
    } else {
        Err(Error::Eof)
    }
}

/// A fixed-width little-endian field of `n` bytes.
pub open spec fn spec_fixed(s: Seq<u8>, p: int, n: int) -> Result<(nat, int), Error> {
    if 0 <= p && p + n <= s.len() {
        Ok((le_value(s.subrange(p, p + n)), p + n))
    } else {
        Err(Error::Eof)
    }
}

/// A size field: one byte up to 250, or the large-size byte and eight
/// little-endian bytes; any other byte is invalid.
pub open spec fn spec_size(s: Seq<u8>, p: int) -> Result<(nat, int), Error> {
    match spec_next(s, p) {
        Err(e) => Err(e),
        Ok((b, q)) => if b == LARGE_SIZE {
            spec_fixed(s, q, 8)
        } else if b >= SMALL_SIZE_CUTOFF {
            Err(Error::InvalidSize)
        } else {
            Ok((b as nat, q))
        },
    }
}

/// A string: a size, then exactly that many bytes of UTF-8.
pub open spec fn spec_string(s: Seq<u8>, p: int) -> Result<(Seq<char>, int), Error> {
    match spec_size(s, p) {
        Err(e) => Err(e),
        Ok((n, q)) => match spec_bytes(s, q, n as int) {
            Err(e) => Err(e),
            Ok((bytes, end)) => if valid_utf8(bytes) {
                Ok((decode_utf8(bytes), end))
            } else {
                Err(Error::InvalidUtf8)
            },
        },
    }
}

/// The logical bytes of a blob from its stored bytes and compression byte.
pub open spec fn spec_decompress(compression: u8, stored: Seq<u8>, c: Codecs) -> Result<Seq<u8>, Error> {
    if compression == COMPRESSION_NOT_SET {
        Ok(stored)
    } else if compression == COMPRESSION_ZLIB {
        if !c.zlib {
            Err(Error::InvalidExtension(InvalidExtension::ZlibNotCompiled))
        } else {
            match zlib_inflated(stored) {
                Ok(d) => Ok(d),
                Err(k) => Err(Error::Reader(k)),
            }
        }
    } else if compression == COMPRESSION_BZ2 {
        if !c.bz2 {
            Err(Error::InvalidExtension(InvalidExtension::Bz2NotCompiled))
        } else {
            match bz2_inflated(stored) {
                Ok(d) => Ok(d),
                Err(k) => Err(Error::Reader(k)),
            }
        }
    } else {
        Err(Error::InvalidExtension(InvalidExtension::InvalidCompressionSetting(compression)))
    }
}

/// Whether stored bytes pass the checksum: always when there is none or
/// MD5 is switched off.
pub open spec fn checksum_ok(has_sum: bool, stored: Seq<u8>, digest: Seq<u8>, c: Codecs) -> bool {
    !(has_sum && c.md5) || md5_digest(stored) == digest
}

/// A blob after its tag: allocated, used and data sizes, the compression
/// and checksum bytes, the digest if announced, the padding, the stored
/// bytes and the unused rest of the allocation. The digest, the padding
/// and the stored bytes must all be present; the unused rest is skipped as
/// far as the input goes, since no part of the value lies in it.
pub open spec fn spec_blob(s: Seq<u8>, p: int, c: Codecs) -> Result<(Seq<u8>, int), Error> {
    match spec_size(s, p) {
        Err(e) => Err(e),
        Ok((allocated, p1)) => match spec_size(s, p1) {
            Err(e) => Err(e),
            Ok((used, p2)) => match spec_size(s, p2) {
                Err(e) => Err(e),
                Ok((_hint, p3)) => match spec_next(s, p3) {
                    Err(e) => Err(e),
                    Ok((compression, p4)) => match spec_next(s, p4) {
                        Err(e) => Err(e),
                        Ok((checksum, p5)) => {
                            let has_sum = checksum == CHECKSUM_SET;
                            let digest: Result<(Seq<u8>, int), Error> = if has_sum {
                                spec_bytes(s, p5, 16)
                            } else {
                                Ok((Seq::empty(), p5))
                            };
                            match digest {
                                Err(e) => Err(e),
                                Ok((digest, p6)) => match spec_next(s, p6) {
                                    Err(e) => Err(e),
                                    Ok((pad, p7)) => match spec_bytes(s, p7, pad as int) {
                                        Err(e) => Err(e),
                                        Ok((_padding, p8)) => match spec_bytes(s, p8, used as int) {
                                            Err(e) => Err(e),
                                            Ok((stored, p9)) => {
                                                let rest = if allocated > used { allocated - used } else { 0 };
                                                let p10 = take_end(s, p9, rest);
                                                if !checksum_ok(has_sum, stored, digest, c) {
                                                    Err(Error::InvalidBlobHash)
                                                } else {
                                                    match spec_decompress(compression, stored, c) {
                                                        Ok(d) => Ok((d, p10)),
                                                        Err(e) => Err(e),
                                                    }
                                                }
                                            },
                                        },
                                    },
                                },
                            }
                        },
                    },
                },
            },
        },
    }
}

/// One value at `p`: `None` where the input has ended or the tag byte is
/// not known.
pub open spec fn spec_item(s: Seq<u8>, p: int, c: Codecs) -> Result<(Option<Value>, int), Error>
    decreases s.len() - p, 0int, 0nat,
{
    if p < 0 || p >= s.len() {
        Ok((None, p))
    } else {
        let tag = s[p];
        let q = p + 1;
        if tag == TAG_VOID {
            Ok((Some(Value::Void), q))
        } else if tag == TAG_FALSE {
            Ok((Some(Value::Bool(false)), q))
        } else if tag == TAG_TRUE {
            Ok((Some(Value::Bool(true)), q))
        } else if tag == TAG_INT16 {
            match spec_fixed(s, q, 2) {
                Ok((v, r)) => Ok((Some(Value::Int16(v as u16 as i16)), r)),
                Err(e) => Err(e),
            }
        } else if tag == TAG_INT64 {
            match spec_fixed(s, q, 8) {
                Ok((v, r)) => Ok((Some(Value::Int64(v as u64 as i64)), r)),
                Err(e) => Err(e),
            }
        } else if tag == TAG_F32 {
            match spec_fixed(s, q, 4) {
                Ok((v, r)) => Ok((Some(Value::F32(v as u32)), r)),
                Err(e) => Err(e),
            }
        } else if tag == TAG_F64 {
            match spec_fixed(s, q, 8) {
                Ok((v, r)) => Ok((Some(Value::F64(v as u64)), r)),
                Err(e) => Err(e),
            }
        } else if tag == TAG_STRING {
            match spec_string(s, q) {
                Ok((t, r)) => Ok((Some(Value::Str(t)), r)),
                Err(e) => Err(e),
            }
        } else if tag == TAG_LIST {
            match spec_size(s, q) {
                Err(e) => Err(e),
                Ok((n, r)) => match spec_list(s, r, n, Seq::empty(), c) {
                    Ok((l, t)) => Ok((Some(Value::List(l)), t)),
                    Err(e) => Err(e),
                },
            }
        } else if tag == TAG_MAP {
            match spec_size(s, q) {
                Err(e) => Err(e),
                Ok((n, r)) => match spec_map(s, r, n, Map::empty(), c) {
                    Ok((m, t)) => Ok((Some(Value::Dict(m)), t)),
                    Err(e) => Err(e),
                },
            }
        } else if tag == TAG_BLOB {
            match spec_blob(s, q, c) {
                Ok((b, r)) => Ok((Some(Value::Blob(b)), r)),
                Err(e) => Err(e),
            }
        } else {
            Ok((None, q))
        }
    }
}

/// `n` more list elements from `r`, after the elements `acc`. A missing
/// element is `MissingData`. (The position check never fails: a value
/// always consumes its tag byte.)
pub open spec fn spec_list(s: Seq<u8>, r: int, n: nat, acc: Seq<Value>, c: Codecs) -> Result<(Seq<Value>, int), Error>
    decreases s.len() - r, 1int, n,
{
    if n == 0 {
        Ok((acc, r))
    } else {
        match spec_item(s, r, c) {
            Err(e) => Err(e),
            Ok((None, _)) => Err(Error::MissingData),
            Ok((Some(v), t)) => if r < t <= s.len() {
                spec_list(s, t, (n - 1) as nat, acc.push(v), c)
            } else {
                Err(Error::MissingData)
            },
        }
    }
}

/// `n` more key/value pairs from `r`, inserted into `acc`; a later pair
/// overwrites an earlier one with the same key.
pub open spec fn spec_map(s: Seq<u8>, r: int, n: nat, acc: Map<Seq<char>, Value>, c: Codecs) -> Result<(Map<Seq<char>, Value>, int), Error>
    decreases s.len() - r, 1int, n,
{
    if n == 0 {
        Ok((acc, r))
    } else {
        match spec_string(s, r) {
            Err(e) => Err(e),
            Ok((k, r1)) => if r < r1 <= s.len() {
                match spec_item(s, r1, c) {
                    Err(e) => Err(e),
                    Ok((None, _)) => Err(Error::MissingData),
                    Ok((Some(v), t)) => if r1 < t <= s.len() {
                        spec_map(s, t, (n - 1) as nat, acc.insert(k, v), c)
                    } else {
                        Err(Error::MissingData)
                    },
                }
            } else {
                Err(Error::MissingData)
            },
        }
    }
}

/// One call of `parse` on input `s`, from position `pos` with the header
/// version read so far: the header is checked first if it has not been
/// yet, then one value is read. Gives the value, the position after it and
/// the version.
pub open spec fn spec_parse(s: Seq<u8>, pos: int, version: Option<u16>, c: Codecs) -> Result<(Option<Value>, int, u16), Error> {
    let start: Result<(u16, int), Error> = match version {
        Some(v) => Ok((v, pos)),
        None => match spec_header(s) {
            Ok(v) => Ok((v, 6)),
            Err(e) => Err(e),
        },
    };
    match start {
        Err(e) => Err(e),
        Ok((v, q)) => match spec_item(s, q, c) {
            Ok((o, t)) => Ok((o, t, v)),
            Err(e) => Err(e),
        },
    }
}

} // verus!
