//! The checksum and decompression codecs that blobs may use, and which of
//! them a reader has switched on.
use vstd::prelude::*;
use std::io::Read;
use crate::error::Error;

verus! {

/// Which optional codecs a reader may use. A blob that needs a codec
/// switched off here fails with `InvalidExtension`; a checksum is not
/// verified when `md5` is off.
#[derive(Debug, Clone, Copy, PartialEq, Eq)]
pub struct Codecs {
    pub md5: bool,
    pub zlib: bool,
    pub bz2: bool,
}

impl Codecs {
    /// Every codec switched on.
    pub fn all() -> (r: Codecs)
        ensures
            r == (Codecs { md5: true, zlib: true, bz2: true }),
    {
        Codecs { md5: true, zlib: true, bz2: true }
    }

    /// Every codec switched off.
    pub fn none() -> (r: Codecs)
        ensures
            r == (Codecs { md5: false, zlib: false, bz2: false }),
    {
        Codecs { md5: false, zlib: false, bz2: false }
    }
}

/// The MD5 digest of a byte sequence.
pub uninterp spec fn md5_digest(data: Seq<u8>) -> Seq<u8>;

/// The bytes that a zlib stream inflates to, or the kind of error the
/// decoder reports on it.
pub uninterp spec fn zlib_inflated(data: Seq<u8>) -> Result<Seq<u8>, std::io::ErrorKind>;

/// The bytes that a bzip2 stream decompresses to, or the kind of error the
/// decoder reports on it.
pub uninterp spec fn bz2_inflated(data: Seq<u8>) -> Result<Seq<u8>, std::io::ErrorKind>;

/// Relies on md5::compute, which returns the 16-byte digest of its input.
#[verifier::external_body]
pub(crate) fn md5_of(data: &[u8]) -> (r: Vec<u8>)
    ensures
        r@ == md5_digest(data@),
        r@.len() == 16,
{
    md5::compute(data).0.to_vec()
}

/// Relies on flate2::read::ZlibDecoder read to the end: the inflated
/// bytes, or the error the decoder reports. `capacity` only sizes the
/// output buffer ahead.
#[verifier::external_body]
pub(crate) fn decompress_zlib(data: &[u8], capacity: usize) -> (r: Result<Vec<u8>, Error>)
    requires
        capacity <= 0x7fff_ffff,
    ensures
        r is Ok <==> zlib_inflated(data@) is Ok,
        r is Ok ==> r->Ok_0@ == zlib_inflated(data@)->Ok_0,
        r is Err ==> r->Err_0 == Error::Reader(zlib_inflated(data@)->Err_0),
{
    let mut buffer = Vec::with_capacity(capacity);
    match flate2::read::ZlibDecoder::new(data).read_to_end(&mut buffer) {
        Ok(_) => Ok(buffer),
        Err(e) => Err(Error::Reader(e.kind())),
    }
}

/// Relies on bzip2::read::BzDecoder read to the end: the decompressed
/// bytes, or the error the decoder reports. `capacity` only sizes the
/// output buffer ahead.
#[verifier::external_body]
pub(crate) fn decompress_bz2(data: &[u8], capacity: usize) -> (r: Result<Vec<u8>, Error>)
    requires
        capacity <= 0x7fff_ffff,
    ensures
        r is Ok <==> bz2_inflated(data@) is Ok,
        r is Ok ==> r->Ok_0@ == bz2_inflated(data@)->Ok_0,
        r is Err ==> r->Err_0 == Error::Reader(bz2_inflated(data@)->Err_0),
{
    let mut buffer = Vec::with_capacity(capacity);
    match bzip2::read::BzDecoder::new(data).read_to_end(&mut buffer) {
        Ok(_) => Ok(buffer),
        Err(e) => Err(Error::Reader(e.kind())),
    }
}

/// Relies on String::from_utf8, which accepts exactly the valid UTF-8
/// byte sequences and keeps the characters they encode.
#[verifier::external_body]
pub(crate) fn utf8_string(bytes: Vec<u8>) -> (r: Option<String>)
    ensures
        r is Some <==> vstd::utf8::valid_utf8(bytes@),
        r is Some ==> r->Some_0@ == vstd::utf8::decode_utf8(bytes@),
{
    String::from_utf8(bytes).ok()
}

} // verus!
