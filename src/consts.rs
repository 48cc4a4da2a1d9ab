//! Fixed byte values of the wire format.
use vstd::prelude::*;

verus! {

/// The four bytes every stream starts with: `BSDF`.
pub const PREFIX: [u8; 4] = [0x42, 0x53, 0x44, 0x46];

/// Number of bytes in the header: the prefix and a 16-bit version.
pub const HEADER_LEN: usize = 6;

/// Checksum byte that announces an MD5 digest in a blob.
pub const CHECKSUM_SET: u8 = 0xFF;

/// Size byte announcing an 8-byte little-endian size.
pub const LARGE_SIZE: u8 = 253;

/// First size byte that is not an inline size.
pub const SMALL_SIZE_CUTOFF: u8 = 251;

/// Length of an MD5 digest.
pub const DIGEST_LEN: usize = 16;

pub const COMPRESSION_NOT_SET: u8 = 0;
pub const COMPRESSION_ZLIB: u8 = 1;
pub const COMPRESSION_BZ2: u8 = 2;

pub const TAG_VOID: u8 = 0x76;
pub const TAG_FALSE: u8 = 0x6e;
pub const TAG_TRUE: u8 = 0x79;
pub const TAG_INT16: u8 = 0x68;
pub const TAG_INT64: u8 = 0x69;
pub const TAG_F32: u8 = 0x66;
pub const TAG_F64: u8 = 0x64;
pub const TAG_STRING: u8 = 0x73;
pub const TAG_LIST: u8 = 0x6c;
pub const TAG_MAP: u8 = 0x6d;
pub const TAG_BLOB: u8 = 0x62;

/// Upper bound on the output buffer that a blob's declared data size may
/// reserve ahead of decompression. The declared size is only a hint, so a
/// stream claiming an enormous size cannot make the reader reserve it.
pub const CAPACITY_HINT_LIMIT: usize = 0x0400_0000;

} // verus!
