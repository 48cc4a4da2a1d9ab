//! The reader: a cursor over the bytes of a stream that decodes one value
//! per call.
use vstd::prelude::*;
use crate::codec::{decompress_bz2, decompress_zlib, md5_of, utf8_string, Codecs};
use crate::consts::{
    CAPACITY_HINT_LIMIT, CHECKSUM_SET, COMPRESSION_BZ2, COMPRESSION_NOT_SET, COMPRESSION_ZLIB,
    DIGEST_LEN, HEADER_LEN, LARGE_SIZE, PREFIX, SMALL_SIZE_CUTOFF, TAG_BLOB, TAG_F32, TAG_F64,
    TAG_FALSE, TAG_INT16, TAG_INT64, TAG_LIST, TAG_MAP, TAG_STRING, TAG_TRUE, TAG_VOID,
};
use crate::error::{Error, InvalidExtension};
use crate::format::{
    checksum_ok, le_value, lemma_pow256_mono, pow256, prefix_seq, spec_blob, spec_decompress, spec_fixed, spec_header,
    spec_item, spec_list, spec_map, spec_next, spec_bytes, spec_parse, spec_size, spec_string, take_end,
};
use crate::item::{
    entries_view, items_view, keys_unique, lemma_items_view_push, map_insert, Item, ItemMap,
    Value,
};

verus! {

/// A result with its position as an `int`.
pub open spec fn at<T>(r: Result<(T, usize), Error>) -> Result<(T, int), Error> {
    match r {
        Ok((v, q)) => Ok((v, q as int)),
        Err(e) => Err(e),
    }
}

/// A fixed-width result with its number as a `nat`.
pub open spec fn nat_at(r: Result<(u64, usize), Error>) -> Result<(nat, int), Error> {
    match r {
        Ok((v, q)) => Ok((v as nat, q as int)),
        Err(e) => Err(e),
    }
}

/// A result with its value seen through its view.
pub open spec fn viewed<T: View>(r: Result<(T, usize), Error>) -> Result<(T::V, int), Error> {
    match r {
        Ok((v, q)) => Ok((v@, q as int)),
        Err(e) => Err(e),
    }
}

/// The value an optional item stands for.
pub open spec fn opt_view(o: Option<Item>) -> Option<Value> {
    match o {
        Some(i) => Some(i@),
        None => None,
    }
}

/// An optional item result with its value seen as a `Value`.
pub open spec fn item_at(r: Result<(Option<Item>, usize), Error>) -> Result<(Option<Value>, int), Error> {
    match r {
        Ok((o, q)) => Ok((opt_view(o), q as int)),
        Err(e) => Err(e),
    }
}

/// A list result with its elements seen as values.
pub open spec fn list_at(r: Result<(Vec<Item>, usize), Error>) -> Result<(Seq<Value>, int), Error> {
    match r {
        Ok((l, q)) => Ok((items_view(l@), q as int)),
        Err(e) => Err(e),
    }
}

/// A map result with its entries seen as a map.
pub open spec fn map_at(r: Result<(ItemMap, usize), Error>) -> Result<(Map<Seq<char>, Value>, int), Error> {
    match r {
        Ok((m, q)) => Ok((entries_view(m@), q as int)),
        Err(e) => Err(e),
    }
}

/// Whether two byte vectors hold the same bytes.
fn bytes_equal(a: &Vec<u8>, b: &Vec<u8>) -> (r: bool)
    ensures
        r == (a@ == b@),
{
    if a.len() != b.len() {
        return false;
    }
    let mut i: usize = 0;
    while i < a.len()
        invariant
            a@.len() == b@.len(),
            i <= a@.len(),
            forall|j: int| 0 <= j < i ==> a@[j] == b@[j],
        decreases a@.len() - i,
    {
        if a[i] != b[i] {
            return false;
        }
        i = i + 1;
    }
    assert(a@ =~= b@);
    true
}

/// A decoder over the bytes of one stream. The header is checked on the
/// first call of `parse`; each call then decodes one value.
pub struct Parser {
    data: Vec<u8>,
    pos: usize,
    version: Option<u16>,
    codecs: Codecs,
}

impl Parser {
    /// The bytes of the stream.
    pub closed spec fn input(&self) -> Seq<u8> {
        self.data@
    }

    /// Where the next read starts.
    pub closed spec fn position(&self) -> int {
        self.pos as int
    }

    /// The version from the header, once it has been read.
    pub closed spec fn header_version(&self) -> Option<u16> {
        self.version
    }

    /// The codecs this reader may use.
    pub closed spec fn enabled(&self) -> Codecs {
        self.codecs
    }

    pub closed spec fn wf(&self) -> bool {
        self.pos <= self.data@.len()
    }

    /// A reader at the start of `data`, with every codec switched on.
    pub fn new(data: Vec<u8>) -> (r: Parser)
        ensures
            r.wf(),
            r.input() == data@,
            r.position() == 0,
            r.header_version() is None,
            r.enabled() == (Codecs { md5: true, zlib: true, bz2: true }),
    {
        Parser::with_codecs(data, Codecs::all())
    }

    /// A reader at the start of `data` that may use the given codecs.
    pub fn with_codecs(data: Vec<u8>, codecs: Codecs) -> (r: Parser)
        ensures
            r.wf(),
            r.input() == data@,
            r.position() == 0,
            r.header_version() is None,
            r.enabled() == codecs,
    {
        Parser { data, pos: 0, version: None, codecs }
    }

    /// The version read from the header, `None` before the first `parse`.
    pub fn version(&self) -> (r: Option<u16>)
        ensures
            r == self.header_version(),
    {
        self.version
    }

    /// The byte at `p`.
    pub fn next(&self, p: usize) -> (r: Result<(u8, usize), Error>)
        ensures
            at(r) == spec_next(self.input(), p as int),
    {
        if p < self.data.len() {
            Ok((self.data[p], p + 1))
        } else {
            Err(Error::Eof)
        }
    }

    /// `n` bytes from `p` as a little-endian number.
    pub fn read_le(&self, p: usize, n: usize) -> (r: Result<(u64, usize), Error>)
        requires
            p <= self.input().len(),
            n <= 8,
        ensures
            nat_at(r) == spec_fixed(self.input(), p as int, n as int),
    {
        if n > self.data.len() - p {
            return Err(Error::Eof);
        }
        let end = p + n;
        let mut v: u64 = 0;
        let mut i: usize = end;
        while i > p
            invariant
                p <= i <= end,
                end == p + n,
                end <= self.input().len(),
                n <= 8,
                v as nat == le_value(self.input().subrange(i as int, end as int)),
                v < pow256((end - i) as nat),
            decreases i,
        {
            i = i - 1;
            proof {
                let b = self.input().subrange(i as int, end as int);
                assert(b.drop_first() =~= self.input().subrange(i + 1, end as int));
                lemma_pow256_mono((end - i - 1) as nat, 7);
                reveal_with_fuel(pow256, 8);
            }
            v = v * 256 + self.data[i] as u64;
        }
        Ok((v, end))
    }

    pub fn parse_int16(&self, p: usize) -> (r: Result<(i16, usize), Error>)
        requires
            p <= self.input().len(),
        ensures
            match r {
                Ok((v, q)) => spec_fixed(self.input(), p as int, 2) matches Ok((w, t)) && v == w as u16 as i16 && q == t,
                Err(e) => spec_fixed(self.input(), p as int, 2) == Err::<(nat, int), Error>(e),
            },
    {
        let (v, q) = self.read_le(p, 2)?;
        Ok((v as u16 as i16, q))
    }

    pub fn parse_int64(&self, p: usize) -> (r: Result<(i64, usize), Error>)
        requires
            p <= self.input().len(),
        ensures
            match r {
                Ok((v, q)) => spec_fixed(self.input(), p as int, 8) matches Ok((w, t)) && v == w as u64 as i64 && q == t,
                Err(e) => spec_fixed(self.input(), p as int, 8) == Err::<(nat, int), Error>(e),
            },
    {
        let (v, q) = self.read_le(p, 8)?;
        Ok((v as i64, q))
    }

    /// An 8-byte unsigned field, as the large form of a size uses.
    pub fn parse_usize(&self, p: usize) -> (r: Result<(u64, usize), Error>)
        requires
            p <= self.input().len(),
        ensures
            nat_at(r) == spec_fixed(self.input(), p as int, 8),
    {
        self.read_le(p, 8)
    }

    /// The bit pattern of a 32-bit float.
    pub fn parse_f32(&self, p: usize) -> (r: Result<(u32, usize), Error>)
        requires
            p <= self.input().len(),
        ensures
            match r {
                Ok((v, q)) => spec_fixed(self.input(), p as int, 4) matches Ok((w, t)) && v == w as u32 && q == t,
                Err(e) => spec_fixed(self.input(), p as int, 4) == Err::<(nat, int), Error>(e),
            },
    {
        let (v, q) = self.read_le(p, 4)?;
        Ok((v as u32, q))
    }

    /// The bit pattern of a 64-bit float.
    pub fn parse_f64(&self, p: usize) -> (r: Result<(u64, usize), Error>)
        requires
            p <= self.input().len(),
        ensures
            nat_at(r) == spec_fixed(self.input(), p as int, 8),
    {
        self.read_le(p, 8)
    }

    /// A size field.
    pub fn parse_size(&self, p: usize) -> (r: Result<(u64, usize), Error>)
        requires
            p <= self.input().len(),
        ensures
            nat_at(r) == spec_size(self.input(), p as int),
            r is Ok ==> p < r->Ok_0.1 <= self.input().len(),
    {
        let (first_byte, q) = self.next(p)?;
        if first_byte == LARGE_SIZE {
            self.parse_usize(q)
        } else if first_byte >= SMALL_SIZE_CUTOFF {
            Err(Error::InvalidSize)
        } else {
            Ok((first_byte as u64, q))
        }
    }

    /// Where skipping `n` bytes from `p` stops.
    pub fn skip_bytes(&self, p: usize, n: u64) -> (r: usize)
        requires
            p <= self.input().len(),
        ensures
            r == take_end(self.input(), p as int, n as int),
    {
        if n <= (self.data.len() - p) as u64 {
            p + n as usize
        } else {
            self.data.len()
        }
    }

    /// Checks that `n` bytes follow `p` and gives the position after them.
    pub fn skip_exact(&self, p: usize, n: u64) -> (r: Result<usize, Error>)
        requires
            p <= self.input().len(),
        ensures
            match r {
                Ok(q) => spec_bytes(self.input(), p as int, n as int) is Ok && q == p + n,
                Err(e) => spec_bytes(self.input(), p as int, n as int) == Err::<(Seq<u8>, int), Error>(e),
            },
    {
        if n <= (self.data.len() - p) as u64 {
            Ok(p + n as usize)
        } else {
            Err(Error::MissingData)
        }
    }

    /// Exactly `n` bytes from `p`.
    pub fn take_bytes(&self, p: usize, n: u64) -> (r: Result<(Vec<u8>, usize), Error>)
        requires
            p <= self.input().len(),
        ensures
            viewed(r) == spec_bytes(self.input(), p as int, n as int),
    {
        let end = self.skip_exact(p, n)?;
        let mut out: Vec<u8> = Vec::new();
        let mut i: usize = p;
        while i < end
            invariant
                p <= i <= end,
                end <= self.input().len(),
                out@ == self.input().subrange(p as int, i as int),
            decreases end - i,
        {
            out.push(self.data[i]);
            i = i + 1;
            assert(out@ =~= self.input().subrange(p as int, i as int));
        }
        Ok((out, end))
    }

    /// A string: a size, then exactly that many bytes of UTF-8.
    pub fn parse_string(&self, p: usize) -> (r: Result<(String, usize), Error>)
        requires
            p <= self.input().len(),
        ensures
            viewed(r) == spec_string(self.input(), p as int),
            r is Ok ==> p < r->Ok_0.1 <= self.input().len(),
    {
        let (length, q) = self.parse_size(p)?;
        let (bytes, end) = self.take_bytes(q, length)?;
        match utf8_string(bytes) {
            Some(text) => Ok((text, end)),
            None => Err(Error::InvalidUtf8),
        }
    }

    /// The header: checks the prefix and returns the version.
    pub fn parse_header(&self) -> (r: Result<u16, Error>)
        ensures
            r == spec_header(self.input()),
    {
        if self.data.len() < HEADER_LEN {
            return Err(Error::MissingData);
        }
        let mut i: usize = 0;
        while i < 4
            invariant
                i <= 4,
                self.input().len() >= 6,
                forall|j: int| 0 <= j < i ==> self.input()[j] == prefix_seq()[j],
            decreases 4 - i,
        {
            if self.data[i] != PREFIX[i] {
                assert(self.input().subrange(0, 4)[i as int] != prefix_seq()[i as int]);
                return Err(Error::InvalidHeader);
            }
            i = i + 1;
        }
        assert(self.input().subrange(0, 4) =~= prefix_seq());
        let (version, _) = self.read_le(4, 2)?;
        Ok(version as u16)
    }

    /// Whether `data` has `hash` as its MD5 digest.
    pub fn check_hash(data: &Vec<u8>, hash: &Vec<u8>) -> (r: bool)
        ensures
            r == (crate::codec::md5_digest(data@) == hash@),
    {
        let digest = md5_of(data.as_slice());
        bytes_equal(&digest, hash)
    }

    /// The logical bytes of a blob, from its compression byte and stored
    /// bytes; `hint` is the declared logical size.
    pub fn decompress(&self, compression: u8, data: Vec<u8>, hint: u64) -> (r: Result<Vec<u8>, Error>)
        ensures
            match r {
                Ok(d) => spec_decompress(compression, data@, self.enabled()) == Ok::<Seq<u8>, Error>(d@),
                Err(e) => spec_decompress(compression, data@, self.enabled()) == Err::<Seq<u8>, Error>(e),
            },
    {
        let capacity: usize = if hint <= CAPACITY_HINT_LIMIT as u64 {
            hint as usize
        } else {
            CAPACITY_HINT_LIMIT
        };
        if compression == COMPRESSION_NOT_SET {
            Ok(data)
        } else if compression == COMPRESSION_ZLIB {
            if !self.codecs.zlib {
                Err(Error::from(InvalidExtension::ZlibNotCompiled))
            } else {
                decompress_zlib(data.as_slice(), capacity)
            }
        } else if compression == COMPRESSION_BZ2 {
            if !self.codecs.bz2 {
                Err(Error::from(InvalidExtension::Bz2NotCompiled))
            } else {
                decompress_bz2(data.as_slice(), capacity)
            }
        } else {
            Err(Error::from(InvalidExtension::InvalidCompressionSetting(compression)))
        }
    }

    /// A blob, after its tag.
    pub fn parse_blob(&self, p: usize) -> (r: Result<(Vec<u8>, usize), Error>)
        requires
            p <= self.input().len(),
        ensures
            viewed(r) == spec_blob(self.input(), p as int, self.enabled()),
            r is Ok ==> p < r->Ok_0.1 <= self.input().len(),
    {
        let (allocated_size, p1) = self.parse_size(p)?;
        let (used_size, p2) = self.parse_size(p1)?;
        let (data_size, p3) = self.parse_size(p2)?;
        let (compressed_setting, p4) = self.next(p3)?;
        let (checksum_setting, p5) = self.next(p4)?;
        let has_sum = checksum_setting == CHECKSUM_SET;
        let (md5_hash, p6) = if has_sum {
            self.take_bytes(p5, DIGEST_LEN as u64)?
        } else {
            assert(self.input().subrange(p5 as int, p5 as int) =~= Seq::<u8>::empty());
            (Vec::new(), p5)
        };
        let (byte_alignment_indicator, p7) = self.next(p6)?;
        let p8 = self.skip_exact(p7, byte_alignment_indicator as u64)?;
        let (data, p9) = self.take_bytes(p8, used_size)?;
        let rest: u64 = if allocated_size > used_size {
            allocated_size - used_size
        } else {
            0
        };
        let p10 = self.skip_bytes(p9, rest);
        if has_sum && self.codecs.md5 && !Self::check_hash(&data, &md5_hash) {
            return Err(Error::InvalidBlobHash);
        }
        assert(checksum_ok(has_sum, data@, md5_hash@, self.enabled()));
        let out = self.decompress(compressed_setting, data, data_size)?;
        Ok((out, p10))
    }

    /// One value at `p`: `None` where the input has ended or the tag is not
    /// known.
    pub fn parse_item(&self, p: usize) -> (r: Result<(Option<Item>, usize), Error>)
        requires
            p <= self.input().len(),
        ensures
            item_at(r) == spec_item(self.input(), p as int, self.enabled()),
            r is Ok ==> p <= r->Ok_0.1 <= self.input().len(),
            r is Ok && r->Ok_0.0 is Some ==> p < r->Ok_0.1,
        decreases self.input().len() - p, 0int, 0nat,
    {
        if p >= self.data.len() {
            return Ok((None, p));
        }
        let tag = self.data[p];
        let q = p + 1;
        if tag == TAG_VOID {
            Ok((Some(Item::Void), q))
        } else if tag == TAG_FALSE {
            Ok((Some(Item::Bool(false)), q))
        } else if tag == TAG_TRUE {
            Ok((Some(Item::Bool(true)), q))
        } else if tag == TAG_INT16 {
            let (v, r) = self.parse_int16(q)?;
            Ok((Some(Item::Int16(v)), r))
        } else if tag == TAG_INT64 {
            let (v, r) = self.parse_int64(q)?;
            Ok((Some(Item::Int64(v)), r))
        } else if tag == TAG_F32 {
            let (v, r) = self.parse_f32(q)?;
            Ok((Some(Item::F32(v)), r))
        } else if tag == TAG_F64 {
            let (v, r) = self.parse_f64(q)?;
            Ok((Some(Item::F64(v)), r))
        } else if tag == TAG_STRING {
            let (v, r) = self.parse_string(q)?;
            Ok((Some(Item::String(v)), r))
        } else if tag == TAG_LIST {
            let (n, r) = self.parse_size(q)?;
            let (v, t) = self.parse_list(r, n)?;
            Ok((Some(Item::List(v)), t))
        } else if tag == TAG_MAP {
            let (n, r) = self.parse_size(q)?;
            let (v, t) = self.parse_map(r, n)?;
            Ok((Some(Item::Dict(v)), t))
        } else if tag == TAG_BLOB {
            let (v, r) = self.parse_blob(q)?;
            Ok((Some(Item::Blob(v)), r))
        } else {
            Ok((None, q))
        }
    }

    /// `n` list elements from `p`.
    pub fn parse_list(&self, p: usize, n: u64) -> (r: Result<(Vec<Item>, usize), Error>)
        requires
            p <= self.input().len(),
        ensures
            list_at(r) == spec_list(self.input(), p as int, n as nat, Seq::empty(), self.enabled()),
            r is Ok ==> p <= r->Ok_0.1 <= self.input().len(),
        decreases self.input().len() - p, 1int, n as nat,
    {
        let mut list: Vec<Item> = Vec::new();
        let mut t: usize = p;
        let mut k: u64 = n;
        while k > 0
            invariant
                p <= t <= self.input().len(),
                spec_list(self.input(), p as int, n as nat, Seq::empty(), self.enabled())
                    == spec_list(self.input(), t as int, k as nat, items_view(list@), self.enabled()),
            decreases k,
        {
            let (item, t2) = self.parse_item(t)?;
            match item {
                None => {
                    return Err(Error::MissingData);
                },
                Some(v) => {
                    proof {
                        lemma_items_view_push(list@, v);
                    }
                    list.push(v);
                    t = t2;
                    k = k - 1;
                },
            }
        }
        Ok((list, t))
    }

    /// `n` key/value pairs from `p`; a later pair overwrites an earlier one
    /// with the same key.
    pub fn parse_map(&self, p: usize, n: u64) -> (r: Result<(ItemMap, usize), Error>)
        requires
            p <= self.input().len(),
        ensures
            map_at(r) == spec_map(self.input(), p as int, n as nat, Map::empty(), self.enabled()),
            r is Ok ==> p <= r->Ok_0.1 <= self.input().len(),
            r is Ok ==> keys_unique(r->Ok_0.0@),
        decreases self.input().len() - p, 1int, n as nat,
    {
        let mut map: ItemMap = Vec::new();
        let mut t: usize = p;
        let mut k: u64 = n;
        assert(entries_view(map@) =~= Map::empty());
        while k > 0
            invariant
                p <= t <= self.input().len(),
                keys_unique(map@),
                spec_map(self.input(), p as int, n as nat, Map::empty(), self.enabled())
                    == spec_map(self.input(), t as int, k as nat, entries_view(map@), self.enabled()),
            decreases k,
        {
            let (key, t1) = self.parse_string(t)?;
            let (item, t2) = self.parse_item(t1)?;
            match item {
                None => {
                    return Err(Error::MissingData);
                },
                Some(v) => {
                    map_insert(&mut map, key, v);
                    t = t2;
                    k = k - 1;
                },
            }
        }
        Ok((map, t))
    }

    /// Decodes one value. On the first call the header is checked and its
    /// version kept. `Ok(None)` where the input has ended or the tag byte
    /// is not known.
    pub fn parse(&mut self) -> (r: Result<Option<Item>, Error>)
        requires
            old(self).wf(),
        ensures
            final(self).wf(),
            final(self).input() == old(self).input(),
            final(self).enabled() == old(self).enabled(),
            final(self).header_version() == match old(self).header_version() {
                Some(v) => Some(v),
                None => match spec_header(old(self).input()) {
                    Ok(v) => Some(v),
                    Err(_) => None,
                },
            },
            match spec_parse(old(self).input(), old(self).position(), old(self).header_version(), old(self).enabled()) {
                Ok((v, q, ver)) => {
                    &&& r is Ok
                    &&& opt_view(r->Ok_0) == v
                    &&& final(self).position() == q
                    &&& final(self).header_version() == Some(ver)
                },
                Err(e) => r == Err::<Option<Item>, Error>(e),
            },
    {
        if self.version.is_none() {
            let version = self.parse_header()?;
            self.version = Some(version);
            self.pos = HEADER_LEN;
        }
        let (item, q) = self.parse_item(self.pos)?;
        self.pos = q;
        Ok(item)
    }
}

} // verus!
