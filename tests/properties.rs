use bsdf::{Codecs, Error, InvalidExtension, Item, ItemMap, Parser};

const BLOB_MD5: &[u8] = b"BSDF\x02\x02b\n\n\n\x00\xff\x7fc\xcbm\x06yr\xc3\xf3O\tK\xb7\xe7v\xa8\x03\x00\x00\x00\x01\x02\x03\x04\x05\x06\x07\x08\t\x00";
const BLOB_ZLIB: &[u8] = b"BSDF\x02\x02b\xfd\x12\x00\x00\x00\x00\x00\x00\x00\xfd\x12\x00\x00\x00\x00\x00\x00\x00\xfd\n\x00\x00\x00\x00\x00\x00\x00\x01\xff\x01&\xdcT\xa3\xfcr\x7f\x1f\x14sM\xb66\x05i\x00x\xdacdbfaec\xe7\xe0d\x00\x00\x00\xdc\x00.";
const BLOB_BZ2: &[u8] = b"BSDF\x02\x02b\xfd-\x00\x00\x00\x00\x00\x00\x00\xfd-\x00\x00\x00\x00\x00\x00\x00\xfd\n\x00\x00\x00\x00\x00\x00\x00\x02\xff\xba9+d\xdd\x11\xba.\x1b\xa5\xddo\xde\x97l}\x00BZh91AY&SYTH\x0c\xaa\x00\x00\x00\xc0\x00\x7f\xe0 \x00\"\x01\xa6\x98@\x0c\x15^h\xe3\xe9\x8b\xb9\"\x9c(H*$\x06U\x00";

fn stream(body: &[u8]) -> Vec<u8> {
    let mut data = b"BSDF\x02\x02".to_vec();
    data.extend_from_slice(body);
    data
}

fn parse_one(body: &[u8]) -> Result<Option<Item>, Error> {
    Parser::new(stream(body)).parse()
}

#[test]
fn scalars_decode_exactly() {
    assert_eq!(parse_one(b"v"), Ok(Some(Item::Void)));
    assert_eq!(parse_one(b"n"), Ok(Some(Item::Bool(false))));
    assert_eq!(parse_one(b"y"), Ok(Some(Item::Bool(true))));
    assert_eq!(parse_one(b"h\xff\xff"), Ok(Some(Item::Int16(-1))));
    assert_eq!(parse_one(b"h\x34\x12"), Ok(Some(Item::Int16(0x1234))));
    let mut int64 = b"i".to_vec();
    int64.extend_from_slice(&(-123456789012i64).to_le_bytes());
    assert_eq!(parse_one(&int64), Ok(Some(Item::Int64(-123456789012))));
    let mut f32_bytes = b"f".to_vec();
    f32_bytes.extend_from_slice(&1.5f32.to_le_bytes());
    assert_eq!(parse_one(&f32_bytes), Ok(Some(Item::F32(1.5f32.to_bits()))));
    let mut f64_bytes = b"d".to_vec();
    f64_bytes.extend_from_slice(&(-0.25f64).to_le_bytes());
    assert_eq!(parse_one(&f64_bytes), Ok(Some(Item::F64((-0.25f64).to_bits()))));
}

#[test]
fn version_read_on_first_parse() {
    let mut parser = Parser::new(stream(b"vy"));
    assert_eq!(parser.version(), None);
    assert_eq!(parser.parse(), Ok(Some(Item::Void)));
    assert_eq!(parser.version(), Some(0x0202));
    assert_eq!(parser.parse(), Ok(Some(Item::Bool(true))));
    assert_eq!(parser.parse(), Ok(None));
}

#[test]
fn duplicate_keys_last_write_wins() {
    let item = parse_one(b"m\x03\x01ah\x01\x00\x01bh\x02\x00\x01ah\x03\x00");
    let expected = Item::Dict(ItemMap::from_iter([
        (String::from("a"), Item::Int16(3)),
        (String::from("b"), Item::Int16(2)),
    ]));
    assert_eq!(item, Ok(Some(expected)));
}

#[test]
fn blob_checksum_mismatch() {
    let mut data = BLOB_MD5.to_vec();
    let first = data.len() - 10;
    data[first] ^= 0x10;
    assert_eq!(Parser::new(data.clone()).parse(), Err(Error::InvalidBlobHash));
    let no_md5 = Codecs { md5: false, zlib: true, bz2: true };
    let expected = Item::Blob(vec![0x11, 2, 3, 4, 5, 6, 7, 8, 9, 0]);
    assert_eq!(Parser::with_codecs(data, no_md5).parse(), Ok(Some(expected)));
}

#[test]
fn blob_without_checksum() {
    let item = parse_one(b"b\x05\x03\x03\x00\x00\x02\xaa\xbb\x07\x08\x09\xcc\xdd");
    assert_eq!(item, Ok(Some(Item::Blob(vec![7, 8, 9]))));
}

#[test]
fn blob_unknown_compression() {
    let mut data = BLOB_MD5.to_vec();
    data[10] = 99;
    assert_eq!(
        Parser::new(data).parse(),
        Err(Error::InvalidExtension(InvalidExtension::InvalidCompressionSetting(99)))
    );
}

#[test]
fn blob_codec_switched_off() {
    let no_zlib = Codecs { md5: true, zlib: false, bz2: true };
    assert_eq!(
        Parser::with_codecs(BLOB_ZLIB.to_vec(), no_zlib).parse(),
        Err(Error::InvalidExtension(InvalidExtension::ZlibNotCompiled))
    );
    assert_eq!(
        Parser::with_codecs(BLOB_BZ2.to_vec(), Codecs::none()).parse(),
        Err(Error::InvalidExtension(InvalidExtension::Bz2NotCompiled))
    );
    assert_eq!(
        Parser::with_codecs(BLOB_ZLIB.to_vec(), Codecs::all()).parse(),
        Ok(Some(Item::Blob(vec![1, 2, 3, 4, 5, 6, 7, 8, 9, 0])))
    );
}

#[test]
fn blob_corrupt_zlib_is_reader_error() {
    let item = parse_one(b"b\x03\x03\x03\x01\x00\x00xyz");
    assert!(matches!(item, Err(Error::Reader(_))));
}

#[test]
fn size_boundaries() {
    let mut inline = b"s\xfa".to_vec();
    inline.extend_from_slice(&[b'a'; 250]);
    assert_eq!(parse_one(&inline), Ok(Some(Item::String("a".repeat(250)))));
    let extended = b"s\xfd\x03\x00\x00\x00\x00\x00\x00\x00abc";
    assert_eq!(parse_one(extended), Ok(Some(Item::String(String::from("abc")))));
    for b in [251u8, 252, 254, 255] {
        assert_eq!(parse_one(&[b's', b, b'a']), Err(Error::InvalidSize));
        assert_eq!(parse_one(&[b'l', b, b'v']), Err(Error::InvalidSize));
    }
}

#[test]
fn header_failures() {
    for n in 0..6 {
        let data = b"BSDF\x02\x02"[..n].to_vec();
        assert_eq!(Parser::new(data).parse(), Err(Error::MissingData));
    }
    assert_eq!(Parser::new(b"BSDX\x02\x02v".to_vec()).parse(), Err(Error::InvalidHeader));
    assert_eq!(Parser::new(b"bsdf\x00\x00".to_vec()).parse(), Err(Error::InvalidHeader));
}

#[test]
fn unknown_tag_at_top_level_is_no_value() {
    assert_eq!(parse_one(b"z"), Ok(None));
    assert_eq!(parse_one(b""), Ok(None));
}

#[test]
fn missing_element_in_container() {
    assert_eq!(parse_one(b"l\x02h\x01\x00"), Err(Error::MissingData));
    assert_eq!(parse_one(b"l\x01z"), Err(Error::MissingData));
    assert_eq!(parse_one(b"m\x01\x01av"), Ok(Some(Item::Dict(vec![(String::from("a"), Item::Void)]))));
    assert_eq!(parse_one(b"m\x01\x01a"), Err(Error::MissingData));
}

#[test]
fn truncated_scalar_is_eof() {
    assert_eq!(parse_one(b"h\x01"), Err(Error::Eof));
    assert_eq!(parse_one(b"i\x01\x02\x03"), Err(Error::Eof));
    assert_eq!(parse_one(b"s"), Err(Error::Eof));
    assert_eq!(parse_one(b"s\xfd\x01"), Err(Error::Eof));
}

#[test]
fn invalid_utf8_string() {
    assert_eq!(parse_one(b"s\x02\xff\xfe"), Err(Error::InvalidUtf8));
    assert_eq!(
        parse_one("s\x02\u{e9}".as_bytes()),
        Ok(Some(Item::String(String::from("\u{e9}"))))
    );
}

#[test]
fn error_from_invalid_extension() {
    let e: Error = InvalidExtension::Bz2NotCompiled.into();
    assert_eq!(e, Error::InvalidExtension(InvalidExtension::Bz2NotCompiled));
    assert_ne!(e, Error::InvalidExtension(InvalidExtension::ZlibNotCompiled));
}

#[test]
fn accessors_pick_their_variant() {
    let map = Item::Dict(vec![(String::from("k"), Item::Int16(5))]);
    assert_eq!(map.as_dict(), Some(&vec![(String::from("k"), Item::Int16(5))]));
    assert_eq!(map.as_list(), None);
    let mut void = Item::Void;
    assert!(void.as_list_mut().is_none());
    assert_eq!(void, Item::Void);
    assert_eq!(Item::List(vec![]).as_dict(), None);
}

#[test]
fn truncated_string_fails() {
    assert_eq!(parse_one(b"s\x05"), Err(Error::MissingData));
    assert_eq!(parse_one(b"s\x05abc"), Err(Error::MissingData));
    assert_eq!(parse_one(b"m\x01\x04ab"), Err(Error::MissingData));
    assert_eq!(parse_one(b"s\x03abc"), Ok(Some(Item::String(String::from("abc")))));
}

#[test]
fn truncated_blob_fails() {
    let no_md5 = Codecs { md5: false, zlib: true, bz2: true };
    let stored_short = stream(b"b\x05\x05\x05\x00\x00\x00\x01\x02");
    assert_eq!(Parser::with_codecs(stored_short.clone(), no_md5).parse(), Err(Error::MissingData));
    assert_eq!(Parser::new(stored_short).parse(), Err(Error::MissingData));
    let padding_short = stream(b"b\x01\x01\x01\x00\x00\x04\x00\x00");
    assert_eq!(Parser::with_codecs(padding_short, no_md5).parse(), Err(Error::MissingData));
    let digest_short = stream(b"b\x01\x01\x01\x00\xff\x01\x02\x03");
    assert_eq!(Parser::with_codecs(digest_short, no_md5).parse(), Err(Error::MissingData));
    let mut cut = BLOB_MD5.to_vec();
    cut.truncate(cut.len() - 1);
    assert_eq!(Parser::new(cut).parse(), Err(Error::MissingData));
    let trailing_short = stream(b"b\x05\x02\x02\x00\x00\x00\x07\x08\x09");
    assert_eq!(
        Parser::with_codecs(trailing_short, no_md5).parse(),
        Ok(Some(Item::Blob(vec![7, 8])))
    );
}

#[test]
fn size_field_read_directly() {
    let mut data = vec![253u8];
    data.extend_from_slice(&0x0102_0304_0506_0708u64.to_le_bytes());
    data.push(7);
    let parser = Parser::new(data);
    assert_eq!(parser.parse_size(0), Ok((0x0102_0304_0506_0708, 9)));
    assert_eq!(parser.parse_size(9), Ok((7, 10)));
    for b in [251u8, 252, 254, 255] {
        assert_eq!(Parser::new(vec![b, 0, 0]).parse_size(0), Err(Error::InvalidSize));
    }
    assert_eq!(Parser::new(vec![250]).parse_size(0), Ok((250, 1)));
}

#[test]
fn fixed_fields_round_trip() {
    for x in [i16::MIN, -1, 0, 1, i16::MAX] {
        let mut data = x.to_le_bytes().to_vec();
        data.push(0x76);
        assert_eq!(Parser::new(data).parse_int16(0), Ok((x, 2)));
    }
    for x in [i64::MIN, -5, 0, 123456789, i64::MAX] {
        assert_eq!(Parser::new(x.to_le_bytes().to_vec()).parse_int64(0), Ok((x, 8)));
    }
    for x in [f32::NAN, -0.0f32, f32::INFINITY, 2.5] {
        let data = x.to_bits().to_le_bytes().to_vec();
        assert_eq!(Parser::new(data).parse_f32(0), Ok((x.to_bits(), 4)));
    }
    for x in [f64::NAN, -0.0f64, f64::NEG_INFINITY, 3.1415] {
        let data = x.to_bits().to_le_bytes().to_vec();
        assert_eq!(Parser::new(data).parse_f64(0), Ok((x.to_bits(), 8)));
    }
    let parser = Parser::new(b"vnyq".to_vec());
    assert_eq!(parser.parse_item(0), Ok((Some(Item::Void), 1)));
    assert_eq!(parser.parse_item(1), Ok((Some(Item::Bool(false)), 2)));
    assert_eq!(parser.parse_item(2), Ok((Some(Item::Bool(true)), 3)));
    assert_eq!(parser.parse_item(3), Ok((None, 4)));
    assert_eq!(parser.parse_item(4), Ok((None, 4)));
}

#[test]
fn header_read_directly() {
    assert_eq!(Parser::new(b"BSDF\x04".to_vec()).parse_header(), Err(Error::MissingData));
    assert_eq!(Parser::new(b"XSDF\x04\x02".to_vec()).parse_header(), Err(Error::InvalidHeader));
    assert_eq!(Parser::new(b"BSDF\x04\x02".to_vec()).parse_header(), Ok(516));
    let mut parser = Parser::new(b"BSDX\x04\x02".to_vec());
    assert_eq!(parser.parse(), Err(Error::InvalidHeader));
    assert_eq!(parser.version(), None);
}

#[test]
fn map_read_directly() {
    let parser = Parser::new(b"\x01ah\x01\x00\x01ah\x02\x00\x01bv".to_vec());
    let expected = vec![(String::from("a"), Item::Int16(2)), (String::from("b"), Item::Void)];
    assert_eq!(parser.parse_map(0, 3), Ok((expected, 13)));
    assert_eq!(parser.parse_map(0, 4), Err(Error::Eof));
    assert_eq!(Parser::new(b"\x01a".to_vec()).parse_map(0, 1), Err(Error::MissingData));
}

#[test]
fn every_accessor_matches_its_variant() {
    let mut item = Item::Int16(4);
    assert!(item.is_int16());
    assert!(!item.is_int64());
    assert_eq!(item.as_int16(), Some(&4));
    if let Some(v) = item.as_int16_mut() {
        *v = 9;
    }
    assert_eq!(item, Item::Int16(9));
    assert_eq!(Item::Blob(vec![1]).into_blob(), Ok(vec![1]));
    assert_eq!(Item::Void.into_blob(), Err(Item::Void));
    assert!(Item::Void.is_void());
    assert_eq!(Item::String(String::from("x")).as_string(), Some(&String::from("x")));
    assert_eq!(Item::Bool(true).into_bool(), Ok(true));
    assert_eq!(Item::F64(7).as_f64(), Some(&7));
    assert_eq!(Item::F32(7).as_f32(), Some(&7));
    assert_eq!(Item::Int64(-2).into_int64(), Ok(-2));
    assert!(Item::Dict(vec![]).is_dict());
    assert!(Item::List(vec![]).is_list());
}
