use bsdf::{Error, Item, ItemMap, Parser};

#[test]
fn item_as_test() {
    let mut item = Item::List(vec![Item::Bool(true)]);
    let expected = Item::List(vec![Item::Bool(true), Item::Bool(true)]);

    assert_eq!(item.as_list(), Some(&vec![Item::Bool(true)]));

    if let Some(r) = item.as_list_mut() {
        r.push(Item::Bool(true))
    }

    assert_eq!(item, expected);
}

#[test]
fn parses_empty() {
    let data = b"";

    let mut parser = Parser::new(data.to_vec());

    assert_eq!(parser.parse(), Err(Error::MissingData));
}

#[test]
fn parses_version() {
    let data = b"BSDF\x04\x02";

    let mut parser = Parser::new(data.to_vec());

    parser.parse().unwrap();

    assert_eq!(parser.version(), Some(516));
}

#[test]
fn parse_float64() {
    let data = b"BSDF\x02\x02do\x12\x83\xc0\xca!\t@";

    let mut parser = Parser::new(data.to_vec());

    let item = parser.parse().unwrap();

    assert_eq!(item, Some(Item::F64(3.1415f64.to_bits())));
}

#[test]
fn parses_string() {
    let data = b"BSDF\x02\x02s\xfd\xc9\x02\x00\x00\x00\x00\x00\x00\nLorem ipsum dolor sit amet, consectetur adipiscing elit. Duis id ante velit. Aenean euismod, ipsum a varius finibus, eros erat tincidunt ligula, non malesuada ex ipsum et tellus. Cras id convallis mauris, mattis porttitor nulla. In urna orci, faucibus ut consequat eleifend, vulputate ac elit. Integer gravida porta arcu, id volutpat libero lobortis at. Aenean bibendum eleifend auctor. Sed lectus purus, aliquet non purus ut, feugiat tristique leo. Praesent ut leo blandit, vulputate ex sit amet, venenatis libero. Curabitur vehicula ut enim sed posuere. Aliquam nec elit fringilla, aliquet lectus sed, suscipit quam. Vivamus malesuada ligula eu luctus finibus. Proin euismod sem sit amet eros euismod rhoncus.\n";

    let expected = Item::String(String::from("\nLorem ipsum dolor sit amet, consectetur adipiscing elit. Duis id ante velit. Aenean euismod, ipsum a varius finibus, eros erat tincidunt ligula, non malesuada ex ipsum et tellus. Cras id convallis mauris, mattis porttitor nulla. In urna orci, faucibus ut consequat eleifend, vulputate ac elit. Integer gravida porta arcu, id volutpat libero lobortis at. Aenean bibendum eleifend auctor. Sed lectus purus, aliquet non purus ut, feugiat tristique leo. Praesent ut leo blandit, vulputate ex sit amet, venenatis libero. Curabitur vehicula ut enim sed posuere. Aliquam nec elit fringilla, aliquet lectus sed, suscipit quam. Vivamus malesuada ligula eu luctus finibus. Proin euismod sem sit amet eros euismod rhoncus.\n"));

    let mut parser = Parser::new(data.to_vec());

    let item = parser.parse().unwrap();

    assert_eq!(item, Some(expected));
}

#[test]
fn parses_normal_map() {
    let data = b"BSDF\x02\x02m\x03\x04testh\x01\x00\x05test1h\x02\x00\x05test3h\x04\x00";

    let expected = Item::Dict(ItemMap::from_iter([
        (String::from("test"), Item::Int16(1)),
        (String::from("test1"), Item::Int16(2)),
        (String::from("test3"), Item::Int16(4)),
    ]));

    let mut parser = Parser::new(data.to_vec());

    let item = parser.parse().unwrap();

    assert_eq!(item, Some(expected));
}

#[test]
fn parses_nested_map() {
    let data = b"BSDF\x02\x02m\x02\x04testh\x01\x00\x06nestedm\x03\x06nestedy\x04listl\x03h\xff\xffni\x15\xcd[\x07\x00\x00\x00\x00\x04datas\tsome text";

    let expected = Item::Dict(ItemMap::from_iter([
        (String::from("test"), Item::Int16(1)),
        (
            String::from("nested"),
            Item::Dict(ItemMap::from_iter([
                (String::from("nested"), Item::Bool(true)),
                (
                    String::from("list"),
                    Item::List(vec![
                        Item::Int16(-1),
                        Item::Bool(false),
                        Item::Int64(123456789),
                    ]),
                ),
                (
                    String::from("data"),
                    Item::String(String::from("some text")),
                ),
            ])),
        ),
    ]));

    let mut parser = Parser::new(data.to_vec());

    let item = parser.parse().unwrap();

    assert_eq!(item, Some(expected));
}

#[test]
fn parser_blob() {
    let data = b"BSDF\x02\x02b\n\n\n\x00\xff\x7fc\xcbm\x06yr\xc3\xf3O\tK\xb7\xe7v\xa8\x03\x00\x00\x00\x01\x02\x03\x04\x05\x06\x07\x08\t\x00";

    let expected = Item::Blob(vec![1, 2, 3, 4, 5, 6, 7, 8, 9, 0]);

    let mut parser = Parser::new(data.to_vec());

    let item = parser.parse().unwrap();

    assert_eq!(item, Some(expected));
}

#[test]
fn parser_blob_zlib() {
    let data = b"BSDF\x02\x02b\xfd\x12\x00\x00\x00\x00\x00\x00\x00\xfd\x12\x00\x00\x00\x00\x00\x00\x00\xfd\n\x00\x00\x00\x00\x00\x00\x00\x01\xff\x01&\xdcT\xa3\xfcr\x7f\x1f\x14sM\xb66\x05i\x00x\xdacdbfaec\xe7\xe0d\x00\x00\x00\xdc\x00.";

    let expected = Item::Blob(vec![1, 2, 3, 4, 5, 6, 7, 8, 9, 0]);

    let mut parser = Parser::new(data.to_vec());

    let item = parser.parse().unwrap();

    assert_eq!(item, Some(expected));
}

#[test]
fn parser_blob_bz2() {
    let data = b"BSDF\x02\x02b\xfd-\x00\x00\x00\x00\x00\x00\x00\xfd-\x00\x00\x00\x00\x00\x00\x00\xfd\n\x00\x00\x00\x00\x00\x00\x00\x02\xff\xba9+d\xdd\x11\xba.\x1b\xa5\xddo\xde\x97l}\x00BZh91AY&SYTH\x0c\xaa\x00\x00\x00\xc0\x00\x7f\xe0 \x00\"\x01\xa6\x98@\x0c\x15^h\xe3\xe9\x8b\xb9\"\x9c(H*$\x06U\x00";

    let expected = Item::Blob(vec![1, 2, 3, 4, 5, 6, 7, 8, 9, 0]);

    let mut parser = Parser::new(data.to_vec());

    let item = parser.parse().unwrap();

    assert_eq!(item, Some(expected));
}

#[test]
fn parses_from_reader() {
    let data = b"BSDF\x02\x02m\x03\x04testh\x01\x00\x05test1h\x02\x00\x05test3h\x04\x00".to_vec();
    let mut cursor = std::io::Cursor::new(data);
    let mut bytes = Vec::new();
    std::io::Read::read_to_end(&mut cursor, &mut bytes).unwrap();

    let expected = Item::Dict(ItemMap::from_iter([
        (String::from("test"), Item::Int16(1)),
        (String::from("test1"), Item::Int16(2)),
        (String::from("test3"), Item::Int16(4)),
    ]));

    let mut parser = Parser::new(bytes);

    let item = parser.parse().unwrap();

    assert_eq!(item, Some(expected));
}
