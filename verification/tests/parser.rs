use soroscope::json::{read_json, Json};
use soroscope::parser::{address_of_key, ArgParser, ParserError, Strkey};
use soroscope::scval::{ScAddress, ScMap, ScVal};

#[test]
fn test_parse_primitives() {
    assert!(matches!(ArgParser::parse("null").unwrap(), ScVal::Void));
    assert!(matches!(ArgParser::parse("true").unwrap(), ScVal::Bool(true)));
    assert!(matches!(ArgParser::parse("false").unwrap(), ScVal::Bool(false)));
    assert!(matches!(ArgParser::parse("123").unwrap(), ScVal::I64(123)));
    assert!(matches!(ArgParser::parse("-456").unwrap(), ScVal::I64(-456)));
}

#[test]
fn test_parse_string_and_symbol() {
    let s = ArgParser::parse("\"hello\"").unwrap();
    match s {
        ScVal::String(st) => {
            let bytes: Vec<u8> = st.0.into();
            assert_eq!(String::from_utf8(bytes).unwrap(), "hello");
        }
        _ => panic!("Expected String variant"),
    }

    let sym = ArgParser::parse("\":my_sym\"").unwrap();
    match sym {
        ScVal::Symbol(s) => {
            let bytes: Vec<u8> = s.0.into();
            assert_eq!(String::from_utf8(bytes).unwrap(), "my_sym");
        }
        _ => panic!("Expected Symbol variant"),
    }
}

#[test]
fn test_parse_address() {
    // Valid strkeys from snapshots
    let account = "GAAAAAAAAAAAAAAAAAAAAAAAAAAAAAAAAAAAAAAAAAAAAAAAAAAAGO6V";
    let contract = "CAAAAAAAAAAAAAAAAAAAAAAAAAAAAAAAAAAAAAAAAAAAAAAAAAAAD2KM";

    let result = ArgParser::parse(&format!("\"{}\"", account)).unwrap();
    assert!(matches!(result, ScVal::Address(ScAddress::Account(_))));

    let result = ArgParser::parse(&format!("\"{}\"", contract)).unwrap();
    assert!(matches!(result, ScVal::Address(ScAddress::Contract(_))));
}

#[test]
fn test_parse_complex_nested() {
    let json = r#"{
        "admin": "GAAAAAAAAAAAAAAAAAAAAAAAAAAAAAAAAAAAAAAAAAAAAAAAAAAAGO6V",
        "config": {
            "threshold": 3,
            "active": true
        },
        "tags": [":tag1", ":tag2"]
    }"#;

    let result = ArgParser::parse(json).unwrap();
    if let ScVal::MapVal(Some(map)) = result {
        assert_eq!(map.0.len(), 3);
    } else {
        panic!("Expected Map");
    }
}

#[test]
fn test_error_path() {
    let json = r#"{"a": {"b": [1, 1.5]}}"#;
    let result = ArgParser::parse(json);
    assert!(result.is_err());
    let err = result.unwrap_err().to_string();
    assert!(err.contains("$.a.b[1]"));
    assert!(err.contains("expected integer, found number 1.5"));
}

fn keys(map: &ScMap) -> Vec<String> {
    map.0
        .iter()
        .map(|entry| match &entry.key {
            ScVal::Symbol(symbol) => String::from_utf8(symbol.0.clone()).unwrap(),
            _ => panic!("a key that is no symbol"),
        })
        .collect()
}

#[test]
fn entries_come_in_the_order_of_their_keys() {
    // Shorter keys come first, and keys of one length by their bytes.
    let json = r#"{"bb": 1, "a": 2, "ccc": 3, "ab": 4, "B": 5, "": 6}"#;
    match ArgParser::parse(json).unwrap() {
        ScVal::MapVal(Some(map)) => {
            assert_eq!(keys(&map), vec!["", "B", "a", "ab", "bb", "ccc"]);
            let values: Vec<i64> = map
                .0
                .iter()
                .map(|entry| match entry.val {
                    ScVal::I64(i) => i,
                    _ => panic!("a value that is no integer"),
                })
                .collect();
            assert_eq!(values, vec![6, 5, 2, 4, 1, 3]);
        }
        _ => panic!("no map"),
    }
}

#[test]
fn the_order_of_members_does_not_matter() {
    let one = ArgParser::parse(r#"{"x": 1, "yy": [2], "z": ":s"}"#).unwrap();
    let other = ArgParser::parse(r#"{"z": ":s", "x": 1, "yy": [2]}"#).unwrap();
    assert_eq!(format!("{:?}", one), format!("{:?}", other));
}

#[test]
fn integers_of_64_bits_are_read() {
    assert!(matches!(
        ArgParser::parse("9223372036854775807").unwrap(),
        ScVal::I64(i64::MAX)
    ));
    assert!(matches!(
        ArgParser::parse("9223372036854775808").unwrap(),
        ScVal::U64(0x8000_0000_0000_0000)
    ));
    assert!(matches!(
        ArgParser::parse("-9223372036854775808").unwrap(),
        ScVal::I64(i64::MIN)
    ));
    assert!(matches!(
        ArgParser::parse("18446744073709551615").unwrap(),
        ScVal::U64(u64::MAX)
    ));
    match ArgParser::parse("2.0") {
        Err(ParserError::InvalidType { location, expected, found }) => {
            assert_eq!(location, "$");
            assert_eq!(expected, "integer");
            assert_eq!(found, "number 2.0");
        }
        _ => panic!("a fraction was read"),
    }
}

#[test]
fn text_that_is_no_json_is_refused_at_the_root() {
    match ArgParser::parse("[1,") {
        Err(ParserError::InvalidType { location, expected, found }) => {
            assert_eq!(location, "$");
            assert_eq!(expected, "valid JSON");
            assert_eq!(found, serde_json::from_str::<serde_json::Value>("[1,").unwrap_err().to_string());
        }
        _ => panic!("an open list was read"),
    }
    let error = ArgParser::parse("nope").unwrap_err().to_string();
    assert!(error.starts_with("Invalid JSON type at $: expected valid JSON, found "));
}

#[test]
fn symbols_hold_up_to_32_bytes() {
    let longest = "s".repeat(32);
    match ArgParser::parse(&format!("\":{}\"", longest)).unwrap() {
        ScVal::Symbol(symbol) => assert_eq!(symbol.0, longest.as_bytes().to_vec()),
        _ => panic!("no symbol"),
    }
    match ArgParser::parse(&format!("[0, \":{}\"]", "s".repeat(33))) {
        Err(ParserError::InvalidSymbol { location, details }) => {
            assert_eq!(location, "$[1]");
            assert_eq!(details, "Symbol must be 1-32 characters");
        }
        _ => panic!("a long symbol was read"),
    }
    match ArgParser::parse(&format!("{{\"{}\": 1}}", "k".repeat(33))) {
        Err(ParserError::InvalidSymbol { location, details }) => {
            assert_eq!(location, format!("$.{}", "k".repeat(33)));
            assert_eq!(details, "Key name too long for symbol");
        }
        _ => panic!("a long key was read"),
    }
    assert_eq!(
        ArgParser::parse(&format!("\":{}\"", "s".repeat(33))).unwrap_err().to_string(),
        "Invalid symbol at $: Symbol must be 1-32 characters"
    );
}

#[test]
fn bytes_are_read_from_hex() {
    match ArgParser::parse("\"0x00fFA1\"").unwrap() {
        ScVal::Bytes(bytes) => assert_eq!(bytes.0, vec![0x00, 0xff, 0xa1]),
        _ => panic!("no bytes"),
    }
    match ArgParser::parse("\"0x\"").unwrap() {
        ScVal::Bytes(bytes) => assert!(bytes.0.is_empty()),
        _ => panic!("no bytes"),
    }
    match ArgParser::parse("{\"b\": \"0xabc\"}") {
        Err(ParserError::InvalidHex { location, details }) => {
            assert_eq!(location, "$.b");
            assert_eq!(details, "Odd number of digits");
        }
        _ => panic!("half a byte was read"),
    }
    let error = ArgParser::parse("\"0xzz\"").unwrap_err().to_string();
    assert_eq!(
        error,
        format!("Invalid hex bytes at $: {}", hex::decode("zz").unwrap_err())
    );
    assert_eq!(error, "Invalid hex bytes at $: Invalid character 'z' at position 0");
    let error = ArgParser::parse("\"0xab\u{e9}\"").unwrap_err().to_string();
    assert_eq!(
        error,
        format!("Invalid hex bytes at $: {}", hex::decode("ab\u{e9}").unwrap_err())
    );
    let refusals: Vec<(&str, &str)> = vec![
        ("0g", "Invalid character 'g' at position 1"),
        ("abc\"", "Invalid character '\"' at position 3"),
        ("12 4", "Invalid character ' ' at position 2"),
        ("~~", "Invalid character '~' at position 0"),
    ];
    for (digits, message) in refusals {
        let json = serde_json::Value::from(format!("0x{}", digits)).to_string();
        match ArgParser::parse(&json) {
            Err(ParserError::InvalidHex { details, .. }) => assert_eq!(details, message),
            _ => panic!("{} was read", digits),
        }
    }
}

#[test]
fn only_sound_addresses_are_addresses() {
    let account = "GAAAAAAAAAAAAAAAAAAAAAAAAAAAAAAAAAAAAAAAAAAAAAAAAAAAGO6V";
    let mut expected = [0u8; 32];
    expected[31] = 3;
    match ArgParser::parse_address(account).unwrap() {
        ScAddress::Account(key) => assert_eq!(key, expected),
        _ => panic!("no account"),
    }
    // With a wrong checksum it is a text.
    let broken = "GAAAAAAAAAAAAAAAAAAAAAAAAAAAAAAAAAAAAAAAAAAAAAAAAAAAGO6W";
    assert_eq!(ArgParser::parse_address(broken).unwrap_err(), "the strkey is invalid");
    match ArgParser::parse(&format!("\"{}\"", broken)).unwrap() {
        ScVal::String(text) => assert_eq!(text.0, broken.as_bytes().to_vec()),
        _ => panic!("no text"),
    }
    // A key of another kind has no address.
    assert_eq!(address_of_key(Strkey::Other).unwrap_err(), "Unsupported address type");
    // A text that only begins like one is a text.
    assert!(matches!(ArgParser::parse("\"Go\"").unwrap(), ScVal::String(_)));
}

#[test]
fn a_key_is_taken_over_into_its_address() {
    let key = [7u8; 32];
    let written = stellar_strkey::Strkey::Contract(stellar_strkey::Contract(key)).to_string();
    match ArgParser::parse(&format!("\"{}\"", written)).unwrap() {
        ScVal::Address(ScAddress::Contract(hash)) => assert_eq!(hash, key),
        _ => panic!("no contract"),
    }
    match address_of_key(Strkey::PublicKeyEd25519(key)).unwrap() {
        ScAddress::Account(held) => assert_eq!(held, key),
        _ => panic!("no account"),
    }
}

#[test]
fn texts_keep_their_bytes() {
    match ArgParser::parse("\"h\\u00e9\\n\"").unwrap() {
        ScVal::String(text) => assert_eq!(text.0, "h\u{e9}\n".as_bytes().to_vec()),
        _ => panic!("no text"),
    }
    match ArgParser::parse("\"\"").unwrap() {
        ScVal::String(text) => assert!(text.0.is_empty()),
        _ => panic!("no text"),
    }
}

#[test]
fn lists_keep_their_order() {
    match ArgParser::parse("[1, \"a\", null, []]").unwrap() {
        ScVal::Vec(Some(items)) => {
            assert_eq!(items.0.len(), 4);
            assert!(matches!(items.0[0], ScVal::I64(1)));
            assert!(matches!(items.0[1], ScVal::String(_)));
            assert!(matches!(items.0[2], ScVal::Void));
            match &items.0[3] {
                ScVal::Vec(Some(inner)) => assert!(inner.0.is_empty()),
                _ => panic!("no list"),
            }
        }
        _ => panic!("no list"),
    }
}

#[test]
fn values_can_be_parsed_below_a_path() {
    let value = read_json("[[true, 0.5]]").unwrap();
    let error = ArgParser::parse_value(&value, "$.args").unwrap_err().to_string();
    assert_eq!(error, "Invalid JSON type at $.args[0][1]: expected integer, found number 0.5");
}

#[test]
fn the_first_fault_is_reported() {
    let error = ArgParser::parse("[1, 2.5, \"0xq\"]").unwrap_err().to_string();
    assert!(error.contains("at $[1]:"));
}

#[test]
fn documents_are_read_as_trees() {
    match read_json("{\"n\": -3, \"t\": [false]}").unwrap() {
        Json::Object(members) => {
            assert_eq!(members.len(), 2);
            assert_eq!(members[0].key, "n");
            match &members[0].value {
                Json::Number(number) => {
                    assert_eq!(number.int, Some(-3));
                    assert_eq!(number.uint, None);
                    assert_eq!(number.text, "-3");
                }
                _ => panic!("no number"),
            }
            assert!(matches!(members[1].value.clone(), Json::Array(_)));
        }
        _ => panic!("no object"),
    }
    assert_eq!(
        read_json("").unwrap_err(),
        serde_json::from_str::<serde_json::Value>("").unwrap_err().to_string()
    );
}
